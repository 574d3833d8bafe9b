//! Text helpers: decimal rendering of integers, joining strings with a
//! separator, and the two number grammars that column defaults are checked
//! against (`i64` and `f64` literals as the standard library parses them).

use vstd::prelude::*;
use vstd::string::StrSliceExecFns;
use vstd::string::StringExecFns;

verus! {

/// Appends one character to a string.
///
/// Calls `String::push`, which the standard library documents as appending
/// the given `char` to the end of the string; nothing else changes.
#[verifier::external_body]
pub(crate) fn push_char(s: &mut String, c: char)
    ensures
        final(s)@ == old(s)@.push(c),
{
    s.push(c);
}

/// The characters of a string slice, in order.
pub fn chars_of(s: &str) -> (v: Vec<char>)
    ensures
        v@ == s@,
{
    let n = s.unicode_len();
    let mut v: Vec<char> = Vec::new();
    let mut i: usize = 0;
    while i < n
        invariant
            n == s@.len(),
            i <= n,
            v@ == s@.take(i as int),
        decreases n - i,
    {
        let c = s.get_char(i);
        v.push(c);
        assert(s@.take(i as int + 1) =~= s@.take(i as int).push(c));
        i = i + 1;
    }
    assert(s@.take(n as int) =~= s@);
    v
}

// ---------------------------------------------------------------------------
// Decimal digits
// ---------------------------------------------------------------------------

/// The character of a decimal digit `0..=9`.
pub open spec fn digit_char(d: int) -> char {
    if d == 0 {
        '0'
    } else if d == 1 {
        '1'
    } else if d == 2 {
        '2'
    } else if d == 3 {
        '3'
    } else if d == 4 {
        '4'
    } else if d == 5 {
        '5'
    } else if d == 6 {
        '6'
    } else if d == 7 {
        '7'
    } else if d == 8 {
        '8'
    } else {
        '9'
    }
}

/// Whether a character is an ASCII decimal digit.
pub open spec fn is_digit(c: char) -> bool {
    '0' <= c && c <= '9'
}

/// The value of a decimal digit character.
pub open spec fn digit_value(c: char) -> int {
    c as int - '0' as int
}

/// Every character of `s` is a decimal digit.
pub open spec fn all_digits(s: Seq<char>) -> bool {
    forall|i: int| 0 <= i < s.len() ==> #[trigger] is_digit(s[i])
}

/// The usual decimal notation of a natural number, without leading zeros.
pub open spec fn nat_decimal(n: nat) -> Seq<char>
    decreases n,
{
    if n < 10 {
        seq![digit_char(n as int)]
    } else {
        nat_decimal(n / 10).push(digit_char((n % 10) as int))
    }
}

/// The decimal notation of an integer, with a leading `-` when negative.
pub open spec fn int_decimal(i: int) -> Seq<char> {
    if i < 0 {
        seq!['-'] + nat_decimal((-i) as nat)
    } else {
        nat_decimal(i as nat)
    }
}

fn digit(d: u64) -> (c: char)
    requires
        d < 10,
    ensures
        c == digit_char(d as int),
{
    if d == 0 {
        '0'
    } else if d == 1 {
        '1'
    } else if d == 2 {
        '2'
    } else if d == 3 {
        '3'
    } else if d == 4 {
        '4'
    } else if d == 5 {
        '5'
    } else if d == 6 {
        '6'
    } else if d == 7 {
        '7'
    } else if d == 8 {
        '8'
    } else {
        '9'
    }
}

/// Appends the decimal notation of `n` to `s`.
pub fn append_decimal_u64(s: &mut String, n: u64)
    ensures
        final(s)@ == old(s)@ + nat_decimal(n as nat),
    decreases n,
{
    if n < 10 {
        push_char(s, digit(n));
        assert(old(s)@ + nat_decimal(n as nat) =~= old(s)@.push(digit_char(n as int)));
    } else {
        append_decimal_u64(s, n / 10);
        let ghost mid = s@;
        push_char(s, digit(n % 10));
        assert(s@ =~= old(s)@ + nat_decimal((n / 10) as nat).push(digit_char((n % 10) as int)));
    }
}

/// Appends the decimal notation of `i` (with `-` when negative) to `s`.
pub fn append_decimal_i64(s: &mut String, i: i64)
    ensures
        final(s)@ == old(s)@ + int_decimal(i as int),
{
    if i < 0 {
        push_char(s, '-');
        let m: u64 = (0i128 - i as i128) as u64;
        append_decimal_u64(s, m);
        assert(s@ =~= old(s)@ + (seq!['-'] + nat_decimal(m as nat)));
    } else {
        append_decimal_u64(s, i as u64);
    }
}

/// The decimal notation of an `i64`, as `i64::to_string` gives it.
pub fn i64_to_decimal(i: i64) -> (r: String)
    ensures
        r@ == int_decimal(i as int),
{
    let mut s = String::new();
    append_decimal_i64(&mut s, i);
    assert(s@ =~= int_decimal(i as int));
    s
}

/// The decimal notation of a `u64`, as `u64::to_string` gives it.
pub fn u64_to_decimal(n: u64) -> (r: String)
    ensures
        r@ == nat_decimal(n as nat),
{
    let mut s = String::new();
    append_decimal_u64(&mut s, n);
    assert(s@ =~= nat_decimal(n as nat));
    s
}

// ---------------------------------------------------------------------------
// Joining
// ---------------------------------------------------------------------------

/// The parts, in order, with `sep` between each two neighbours.
pub open spec fn join(parts: Seq<Seq<char>>, sep: Seq<char>) -> Seq<char>
    decreases parts.len(),
{
    if parts.len() == 0 {
        Seq::empty()
    } else if parts.len() == 1 {
        parts[0]
    } else {
        join(parts.drop_last(), sep) + sep + parts.last()
    }
}

/// The character sequences of a sequence of strings.
pub open spec fn strings_view(s: Seq<String>) -> Seq<Seq<char>> {
    s.map_values(|x: String| x@)
}

/// Joins the strings with `sep` between neighbours.
pub fn join_strings(parts: &Vec<String>, sep: &str) -> (r: String)
    ensures
        r@ == join(strings_view(parts@), sep@),
{
    let ghost v = strings_view(parts@);
    let mut r = String::new();
    let mut i: usize = 0;
    while i < parts.len()
        invariant
            i <= parts.len(),
            v == strings_view(parts@),
            r@ == join(v.take(i as int), sep@),
        decreases parts.len() - i,
    {
        if i > 0 {
            r.append(sep);
        }
        r.append(parts[i].as_str());
        proof {
            assert(v.take(i as int + 1).drop_last() =~= v.take(i as int));
            assert(v.take(i as int + 1).last() == parts@[i as int]@);
            if i == 0 {
                assert(join(v.take(1), sep@) == v.take(1)[0]);
                assert(r@ =~= parts@[0]@);
            } else {
                assert(r@ =~= join(v.take(i as int), sep@) + sep@ + parts@[i as int]@);
            }
        }
        i = i + 1;
    }
    assert(v.take(parts.len() as int) =~= v);
    r
}

// ---------------------------------------------------------------------------
// Integer literals
// ---------------------------------------------------------------------------

/// The value of a run of decimal digits (most significant first).
pub open spec fn digits_value(s: Seq<char>) -> int
    decreases s.len(),
{
    if s.len() == 0 {
        0
    } else {
        digits_value(s.drop_last()) * 10 + digit_value(s.last())
    }
}

/// Whether the text begins with `+` or `-`.
pub open spec fn has_sign(s: Seq<char>) -> bool {
    s.len() > 0 && (s[0] == '-' || s[0] == '+')
}

/// The text after an optional leading sign.
pub open spec fn unsigned_part(s: Seq<char>) -> Seq<char> {
    if has_sign(s) {
        s.drop_first()
    } else {
        s
    }
}

/// The value that a signed digit run denotes.
pub open spec fn signed_value(s: Seq<char>) -> int {
    if s.len() > 0 && s[0] == '-' {
        -digits_value(s.drop_first())
    } else {
        digits_value(unsigned_part(s))
    }
}

/// What `str::parse::<i64>` gives: an optional `+` or `-`, then at least one
/// decimal digit and nothing else, denoting a value in the range of `i64`.
pub open spec fn parse_i64_spec(s: Seq<char>) -> Option<i64> {
    let body = unsigned_part(s);
    if body.len() > 0 && all_digits(body) && i64::MIN <= signed_value(s) <= i64::MAX {
        Some(signed_value(s) as i64)
    } else {
        None
    }
}

proof fn lemma_digits_value_nonneg(s: Seq<char>)
    requires
        all_digits(s),
    ensures
        digits_value(s) >= 0,
    decreases s.len(),
{
    if s.len() > 0 {
        assert(is_digit(s[s.len() - 1]));
        assert(all_digits(s.drop_last())) by {
            assert forall|i: int| 0 <= i < s.drop_last().len() implies is_digit(
                #[trigger] s.drop_last()[i],
            ) by {
                assert(is_digit(s[i]));
            }
        }
        lemma_digits_value_nonneg(s.drop_last());
    }
}

proof fn lemma_digits_value_prefix(s: Seq<char>, k: int)
    requires
        all_digits(s),
        0 <= k <= s.len(),
    ensures
        digits_value(s.take(k)) <= digits_value(s),
    decreases s.len(),
{
    if k < s.len() {
        let d = s.drop_last();
        assert(all_digits(d)) by {
            assert forall|i: int| 0 <= i < d.len() implies is_digit(#[trigger] d[i]) by {
                assert(is_digit(s[i]));
            }
        }
        lemma_digits_value_prefix(d, k);
        assert(d.take(k) =~= s.take(k));
        lemma_digits_value_nonneg(d);
        assert(is_digit(s[s.len() - 1]));
    } else {
        assert(s.take(k) =~= s);
    }
}

/// Parses a decimal `i64` as `str::parse::<i64>` does.
pub fn parse_i64(text: &str) -> (r: Option<i64>)
    ensures
        r == parse_i64_spec(text@),
{
    let cs = chars_of(text);
    let ghost s = text@;
    let n = cs.len();
    let mut start: usize = 0;
    let mut negative = false;
    if n > 0 && (cs[0] == '-' || cs[0] == '+') {
        start = 1;
        negative = cs[0] == '-';
    }
    let ghost body = unsigned_part(s);
    assert(body =~= s.skip(start as int));
    assert(s.len() > 0 && s[0] == '-' ==> s.drop_first() =~= body);
    if start == n {
        return None;
    }
    let limit: u128 = 0x8000_0000_0000_0000;
    let mut acc: u128 = 0;
    let mut i: usize = start;
    while i < n
        invariant
            cs@ == s,
            s == text@,
            n == s.len(),
            start <= i <= n,
            body == s.skip(start as int),
            body == unsigned_part(s),
            s.len() > 0 && s[0] == '-' ==> s.drop_first() == body,
            all_digits(body.take(i - start)),
            acc == digits_value(body.take(i - start)),
            acc <= limit,
            limit == 0x8000_0000_0000_0000,
        decreases n - i,
    {
        let c = cs[i];
        assert(body[i - start] == c);
        if !('0' <= c && c <= '9') {
            assert(!is_digit(body[i - start]));
            assert(!all_digits(body));
            return None;
        }
        let d: u128 = if c == '0' {
            0
        } else if c == '1' {
            1
        } else if c == '2' {
            2
        } else if c == '3' {
            3
        } else if c == '4' {
            4
        } else if c == '5' {
            5
        } else if c == '6' {
            6
        } else if c == '7' {
            7
        } else if c == '8' {
            8
        } else {
            9
        };
        assert(d == digit_value(c));
        let ghost t = body.take(i - start + 1);
        assert(t.drop_last() =~= body.take(i - start));
        assert(t.last() == c);
        acc = acc * 10 + d;
        assert(all_digits(t)) by {
            assert forall|j: int| 0 <= j < t.len() implies is_digit(#[trigger] t[j]) by {
                if j < t.len() - 1 {
                    assert(t[j] == body.take(i - start)[j]);
                }
            }
        }
        if acc > limit {
            proof {
                if all_digits(body) {
                    lemma_digits_value_prefix(body, i - start + 1);
                }
            }
            return None;
        }
        i = i + 1;
    }
    assert(body.take(n - start) =~= body);
    assert(s.len() > 0 && s[0] == '-' ==> s.drop_first() =~= body);
    if negative {
        Some((0i128 - acc as i128) as i64)
    } else {
        if acc > 0x7fff_ffff_ffff_ffff {
            None
        } else {
            Some(acc as i64)
        }
    }
}

// ---------------------------------------------------------------------------
// Float literals
// ---------------------------------------------------------------------------

/// ASCII lower-casing of one character.
pub open spec fn lower(c: char) -> char {
    if 'A' <= c && c <= 'Z' {
        ((c as int) + 32) as char
    } else {
        c
    }
}

/// ASCII lower-casing of a text.
pub open spec fn lowercase(s: Seq<char>) -> Seq<char> {
    s.map_values(|c: char| lower(c))
}

/// `e` or `E`, which starts the exponent of a float literal.
pub open spec fn is_exp_marker(c: char) -> bool {
    c == 'e' || c == 'E'
}

/// `Digit+ | Digit+ '.' Digit* | Digit* '.' Digit+`: digits with at most one
/// point and at least one digit.
pub open spec fn is_mantissa(m: Seq<char>) -> bool {
    &&& forall|i: int| 0 <= i < m.len() ==> #[trigger] is_digit(m[i]) || m[i] == '.'
    &&& forall|i: int, j: int| 0 <= i < m.len() && 0 <= j < m.len() && m[i] == '.' && m[j] == '.' ==> i == j
    &&& exists|i: int| 0 <= i < m.len() && #[trigger] is_digit(m[i])
}

/// `Sign? Digit+`, what follows the exponent marker.
pub open spec fn is_exponent_digits(x: Seq<char>) -> bool {
    unsigned_part(x).len() > 0 && all_digits(unsigned_part(x))
}

/// `Number ::= Mantissa Exp?` with `Exp ::= ('e' | 'E') Sign? Digit+`.
pub open spec fn is_decimal_number(b: Seq<char>) -> bool {
    ||| is_mantissa(b)
    ||| exists|k: int|
        0 <= k < b.len() && #[trigger] is_exp_marker(b[k]) && is_mantissa(b.take(k))
            && is_exponent_digits(b.skip(k + 1))
}

/// What `str::parse::<f64>` accepts: an optional sign, then `inf`,
/// `infinity`, `nan` (in any letter case) or a decimal number.
pub open spec fn is_float_literal(s: Seq<char>) -> bool {
    let b = unsigned_part(s);
    ||| lowercase(b) == seq!['i', 'n', 'f']
    ||| lowercase(b) == seq!['i', 'n', 'f', 'i', 'n', 'i', 't', 'y']
    ||| lowercase(b) == seq!['n', 'a', 'n']
    ||| is_decimal_number(b)
}

fn lower_char(c: char) -> (r: char)
    ensures
        r == lower(c),
{
    if c == 'A' { 'a' }
    else if c == 'B' { 'b' }
    else if c == 'C' { 'c' }
    else if c == 'D' { 'd' }
    else if c == 'E' { 'e' }
    else if c == 'F' { 'f' }
    else if c == 'G' { 'g' }
    else if c == 'H' { 'h' }
    else if c == 'I' { 'i' }
    else if c == 'J' { 'j' }
    else if c == 'K' { 'k' }
    else if c == 'L' { 'l' }
    else if c == 'M' { 'm' }
    else if c == 'N' { 'n' }
    else if c == 'O' { 'o' }
    else if c == 'P' { 'p' }
    else if c == 'Q' { 'q' }
    else if c == 'R' { 'r' }
    else if c == 'S' { 's' }
    else if c == 'T' { 't' }
    else if c == 'U' { 'u' }
    else if c == 'V' { 'v' }
    else if c == 'W' { 'w' }
    else if c == 'X' { 'x' }
    else if c == 'Y' { 'y' }
    else if c == 'Z' { 'z' }
    else { c }
}

/// Whether `cs[from..to]`, lower-cased, equals `word`.
fn lower_equals(cs: &Vec<char>, from: usize, to: usize, word: &Vec<char>) -> (r: bool)
    requires
        from <= to <= cs.len(),
    ensures
        r == (lowercase(cs@.subrange(from as int, to as int)) == word@),
{
    let ghost sub = cs@.subrange(from as int, to as int);
    if to - from != word.len() {
        assert(lowercase(sub).len() != word@.len());
        return false;
    }
    let mut i: usize = 0;
    while i < word.len()
        invariant
            from <= to <= cs.len(),
            to - from == word.len(),
            sub == cs@.subrange(from as int, to as int),
            i <= word.len(),
            forall|j: int| 0 <= j < i ==> lower(#[trigger] sub[j]) == word@[j],
        decreases word.len() - i,
    {
        if lower_char(cs[from + i]) != word[i] {
            assert(lowercase(sub)[i as int] != word@[i as int]);
            return false;
        }
        i = i + 1;
    }
    assert(lowercase(sub) =~= word@);
    true
}

/// Whether `cs[from..to]` is a mantissa.
fn check_mantissa(cs: &Vec<char>, from: usize, to: usize) -> (r: bool)
    requires
        from <= to <= cs.len(),
    ensures
        r == is_mantissa(cs@.subrange(from as int, to as int)),
{
    let ghost m = cs@.subrange(from as int, to as int);
    let mut dots: usize = 0;
    let mut dot_at: usize = 0;
    let mut seen_digit = false;
    let mut i: usize = from;
    while i < to
        invariant
            from <= i <= to <= cs.len(),
            m == cs@.subrange(from as int, to as int),
            forall|j: int| 0 <= j < i - from ==> #[trigger] is_digit(m[j]) || m[j] == '.',
            dots <= 1,
            dots == 0 ==> forall|j: int| 0 <= j < i - from ==> m[j] != '.',
            dots == 1 ==> from <= dot_at < i && m[dot_at - from] == '.',
            dots == 1 ==> forall|j: int| 0 <= j < i - from && m[j] == '.' ==> j == dot_at - from,
            seen_digit <==> exists|j: int| 0 <= j < i - from && #[trigger] is_digit(m[j]),
        decreases to - i,
    {
        let c = cs[i];
        assert(m[i - from] == c);
        if c == '.' {
            if dots == 1 {
                assert(m[dot_at - from] == '.' && m[i - from] == '.');
                return false;
            }
            dots = 1;
            dot_at = i;
            assert(!is_digit(m[i - from]));
        } else if '0' <= c && c <= '9' {
            seen_digit = true;
            assert(is_digit(m[i - from]));
        } else {
            assert(!(is_digit(m[i - from]) || m[i - from] == '.'));
            return false;
        }
        i = i + 1;
    }
    seen_digit
}

/// Whether `cs[from..to]` is `Sign? Digit+`.
fn check_exponent(cs: &Vec<char>, from: usize, to: usize) -> (r: bool)
    requires
        from <= to <= cs.len(),
    ensures
        r == is_exponent_digits(cs@.subrange(from as int, to as int)),
{
    let ghost x = cs@.subrange(from as int, to as int);
    let mut i = from;
    if from < to && (cs[from] == '-' || cs[from] == '+') {
        i = from + 1;
    }
    let ghost u = unsigned_part(x);
    assert(u =~= cs@.subrange(i as int, to as int));
    if i == to {
        return false;
    }
    let start = i;
    while i < to
        invariant
            start <= i <= to <= cs.len(),
            u == cs@.subrange(start as int, to as int),
            u == unsigned_part(cs@.subrange(from as int, to as int)),
            forall|j: int| 0 <= j < i - start ==> #[trigger] is_digit(u[j]),
        decreases to - i,
    {
        assert(u[i - start] == cs@[i as int]);
        if !('0' <= cs[i] && cs[i] <= '9') {
            assert(!is_digit(u[i - start]));
            return false;
        }
        i = i + 1;
    }
    true
}

/// Whether `str::parse::<f64>` accepts the text.
pub fn is_valid_float(text: &str) -> (r: bool)
    ensures
        r == is_float_literal(text@),
{
    let cs = chars_of(text);
    let ghost s = text@;
    let n = cs.len();
    let mut start: usize = 0;
    if n > 0 && (cs[0] == '-' || cs[0] == '+') {
        start = 1;
    }
    let ghost b = unsigned_part(s);
    assert(b =~= cs@.subrange(start as int, n as int));
    let inf = vec!['i', 'n', 'f'];
    let infinity = vec!['i', 'n', 'f', 'i', 'n', 'i', 't', 'y'];
    let nan = vec!['n', 'a', 'n'];
    assert(inf@ =~= seq!['i', 'n', 'f']);
    assert(infinity@ =~= seq!['i', 'n', 'f', 'i', 'n', 'i', 't', 'y']);
    assert(nan@ =~= seq!['n', 'a', 'n']);
    if lower_equals(&cs, start, n, &inf) || lower_equals(&cs, start, n, &infinity)
        || lower_equals(&cs, start, n, &nan) {
        return true;
    }
    // find the first exponent marker
    let mut k: usize = start;
    while k < n && !(cs[k] == 'e' || cs[k] == 'E')
        invariant
            start <= k <= n,
            n == cs.len(),
            b == cs@.subrange(start as int, n as int),
            forall|j: int| 0 <= j < k - start ==> !is_exp_marker(#[trigger] b[j]),
        decreases n - k,
    {
        assert(b[k - start] == cs@[k as int]);
        k = k + 1;
    }
    if k == n {
        let r = check_mantissa(&cs, start, n);
        proof {
            if !r {
                assert forall|j: int|
                    0 <= j < b.len() && #[trigger] is_exp_marker(b[j]) implies !(is_mantissa(
                    b.take(j),
                ) && is_exponent_digits(b.skip(j + 1))) by {
                    assert(!is_exp_marker(b[j]));
                }
            }
        }
        r
    } else {
        let kb: usize = k - start;
        assert(b[kb as int] == cs@[k as int]);
        assert(is_exp_marker(b[kb as int]));
        assert(cs@.subrange(start as int, k as int) =~= b.take(kb as int));
        assert(cs@.subrange(k as int + 1, n as int) =~= b.skip(kb as int + 1));
        let m = check_mantissa(&cs, start, k);
        let e = check_exponent(&cs, k + 1, n);
        proof {
            // a mantissa never holds an exponent marker
            assert(!is_mantissa(b)) by {
                if is_mantissa(b) {
                    assert(is_digit(b[kb as int]) || b[kb as int] == '.');
                }
            }
            if !(m && e) {
                assert forall|j: int|
                    0 <= j < b.len() && #[trigger] is_exp_marker(b[j]) implies !(is_mantissa(
                    b.take(j),
                ) && is_exponent_digits(b.skip(j + 1))) by {
                    if j > kb {
                        let t = b.take(j);
                        assert(t[kb as int] == b[kb as int]);
                        if is_mantissa(t) {
                            assert(is_digit(t[kb as int]) || t[kb as int] == '.');
                        }
                    } else if j < kb {
                        assert(!is_exp_marker(b[j]));
                    }
                }
            }
        }
        m && e
    }
}

} // verus!
