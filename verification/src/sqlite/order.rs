//! A stable sort of tagged options by their `u8` key: the options with key
//! 0 in the order given, then those with key 1, and so on.

use vstd::prelude::*;

verus! {

/// The positions in `keys` that hold `k`, in increasing order.
pub open spec fn indices_with_key(keys: Seq<u8>, k: u8) -> Seq<int>
    decreases keys.len(),
{
    if keys.len() == 0 {
        Seq::empty()
    } else {
        let r = indices_with_key(keys.drop_last(), k);
        if keys.last() == k {
            r.push(keys.len() - 1)
        } else {
            r
        }
    }
}

/// The positions holding the keys `0..n`, grouped by key in increasing key
/// order, each group in increasing position order.
pub open spec fn key_order_upto(keys: Seq<u8>, n: int) -> Seq<int>
    decreases n,
{
    if n <= 0 {
        Seq::empty()
    } else {
        key_order_upto(keys, n - 1) + indices_with_key(keys, (n - 1) as u8)
    }
}

/// The positions of `keys` stably sorted by key.
pub open spec fn key_order(keys: Seq<u8>) -> Seq<int> {
    key_order_upto(keys, 256)
}

/// The keys of tagged items.
pub open spec fn keys_of<X>(s: Seq<(u8, X)>) -> Seq<u8> {
    s.map_values(|p: (u8, X)| p.0)
}

/// The items, without their keys, stably sorted by key.
pub open spec fn sorted_by_key<X>(s: Seq<(u8, X)>) -> Seq<X> {
    key_order(keys_of(s)).map_values(|i: int| s[i].1)
}

/// The positions of `v` stably sorted by the items' keys.
pub fn key_order_of<X>(v: &Vec<(u8, X)>) -> (r: Vec<usize>)
    ensures
        r@.map_values(|i: usize| i as int) == key_order(keys_of(v@)),
        forall|j: int| 0 <= j < r@.len() ==> #[trigger] r@[j] < v@.len(),
{
    let ghost keys = keys_of(v@);
    let mut r: Vec<usize> = Vec::new();
    let mut k: u16 = 0;
    while k < 256
        invariant
            k <= 256,
            keys == keys_of(v@),
            r@.map_values(|i: usize| i as int) == key_order_upto(keys, k as int),
            forall|j: int| 0 <= j < r@.len() ==> #[trigger] r@[j] < v@.len(),
        decreases 256 - k,
    {
        let ghost before = r@.map_values(|i: usize| i as int);
        let mut i: usize = 0;
        while i < v.len()
            invariant
                k < 256,
                i <= v.len(),
                keys == keys_of(v@),
                r@.map_values(|i: usize| i as int) == before + indices_with_key(
                    keys.take(i as int),
                    k as u8,
                ),
                forall|j: int| 0 <= j < r@.len() ==> #[trigger] r@[j] < v@.len(),
            decreases v.len() - i,
        {
            let ghost t = keys.take(i as int + 1);
            assert(t.drop_last() =~= keys.take(i as int));
            assert(t.last() == v@[i as int].0);
            let ghost old_r = r@;
            if v[i].0 == k as u8 {
                r.push(i);
                assert(r@.map_values(|i: usize| i as int) =~= old_r.map_values(|i: usize| i as int).push(
                    i as int,
                ));
            }
            i = i + 1;
        }
        assert(keys.take(v.len() as int) =~= keys);
        assert(key_order_upto(keys, k as int + 1) == key_order_upto(keys, k as int)
            + indices_with_key(keys, k as u8));
        k = k + 1;
    }
    r
}

} // verus!
