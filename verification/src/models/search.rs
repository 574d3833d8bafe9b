//! Search queries: constraints on columns, what to select, and options
//! (order and limit) applied after the constraints.

use vstd::prelude::*;
use crate::models::column::{ColumnValue, ColumnValueView, insert_once};
use crate::text::strings_view;

verus! {

/// A comparison between a column and a value.
#[derive(Debug, Clone, Copy, PartialEq, Eq, Structural)]
pub enum SearchOp {
    EQ,
    NEQ,
    GT,
    GTEQ,
    LT,
    LTEQ,
}

/// The SQL text of a comparison.
pub open spec fn op_text(op: SearchOp) -> Seq<char> {
    match op {
        SearchOp::EQ => "="@,
        SearchOp::NEQ => "!="@,
        SearchOp::GT => ">"@,
        SearchOp::GTEQ => ">="@,
        SearchOp::LT => "<"@,
        SearchOp::LTEQ => "<="@,
    }
}

/// The comparison written `s`, if `s` is one of `=`, `!=`, `<`, `<=`, `>`,
/// `>=`.
pub open spec fn op_from_text(s: Seq<char>) -> Option<SearchOp> {
    if s == "="@ {
        Some(SearchOp::EQ)
    } else if s == "!="@ {
        Some(SearchOp::NEQ)
    } else if s == "<"@ {
        Some(SearchOp::LT)
    } else if s == "<="@ {
        Some(SearchOp::LTEQ)
    } else if s == ">"@ {
        Some(SearchOp::GT)
    } else if s == ">="@ {
        Some(SearchOp::GTEQ)
    } else {
        None
    }
}

fn text_is(a: &str, b: &str) -> (r: bool)
    ensures
        r == (a@ == b@),
{
    a.to_string() == b.to_string()
}

impl SearchOp {
    /// The SQL text of the comparison.
    pub fn to_string(&self) -> (r: String)
        ensures
            r@ == op_text(*self),
    {
        match self {
            SearchOp::EQ => "=",
            SearchOp::NEQ => "!=",
            SearchOp::GT => ">",
            SearchOp::GTEQ => ">=",
            SearchOp::LT => "<",
            SearchOp::LTEQ => "<=",
        }.to_string()
    }

    /// The comparison written `input`; `None` for any other text.
    pub fn parse(input: &str) -> (r: Option<SearchOp>)
        ensures
            r == op_from_text(input@),
    {
        if text_is(input, "=") {
            Some(SearchOp::EQ)
        } else if text_is(input, "!=") {
            Some(SearchOp::NEQ)
        } else if text_is(input, "<") {
            Some(SearchOp::LT)
        } else if text_is(input, "<=") {
            Some(SearchOp::LTEQ)
        } else if text_is(input, ">") {
            Some(SearchOp::GT)
        } else if text_is(input, ">=") {
            Some(SearchOp::GTEQ)
        } else {
            None
        }
    }
}

/// A comparison read from text, if the text was one.
pub struct MaybeSearchOp(pub Option<SearchOp>);

impl MaybeSearchOp {
    /// The comparison read from `input` (see [`SearchOp::parse`]).
    pub fn from_text(input: &str) -> (r: Self)
        ensures
            r.0 == op_from_text(input@),
    {
        MaybeSearchOp(SearchOp::parse(input))
    }

    /// The comparison, if the text was one.
    pub fn get(self) -> (r: Option<SearchOp>)
        ensures
            r == self.0,
    {
        self.0
    }
}

/// A constraint `column operator value` on the rows searched.
#[derive(Debug, Clone)]
pub struct SearchConstraint {
    pub column: String,
    pub operator: SearchOp,
    pub value: ColumnValue,
}

/// The model of a [`SearchConstraint`].
pub struct ConstraintView {
    pub column: Seq<char>,
    pub operator: SearchOp,
    pub value: ColumnValueView,
}

impl View for SearchConstraint {
    type V = ConstraintView;

    open spec fn view(&self) -> ConstraintView {
        ConstraintView { column: self.column@, operator: self.operator, value: self.value@ }
    }
}

impl SearchConstraint {
    /// The constraint `column operator value`.
    pub fn new(column: &str, operator: SearchOp, value: ColumnValue) -> (r: Self)
        ensures
            r@.column == column@,
            r@.operator == operator,
            r@.value == value@,
    {
        SearchConstraint { operator, column: column.to_string(), value }
    }

    /// The constraint `column = value`.
    pub fn equals(column: &str, value: ColumnValue) -> (r: Self)
        ensures
            r@.column == column@,
            r@.operator == SearchOp::EQ,
            r@.value == value@,
    {
        Self::new(column, SearchOp::EQ, value)
    }
}

/// The direction of an ordering.
#[derive(Debug, Clone, Copy, PartialEq, Eq, Structural, Hash)]
pub enum SearchOrderByOptions {
    Asc,
    Desc,
}

/// An option applied after the constraints.
#[derive(Debug, Clone)]
pub enum SearchOptions {
    Limit(i64),
    OrderBy(Vec<(String, Option<SearchOrderByOptions>)>),
}

/// The model of a [`SearchOptions`].
pub enum PostOptionView {
    Limit(i64),
    OrderBy(Seq<(Seq<char>, Option<SearchOrderByOptions>)>),
}

/// The models of the columns of an ordering.
pub open spec fn order_view(s: Seq<(String, Option<SearchOrderByOptions>)>) -> Seq<
    (Seq<char>, Option<SearchOrderByOptions>),
> {
    s.map_values(|p: (String, Option<SearchOrderByOptions>)| (p.0@, p.1))
}

impl View for SearchOptions {
    type V = PostOptionView;

    open spec fn view(&self) -> PostOptionView {
        match self {
            SearchOptions::Limit(l) => PostOptionView::Limit(*l),
            SearchOptions::OrderBy(v) => PostOptionView::OrderBy(order_view(v@)),
        }
    }
}

/// What the search selects.
#[derive(Debug, Clone)]
pub enum SearchSelectOptions {
    Min,
    Max,
    Columns(Vec<String>),
}

/// The model of a [`SearchSelectOptions`].
pub enum SelectOptionView {
    Min,
    Max,
    Columns(Seq<Seq<char>>),
}

impl View for SearchSelectOptions {
    type V = SelectOptionView;

    open spec fn view(&self) -> SelectOptionView {
        match self {
            SearchSelectOptions::Min => SelectOptionView::Min,
            SearchSelectOptions::Max => SelectOptionView::Max,
            SearchSelectOptions::Columns(v) => SelectOptionView::Columns(strings_view(v@)),
        }
    }
}

/// A search: constraints (all must hold), options applied after them, and
/// what to select. Each option is a set member tagged with the key by which
/// it is ordered when the SQL is built: an ordering (0) comes before a limit
/// (10); selected columns (0) come before `MIN`/`MAX` (1).
#[derive(Debug, Clone)]
pub struct SearchQuery {
    pub constraints: Vec<SearchConstraint>,
    pub post_options: Vec<(u8, SearchOptions)>,
    pub select_options: Vec<(u8, SearchSelectOptions)>,
}

/// The model of a [`SearchQuery`].
pub struct QueryView {
    pub constraints: Seq<ConstraintView>,
    pub post_options: Seq<(u8, PostOptionView)>,
    pub select_options: Seq<(u8, SelectOptionView)>,
}

impl View for SearchQuery {
    type V = QueryView;

    open spec fn view(&self) -> QueryView {
        QueryView {
            constraints: self.constraints@.map_values(|c: SearchConstraint| c@),
            post_options: self.post_options@.map_values(|p: (u8, SearchOptions)| (p.0, p.1@)),
            select_options: self.select_options@.map_values(
                |p: (u8, SearchSelectOptions)| (p.0, p.1@),
            ),
        }
    }
}

impl QueryView {
    /// The option lists are sets: no option twice.
    pub open spec fn wf(self) -> bool {
        &&& self.post_options.no_duplicates()
        &&& self.select_options.no_duplicates()
    }
}

fn same_texts(a: &Vec<String>, b: &Vec<String>) -> (r: bool)
    ensures
        r == (strings_view(a@) == strings_view(b@)),
{
    if a.len() != b.len() {
        assert(strings_view(a@).len() != strings_view(b@).len());
        return false;
    }
    let mut i: usize = 0;
    while i < a.len()
        invariant
            a.len() == b.len(),
            i <= a.len(),
            forall|j: int| 0 <= j < i ==> strings_view(a@)[j] == strings_view(b@)[j],
        decreases a.len() - i,
    {
        if a[i] != b[i] {
            assert(strings_view(a@)[i as int] != strings_view(b@)[i as int]);
            return false;
        }
        i = i + 1;
    }
    assert(strings_view(a@) =~= strings_view(b@));
    true
}

fn same_direction(a: Option<SearchOrderByOptions>, b: Option<SearchOrderByOptions>) -> (r: bool)
    ensures
        r == (a == b),
{
    match (a, b) {
        (None, None) => true,
        (Some(x), Some(y)) => x == y,
        _ => false,
    }
}

fn same_ordering(
    a: &Vec<(String, Option<SearchOrderByOptions>)>,
    b: &Vec<(String, Option<SearchOrderByOptions>)>,
) -> (r: bool)
    ensures
        r == (order_view(a@) == order_view(b@)),
{
    if a.len() != b.len() {
        assert(order_view(a@).len() != order_view(b@).len());
        return false;
    }
    let mut i: usize = 0;
    while i < a.len()
        invariant
            a.len() == b.len(),
            i <= a.len(),
            forall|j: int| 0 <= j < i ==> order_view(a@)[j] == order_view(b@)[j],
        decreases a.len() - i,
    {
        if !(a[i].0 == b[i].0 && same_direction(a[i].1, b[i].1)) {
            assert(order_view(a@)[i as int] != order_view(b@)[i as int]);
            return false;
        }
        i = i + 1;
    }
    assert(order_view(a@) =~= order_view(b@));
    true
}

fn same_post_option(a: &(u8, SearchOptions), b: &(u8, SearchOptions)) -> (r: bool)
    ensures
        r == ((a.0, a.1@) == (b.0, b.1@)),
{
    if a.0 != b.0 {
        return false;
    }
    match (&a.1, &b.1) {
        (SearchOptions::Limit(x), SearchOptions::Limit(y)) => *x == *y,
        (SearchOptions::OrderBy(x), SearchOptions::OrderBy(y)) => same_ordering(x, y),
        _ => false,
    }
}

fn same_select_option(a: &(u8, SearchSelectOptions), b: &(u8, SearchSelectOptions)) -> (r: bool)
    ensures
        r == ((a.0, a.1@) == (b.0, b.1@)),
{
    if a.0 != b.0 {
        return false;
    }
    match (&a.1, &b.1) {
        (SearchSelectOptions::Min, SearchSelectOptions::Min) => true,
        (SearchSelectOptions::Max, SearchSelectOptions::Max) => true,
        (SearchSelectOptions::Columns(x), SearchSelectOptions::Columns(y)) => same_texts(x, y),
        _ => false,
    }
}

proof fn lemma_insert_once_no_duplicates<A>(s: Seq<A>, x: A)
    requires
        s.no_duplicates(),
    ensures
        insert_once(s, x).no_duplicates(),
{
    let t = insert_once(s, x);
    if !s.contains(x) {
        assert forall|i: int, j: int| 0 <= i < t.len() && 0 <= j < t.len() && i != j implies t[i]
            != t[j] by {
            if i == t.len() - 1 {
                assert(s[j] == t[j]);
            } else if j == t.len() - 1 {
                assert(s[i] == t[i]);
            }
        }
    }
}

fn insert_post_option(v: &mut Vec<(u8, SearchOptions)>, x: (u8, SearchOptions))
    ensures
        final(v)@.map_values(|p: (u8, SearchOptions)| (p.0, p.1@)) == insert_once(
            old(v)@.map_values(|p: (u8, SearchOptions)| (p.0, p.1@)),
            (x.0, x.1@),
        ),
{
    let ghost before = v@.map_values(|p: (u8, SearchOptions)| (p.0, p.1@));
    let mut i: usize = 0;
    while i < v.len()
        invariant
            before == v@.map_values(|p: (u8, SearchOptions)| (p.0, p.1@)),
            i <= v.len(),
            forall|j: int| 0 <= j < i ==> before[j] != (x.0, x.1@),
        decreases v.len() - i,
    {
        if same_post_option(&v[i], &x) {
            assert(before[i as int] == (x.0, x.1@));
            return;
        }
        i = i + 1;
    }
    assert(!before.contains((x.0, x.1@)));
    let ghost xv = (x.0, x.1@);
    v.push(x);
    assert(v@.map_values(|p: (u8, SearchOptions)| (p.0, p.1@)) =~= before.push(xv));
}

fn insert_select_option(v: &mut Vec<(u8, SearchSelectOptions)>, x: (u8, SearchSelectOptions))
    ensures
        final(v)@.map_values(|p: (u8, SearchSelectOptions)| (p.0, p.1@)) == insert_once(
            old(v)@.map_values(|p: (u8, SearchSelectOptions)| (p.0, p.1@)),
            (x.0, x.1@),
        ),
{
    let ghost before = v@.map_values(|p: (u8, SearchSelectOptions)| (p.0, p.1@));
    let mut i: usize = 0;
    while i < v.len()
        invariant
            before == v@.map_values(|p: (u8, SearchSelectOptions)| (p.0, p.1@)),
            i <= v.len(),
            forall|j: int| 0 <= j < i ==> before[j] != (x.0, x.1@),
        decreases v.len() - i,
    {
        if same_select_option(&v[i], &x) {
            assert(before[i as int] == (x.0, x.1@));
            return;
        }
        i = i + 1;
    }
    assert(!before.contains((x.0, x.1@)));
    let ghost xv = (x.0, x.1@);
    v.push(x);
    assert(v@.map_values(|p: (u8, SearchSelectOptions)| (p.0, p.1@)) =~= before.push(xv));
}

impl SearchQuery {
    /// The search without constraints or options.
    pub fn empty() -> (r: Self)
        ensures
            r@.constraints.len() == 0,
            r@.post_options.len() == 0,
            r@.select_options.len() == 0,
            r@.wf(),
    {
        let r = SearchQuery {
            constraints: Vec::new(),
            post_options: Vec::new(),
            select_options: Vec::new(),
        };
        assert(r@.post_options =~= Seq::<(u8, PostOptionView)>::empty());
        assert(r@.select_options =~= Seq::<(u8, SelectOptionView)>::empty());
        r
    }

    /// Adds a constraint that the rows must also meet.
    pub fn add_constraint(self, constraint: SearchConstraint) -> (r: Self)
        ensures
            r@.constraints == self@.constraints.push(constraint@),
            r@.post_options == self@.post_options,
            r@.select_options == self@.select_options,
    {
        let SearchQuery { mut constraints, post_options, select_options } = self;
        constraints.push(constraint);
        let r = SearchQuery { constraints, post_options, select_options };
        assert(r@.constraints =~= self@.constraints.push(constraint@));
        r
    }

    fn with_post_option(self, option: (u8, SearchOptions)) -> (r: Self)
        ensures
            r@.constraints == self@.constraints,
            r@.post_options == insert_once(self@.post_options, (option.0, option.1@)),
            r@.select_options == self@.select_options,
            self@.wf() ==> r@.wf(),
    {
        let SearchQuery { constraints, mut post_options, select_options } = self;
        let ghost ov = (option.0, option.1@);
        insert_post_option(&mut post_options, option);
        let r = SearchQuery { constraints, post_options, select_options };
        proof {
            if self@.wf() {
                lemma_insert_once_no_duplicates(self@.post_options, ov);
            }
        }
        r
    }

    fn with_select_option(self, option: (u8, SearchSelectOptions)) -> (r: Self)
        ensures
            r@.constraints == self@.constraints,
            r@.post_options == self@.post_options,
            r@.select_options == insert_once(self@.select_options, (option.0, option.1@)),
            self@.wf() ==> r@.wf(),
    {
        let SearchQuery { constraints, post_options, mut select_options } = self;
        let ghost ov = (option.0, option.1@);
        insert_select_option(&mut select_options, option);
        let r = SearchQuery { constraints, post_options, select_options };
        proof {
            if self@.wf() {
                lemma_insert_once_no_duplicates(self@.select_options, ov);
            }
        }
        r
    }

    /// Returns at most `limit` rows.
    pub fn set_limit(self, limit: i64) -> (r: Self)
        ensures
            r@.constraints == self@.constraints,
            r@.post_options == insert_once(
                self@.post_options,
                (10u8, PostOptionView::Limit(limit)),
            ),
            r@.select_options == self@.select_options,
            self@.wf() ==> r@.wf(),
    {
        self.with_post_option((10, SearchOptions::Limit(limit)))
    }

    /// Selects the minimum of what is selected.
    pub fn select_min(self) -> (r: Self)
        ensures
            r@.constraints == self@.constraints,
            r@.post_options == self@.post_options,
            r@.select_options == insert_once(self@.select_options, (1u8, SelectOptionView::Min)),
            self@.wf() ==> r@.wf(),
    {
        self.with_select_option((1, SearchSelectOptions::Min))
    }

    /// Selects the maximum of what is selected.
    pub fn select_max(self) -> (r: Self)
        ensures
            r@.constraints == self@.constraints,
            r@.post_options == self@.post_options,
            r@.select_options == insert_once(self@.select_options, (1u8, SelectOptionView::Max)),
            self@.wf() ==> r@.wf(),
    {
        self.with_select_option((1, SearchSelectOptions::Max))
    }

    /// Selects the given columns.
    pub fn select_columns(self, columns: Vec<String>) -> (r: Self)
        ensures
            r@.constraints == self@.constraints,
            r@.post_options == self@.post_options,
            r@.select_options == insert_once(
                self@.select_options,
                (0u8, SelectOptionView::Columns(strings_view(columns@))),
            ),
            self@.wf() ==> r@.wf(),
    {
        self.with_select_option((0, SearchSelectOptions::Columns(columns)))
    }

    /// Orders the rows by the given columns, each ascending, descending or
    /// in the database's default direction.
    pub fn add_order_by(self, order_by: Vec<(String, Option<SearchOrderByOptions>)>) -> (r: Self)
        ensures
            r@.constraints == self@.constraints,
            r@.post_options == insert_once(
                self@.post_options,
                (0u8, PostOptionView::OrderBy(order_view(order_by@))),
            ),
            r@.select_options == self@.select_options,
            self@.wf() ==> r@.wf(),
    {
        self.with_post_option((0, SearchOptions::OrderBy(order_by)))
    }
}

} // verus!
