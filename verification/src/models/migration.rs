//! The migration path of a model: a list of migrations, each creating the
//! table or modifying its columns, applied in the order of their `ordering`.
//! From it follow the current name of every column and the columns of the
//! table.

use vstd::prelude::*;
use crate::models::column::{
    ColumnType, CreateColumn, CreateColumnView, ModifyColumn, ModifyColumnOptionsValues,
    ModifyColumnView, ModifyOptionView,
};
use crate::text::strings_view;

verus! {

/// What one migration does.
#[derive(Debug)]
pub enum MigrationKind {
    Create(Vec<CreateColumn>),
    Modify(Vec<ModifyColumn>),
}

/// The model of a [`MigrationKind`].
pub enum MigrationKindView {
    Create(Seq<CreateColumnView>),
    Modify(Seq<ModifyColumnView>),
}

impl View for MigrationKind {
    type V = MigrationKindView;

    open spec fn view(&self) -> MigrationKindView {
        match self {
            MigrationKind::Create(cols) => MigrationKindView::Create(
                cols@.map_values(|c: CreateColumn| c@),
            ),
            MigrationKind::Modify(mods) => MigrationKindView::Modify(
                mods@.map_values(|m: ModifyColumn| m@),
            ),
        }
    }
}

/// One step of a model's migration path. Migrations are applied in the
/// order of `ordering`.
#[derive(Debug)]
pub struct ModelMigration {
    pub ordering: u64,
    pub kind: MigrationKind,
}

/// The model of a [`ModelMigration`].
pub struct MigrationView {
    pub ordering: u64,
    pub kind: MigrationKindView,
}

impl View for ModelMigration {
    type V = MigrationView;

    open spec fn view(&self) -> MigrationView {
        MigrationView { ordering: self.ordering, kind: self.kind@ }
    }
}

impl ModelMigration {
    /// The migration `kind`, placed at `ordering` in the path.
    pub fn new(ordering: u64, kind: MigrationKind) -> (r: Self)
        ensures
            r@.ordering == ordering,
            r@.kind == kind@,
    {
        ModelMigration { ordering, kind }
    }
}

/// The models of a list of migrations.
pub open spec fn migrations_view(s: Seq<ModelMigration>) -> Seq<MigrationView> {
    s.map_values(|m: ModelMigration| m@)
}

// ---------------------------------------------------------------------------
// Sorting by ordering
// ---------------------------------------------------------------------------

/// Where an element with ordering `key` goes in `s`: after the last element
/// whose ordering is at most `key`, looking from the end.
pub open spec fn insertion_point(s: Seq<MigrationView>, key: u64) -> int
    decreases s.len(),
{
    if s.len() == 0 {
        0
    } else if s.last().ordering <= key {
        s.len() as int
    } else {
        insertion_point(s.drop_last(), key)
    }
}

/// The migrations stably sorted by `ordering`: each one is inserted after
/// the ones before it whose ordering is not larger.
pub open spec fn sort_by_ordering(s: Seq<MigrationView>) -> Seq<MigrationView>
    decreases s.len(),
{
    if s.len() == 0 {
        s
    } else {
        let r = sort_by_ordering(s.drop_last());
        r.insert(insertion_point(r, s.last().ordering), s.last())
    }
}

/// Whether the orderings never decrease along `s`.
pub open spec fn sorted_by_ordering(s: Seq<MigrationView>) -> bool {
    forall|i: int, j: int| 0 <= i <= j < s.len() ==> s[i].ordering <= s[j].ordering
}

proof fn lemma_insertion_point_bounds(s: Seq<MigrationView>, key: u64)
    ensures
        0 <= insertion_point(s, key) <= s.len(),
    decreases s.len(),
{
    if s.len() > 0 {
        lemma_insertion_point_bounds(s.drop_last(), key);
    }
}

proof fn lemma_insertion_point_split(s: Seq<MigrationView>, key: u64)
    requires
        sorted_by_ordering(s),
    ensures
        forall|i: int| 0 <= i < insertion_point(s, key) ==> #[trigger] s[i].ordering <= key,
        forall|i: int| insertion_point(s, key) <= i < s.len() ==> #[trigger] s[i].ordering > key,
    decreases s.len(),
{
    lemma_insertion_point_bounds(s, key);
    if s.len() > 0 {
        let d = s.drop_last();
        assert(sorted_by_ordering(d)) by {
            assert forall|i: int, j: int| 0 <= i <= j < d.len() implies d[i].ordering
                <= d[j].ordering by {
                assert(s[i].ordering <= s[j].ordering);
            }
        }
        lemma_insertion_point_split(d, key);
        lemma_insertion_point_bounds(d, key);
        if s.last().ordering <= key {
            assert forall|i: int| 0 <= i < insertion_point(s, key) implies #[trigger] s[i].ordering
                <= key by {
                assert(s[i].ordering <= s[s.len() - 1].ordering);
            }
        } else {
            assert forall|i: int| 0 <= i < insertion_point(s, key) implies #[trigger] s[i].ordering
                <= key by {
                assert(s[i] == d[i]);
            }
            assert forall|i: int| insertion_point(s, key) <= i < s.len() implies #[trigger] s[i].ordering
                > key by {
                if i < d.len() {
                    assert(s[i] == d[i]);
                }
            }
        }
    }
}

/// The sorted migrations are sorted by ordering and are as many as before.
pub proof fn lemma_sort_by_ordering_sorted(s: Seq<MigrationView>)
    ensures
        sorted_by_ordering(sort_by_ordering(s)),
        sort_by_ordering(s).len() == s.len(),
    decreases s.len(),
{
    if s.len() > 0 {
        let r = sort_by_ordering(s.drop_last());
        lemma_sort_by_ordering_sorted(s.drop_last());
        let key = s.last().ordering;
        let p = insertion_point(r, key);
        lemma_insertion_point_split(r, key);
        lemma_insertion_point_bounds(r, key);
        let t = r.insert(p, s.last());
        assert forall|i: int, j: int| 0 <= i <= j < t.len() implies t[i].ordering
            <= t[j].ordering by {
            if i < p && j < p {
                assert(r[i].ordering <= r[j].ordering);
            } else if i < p && j == p {
                assert(r[i].ordering <= key);
            } else if i < p && j > p {
                assert(r[i].ordering <= r[j - 1].ordering);
            } else if i == p && j > p {
                assert(r[j - 1].ordering > key);
            } else if i > p {
                assert(r[i - 1].ordering <= r[j - 1].ordering);
            }
        }
    }
}

/// Sorting keeps every migration: the sorted list is a permutation.
pub proof fn lemma_sort_by_ordering_permutes(s: Seq<MigrationView>)
    ensures
        sort_by_ordering(s).to_multiset() == s.to_multiset(),
    decreases s.len(),
{
    broadcast use vstd::seq_lib::group_to_multiset_ensures;

    if s.len() > 0 {
        let r = sort_by_ordering(s.drop_last());
        lemma_sort_by_ordering_permutes(s.drop_last());
        lemma_insertion_point_bounds(r, s.last().ordering);
        let p = insertion_point(r, s.last().ordering);
        let t = r.insert(p, s.last());
        assert(t =~= r.take(p) + seq![s.last()] + r.skip(p));
        assert(r =~= r.take(p) + r.skip(p));
        vstd::seq_lib::lemma_multiset_commutative(r.take(p), r.skip(p));
        vstd::seq_lib::lemma_multiset_commutative(r.take(p) + seq![s.last()], r.skip(p));
        vstd::seq_lib::lemma_multiset_commutative(r.take(p), seq![s.last()]);
        assert(s =~= s.drop_last().push(s.last()));
    }
}

/// A list that is already sorted by ordering is left as it is.
pub proof fn lemma_sort_by_ordering_of_sorted(s: Seq<MigrationView>)
    requires
        sorted_by_ordering(s),
    ensures
        sort_by_ordering(s) == s,
    decreases s.len(),
{
    if s.len() > 0 {
        let d = s.drop_last();
        assert(sorted_by_ordering(d)) by {
            assert forall|i: int, j: int| 0 <= i <= j < d.len() implies d[i].ordering
                <= d[j].ordering by {
                assert(s[i].ordering <= s[j].ordering);
            }
        }
        lemma_sort_by_ordering_of_sorted(d);
        if d.len() > 0 {
            assert(d.last().ordering <= s.last().ordering);
        }
        assert(d.insert(d.len() as int, s.last()) =~= s);
    }
}

/// The indices of `ms` in the order in which the migrations are applied:
/// stably sorted by `ordering`.
pub fn sorted_order(ms: &Vec<ModelMigration>) -> (order: Vec<usize>)
    ensures
        order@.len() == ms@.len(),
        forall|k: int| 0 <= k < order@.len() ==> #[trigger] order@[k] < ms@.len(),
        order@.map_values(|i: usize| ms@[i as int]@) == sort_by_ordering(migrations_view(ms@)),
{
    let ghost mv = migrations_view(ms@);
    let mut order: Vec<usize> = Vec::new();
    let mut i: usize = 0;
    while i < ms.len()
        invariant
            i <= ms.len(),
            mv == migrations_view(ms@),
            order@.len() == i,
            forall|k: int| 0 <= k < order@.len() ==> #[trigger] order@[k] < ms@.len(),
            order@.map_values(|x: usize| ms@[x as int]@) == sort_by_ordering(mv.take(i as int)),
        decreases ms.len() - i,
    {
        let key = ms[i].ordering;
        let ghost ov = order@.map_values(|x: usize| ms@[x as int]@);
        let mut j: usize = order.len();
        assert(ov.take(order.len() as int) =~= ov);
        while j > 0 && ms[order[j - 1]].ordering > key
            invariant
                j <= order@.len(),
                forall|k: int| 0 <= k < order@.len() ==> #[trigger] order@[k] < ms@.len(),
                ov == order@.map_values(|x: usize| ms@[x as int]@),
                insertion_point(ov, key) == insertion_point(ov.take(j as int), key),
            decreases j,
        {
            assert(ov.take(j as int).drop_last() =~= ov.take(j as int - 1));
            assert(ov.take(j as int).last() == ov[j as int - 1]);
            j = j - 1;
        }
        proof {
            if j > 0 {
                assert(ov.take(j as int).last() == ov[j as int - 1]);
            }
            assert(insertion_point(ov, key) == j);
            assert(mv.take(i as int + 1).drop_last() =~= mv.take(i as int));
            assert(mv.take(i as int + 1).last() == ms@[i as int]@);
        }
        order.insert(j, i);
        assert(order@.map_values(|x: usize| ms@[x as int]@) =~= ov.insert(j as int, ms@[i as int]@));
        i = i + 1;
    }
    assert(mv.take(ms.len() as int) =~= mv);
    order
}

// ---------------------------------------------------------------------------
// Current column names
// ---------------------------------------------------------------------------

/// The column modifications of the migrations, in the order given.
pub open spec fn modifications(ms: Seq<MigrationView>) -> Seq<ModifyColumnView>
    decreases ms.len(),
{
    if ms.len() == 0 {
        Seq::empty()
    } else {
        modifications(ms.drop_last()) + match ms.last().kind {
            MigrationKindView::Create(_) => Seq::empty(),
            MigrationKindView::Modify(mods) => mods,
        }
    }
}

/// Following the modifications from the column named `initial`: the names
/// the column has had, and its name now (`None` once it is dropped). A
/// modification applies when it names one of the column's names; a rename
/// gives the column its new name, a drop removes it for good (it forgets
/// every name, so no later modification applies to it).
pub open spec fn rename_state(initial: Seq<char>, mods: Seq<ModifyColumnView>) -> (
    Seq<Seq<char>>,
    Option<Seq<char>>,
)
    decreases mods.len(),
{
    if mods.len() == 0 {
        (seq![initial], Some(initial))
    } else {
        let (past, name) = rename_state(initial, mods.drop_last());
        let m = mods.last();
        if past.contains(m.key) {
            match m.options {
                ModifyOptionView::Rename { to } => (past.push(to), Some(to)),
                ModifyOptionView::Drop => (Seq::empty(), None),
                ModifyOptionView::Add { .. } => (past, name),
            }
        } else {
            (past, name)
        }
    }
}

/// The current name of the column first named `initial`, following the
/// migration path in order; `None` when the column was dropped.
pub open spec fn latest_column_name(ms: Seq<MigrationView>, initial: Seq<char>) -> Option<
    Seq<char>,
> {
    rename_state(initial, modifications(sort_by_ordering(ms))).1
}

fn contains_text(v: &Vec<String>, s: &String) -> (r: bool)
    ensures
        r == strings_view(v@).contains(s@),
{
    let mut i: usize = 0;
    while i < v.len()
        invariant
            i <= v.len(),
            forall|j: int| 0 <= j < i ==> strings_view(v@)[j] != s@,
        decreases v.len() - i,
    {
        if v[i] == *s {
            assert(strings_view(v@)[i as int] == s@);
            return true;
        }
        i = i + 1;
    }
    false
}

/// The current name of the column first named `initial_name`, following the
/// migration path `ms` in the order of `ordering`. `None` means that the
/// column was dropped.
pub fn latest_column_name_in(ms: &Vec<ModelMigration>, initial_name: &str) -> (r: Option<String>)
    ensures
        r matches Some(n) ==> latest_column_name(migrations_view(ms@), initial_name@) == Some(n@),
        r is None ==> latest_column_name(migrations_view(ms@), initial_name@) is None,
{
    let order = sorted_order(ms);
    let ghost sorted = sort_by_ordering(migrations_view(ms@));
    let mut past_names: Vec<String> = Vec::new();
    past_names.push(initial_name.to_string());
    let mut name: Option<String> = Some(initial_name.to_string());
    assert(strings_view(past_names@) =~= seq![initial_name@]);
    let mut i: usize = 0;
    while i < order.len()
        invariant
            i <= order.len(),
            order@.len() == ms@.len(),
            forall|k: int| 0 <= k < order@.len() ==> #[trigger] order@[k] < ms@.len(),
            order@.map_values(|x: usize| ms@[x as int]@) == sorted,
            rename_state(initial_name@, modifications(sorted.take(i as int))) == (
                strings_view(past_names@),
                match name {
                    Some(n) => Some(n@),
                    None => None::<Seq<char>>,
                },
            ),
        decreases order.len() - i,
    {
        let migration = &ms[order[i]];
        assert(sorted[i as int] == migration@);
        assert(sorted.take(i as int + 1).drop_last() =~= sorted.take(i as int));
        match &migration.kind {
            MigrationKind::Create(_) => {
                assert(modifications(sorted.take(i as int + 1)) =~= modifications(
                    sorted.take(i as int),
                ));
            },
            MigrationKind::Modify(modifiers) => {
                let ghost before = modifications(sorted.take(i as int));
                let ghost mods = modifiers@.map_values(|m: ModifyColumn| m@);
                let mut j: usize = 0;
                while j < modifiers.len()
                    invariant
                        j <= modifiers.len(),
                        mods == modifiers@.map_values(|m: ModifyColumn| m@),
                        rename_state(initial_name@, before + mods.take(j as int)) == (
                            strings_view(past_names@),
                            match name {
                                Some(n) => Some(n@),
                                None => None::<Seq<char>>,
                            },
                        ),
                    decreases modifiers.len() - j,
                {
                    let modification = &modifiers[j];
                    let ghost prefix = before + mods.take(j as int);
                    assert((before + mods.take(j as int + 1)).drop_last() =~= prefix);
                    assert((before + mods.take(j as int + 1)).last() == modification@);
                    if contains_text(&past_names, &modification.key) {
                        match &modification.options {
                            ModifyColumnOptionsValues::Rename { to } => {
                                name = Some(to.clone());
                                past_names.push(to.clone());
                                assert(strings_view(past_names@) =~= rename_state(
                                    initial_name@,
                                    prefix,
                                ).0.push(to@));
                            },
                            ModifyColumnOptionsValues::Drop => {
                                name = None;
                                past_names = Vec::new();
                                assert(strings_view(past_names@) =~= Seq::<Seq<char>>::empty());
                            },
                            ModifyColumnOptionsValues::Add { .. } => {},
                        }
                    }
                    j = j + 1;
                }
                assert(mods.take(modifiers.len() as int) =~= mods);
                assert(modifications(sorted.take(i as int + 1)) =~= before + mods);
            },
        }
        i = i + 1;
    }
    assert(sorted.take(order.len() as int) =~= sorted);
    name
}

// ---------------------------------------------------------------------------
// Columns of the table
// ---------------------------------------------------------------------------

/// The columns that the first migration creates, each under its current
/// name; `None` when there is no migration, the first one does not create
/// the table, or one of its columns was dropped.
pub open spec fn columns_spec(ms: Seq<MigrationView>) -> Option<Seq<(Seq<char>, ColumnType)>> {
    if ms.len() > 0 && ms[0].kind is Create {
        let cols = ms[0].kind->Create_0;
        if forall|k: int| 0 <= k < cols.len() ==> #[trigger] latest_column_name(ms, cols[k].key) is Some {
            Some(cols.map_values(|c: CreateColumnView| (latest_column_name(ms, c.key).unwrap(), c.value)))
        } else {
            None
        }
    } else {
        None
    }
}

/// The models of a list of (name, type) pairs.
pub open spec fn named_types_view(s: Seq<(String, ColumnType)>) -> Seq<(Seq<char>, ColumnType)> {
    s.map_values(|p: (String, ColumnType)| (p.0@, p.1))
}

/// The columns of the table that `ms` creates, under their current names
/// (see [`columns_spec`]).
pub fn columns_of(ms: &Vec<ModelMigration>) -> (r: Option<Vec<(String, ColumnType)>>)
    ensures
        r matches Some(v) ==> columns_spec(migrations_view(ms@)) == Some(named_types_view(v@)),
        r is None ==> columns_spec(migrations_view(ms@)) is None,
{
    let ghost mv = migrations_view(ms@);
    if ms.len() == 0 {
        return None;
    }
    match &ms[0].kind {
        MigrationKind::Modify(_) => {
            assert(!(mv[0].kind is Create));
            None
        },
        MigrationKind::Create(cols) => {
            let ghost cv = cols@.map_values(|c: CreateColumn| c@);
            assert(mv[0].kind->Create_0 == cv);
            let mut out: Vec<(String, ColumnType)> = Vec::new();
            let mut k: usize = 0;
            while k < cols.len()
                invariant
                    k <= cols.len(),
                    mv == migrations_view(ms@),
                    ms@.len() > 0,
                    mv[0].kind == MigrationKindView::Create(cv),
                    cv == cols@.map_values(|c: CreateColumn| c@),
                    out@.len() == k,
                    forall|t: int| 0 <= t < k ==> #[trigger] latest_column_name(mv, cv[t].key) is Some,
                    named_types_view(out@) == cv.take(k as int).map_values(
                        |c: CreateColumnView| (latest_column_name(mv, c.key).unwrap(), c.value),
                    ),
                decreases cols.len() - k,
            {
                let col = &cols[k];
                assert(cv[k as int] == col@);
                assert(cv.take(k as int + 1) =~= cv.take(k as int).push(cv[k as int]));
                match latest_column_name_in(ms, col.key.as_str()) {
                    Some(name) => {
                        let ghost nv = name@;
                        let ghost old_out = out@;
                        out.push((name, col.value));
                        assert(latest_column_name(mv, cv[k as int].key) == Some(nv));
                        assert(named_types_view(out@) =~= named_types_view(old_out).push(
                            (nv, col.value),
                        ));
                        assert(cv.take(k as int + 1).map_values(
                            |c: CreateColumnView| (latest_column_name(mv, c.key).unwrap(), c.value),
                        ) =~= cv.take(k as int).map_values(
                            |c: CreateColumnView| (latest_column_name(mv, c.key).unwrap(), c.value),
                        ).push((nv, col.value)));
                        assert(named_types_view(out@) =~= cv.take(k as int + 1).map_values(
                            |c: CreateColumnView| (latest_column_name(mv, c.key).unwrap(), c.value),
                        ));
                    },
                    None => {
                        assert(!(latest_column_name(mv, cv[k as int].key) is Some));
                        return None;
                    },
                }
                k = k + 1;
            }
            assert(cv.take(cols.len() as int) =~= cv);
            Some(out)
        },
    }
}

} // verus!
