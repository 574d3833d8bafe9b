//! Properties of the library as a whole, stated over the models that the
//! operations' contracts use.

use vstd::prelude::*;
use crate::database::{migration_needed, migration_step_spec, MigrationStepView};
use crate::models::column::{
    ColumnOptionView, ColumnType, CreateColumnView, CreateOptionsView, ModifyColumnView, ModifyOptionView,
    TableOptionView, insert_once,
};
use crate::models::migration::{
    MigrationView, latest_column_name, lemma_sort_by_ordering_permutes, lemma_sort_by_ordering_sorted,
    modifications, rename_state, sort_by_ordering, sorted_by_ordering,
};
use crate::models::group::group_fields;
use crate::models::model::{FromIterValueView, SaveModelView, missing_columns, missing_save_data};
use crate::models::search::{op_text, QueryView, SearchOrderByOptions};
use crate::sqlite::query::{
    constraint_clauses, delete_sql, equality_clauses, order_term, placeholder, post_options_sql, post_sql,
    select_sql, select_text,
};
use crate::models::search::PostOptionView;
use crate::sqlite::ddl::{table_constraints, table_options_sql};
use crate::sqlite::save::{entries_except, insert_sql, stored_entries, update_sql};
use crate::text::join;
use crate::tasks::handler::{
    apply_subscriber_changes, change_task, count_running, long_worker_id, pool_ids, select_by_flag, worker_ids,
    SubscriberChange,
};
use crate::text::{
    all_digits, digit_char, digit_value, digits_value, has_sign, int_decimal, is_digit, nat_decimal,
    is_float_literal, parse_i64_spec, signed_value, unsigned_part,
};

verus! {

/// Setting an option that is already set changes nothing: the options of a
/// column (and of a query) behave as sets.
pub proof fn law_set_option_twice<A>(s: Seq<A>, x: A)
    ensures
        insert_once(insert_once(s, x), x) == insert_once(s, x),
        insert_once(s, x).contains(x),
{
    if !s.contains(x) {
        assert(s.push(x)[s.len() as int] == x);
    }
}

/// A primary key is also not null.
pub proof fn law_primary_key_is_not_null(s: Seq<(u64, ColumnOptionView)>)
    ensures
        insert_once(
            insert_once(s, (0u64, ColumnOptionView::NonNullable)),
            (0u64, ColumnOptionView::PrimaryKey),
        ).contains((0u64, ColumnOptionView::NonNullable)),
        insert_once(
            insert_once(s, (0u64, ColumnOptionView::NonNullable)),
            (0u64, ColumnOptionView::PrimaryKey),
        ).contains((0u64, ColumnOptionView::PrimaryKey)),
{
    let a = insert_once(s, (0u64, ColumnOptionView::NonNullable));
    law_set_option_twice(s, (0u64, ColumnOptionView::NonNullable));
    law_set_option_twice(a, (0u64, ColumnOptionView::PrimaryKey));
    if !a.contains((0u64, ColumnOptionView::PrimaryKey)) {
        let k = choose|k: int| 0 <= k < a.len() && a[k] == (0u64, ColumnOptionView::NonNullable);
        assert(a.push((0u64, ColumnOptionView::PrimaryKey))[k] == (0u64, ColumnOptionView::NonNullable));
    }
}

/// The name a column has now is always among the names it has had.
pub proof fn law_current_name_is_known(initial: Seq<char>, mods: Seq<ModifyColumnView>)
    ensures
        rename_state(initial, mods).1 matches Some(n) ==> rename_state(initial, mods).0.contains(n),
    decreases mods.len(),
{
    if mods.len() == 0 {
        assert(seq![initial][0] == initial);
    } else {
        law_current_name_is_known(initial, mods.drop_last());
        let (past, name) = rename_state(initial, mods.drop_last());
        let m = mods.last();
        if past.contains(m.key) {
            match m.options {
                ModifyOptionView::Rename { to } => {
                    assert(past.push(to)[past.len() as int] == to);
                },
                _ => {},
            }
        }
    }
}

/// Renaming a column under its current name gives it the new name.
pub proof fn law_rename_gives_new_name(
    initial: Seq<char>,
    mods: Seq<ModifyColumnView>,
    current: Seq<char>,
    to: Seq<char>,
)
    requires
        rename_state(initial, mods).1 == Some(current),
    ensures
        rename_state(
            initial,
            mods.push(ModifyColumnView { key: current, options: ModifyOptionView::Rename { to } }),
        ).1 == Some(to),
{
    law_current_name_is_known(initial, mods);
    let m = ModifyColumnView { key: current, options: ModifyOptionView::Rename { to } };
    assert(mods.push(m).drop_last() =~= mods);
}

/// Dropping a column under any of its names removes it.
pub proof fn law_drop_removes_column(
    initial: Seq<char>,
    mods: Seq<ModifyColumnView>,
    name: Seq<char>,
)
    requires
        rename_state(initial, mods).0.contains(name),
    ensures
        rename_state(
            initial,
            mods.push(ModifyColumnView { key: name, options: ModifyOptionView::Drop }),
        ).1 is None,
{
    let m = ModifyColumnView { key: name, options: ModifyOptionView::Drop };
    assert(mods.push(m).drop_last() =~= mods);
}

proof fn lemma_dropped_iff_no_names(initial: Seq<char>, mods: Seq<ModifyColumnView>)
    ensures
        rename_state(initial, mods).1 is None <==> rename_state(initial, mods).0.len() == 0,
    decreases mods.len(),
{
    if mods.len() > 0 {
        lemma_dropped_iff_no_names(initial, mods.drop_last());
    }
}

/// Once a column is dropped it stays dropped: whatever modifications follow,
/// it has no current name again.
pub proof fn law_dropped_column_stays_dropped(
    initial: Seq<char>,
    mods: Seq<ModifyColumnView>,
    later: Seq<ModifyColumnView>,
)
    requires
        rename_state(initial, mods).1 is None,
    ensures
        rename_state(initial, mods + later).1 is None,
    decreases later.len(),
{
    if later.len() > 0 {
        law_dropped_column_stays_dropped(initial, mods, later.drop_last());
        assert((mods + later).drop_last() =~= mods + later.drop_last());
        lemma_dropped_iff_no_names(initial, mods + later.drop_last());
    } else {
        assert(mods + later =~= mods);
    }
}

/// A column dropped anywhere along the migration path (taken in the order of
/// `ordering`) has no current name at its end.
pub proof fn law_dropped_column_has_no_name(ms: Seq<MigrationView>, initial: Seq<char>, k: int)
    requires
        0 <= k <= modifications(sort_by_ordering(ms)).len(),
        rename_state(initial, modifications(sort_by_ordering(ms)).take(k)).1 is None,
    ensures
        latest_column_name(ms, initial) is None,
{
    let mods = modifications(sort_by_ordering(ms));
    law_dropped_column_stays_dropped(initial, mods.take(k), mods.skip(k));
    assert(mods.take(k) + mods.skip(k) =~= mods);
}

proof fn lemma_untouched_keeps_name(initial: Seq<char>, mods: Seq<ModifyColumnView>)
    requires
        forall|i: int| 0 <= i < mods.len() ==> #[trigger] mods[i].key != initial,
    ensures
        rename_state(initial, mods) == (seq![initial], Some(initial)),
    decreases mods.len(),
{
    if mods.len() > 0 {
        lemma_untouched_keeps_name(initial, mods.drop_last());
        let m = mods.last();
        assert(m.key != initial);
        if seq![initial].contains(m.key) {
            let k = choose|k: int| 0 <= k < 1 && seq![initial][k] == m.key;
            assert(seq![initial][k] == initial);
        }
    }
}

/// A column that no modification of the migration path names keeps its
/// name.
pub proof fn law_untouched_column_keeps_name(ms: Seq<MigrationView>, column: Seq<char>)
    requires
        forall|i: int|
            0 <= i < modifications(sort_by_ordering(ms)).len() ==> #[trigger] modifications(
                sort_by_ordering(ms),
            )[i].key != column,
    ensures
        latest_column_name(ms, column) == Some(column),
{
    lemma_untouched_keeps_name(column, modifications(sort_by_ordering(ms)));
}

proof fn lemma_nat_decimal_digits(n: nat)
    ensures
        nat_decimal(n).len() > 0,
        all_digits(nat_decimal(n)),
        digits_value(nat_decimal(n)) == n,
    decreases n,
{
    let d = (n % 10) as int;
    assert(is_digit(digit_char(d)) && digit_value(digit_char(d)) == d);
    if n >= 10 {
        lemma_nat_decimal_digits(n / 10);
        let s = nat_decimal(n);
        assert(s.drop_last() =~= nat_decimal(n / 10));
        assert forall|i: int| 0 <= i < s.len() implies #[trigger] is_digit(s[i]) by {
            if i < s.len() - 1 {
                assert(s[i] == nat_decimal(n / 10)[i]);
            }
        }
        assert(s.last() == digit_char(d));
        assert(n == (n / 10) * 10 + n % 10);
        assert(digits_value(s) == digits_value(nat_decimal(n / 10)) * 10 + digit_value(s.last()));
    } else {
        let s = nat_decimal(n);
        assert(s.drop_last() =~= Seq::<char>::empty());
        assert(s.last() == digit_char(d));
        assert(digits_value(s) == digits_value(s.drop_last()) * 10 + digit_value(s.last()));
    }
}

/// The decimal text of an integer parses back to the integer: a value
/// written into SQL text as an integer is read back unchanged.
pub proof fn law_decimal_parses_back(i: i64)
    ensures
        parse_i64_spec(int_decimal(i as int)) == Some(i),
{
    let s = int_decimal(i as int);
    if i < 0 {
        let m = (-(i as int)) as nat;
        lemma_nat_decimal_digits(m);
        assert(s == seq!['-'] + nat_decimal(m));
        assert(s[0] == '-');
        assert(s.drop_first() =~= nat_decimal(m));
        assert(unsigned_part(s) == nat_decimal(m));
        assert(signed_value(s) == -(m as int));
    } else {
        lemma_nat_decimal_digits(i as nat);
        assert(is_digit(s[0]));
        assert(!has_sign(s));
    }
}

/// A migration at or before the last one recorded for the table is not run
/// again, and a table is only ever created by the first migration.
pub proof fn law_migrations_run_once(
    table: Seq<char>,
    index: nat,
    migration: MigrationView,
    last: Option<i64>,
)
    ensures
        last matches Some(l) && l >= index ==> migration_step_spec(table, index, migration, last)
            == Ok::<MigrationStepView, crate::database::DatabaseErrorView>(
            MigrationStepView::AlreadyApplied,
        ),
        migration_step_spec(table, index, migration, last) matches Ok(MigrationStepView::CreateTable(
            _,
        )) ==> index == 0,
{
}

/// Saving leaves out null values, and an update never writes the id column.
pub proof fn law_saved_entries(data: Seq<SaveModelView>, id_column: Seq<char>)
    ensures
        forall|i: int|
            0 <= i < stored_entries(data).len() ==> !(#[trigger] stored_entries(data)[i].value is Null),
        forall|i: int|
            0 <= i < entries_except(data, id_column).len() ==> #[trigger] entries_except(
                data,
                id_column,
            )[i].key != id_column,
    decreases data.len(),
{
    if data.len() > 0 {
        law_saved_entries(data.drop_last(), id_column);
        let r = stored_entries(data.drop_last());
        assert forall|i: int| 0 <= i < stored_entries(data).len() implies !(
        #[trigger] stored_entries(data)[i].value is Null) by {
            if i < r.len() {
                assert(stored_entries(data)[i] == r[i]);
            }
        }
        let e = entries_except(data.drop_last(), id_column);
        assert forall|i: int| 0 <= i < entries_except(data, id_column).len() implies #[trigger] entries_except(
            data,
            id_column,
        )[i].key != id_column by {
            if i < e.len() {
                assert(entries_except(data, id_column)[i] == e[i]);
            }
        }
    }
}

proof fn lemma_no_missing_columns(cols: Seq<(Seq<char>, ColumnType)>, keys: Seq<Seq<char>>)
    requires
        forall|i: int| 0 <= i < cols.len() ==> keys.contains(#[trigger] cols[i].0),
    ensures
        missing_columns(cols, keys).len() == 0,
    decreases cols.len(),
{
    if cols.len() > 0 {
        assert(keys.contains(cols[cols.len() - 1].0));
        lemma_no_missing_columns(cols.drop_last(), keys);
    }
}

/// Save data that names every column, for a table with an integer `id`
/// column, passes validation.
pub proof fn law_complete_save_data_validates(cols: Seq<(Seq<char>, ColumnType)>, keys: Seq<Seq<char>>)
    requires
        cols.contains(("id"@, ColumnType::Integer)),
        forall|i: int| 0 <= i < cols.len() ==> keys.contains(#[trigger] cols[i].0),
    ensures
        missing_save_data(cols, keys) is None,
{
    lemma_no_missing_columns(cols, keys);
}

/// When the handler retires stopped workers, no worker id is lost or
/// duplicated: the ids kept and the ids to respawn are together the ids
/// there were.
pub proof fn law_retire_keeps_every_id<W>(ws: Seq<(u64, W)>, running: Seq<bool>)
    requires
        running.len() == ws.len(),
    ensures
        worker_ids(select_by_flag(ws, running, true)).to_multiset().add(
            worker_ids(select_by_flag(ws, running, false)).to_multiset(),
        ) == worker_ids(ws).to_multiset(),
    decreases ws.len(),
{
    broadcast use vstd::seq_lib::group_to_multiset_ensures;

    if ws.len() > 0 {
        law_retire_keeps_every_id(ws.drop_last(), running.drop_last());
        let kt = worker_ids(select_by_flag(ws.drop_last(), running.drop_last(), true));
        let kf = worker_ids(select_by_flag(ws.drop_last(), running.drop_last(), false));
        let x = ws.last().0;
        assert(worker_ids(ws) =~= worker_ids(ws.drop_last()).push(x));
        if running.last() {
            assert(worker_ids(select_by_flag(ws, running, true)) =~= kt.push(x));
            assert(worker_ids(select_by_flag(ws, running, false)) =~= kf);
        } else {
            assert(worker_ids(select_by_flag(ws, running, true)) =~= kt);
            assert(worker_ids(select_by_flag(ws, running, false)) =~= kf.push(x));
        }
        assert(kt.to_multiset().add(kf.to_multiset()).insert(x) =~= kt.to_multiset().insert(x).add(
            kf.to_multiset(),
        ));
        assert(kt.to_multiset().add(kf.to_multiset()).insert(x) =~= kt.to_multiset().add(
            kf.to_multiset().insert(x),
        ));
    } else {
        assert(worker_ids(select_by_flag(ws, running, true)) =~= Seq::<u64>::empty());
        assert(worker_ids(select_by_flag(ws, running, false)) =~= Seq::<u64>::empty());
        assert(worker_ids(ws) =~= Seq::<u64>::empty());
    }
}

/// Every worker the handler keeps was reported running; every worker it
/// retires was reported stopped.
pub proof fn law_retire_keeps_running<W>(ws: Seq<(u64, W)>, running: Seq<bool>, keep: bool)
    requires
        running.len() == ws.len(),
    ensures
        forall|i: int|
            0 <= i < select_by_flag(ws, running, keep).len() ==> exists|j: int|
                0 <= j < ws.len() && running[j] == keep && ws[j] == #[trigger] select_by_flag(
                    ws,
                    running,
                    keep,
                )[i],
    decreases ws.len(),
{
    if ws.len() > 0 {
        law_retire_keeps_running(ws.drop_last(), running.drop_last(), keep);
        let r = select_by_flag(ws.drop_last(), running.drop_last(), keep);
        let s = select_by_flag(ws, running, keep);
        assert forall|i: int| 0 <= i < s.len() implies exists|j: int|
            0 <= j < ws.len() && running[j] == keep && ws[j] == #[trigger] s[i] by {
            if i < r.len() {
                assert(s[i] == r[i]);
                let j = choose|j: int|
                    0 <= j < ws.drop_last().len() && running.drop_last()[j] == keep
                        && ws.drop_last()[j] == r[i];
                assert(ws[j] == r[i] && running[j] == keep);
            } else {
                assert(ws[ws.len() - 1] == s[i] && running[ws.len() - 1] == keep);
            }
        }
    }
}

/// A group read back from the row that its save wrote (the id written out
/// in decimal, the name as it is) has the id and the name that were saved.
pub proof fn law_group_reads_back_saved_row(id: i64, name: Seq<char>)
    ensures
        group_fields(
            seq![
                FromIterValueView {
                    column_name: "id"@,
                    column_value: int_decimal(id as int),
                    column_type: ColumnType::Integer,
                },
                FromIterValueView {
                    column_name: "name"@,
                    column_value: name,
                    column_type: ColumnType::String,
                },
            ],
        ) == (Some(id), Some(name)),
{
    let cells = seq![
        FromIterValueView {
            column_name: "id"@,
            column_value: int_decimal(id as int),
            column_type: ColumnType::Integer,
        },
        FromIterValueView { column_name: "name"@, column_value: name, column_type: ColumnType::String },
    ];
    law_decimal_parses_back(id);
    assert("id"@ != "name"@) by {
        reveal_strlit("id");
        reveal_strlit("name");
        assert("id"@.len() != "name"@.len());
    }
    let first = cells.drop_last();
    assert(first.drop_last() =~= Seq::<FromIterValueView>::empty());
    assert(group_fields(first.drop_last()) == (None::<i64>, None::<Seq<char>>));
    assert(first.last() == cells[0]);
    assert(group_fields(first) == (Some(id), None::<Seq<char>>));
    assert(cells.last() == cells[1]);
}

/// Migrations with equal orderings are the same migration.
pub open spec fn orderings_identify(ms: Seq<MigrationView>) -> bool {
    forall|i: int, j: int|
        0 <= i < ms.len() && 0 <= j < ms.len() && #[trigger] ms[i].ordering == #[trigger] ms[j].ordering
            ==> ms[i] == ms[j]
}

proof fn lemma_sorted_permutations_equal(s: Seq<MigrationView>, t: Seq<MigrationView>)
    requires
        sorted_by_ordering(s),
        sorted_by_ordering(t),
        s.to_multiset() == t.to_multiset(),
        orderings_identify(s),
    ensures
        s == t,
    decreases s.len(),
{
    broadcast use vstd::seq_lib::group_to_multiset_ensures;

    assert(s.len() == s.to_multiset().len());
    assert(t.len() == t.to_multiset().len());
    if s.len() == 0 {
        assert(s =~= t);
    } else {
        let n = s.len() - 1;
        let a = s[n];
        let b = t[n];
        assert(s.contains(a));
        assert(s.to_multiset().count(a) > 0);
        assert(t.contains(a));
        let j = choose|j: int| 0 <= j < t.len() && t[j] == a;
        assert(t[j].ordering <= t[n].ordering);
        assert(t.contains(b));
        assert(t.to_multiset().count(b) > 0);
        assert(s.contains(b));
        let i = choose|i: int| 0 <= i < s.len() && s[i] == b;
        assert(s[i].ordering <= s[n].ordering);
        assert(s[i] == s[n]);
        assert(a == b);
        let sd = s.drop_last();
        let td = t.drop_last();
        assert(s =~= sd.push(a));
        assert(t =~= td.push(a));
        assert(sd.to_multiset() =~= td.to_multiset()) by {
            assert(sd.push(a).to_multiset() =~= sd.to_multiset().insert(a));
            assert(td.push(a).to_multiset() =~= td.to_multiset().insert(a));
            assert forall|x: MigrationView| sd.to_multiset().count(x) == td.to_multiset().count(x) by {
                assert(sd.to_multiset().insert(a).count(x) == td.to_multiset().insert(a).count(x));
            }
        }
        assert(sorted_by_ordering(sd)) by {
            assert forall|p: int, q: int| 0 <= p <= q < sd.len() implies sd[p].ordering
                <= sd[q].ordering by {
                assert(s[p].ordering <= s[q].ordering);
            }
        }
        assert(sorted_by_ordering(td)) by {
            assert forall|p: int, q: int| 0 <= p <= q < td.len() implies td[p].ordering
                <= td[q].ordering by {
                assert(t[p].ordering <= t[q].ordering);
            }
        }
        assert(orderings_identify(sd)) by {
            assert forall|p: int, q: int|
                0 <= p < sd.len() && 0 <= q < sd.len() && #[trigger] sd[p].ordering
                    == #[trigger] sd[q].ordering implies sd[p] == sd[q] by {
                assert(s[p] == sd[p] && s[q] == sd[q]);
            }
        }
        lemma_sorted_permutations_equal(sd, td);
        assert(s =~= t);
    }
}

/// The order in which a model lists its migrations does not matter when no
/// two different migrations share an ordering: the same migrations, listed
/// in any order, are applied in the same order and give every column the
/// same current name.
pub proof fn law_migration_order_is_by_ordering(
    ms1: Seq<MigrationView>,
    ms2: Seq<MigrationView>,
    column: Seq<char>,
)
    requires
        ms1.to_multiset() == ms2.to_multiset(),
        orderings_identify(ms1),
    ensures
        sort_by_ordering(ms1) == sort_by_ordering(ms2),
        latest_column_name(ms1, column) == latest_column_name(ms2, column),
{
    broadcast use vstd::seq_lib::group_to_multiset_ensures;

    let s1 = sort_by_ordering(ms1);
    let s2 = sort_by_ordering(ms2);
    lemma_sort_by_ordering_sorted(ms1);
    lemma_sort_by_ordering_sorted(ms2);
    lemma_sort_by_ordering_permutes(ms1);
    lemma_sort_by_ordering_permutes(ms2);
    assert(orderings_identify(s1)) by {
        assert forall|p: int, q: int|
            0 <= p < s1.len() && 0 <= q < s1.len() && #[trigger] s1[p].ordering
                == #[trigger] s1[q].ordering implies s1[p] == s1[q] by {
            assert(s1.contains(s1[p]));
            assert(s1.to_multiset().count(s1[p]) > 0);
            assert(ms1.contains(s1[p]));
            assert(s1.contains(s1[q]));
            assert(s1.to_multiset().count(s1[q]) > 0);
            assert(ms1.contains(s1[q]));
            let x = choose|x: int| 0 <= x < ms1.len() && ms1[x] == s1[p];
            let y = choose|y: int| 0 <= y < ms1.len() && ms1[y] == s1[q];
            assert(ms1[x].ordering == ms1[y].ordering);
        }
    }
    lemma_sorted_permutations_equal(s1, s2);
}

/// Running the migrations of a table a second time applies nothing.
///
/// `migrations` are the table's migrations in the order they are applied.
/// A first run that found the last recorded index `first_last` (and the
/// table existing or not, `table_existed`) succeeded, and it recorded every
/// migration it ran: all but the creation of a table that already existed.
/// Whatever the last recorded index `second_last` is then, every migration is
/// planned as already applied on the second run, except the creation of the
/// table, which existed before and so still exists, and is skipped.
pub proof fn law_second_migration_run_applies_nothing(
    table: Seq<char>,
    migrations: Seq<MigrationView>,
    first_last: Option<i64>,
    table_existed: bool,
    second_last: Option<i64>,
)
    requires
        forall|i: int|
            0 <= i < migrations.len() ==> #[trigger] migration_step_spec(
                table,
                i as nat,
                migrations[i],
                first_last,
            ) is Ok,
        first_last matches Some(l0) ==> (second_last matches Some(l1) && l1 >= l0),
        forall|i: int|
            0 <= i < migrations.len() && migration_needed(first_last, i) && !(
            #[trigger] migrations[i].kind is Create && table_existed) ==> (second_last matches Some(
                l1,
            ) && l1 >= i),
    ensures
        forall|i: int|
            0 <= i < migrations.len() ==> #[trigger] migration_step_spec(
                table,
                i as nat,
                migrations[i],
                second_last,
            ) == Ok::<MigrationStepView, crate::database::DatabaseErrorView>(
                MigrationStepView::AlreadyApplied,
            ) || (table_existed && migration_step_spec(table, i as nat, migrations[i], second_last)
                matches Ok(MigrationStepView::CreateTable(_))),
{
    assert forall|i: int| 0 <= i < migrations.len() implies #[trigger] migration_step_spec(
        table,
        i as nat,
        migrations[i],
        second_last,
    ) == Ok::<MigrationStepView, crate::database::DatabaseErrorView>(
        MigrationStepView::AlreadyApplied,
    ) || (table_existed && migration_step_spec(table, i as nat, migrations[i], second_last)
        matches Ok(MigrationStepView::CreateTable(_))) by {
        assert(migration_step_spec(table, i as nat, migrations[i], first_last) is Ok);
        if migration_needed(second_last, i) {
            assert(migration_needed(first_last, i));
            assert(migrations[i].kind is Create && table_existed);
        }
    }
}

/// The pool ids after a task arrives and the stopped workers are respawned
/// under their own ids: unchanged when every worker runs, otherwise the ids
/// of the running workers followed by the respawned ones.
pub open spec fn ids_after_task<W>(ws: Seq<(u64, W)>, running: Seq<bool>, max: u64) -> Seq<u64> {
    if count_running(running) == max {
        worker_ids(ws)
    } else {
        worker_ids(select_by_flag(ws, running, true)) + worker_ids(select_by_flag(ws, running, false))
    }
}

/// The pool keeps exactly the ids `0..max_workers`, each once, from one
/// task to the next: respawning the stopped workers under their ids gives
/// back the same ids.
pub proof fn law_pool_ids_stay<W>(ws: Seq<(u64, W)>, running: Seq<bool>, max: u64)
    requires
        running.len() == ws.len(),
        worker_ids(ws).to_multiset() == pool_ids(max).to_multiset(),
    ensures
        ids_after_task(ws, running, max).to_multiset() == pool_ids(max).to_multiset(),
{
    law_retire_keeps_every_id(ws, running);
    vstd::seq_lib::lemma_multiset_commutative(
        worker_ids(select_by_flag(ws, running, true)),
        worker_ids(select_by_flag(ws, running, false)),
    );
}

/// The pool's ids after a run of arriving tasks, starting from `ids`:
/// `running[k]` tells, for the k-th task, which workers of the pool then
/// still ran; the stopped ones are respawned under their ids.
pub open spec fn ids_after_tasks(ids: Seq<u64>, running: Seq<Seq<bool>>, max: u64) -> Seq<u64>
    decreases running.len(),
{
    if running.len() == 0 {
        ids
    } else {
        let before = ids_after_tasks(ids, running.drop_last(), max);
        ids_after_task(before.map_values(|x: u64| (x, ())), running.last(), max)
    }
}

/// Across any run of arriving tasks the pool holds exactly the ids
/// `0..max_workers`, each once, as it did when it started.
pub proof fn law_pool_ids_stay_over_tasks(running: Seq<Seq<bool>>, max: u64)
    requires
        forall|k: int|
            0 <= k < running.len() ==> (#[trigger] running[k]).len() == ids_after_tasks(
                pool_ids(max),
                running.take(k),
                max,
            ).len(),
    ensures
        ids_after_tasks(pool_ids(max), running, max).to_multiset() == pool_ids(max).to_multiset(),
    decreases running.len(),
{
    if running.len() > 0 {
        let d = running.drop_last();
        assert forall|k: int| 0 <= k < d.len() implies (#[trigger] d[k]).len() == ids_after_tasks(
            pool_ids(max),
            d.take(k),
            max,
        ).len() by {
            assert(d.take(k) =~= running.take(k));
            assert(d[k] == running[k]);
        }
        law_pool_ids_stay_over_tasks(d, max);
        let before = ids_after_tasks(pool_ids(max), d, max);
        let ws = before.map_values(|x: u64| (x, ()));
        assert(worker_ids(ws) =~= before);
        assert(running.take(running.len() - 1) =~= d);
        law_pool_ids_stay(ws, running.last(), max);
    }
}

/// A task whose subscriber was never registered, and that is not among the
/// subscribers to begin with, has no subscriber to be told it is done.
pub proof fn law_unknown_task_has_no_subscriber<S>(
    m: Map<u128, S>,
    cs: Seq<SubscriberChange<S>>,
    task: u128,
)
    requires
        !m.contains_key(task),
        forall|j: int| 0 <= j < cs.len() ==> change_task(#[trigger] cs[j]) != task,
    ensures
        !apply_subscriber_changes(m, cs).contains_key(task),
    decreases cs.len(),
{
    if cs.len() > 0 {
        let d = cs.drop_last();
        assert forall|j: int| 0 <= j < d.len() implies change_task(#[trigger] d[j]) != task by {
            assert(d[j] == cs[j]);
        }
        law_unknown_task_has_no_subscriber(m, d, task);
        assert(change_task(cs[cs.len() - 1]) != task);
    }
}

/// A subscriber stays registered for its task until the task's subscriber
/// is next changed: after registering `subscriber` for `task`, changes about
/// other tasks leave it the one that is told when `task` is done.
pub proof fn law_subscriber_stays_until_unregistered<S>(
    m: Map<u128, S>,
    cs: Seq<SubscriberChange<S>>,
    k: int,
    task: u128,
    subscriber: S,
)
    requires
        0 <= k < cs.len(),
        cs[k] == SubscriberChange::Register(task, subscriber),
        forall|j: int| k < j < cs.len() ==> change_task(#[trigger] cs[j]) != task,
    ensures
        apply_subscriber_changes(m, cs).contains_key(task),
        apply_subscriber_changes(m, cs)[task] == subscriber,
    decreases cs.len(),
{
    if k < cs.len() - 1 {
        let d = cs.drop_last();
        assert forall|j: int| k < j < d.len() implies change_task(#[trigger] d[j]) != task by {
            assert(d[j] == cs[j]);
        }
        law_subscriber_stays_until_unregistered(m, d, k, task, subscriber);
        assert(change_task(cs[cs.len() - 1]) != task);
    }
}

/// Once the subscriber of a task is unregistered, and until one is
/// registered again, nobody is told when the task is done.
pub proof fn law_unregistered_task_has_no_subscriber<S>(
    m: Map<u128, S>,
    cs: Seq<SubscriberChange<S>>,
    k: int,
    task: u128,
)
    requires
        0 <= k < cs.len(),
        cs[k] == SubscriberChange::<S>::Unregister(task),
        forall|j: int| k < j < cs.len() ==> change_task(#[trigger] cs[j]) != task,
    ensures
        !apply_subscriber_changes(m, cs).contains_key(task),
    decreases cs.len(),
{
    if k < cs.len() - 1 {
        let d = cs.drop_last();
        assert forall|j: int| k < j < d.len() implies change_task(#[trigger] d[j]) != task by {
            assert(d[j] == cs[j]);
        }
        law_unregistered_task_has_no_subscriber(m, d, k, task);
        assert(change_task(cs[cs.len() - 1]) != task);
    }
}

/// The `k`-th worker started for a long running task gets the id
/// `max + k`: a new handler starts counting them at 0 and each id handed out
/// counts one more. That id is none of the pool's ids `0..max` and none of
/// the ids the earlier long running workers got.
pub proof fn law_long_worker_ids_are_fresh(max: u64, k: nat)
    requires
        k >= 1,
    ensures
        long_worker_id(max, k) == max + k,
        forall|i: int| 0 <= i < pool_ids(max).len() ==> #[trigger] pool_ids(max)[i] < long_worker_id(max, k),
        forall|j: nat| 1 <= j < k ==> #[trigger] long_worker_id(max, j) != long_worker_id(max, k),
{
}

/// A primary key column must be an integer: options that make a column a
/// primary key are valid for no other column type. Likewise a default of an
/// integer column must be an `i64` literal.
pub proof fn law_primary_key_needs_integer(o: CreateOptionsView, j: int, t: ColumnType)
    requires
        0 <= j < o.column_options.len(),
    ensures
        o.column_options[j].1 is PrimaryKey && t != ColumnType::Integer ==> !o.valid_for(t),
        o.column_options[j].1 is Default && o.valid_for(ColumnType::Integer) ==> parse_i64_spec(
            o.column_options[j].1->Default_0,
        ) is Some,
        o.column_options[j].1 is Default && o.valid_for(ColumnType::Float) ==> is_float_literal(
            o.column_options[j].1->Default_0,
        ),
{
}

/// Options that only ask for not null, uniqueness or a check are valid for a
/// column of any type.
pub proof fn law_plain_options_fit_every_type(o: CreateOptionsView, t: ColumnType)
    requires
        forall|j: int|
            0 <= j < o.column_options.len() ==> match #[trigger] o.column_options[j].1 {
                ColumnOptionView::NonNullable => true,
                ColumnOptionView::Unique => true,
                ColumnOptionView::Check(_) => true,
                _ => false,
            },
    ensures
        o.valid_for(t),
{
}

/// An ordering term names the column under its current name and keeps the
/// direction that was asked for: ` ASC` for ascending, ` DESC` for
/// descending, nothing when no direction was given.
pub proof fn law_order_terms_keep_direction(ms: Seq<MigrationView>, column: Seq<char>, current: Seq<char>)
    requires
        latest_column_name(ms, column) == Some(current),
    ensures
        order_term(ms, (column, Some(SearchOrderByOptions::Asc))) == current + " ASC"@,
        order_term(ms, (column, Some(SearchOrderByOptions::Desc))) == current + " DESC"@,
        order_term(ms, (column, None)) == current,
        order_term(ms, (column, Some(SearchOrderByOptions::Asc))) != order_term(
            ms,
            (column, Some(SearchOrderByOptions::Desc)),
        ),
{
    reveal_strlit(" ASC");
    reveal_strlit(" DESC");
    let a = order_term(ms, (column, Some(SearchOrderByOptions::Asc)));
    let d = order_term(ms, (column, Some(SearchOrderByOptions::Desc)));
    assert(a.len() != d.len());
}

/// The `ORDER BY` of a search lists its terms in the order given,
/// separated by commas: one term gives ` Order by <term>`, and one more term
/// adds `,<term>` at the end.
pub proof fn law_order_by_lists_terms(
    ms: Seq<MigrationView>,
    terms: Seq<(Seq<char>, Option<SearchOrderByOptions>)>,
    t: (Seq<char>, Option<SearchOrderByOptions>),
)
    ensures
        post_sql(ms, PostOptionView::OrderBy(seq![t])) == " Order by "@ + order_term(ms, t),
        terms.len() > 0 ==> post_sql(ms, PostOptionView::OrderBy(terms.push(t))) == post_sql(
            ms,
            PostOptionView::OrderBy(terms),
        ) + ","@ + order_term(ms, t),
{
    let f = |x: (Seq<char>, Option<SearchOrderByOptions>)| order_term(ms, x);
    assert(seq![t].map_values(f) =~= seq![order_term(ms, t)]);
    if terms.len() > 0 {
        let p = terms.push(t).map_values(f);
        assert(p.drop_last() =~= terms.map_values(f));
        assert(p.last() == order_term(ms, t));
    }
}

/// Every condition of a search or a deletion names its column under the
/// column's current name along the migration path, and binds the value at
/// its own position: condition `i` compares with placeholder `?i+1`. A
/// search uses the constraint's operator, a deletion always `=`.
pub proof fn law_conditions_use_current_names(
    ms: Seq<MigrationView>,
    cs: Seq<crate::models::search::ConstraintView>,
    i: int,
    current: Seq<char>,
)
    requires
        0 <= i < cs.len(),
        latest_column_name(ms, cs[i].column) == Some(current),
    ensures
        equality_clauses(ms, cs)[i] == current + " = (?"@ + nat_decimal((i + 1) as nat) + ")"@,
        constraint_clauses(ms, cs)[i] == current + " "@ + op_text(cs[i].operator) + " (?"@
            + nat_decimal((i + 1) as nat) + ")"@,
{
    reveal_strlit(" = (");
    reveal_strlit(" = (?");
    reveal_strlit(" (");
    reveal_strlit(" (?");
    reveal_strlit("?");
    assert(" = ("@ + ("?"@ + nat_decimal((i + 1) as nat)) =~= " = (?"@ + nat_decimal((i + 1) as nat));
    assert(" ("@ + ("?"@ + nat_decimal((i + 1) as nat)) =~= " (?"@ + nat_decimal((i + 1) as nat));
    assert(equality_clauses(ms, cs)[i] =~= current + " = (?"@ + nat_decimal((i + 1) as nat) + ")"@);
    assert(constraint_clauses(ms, cs)[i] =~= current + " "@ + op_text(cs[i].operator) + " (?"@
        + nat_decimal((i + 1) as nat) + ")"@);
}

proof fn lemma_join_nonempty(parts: Seq<Seq<char>>, sep: Seq<char>)
    requires
        parts.len() > 0,
        parts.last().len() > 0,
    ensures
        join(parts, sep).len() > 0,
{
}

/// A deletion without constraints removes every row of the table; with
/// constraints it removes the rows that meet all of them (their conditions
/// joined by `AND`).
pub proof fn law_delete_meets_every_condition(table: Seq<char>, ms: Seq<MigrationView>, q: QueryView)
    ensures
        q.constraints.len() == 0 ==> delete_sql(table, ms, q) == "DELETE FROM "@ + table,
        q.constraints.len() > 0 ==> delete_sql(table, ms, q) == "DELETE FROM "@ + table + " WHERE "@
            + join(equality_clauses(ms, q.constraints), " AND "@),
{
    let cl = equality_clauses(ms, q.constraints);
    if q.constraints.len() == 0 {
        assert(cl =~= Seq::<Seq<char>>::empty());
        assert(delete_sql(table, ms, q) =~= "DELETE FROM "@ + table);
    } else {
        reveal_strlit(" = (");
        reveal_strlit(")");
        assert(cl.last().len() > 0);
        lemma_join_nonempty(cl, " AND "@);
    }
}

/// The `WHERE` part of the update of the row whose id column `id_column`
/// holds `id`.
pub open spec fn update_target(id_column: Seq<char>, id: i64) -> Seq<char> {
    " WHERE "@ + id_column + " = "@ + int_decimal(id as int)
}

/// An update assigns every saved column its own placeholder, the
/// assignments separated by commas: one column gives
/// `UPDATE t SET c = ?1 WHERE ...`, and saving one more column adds
/// `, c = ?k` (with `k` its position) just before the `WHERE`.
pub proof fn law_update_assigns_each_column(
    table: Seq<char>,
    entries: Seq<SaveModelView>,
    e: SaveModelView,
    id_column: Seq<char>,
    id: i64,
)
    ensures
        update_sql(table, seq![e], id_column, id) == "UPDATE "@ + table + " SET "@ + e.key + " = ?1"@
            + update_target(id_column, id),
        update_sql(table, entries, id_column, id) == update_sql(table, entries, id_column, id).subrange(
            0,
            update_sql(table, entries, id_column, id).len() - update_target(id_column, id).len(),
        ) + update_target(id_column, id),
        entries.len() > 0 ==> update_sql(table, entries.push(e), id_column, id) == update_sql(
            table,
            entries,
            id_column,
            id,
        ).subrange(
            0,
            update_sql(table, entries, id_column, id).len() - update_target(id_column, id).len(),
        ) + ", "@ + e.key + " = ?"@ + nat_decimal((entries.len() + 1) as nat) + update_target(
            id_column,
            id,
        ),
{
    let w = update_target(id_column, id);
    let f = |es: Seq<SaveModelView>| Seq::new(es.len(), |i: int| es[i].key + " = "@ + placeholder(i));
    let head = |es: Seq<SaveModelView>| "UPDATE "@ + table + " SET "@ + join(f(es), ", "@);
    assert(update_sql(table, entries, id_column, id) =~= head(entries) + w);
    assert((head(entries) + w).subrange(0, (head(entries) + w).len() - w.len()) =~= head(entries));
    // one column
    reveal_strlit(" = ?1");
    reveal_strlit(" = ");
    reveal_strlit("?");
    assert(nat_decimal(1) =~= seq!['1']);
    assert(f(seq![e]).len() == 1);
    assert(f(seq![e])[0] =~= e.key + " = ?1"@);
    assert(update_sql(table, seq![e], id_column, id) =~= head(seq![e]) + w);
    // one more column
    if entries.len() > 0 {
        let p = entries.push(e);
        reveal_strlit(" = ?");
        assert(f(p).drop_last() =~= f(entries));
        assert(f(p).last() =~= e.key + " = ?"@ + nat_decimal((entries.len() + 1) as nat));
        assert(join(f(p), ", "@) == join(f(entries), ", "@) + ", "@ + f(p).last());
        assert(update_sql(table, p, id_column, id) =~= head(p) + w);
        assert(head(p) =~= head(entries) + ", "@ + e.key + " = ?"@ + nat_decimal(
            (entries.len() + 1) as nat,
        ));
    }
}

/// The line that a column's table options add to a `CREATE TABLE`.
pub open spec fn constraint_line(c: CreateColumnView) -> Seq<char> {
    "\t"@ + table_options_sql(c.options.table_options, c.key)
}

/// Whether a column adds table options (foreign keys) to its table.
pub open spec fn has_table_options(c: CreateColumnView) -> bool {
    c.options.table_options.len() > 0
}

/// A foreign key on the column `key` reads
/// `FOREIGN KEY (key) REFERENCES table(column)`.
pub proof fn law_foreign_key_line(key: Seq<char>, table: Seq<char>, column: Seq<char>)
    ensures
        table_options_sql(seq![TableOptionView::ForeignKey { table, column }], key) == "FOREIGN KEY ("@
            + key + ") REFERENCES "@ + table + "("@ + column + ")"@,
{
    let parts = seq![TableOptionView::ForeignKey { table, column }].map_values(
        |t: TableOptionView| crate::sqlite::ddl::table_option_sql(t, key),
    );
    assert(parts.len() == 1);
}

/// No foreign key is lost: the table constraints of a `CREATE TABLE` are
/// exactly the lines of the columns that have table options, one per such
/// column, in column order.
pub proof fn law_every_foreign_key_is_declared(cols: Seq<CreateColumnView>)
    ensures
        table_constraints(cols) == cols.filter(|c: CreateColumnView| has_table_options(c)).map_values(
            |c: CreateColumnView| constraint_line(c),
        ),
        forall|k: int|
            0 <= k < cols.len() && has_table_options(cols[k]) ==> table_constraints(cols).contains(
                #[trigger] constraint_line(cols[k]),
            ),
    decreases cols.len(),
{
    reveal(Seq::filter);
    let pred = |c: CreateColumnView| has_table_options(c);
    let line = |c: CreateColumnView| constraint_line(c);
    if cols.len() > 0 {
        let d = cols.drop_last();
        law_every_foreign_key_is_declared(d);
        assert(cols.filter(pred) == if pred(cols.last()) {
            d.filter(pred).push(cols.last())
        } else {
            d.filter(pred)
        });
        if pred(cols.last()) {
            assert(d.filter(pred).push(cols.last()).map_values(line) =~= d.filter(pred).map_values(
                line,
            ).push(line(cols.last())));
        }
        assert forall|k: int|
            0 <= k < cols.len() && has_table_options(cols[k]) implies table_constraints(cols).contains(
            #[trigger] constraint_line(cols[k]),
        ) by {
            if k < cols.len() - 1 {
                assert(cols[k] == d[k]);
                assert(table_constraints(d).contains(constraint_line(d[k])));
                let m = choose|m: int|
                    0 <= m < table_constraints(d).len() && table_constraints(d)[m] == constraint_line(
                        d[k],
                    );
                assert(table_constraints(cols)[m] == table_constraints(d)[m]);
            } else {
                assert(table_constraints(cols).last() == constraint_line(cols[k]));
            }
        }
    } else {
        assert(cols.filter(pred) =~= Seq::<CreateColumnView>::empty());
        assert(table_constraints(cols) =~= Seq::<Seq<char>>::empty());
    }
}

/// A search selects from its table the rows that meet all of its
/// constraints (their conditions joined by `AND`), and then applies its
/// options (ordering, limit); without constraints it has no `WHERE`.
pub proof fn law_search_meets_every_condition(table: Seq<char>, ms: Seq<MigrationView>, q: QueryView)
    ensures
        q.constraints.len() == 0 ==> select_sql(table, ms, q) == "SELECT "@ + select_text(q) + " FROM "@
            + table + post_options_sql(ms, crate::sqlite::order::sorted_by_key(q.post_options)),
        q.constraints.len() > 0 ==> select_sql(table, ms, q) == "SELECT "@ + select_text(q) + " FROM "@
            + table + " WHERE "@ + join(constraint_clauses(ms, q.constraints), " AND "@)
            + post_options_sql(ms, crate::sqlite::order::sorted_by_key(q.post_options)),
{
    let cl = constraint_clauses(ms, q.constraints);
    if q.constraints.len() == 0 {
        assert(cl =~= Seq::<Seq<char>>::empty());
    } else {
        reveal_strlit(" (");
        reveal_strlit(")");
        assert(cl.last().len() > 0);
        lemma_join_nonempty(cl, " AND "@);
    }
}

/// A limit of `l` rows reads ` LIMIT l`, with `l` in decimal.
pub proof fn law_limit_text(ms: Seq<MigrationView>, l: i64)
    ensures
        l >= 0 ==> post_sql(ms, PostOptionView::Limit(l)) == " LIMIT "@ + nat_decimal(l as nat),
        l < 0 ==> post_sql(ms, PostOptionView::Limit(l)) == " LIMIT -"@ + nat_decimal((-l) as nat),
{
    reveal_strlit(" LIMIT ");
    reveal_strlit(" LIMIT -");
    if l < 0 {
        assert(post_sql(ms, PostOptionView::Limit(l)) =~= " LIMIT -"@ + nat_decimal((-l) as nat));
    }
}

/// An insert lists the saved columns and, in the same order, one numbered
/// placeholder per column (`?1`, `?2`, ...), both separated by commas, and
/// returns the id column; one column gives
/// `INSERT INTO t (c) VALUES (?1) RETURNING id`.
pub proof fn law_insert_lists_each_column(
    table: Seq<char>,
    entries: Seq<SaveModelView>,
    e: SaveModelView,
    id_column: Seq<char>,
)
    ensures
        insert_sql(table, entries, id_column) == "INSERT INTO "@ + table + " ("@ + join(
            entries.map_values(|x: SaveModelView| x.key),
            ", "@,
        ) + ") VALUES ("@ + join(
            Seq::new(entries.len(), |i: int| "?"@ + nat_decimal((i + 1) as nat)),
            ", "@,
        ) + ") RETURNING "@ + id_column,
        insert_sql(table, seq![e], id_column) == "INSERT INTO "@ + table + " ("@ + e.key
            + ") VALUES (?1) RETURNING "@ + id_column,
{
    reveal_strlit(") VALUES (");
    reveal_strlit(") VALUES (?1) RETURNING ");
    reveal_strlit(")");
    reveal_strlit(" RETURNING ");
    reveal_strlit("?");
    reveal_strlit(") RETURNING ");
    assert(")"@ + " RETURNING "@ =~= ") RETURNING "@);
    assert(entries.map_values(|y: SaveModelView| y.key) =~= entries.map_values(|x: SaveModelView| x.key));
    assert(Seq::new(entries.len(), |i: int| placeholder(i)) =~= Seq::new(
        entries.len(),
        |i: int| "?"@ + nat_decimal((i + 1) as nat),
    ));
    assert(insert_sql(table, entries, id_column) =~= "INSERT INTO "@ + table + " ("@ + join(
        entries.map_values(|x: SaveModelView| x.key),
        ", "@,
    ) + ") VALUES ("@ + join(
        Seq::new(entries.len(), |i: int| "?"@ + nat_decimal((i + 1) as nat)),
        ", "@,
    ) + ") RETURNING "@ + id_column);
    let one = seq![e];
    assert(one.map_values(|x: SaveModelView| x.key).len() == 1);
    assert(join(one.map_values(|x: SaveModelView| x.key), ", "@) == e.key);
    assert(nat_decimal(1) =~= seq!['1']);
    assert(Seq::new(1, |i: int| placeholder(i)).len() == 1);
    assert(join(Seq::new(1, |i: int| placeholder(i)), ", "@) =~= "?1"@) by {
        reveal_strlit("?1");
    }
    assert(insert_sql(table, one, id_column) =~= "INSERT INTO "@ + table + " ("@ + e.key
        + ") VALUES (?1) RETURNING "@ + id_column);
}

} // verus!
