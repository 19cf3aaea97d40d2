//! What holds of the runner over several calls.

use vstd::prelude::*;
use crate::backend::{apply_planned, lemma_applied_records, BackendView};
use crate::catalog::{
    lemma_run_concat, lemma_run_single, lemma_run_well_formed, CatalogView, SchemaFault,
};
use crate::error::ErrorView;
use crate::ledger::{lemma_latest_index, newer, record_names, RecordView};
use crate::migration::{migration_names, MigrationView};
use crate::name::{
    first_index, is_first, lemma_first_exists, lemma_first_index, lemma_name_lt_total, name_lt,
};
use crate::operation::{reverses, OpView};
use crate::runner::{
    lemma_pending_complete, lemma_pending_members, pending, pending_upto, plan, plan_shape,
    status_of, violates,
};

verus! {

/// Where every name of the list is recorded, nothing is pending.
pub proof fn lemma_nothing_pending(names: Seq<Seq<char>>, applied: Seq<Seq<char>>, n: int)
    requires
        n <= names.len(),
        forall|i: int| 0 <= i < names.len() ==> applied.contains(#[trigger] names[i]),
    ensures
        pending_upto(names, applied, n) == Seq::<int>::empty(),
    decreases n,
{
    if n > 0 {
        lemma_nothing_pending(names, applied, n - 1);
    }
}

/// After an application that succeeds, every migration of the list is
/// recorded.
pub proof fn lemma_all_recorded(
    state: BackendView,
    migrations: Seq<MigrationView>,
    allow: bool,
    now: nat,
)
    requires
        state.apply_all(migrations, allow, now).1 is Ok,
    ensures
        forall|i: int|
            0 <= i < migrations.len() ==> record_names(
                state.apply_all(migrations, allow, now).0.ledger,
            ).contains(#[trigger] migration_names(migrations)[i]),
{
    let names = migration_names(migrations);
    let applied = record_names(state.ledger);
    let planned = pending(names, applied);
    let after = state.apply_all(migrations, allow, now).0.ledger;
    lemma_applied_records(state.catalog, state.ledger, migrations, planned, now);
    lemma_pending_members(names, applied, names.len() as int);
    assert forall|i: int| 0 <= i < migrations.len() implies record_names(after).contains(
        #[trigger] names[i],
    ) by {
        if applied.contains(names[i]) {
            let k = choose|k: int| 0 <= k < applied.len() && applied[k] == names[i];
            assert(record_names(after)[k] == names[i]);
        } else {
            lemma_first_exists(names, names[i]);
            let j = first_index(names, names[i]);
            lemma_pending_complete(names, applied, names.len() as int, j);
            let k = choose|k: int| 0 <= k < planned.len() && planned[k] == j;
            assert(record_names(after)[state.ledger.len() + k] == names[i]);
        }
    }
}

/// Before anything is applied, the status reports every migration of the
/// list, in its order, as not applied.
pub proof fn law_status_before_apply(migrations: Seq<MigrationView>)
    ensures
        status_of(migration_names(migrations), record_names(Seq::<RecordView>::empty()))
            == Seq::new(migrations.len(), |i: int| (migrations[i].name, false)),
{
    let names = migration_names(migrations);
    let none = record_names(Seq::<RecordView>::empty());
    assert(status_of(names, none) =~= Seq::new(
        migrations.len(),
        |i: int| (migrations[i].name, false),
    ));
}

/// Right after an application that succeeds, the status reports every
/// migration of the list, in its order, as applied.
pub proof fn law_status_after_apply(
    state: BackendView,
    migrations: Seq<MigrationView>,
    allow: bool,
    now: nat,
)
    requires
        state.apply_all(migrations, allow, now).1 is Ok,
    ensures
        status_of(
            migration_names(migrations),
            record_names(state.apply_all(migrations, allow, now).0.ledger),
        ) == Seq::new(migrations.len(), |i: int| (migrations[i].name, true)),
{
    lemma_all_recorded(state, migrations, allow, now);
    let names = migration_names(migrations);
    let after = record_names(state.apply_all(migrations, allow, now).0.ledger);
    assert(status_of(names, after) =~= Seq::new(
        migrations.len(),
        |i: int| (migrations[i].name, true),
    ));
}

/// Applying the same list a second time, right after an application that
/// succeeded, applies nothing: it returns the count 0 and leaves the backend
/// as it is.
pub proof fn law_apply_twice(
    state: BackendView,
    migrations: Seq<MigrationView>,
    allow: bool,
    first: nat,
    second: nat,
)
    requires
        state.apply_all(migrations, allow, first).1 is Ok,
    ensures
        ({
            let once = state.apply_all(migrations, allow, first).0;
            once.apply_all(migrations, allow, second) == (once, Ok::<nat, ErrorView>(0))
        }),
{
    lemma_all_recorded(state, migrations, allow, first);
    let once = state.apply_all(migrations, allow, first).0;
    let names = migration_names(migrations);
    let applied = record_names(once.ledger);
    lemma_nothing_pending(names, applied, names.len() as int);
}

/// With nothing recorded there is nothing to revert: the call fails and the
/// backend stays as it is.
pub proof fn law_nothing_to_revert(state: BackendView, migrations: Seq<MigrationView>)
    requires
        state.ledger.len() == 0,
    ensures
        state.revert_last(migrations) == (
            state,
            Err::<Seq<char>, ErrorView>(ErrorView::NothingToRevert),
        ),
{
}

/// The operation is not passed over: the schema refuses it or changes.
pub open spec fn takes_effect(c: CatalogView, op: OpView) -> bool {
    c.step(op) != Ok::<CatalogView, SchemaFault>(c)
}

/// As far as the run of `ups` gets from `c`, no operation is passed over: a
/// create is, where it says "if not exists" and its object exists.
pub open spec fn all_take_effect(c: CatalogView, ups: Seq<OpView>) -> bool {
    forall|p: int|
        0 <= p < ups.len() ==> (c.run(ups.take(p)) matches Ok(m) ==> takes_effect(
            m,
            #[trigger] ups[p],
        ))
}

/// As far as the application of the plan gets, no operation of a forward
/// action is passed over.
pub open spec fn plan_takes_effect(
    catalog: CatalogView,
    ledger: Seq<RecordView>,
    migrations: Seq<MigrationView>,
    planned: Seq<int>,
    now: nat,
) -> bool
    decreases planned.len(),
{
    planned.len() == 0 || {
        let before = apply_planned(catalog, ledger, migrations, planned.drop_last(), now);
        &&& plan_takes_effect(catalog, ledger, migrations, planned.drop_last(), now)
        &&& before.result is Ok ==> all_take_effect(
            before.catalog,
            migrations[planned.last()].up,
        )
    }
}

/// The operation is a create that insists on making its object: it does
/// not say "if not exists".
pub open spec fn insists(op: OpView) -> bool {
    match op {
        OpView::CreateTable { if_not_exists, .. } => !if_not_exists,
        OpView::CreateIndex { if_not_exists, .. } => !if_not_exists,
        _ => false,
    }
}

/// Every operation of the action is a create that insists.
pub open spec fn all_insist(ups: Seq<OpView>) -> bool {
    forall|p: int| 0 <= p < ups.len() ==> insists(#[trigger] ups[p])
}

/// A create that insists is never passed over.
pub proof fn lemma_insisting_takes_effect(c: CatalogView, op: OpView)
    requires
        insists(op),
    ensures
        takes_effect(c, op),
{
    if let Ok(d) = c.step(op) {
        assert(d.tables.len() + d.indexes.len() == c.tables.len() + c.indexes.len() + 1);
    }
}

/// Where every forward action is made of creates that insist, no operation
/// of the plan is passed over.
pub proof fn lemma_insisting_plan(
    catalog: CatalogView,
    ledger: Seq<RecordView>,
    migrations: Seq<MigrationView>,
    planned: Seq<int>,
    now: nat,
)
    requires
        forall|i: int| 0 <= i < migrations.len() ==> all_insist((#[trigger] migrations[i]).up),
        forall|k: int| 0 <= k < planned.len() ==> 0 <= (#[trigger] planned[k]) < migrations.len(),
    ensures
        plan_takes_effect(catalog, ledger, migrations, planned, now),
    decreases planned.len(),
{
    if planned.len() > 0 {
        let head = planned.drop_last();
        assert forall|k: int| 0 <= k < head.len() implies 0 <= (#[trigger] head[k])
            < migrations.len() by {
            assert(head[k] == planned[k]);
        }
        lemma_insisting_plan(catalog, ledger, migrations, head, now);
        let before = apply_planned(catalog, ledger, migrations, head, now);
        let ups = migrations[planned.last()].up;
        assert(all_insist(ups));
        assert forall|p: int| 0 <= p < ups.len() implies (before.catalog.run(
            ups.take(p),
        ) matches Ok(m) ==> takes_effect(m, #[trigger] ups[p])) by {
            if let Ok(m) = before.catalog.run(ups.take(p)) {
                lemma_insisting_takes_effect(m, ups[p]);
            }
        }
    }
}

/// The backend after `n` calls of `revert_last`, whatever each returned.
pub open spec fn revert_times(state: BackendView, migrations: Seq<MigrationView>, n: nat) -> BackendView
    decreases n,
{
    if n == 0 {
        state
    } else {
        revert_times(state.revert_last(migrations).0, migrations, (n - 1) as nat)
    }
}

/// The next `n` calls of `revert_last` all succeed.
pub open spec fn reverts_succeed(state: BackendView, migrations: Seq<MigrationView>, n: nat) -> bool
    decreases n,
{
    n == 0 || {
        &&& state.revert_last(migrations).1 is Ok
        &&& reverts_succeed(state.revert_last(migrations).0, migrations, (n - 1) as nat)
    }
}

/// A drop undoes the create before it: where the create made a new object
/// in a well-formed schema, the drop that undoes it gives that schema back.
pub proof fn lemma_undo_step(c: CatalogView, made: OpView, drop: OpView)
    requires
        c.well_formed(),
        drop.undoes(made),
        takes_effect(c, made),
        c.step(made) is Ok,
    ensures
        c.step(made)->Ok_0.step(drop) == Ok::<CatalogView, SchemaFault>(c),
{
    let d = c.step(made)->Ok_0;
    match made {
        OpView::CreateTable { table, .. } => {
            let n = c.tables.len() as int;
            assert(!c.has_table(table.name));
            assert(d.tables == c.tables.push(table));
            assert(d.table_names()[n] == table.name);
            assert forall|j: int| 0 <= j < n implies d.table_names()[j] != table.name by {
                assert(d.table_names()[j] == c.table_names()[j]);
            }
            assert(is_first(d.table_names(), table.name, n));
            lemma_first_index(d.table_names(), table.name, n);
            assert(!d.in_use(table.name)) by {
                if d.in_use(table.name) {
                    let j = choose|j: int|
                        0 <= j < d.indexes.len() && (#[trigger] d.indexes[j]).table == table.name;
                    assert(c.has_table(c.indexes[j].table));
                }
            }
            assert(d.tables.remove(n) =~= c.tables);
        },
        OpView::CreateIndex { index, .. } => {
            let n = c.indexes.len() as int;
            assert(!c.has_index(index.name));
            assert(d.indexes == c.indexes.push(index));
            assert(d.index_names()[n] == index.name);
            assert forall|j: int| 0 <= j < n implies d.index_names()[j] != index.name by {
                assert(d.index_names()[j] == c.index_names()[j]);
            }
            assert(is_first(d.index_names(), index.name, n));
            lemma_first_index(d.index_names(), index.name, n);
            assert(d.indexes.remove(n) =~= c.indexes);
        },
        _ => {},
    }
}

/// A backward action that undoes the forward action gives back the schema
/// from which the forward action started.
pub proof fn lemma_undo_run(c: CatalogView, up: Seq<OpView>, down: Seq<OpView>)
    requires
        c.well_formed(),
        reverses(down, up),
        all_take_effect(c, up),
        c.run(up) is Ok,
    ensures
        c.run(up)->Ok_0.run(down) == Ok::<CatalogView, (int, SchemaFault)>(c),
    decreases up.len(),
{
    if up.len() > 0 {
        let head = up.drop_last();
        let tail = down.subrange(1, down.len() as int);
        let m = c.run(head)->Ok_0;
        let d = c.run(up)->Ok_0;
        assert forall|p: int| 0 <= p < head.len() implies (c.run(head.take(p)) matches Ok(x)
            ==> takes_effect(x, #[trigger] head[p])) by {
            assert(head.take(p) =~= up.take(p));
        }
        lemma_run_well_formed(c, head);
        lemma_undo_run(c, head, tail);
        lemma_undo_step(m, up.last(), down[0]);
        lemma_run_single(d, down[0]);
        assert(down =~= seq![down[0]] + tail);
        lemma_run_concat(d, seq![down[0]], tail);
    }
}

/// With nothing recorded, no number of reverts changes the backend.
pub proof fn lemma_revert_nothing(state: BackendView, migrations: Seq<MigrationView>, n: nat)
    requires
        state.ledger.len() == 0,
    ensures
        revert_times(state, migrations, n) == state,
    decreases n,
{
    if n > 0 {
        lemma_revert_nothing(state, migrations, (n - 1) as nat);
    }
}

/// The names along the plan ascend.
pub open spec fn plan_ascends(names: Seq<Seq<char>>, planned: Seq<int>) -> bool {
    forall|j: int, k: int|
        0 <= j < k < planned.len() ==> name_lt(names[planned[j]], names[planned[k]])
}

/// What was applied by a plan, from a backend with nothing recorded, is
/// taken back by as many reverts as the plan is long, or more.
pub proof fn lemma_round_trip_planned(
    catalog: CatalogView,
    migrations: Seq<MigrationView>,
    planned: Seq<int>,
    now: nat,
    n: nat,
)
    requires
        catalog.well_formed(),
        forall|i: int| 0 <= i < migrations.len() ==> (#[trigger] migrations[i]).reversible(),
        plan_shape(migration_names(migrations), Seq::empty(), planned),
        plan_ascends(migration_names(migrations), planned),
        plan_takes_effect(catalog, Seq::empty(), migrations, planned, now),
        n >= planned.len(),
    ensures
        ({
            let done = apply_planned(catalog, Seq::empty(), migrations, planned, now);
            let after = BackendView { catalog: done.catalog, ledger: done.ledger, locked: false };
            &&& done.catalog.well_formed()
            &&& revert_times(after, migrations, n) == (BackendView {
                catalog,
                ledger: Seq::empty(),
                locked: false,
            })
            &&& reverts_succeed(after, migrations, done.ledger.len())
        }),
    decreases planned.len(),
{
    let names = migration_names(migrations);
    let none = Seq::<RecordView>::empty();
    let start = BackendView { catalog, ledger: none, locked: false };
    if planned.len() == 0 {
        lemma_revert_nothing(start, migrations, n);
    } else {
        let head = planned.drop_last();
        let before = apply_planned(catalog, none, migrations, head, now);
        let done = apply_planned(catalog, none, migrations, planned, now);
        assert(plan_shape(names, Seq::empty(), head)) by {
        }
        assert(plan_ascends(names, head)) by {
        }
        let i = planned.last();
        let m = migrations[i];
        if before.result is Ok && before.catalog.run(m.up) is Ok {
            lemma_round_trip_planned(catalog, migrations, head, now, (n - 1) as nat);
            lemma_applied_records(catalog, none, migrations, head, now);
            lemma_applied_records(catalog, none, migrations, planned, now);
            let state = BackendView { catalog: done.catalog, ledger: done.ledger, locked: false };
            let last = done.ledger.len() - 1;
            assert forall|j: int| 0 <= j < done.ledger.len() && j != last implies newer(
                done.ledger[last],
                #[trigger] done.ledger[j],
            ) by {
                assert(done.ledger[none.len() + j] == (RecordView {
                    name: migrations[planned[j]].name,
                    applied_at: now,
                }));
            }
            lemma_latest_index(done.ledger, last);
            lemma_first_index(names, m.name, i);
            lemma_undo_run(before.catalog, m.up, m.down);
            lemma_run_well_formed(before.catalog, m.up);
            assert(done.ledger.remove(last) =~= before.ledger);
            assert(state.revert_last(migrations) == (
                BackendView { catalog: before.catalog, ledger: before.ledger, locked: false },
                Ok::<Seq<char>, ErrorView>(m.name),
            ));
        } else {
            lemma_round_trip_planned(catalog, migrations, head, now, n);
        }
    }
}

/// From a backend with nothing recorded, applying a list of reversible
/// migrations and then reverting as many times as the list is long leaves
/// the backend as it was before anything ran: the same schema, and nothing
/// recorded. This holds whether the application succeeds, stops at a
/// migration that fails, or is refused. As many reverts as migrations were
/// applied succeed on the way: none is refused by the schema, as the drop of
/// a table that still carries an index would be.
///
/// It is stated for plans in the order of the names, which are the only
/// ones accepted unless out-of-order application is allowed: of migrations
/// applied at one time the one with the greatest name is reverted first,
/// which is the last one applied only where the names ascend. And it is
/// stated for applications in which no create is passed over because its
/// object exists already: such a create makes nothing, and the drop that
/// undoes it would take away what was there before.
pub proof fn law_round_trip(
    state: BackendView,
    migrations: Seq<MigrationView>,
    allow: bool,
    now: nat,
)
    requires
        state.catalog.well_formed(),
        state.ledger.len() == 0,
        forall|i: int| 0 <= i < migrations.len() ==> (#[trigger] migrations[i]).reversible(),
        allow ==> forall|i: int|
            !violates(migration_names(migrations), record_names(state.ledger), i),
        plan_takes_effect(
            state.catalog,
            state.ledger,
            migrations,
            pending(migration_names(migrations), record_names(state.ledger)),
            now,
        ),
    ensures
        revert_times(state.apply_all(migrations, allow, now).0, migrations, migrations.len())
            == state,
        reverts_succeed(
            state.apply_all(migrations, allow, now).0,
            migrations,
            state.apply_all(migrations, allow, now).0.ledger.len(),
        ),
{
    let names = migration_names(migrations);
    let none = Seq::<RecordView>::empty();
    assert(state.ledger =~= none);
    let applied = record_names(state.ledger);
    let planned = pending(names, applied);
    if state.locked || plan(names, applied, allow) is Err {
        lemma_revert_nothing(state, migrations, migrations.len());
    } else {
        lemma_pending_members(names, applied, names.len() as int);
        assert(plan_ascends(names, planned)) by {
            assert forall|j: int, k: int| 0 <= j < k < planned.len() implies name_lt(
                names[planned[j]],
                names[planned[k]],
            ) by {
                let a = planned[j];
                let b = planned[k];
                assert(!violates(names, applied, b));
                lemma_name_lt_total(names[a], names[b]);
            }
        }
        lemma_planned_within(names, applied, names.len() as int);
        lemma_round_trip_planned(state.catalog, migrations, planned, now, migrations.len());
    }
}

/// The round trip holds of every list of reversible migrations whose
/// creates insist on making their objects, on any well-formed schema: none
/// of them can be passed over.
pub proof fn law_round_trip_of_insisting(
    state: BackendView,
    migrations: Seq<MigrationView>,
    allow: bool,
    now: nat,
)
    requires
        state.catalog.well_formed(),
        state.ledger.len() == 0,
        forall|i: int| 0 <= i < migrations.len() ==> (#[trigger] migrations[i]).reversible(),
        forall|i: int| 0 <= i < migrations.len() ==> all_insist((#[trigger] migrations[i]).up),
        allow ==> forall|i: int|
            !violates(migration_names(migrations), record_names(state.ledger), i),
    ensures
        revert_times(state.apply_all(migrations, allow, now).0, migrations, migrations.len())
            == state,
        reverts_succeed(
            state.apply_all(migrations, allow, now).0,
            migrations,
            state.apply_all(migrations, allow, now).0.ledger.len(),
        ),
{
    let names = migration_names(migrations);
    let applied = record_names(state.ledger);
    lemma_pending_members(names, applied, names.len() as int);
    lemma_insisting_plan(state.catalog, state.ledger, migrations, pending(names, applied), now);
    law_round_trip(state, migrations, allow, now);
}

/// There are no more pending positions among the first `n` than `n`.
pub proof fn lemma_planned_within(names: Seq<Seq<char>>, applied: Seq<Seq<char>>, n: int)
    requires
        0 <= n,
    ensures
        pending_upto(names, applied, n).len() <= n,
    decreases n,
{
    if n > 0 {
        lemma_planned_within(names, applied, n - 1);
    }
}

} // verus!
