//! A schema backend held in memory: a schema, the bookkeeping of applied
//! migrations, and a lock. The runner's three operations work on it as they
//! would on a database: each migration is applied, or reverted, together
//! with its record or not at all.

use vstd::prelude::*;
use crate::catalog::{lemma_run_fault_position, Catalog, CatalogView};
use crate::error::{Direction, ErrorView, Failure, FailureView, RunnerError};
use crate::ledger::{latest_index, lemma_latest_exists, record_names, Ledger, RecordView};
use crate::migration::{migration_names, migration_views, Migration, MigrationView};
use crate::name::{lemma_first_exists, lemma_first_index};
use crate::runner::{
    is_pending, lemma_pending_members, pending, plan, plan_shape, revert_target, status,
    status_of, status_views,
};
use crate::session::{named, Action, Event, EventView, Session};

verus! {

/// The observable state of a backend.
pub struct BackendView {
    pub catalog: CatalogView,
    pub ledger: Seq<RecordView>,
    pub locked: bool,
}

/// What applying a plan leaves behind: the schema, the records, and the
/// number of migrations applied or the error that stopped the run.
pub struct Applied {
    pub catalog: CatalogView,
    pub ledger: Seq<RecordView>,
    pub result: Result<nat, ErrorView>,
}

/// Applies the planned migrations one after the other, each with its record
/// or not at all, and stops at the first that fails: those after it are not
/// attempted.
pub open spec fn apply_planned(
    catalog: CatalogView,
    ledger: Seq<RecordView>,
    migrations: Seq<MigrationView>,
    planned: Seq<int>,
    now: nat,
) -> Applied
    decreases planned.len(),
{
    if planned.len() == 0 {
        Applied { catalog, ledger, result: Ok(0) }
    } else {
        let before = apply_planned(catalog, ledger, migrations, planned.drop_last(), now);
        match before.result {
            Err(_) => before,
            Ok(n) => {
                let m = migrations[planned.last()];
                match before.catalog.run(m.up) {
                    Ok(c) => Applied {
                        catalog: c,
                        ledger: before.ledger.push(RecordView { name: m.name, applied_at: now }),
                        result: Ok(n + 1),
                    },
                    Err((position, fault)) => Applied {
                        catalog: before.catalog,
                        ledger: before.ledger,
                        result: Err(
                            ErrorView::Migration {
                                name: m.name,
                                direction: Direction::Up,
                                failure: FailureView::Schema { position, fault },
                            },
                        ),
                    },
                }
            },
        }
    }
}

impl BackendView {
    /// The backend after `apply_all`, and what the call returns.
    pub open spec fn apply_all(self, migrations: Seq<MigrationView>, allow: bool, now: nat) -> (
        BackendView,
        Result<nat, ErrorView>,
    ) {
        if self.locked {
            (self, Err(ErrorView::LockContention))
        } else {
            match plan(migration_names(migrations), record_names(self.ledger), allow) {
                Err(name) => (self, Err(ErrorView::OutOfOrder { name })),
                Ok(planned) => {
                    let done = apply_planned(self.catalog, self.ledger, migrations, planned, now);
                    (
                        BackendView { catalog: done.catalog, ledger: done.ledger, locked: false },
                        done.result,
                    )
                },
            }
        }
    }

    /// The backend after `revert_last`, and what the call returns: the name
    /// of the migration that was reverted, or the error.
    pub open spec fn revert_last(self, migrations: Seq<MigrationView>) -> (
        BackendView,
        Result<Seq<char>, ErrorView>,
    ) {
        match revert_target(migration_names(migrations), self.ledger) {
            Err(e) => (self, Err(e)),
            Ok(i) => {
                if self.locked {
                    (self, Err(ErrorView::LockContention))
                } else {
                    let m = migrations[i];
                    match self.catalog.run(m.down) {
                        Ok(c) => (
                            BackendView {
                                catalog: c,
                                ledger: self.ledger.remove(latest_index(self.ledger)),
                                locked: false,
                            },
                            Ok(m.name),
                        ),
                        Err((position, fault)) => (
                            self,
                            Err(
                                ErrorView::Migration {
                                    name: m.name,
                                    direction: Direction::Down,
                                    failure: FailureView::Schema { position, fault },
                                },
                            ),
                        ),
                    }
                }
            },
        }
    }
}

/// What applying a plan does to the records: those that were there stay in
/// place, and one is written behind them for each migration that was
/// applied, in the order of the plan.
pub proof fn lemma_applied_records(
    catalog: CatalogView,
    ledger: Seq<RecordView>,
    migrations: Seq<MigrationView>,
    planned: Seq<int>,
    now: nat,
)
    ensures
        ({
            let done = apply_planned(catalog, ledger, migrations, planned, now);
            let count = done.ledger.len() - ledger.len();
            &&& 0 <= count <= planned.len()
            &&& done.result matches Ok(n) ==> n == planned.len() && count == planned.len()
            &&& forall|k: int| 0 <= k < ledger.len() ==> done.ledger[k] == ledger[k]
            &&& forall|k: int|
                0 <= k < count ==> done.ledger[ledger.len() + k] == (RecordView {
                    name: migrations[planned[k]].name,
                    applied_at: now,
                })
        }),
    decreases planned.len(),
{
    if planned.len() > 0 {
        lemma_applied_records(catalog, ledger, migrations, planned.drop_last(), now);
        let before = apply_planned(catalog, ledger, migrations, planned.drop_last(), now);
        let done = apply_planned(catalog, ledger, migrations, planned, now);
        let count = done.ledger.len() - ledger.len();
        assert forall|k: int| 0 <= k < count implies done.ledger[ledger.len() + k] == (RecordView {
            name: migrations[planned[k]].name,
            applied_at: now,
        }) by {
            if ledger.len() + k < before.ledger.len() {
                assert(planned.drop_last()[k] == planned[k]);
            }
        }
    }
}

/// A backend in memory.
#[derive(Debug)]
pub struct MemoryBackend {
    catalog: Catalog,
    ledger: Ledger,
    locked: bool,
}

impl View for MemoryBackend {
    type V = BackendView;

    closed spec fn view(&self) -> BackendView {
        BackendView { catalog: self.catalog@, ledger: self.ledger@, locked: self.locked }
    }
}

impl MemoryBackend {
    /// A backend with an empty schema, nothing applied, and no lock held.
    pub fn new() -> (r: Self)
        ensures
            r@ == (BackendView {
                catalog: CatalogView { tables: Seq::empty(), indexes: Seq::empty() },
                ledger: Seq::empty(),
                locked: false,
            }),
    {
        MemoryBackend { catalog: Catalog::new(), ledger: Ledger::new(), locked: false }
    }

    /// A backend that holds this schema, with nothing applied.
    pub fn with_catalog(catalog: Catalog) -> (r: Self)
        ensures
            r@ == (BackendView { catalog: catalog@, ledger: Seq::empty(), locked: false }),
    {
        MemoryBackend { catalog, ledger: Ledger::new(), locked: false }
    }

    /// The schema.
    pub fn catalog(&self) -> (r: &Catalog)
        ensures
            r@ == self@.catalog,
    {
        &self.catalog
    }

    /// The records of the applied migrations.
    pub fn ledger(&self) -> (r: &Ledger)
        ensures
            r@ == self@.ledger,
    {
        &self.ledger
    }

    /// Takes the lock, as a runner at work does. The result says whether the
    /// lock was free.
    pub fn lock(&mut self) -> (r: bool)
        ensures
            r == !old(self)@.locked,
            final(self)@ == (BackendView { locked: true, ..old(self)@ }),
    {
        let free = !self.locked;
        self.locked = true;
        free
    }

    /// Gives the lock back.
    pub fn unlock(&mut self)
        ensures
            final(self)@ == (BackendView { locked: false, ..old(self)@ }),
    {
        self.locked = false;
    }

    /// Reports, for each migration in the order of the list, its name and
    /// whether it is applied. Nothing is changed.
    pub fn status(&self, migrations: &Vec<Migration>) -> (r: Vec<(String, bool)>)
        ensures
            r.len() == migrations.len(),
            status_views(r@) == status_of(
                migration_names(migration_views(migrations@)),
                record_names(self@.ledger),
            ),
    {
        status(migrations, &self.ledger)
    }

    /// Applies every pending migration, in the order of the list: its
    /// forward action and its record together, or neither. Returns the number
    /// applied. Stops at the first failure, which leaves what was applied
    /// before it in place. While another runner holds the lock, and where the
    /// plan is out of order, nothing is changed.
    pub fn apply_all(
        &mut self,
        migrations: &Vec<Migration>,
        allow_out_of_order: bool,
        now: u64,
    ) -> (r: Result<usize, RunnerError>)
        ensures
            final(self)@ == old(self)@.apply_all(
                migration_views(migrations@),
                allow_out_of_order,
                now as nat,
            ).0,
            match old(self)@.apply_all(
                migration_views(migrations@),
                allow_out_of_order,
                now as nat,
            ).1 {
                Ok(n) => r matches Ok(count) && count == n,
                Err(e) => r matches Err(x) && x@ == e,
            },
    {
        if self.locked {
            return Err(RunnerError::LockContention);
        }
        let ghost all = migration_views(migrations@);
        let ghost names = migration_names(all);
        let ghost applied = record_names(self.ledger@);
        let ghost catalog0 = self.catalog@;
        let ghost ledger0 = self.ledger@;
        let mut session = match Session::for_apply(migrations, &self.ledger, allow_out_of_order) {
            Ok(s) => s,
            Err(e) => {
                return Err(e);
            },
        };
        let ghost steps = plan(names, applied, allow_out_of_order)->Ok_0;
        proof {
            lemma_pending_members(names, applied, names.len() as int);
        }
        let mut event = Event::Start;
        loop
            invariant
                !self.locked,
                old(self)@ == (BackendView { catalog: catalog0, ledger: ledger0, locked: false }),
                plan(names, applied, allow_out_of_order) == Ok::<Seq<int>, Seq<char>>(steps),
                all == migration_views(migrations@),
                names == migration_names(all),
                applied == record_names(ledger0),
                plan_shape(names, applied, steps),
                session@.direction == Direction::Up,
                session@.planned == named(names, steps),
                !session@.over,
                0 <= session@.done,
                session@.awaiting ==> session@.done < steps.len(),
                !session@.awaiting ==> session@.done == 0 && event@ is Start,
                session@.awaiting ==> event@ is Committed || event@ is Failed,
                reaches(
                    catalog0,
                    ledger0,
                    all,
                    steps,
                    now as nat,
                    session@.done,
                    event@,
                    self.catalog@,
                    self.ledger@,
                ),
            decreases
                    2 * (steps.len() - session@.done) + (if event@ is Failed {
                        0int
                    } else if session@.awaiting {
                        1int
                    } else {
                        2int
                    }),
        {
            let ghost before = session@;
            match session.step(event) {
                Action::Execute { index, direction } => {
                    let ghost k = session@.done;
                    proof {
                        assert(steps.take(k + 1).drop_last() =~= steps.take(k));
                        lemma_run_fault_position(self.catalog@, all[index as int].up);
                    }
                    match self.catalog.apply_all(&migrations[index].up) {
                        Ok(()) => {
                            proof {
                                lemma_not_yet_recorded(
                                    catalog0,
                                    ledger0,
                                    all,
                                    steps.take(k),
                                    now as nat,
                                    index as int,
                                );
                            }
                            let inserted = self.ledger.insert(migrations[index].name.clone(), now);
                            assert(inserted);
                            event = Event::Committed;
                        },
                        Err((position, fault)) => {
                            event = Event::Failed { failure: Failure::Schema { position, fault } };
                        },
                    }
                },
                Action::Done { count } => {
                    proof {
                        assert(steps.take(steps.len() as int) =~= steps);
                    }
                    return Ok(count);
                },
                Action::Fail { error } => {
                    proof {
                        let k = before.done;
                        assert(steps.take(k + 1).drop_last() =~= steps.take(k));
                        assert(apply_planned(
                            catalog0,
                            ledger0,
                            all,
                            steps.take(k + 1),
                            now as nat,
                        ).result is Err);
                        lemma_apply_stops(catalog0, ledger0, all, steps, now as nat, k + 1);
                    }
                    return Err(error);
                },
            }
        }
    }

    /// Reverts the migration that was applied most recently: its backward
    /// action and the removal of its record together, or neither. Returns the
    /// name of the migration. Where nothing is recorded there is nothing to
    /// revert, and nothing is changed.
    pub fn revert_last(&mut self, migrations: &Vec<Migration>) -> (r: Result<String, RunnerError>)
        ensures
            final(self)@ == old(self)@.revert_last(migration_views(migrations@)).0,
            match old(self)@.revert_last(migration_views(migrations@)).1 {
                Ok(name) => r matches Ok(reverted) && reverted@ == name,
                Err(e) => r matches Err(x) && x@ == e,
            },
            old(self)@.ledger.len() == 0 ==> final(self)@ == old(self)@ && (r matches Err(x) && x@
                == ErrorView::NothingToRevert),
    {
        let ghost all = migration_views(migrations@);
        let ghost names = migration_names(all);
        let mut session = match Session::for_revert(migrations, &self.ledger) {
            Ok(s) => s,
            Err(e) => {
                return Err(e);
            },
        };
        if self.locked {
            return Err(RunnerError::LockContention);
        }
        proof {
            use_type_invariant(&self.ledger);
            self.ledger.lemma_names_distinct();
            let l = self.ledger@;
            let p = latest_index(l);
            lemma_latest_exists(l);
            assert(record_names(l)[p] == l[p].name);
            lemma_first_index(record_names(l), l[p].name, p);
            lemma_first_exists(names, l[p].name);
        }
        let index = match session.step(Event::Start) {
            Action::Execute { index, direction } => index,
            _ => unreached(),
        };
        proof {
            lemma_run_fault_position(self.catalog@, all[index as int].down);
        }
        let event = match self.catalog.apply_all(&migrations[index].down) {
            Ok(()) => {
                let removed = self.ledger.remove(&migrations[index].name);
                assert(removed);
                Event::Committed
            },
            Err((position, fault)) => Event::Failed {
                failure: Failure::Schema { position, fault },
            },
        };
        match session.step(event) {
            Action::Done { count } => Ok(migrations[index].name.clone()),
            Action::Fail { error } => Err(error),
            _ => unreached(),
        }
    }
}

/// How far a run of `apply_all` has come when the session has `done`
/// migrations behind it and is handed `event`: the backend holds what the
/// plan leaves up to there, the migration just committed included; after a
/// failure, the next migration of the plan is the one that the schema
/// refused, for the reason the event gives.
pub open spec fn reaches(
    catalog: CatalogView,
    ledger: Seq<RecordView>,
    migrations: Seq<MigrationView>,
    steps: Seq<int>,
    now: nat,
    done: int,
    event: EventView,
    current_catalog: CatalogView,
    current_ledger: Seq<RecordView>,
) -> bool {
    let so_far = if event is Committed {
        done + 1
    } else {
        done
    };
    &&& 0 <= so_far <= steps.len()
    &&& apply_planned(catalog, ledger, migrations, steps.take(so_far), now) == (Applied {
        catalog: current_catalog,
        ledger: current_ledger,
        result: Ok(so_far as nat),
    })
    &&& event matches EventView::Failed { failure } ==> done < steps.len() && (
    current_catalog.run(migrations[steps[done]].up) matches Err((position, fault)) && failure
        == (FailureView::Schema { position, fault }))
}

/// A run that has failed stays as it is, whatever else was planned.
pub proof fn lemma_apply_stops(
    catalog: CatalogView,
    ledger: Seq<RecordView>,
    migrations: Seq<MigrationView>,
    planned: Seq<int>,
    now: nat,
    n: int,
)
    requires
        0 <= n <= planned.len(),
        apply_planned(catalog, ledger, migrations, planned.take(n), now).result is Err,
    ensures
        apply_planned(catalog, ledger, migrations, planned, now) == apply_planned(
            catalog,
            ledger,
            migrations,
            planned.take(n),
            now,
        ),
    decreases planned.len(),
{
    if n < planned.len() {
        assert(planned.drop_last().take(n) =~= planned.take(n));
        lemma_apply_stops(catalog, ledger, migrations, planned.drop_last(), now, n);
    } else {
        assert(planned.take(n) =~= planned);
    }
}

/// A planned migration whose turn has not come is not recorded yet.
pub proof fn lemma_not_yet_recorded(
    catalog: CatalogView,
    ledger: Seq<RecordView>,
    migrations: Seq<MigrationView>,
    done: Seq<int>,
    now: nat,
    next: int,
)
    requires
        is_pending(migration_names(migrations), record_names(ledger), next),
        forall|k: int| 0 <= k < done.len() ==> 0 <= #[trigger] done[k] < next,
    ensures
        !record_names(apply_planned(catalog, ledger, migrations, done, now).ledger).contains(
            migrations[next].name,
        ),
{
    lemma_applied_records(catalog, ledger, migrations, done, now);
    let after = apply_planned(catalog, ledger, migrations, done, now).ledger;
    let names = migration_names(migrations);
    assert forall|j: int| 0 <= j < after.len() implies record_names(after)[j]
        != migrations[next].name by {
        if j < ledger.len() {
            assert(record_names(ledger)[j] == after[j].name);
        } else {
            let k = j - ledger.len();
            assert(names[done[k]] != names[next]);
        }
    }
}

} // verus!
