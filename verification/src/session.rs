//! One run of the runner against a database that the caller drives.
//!
//! The session decides and the caller acts: each step takes what happened
//! to the last action and answers with the next one. The caller carries an
//! action out in one transaction, the migration's operations together with
//! the change of its record, and reports how that went.

use vstd::prelude::*;
use crate::error::{Direction, ErrorView, Failure, FailureView, RunnerError};
use crate::ledger::{record_names, Ledger};
use crate::migration::{migration_names, migration_views, Migration};
use crate::runner::{plan, plan_apply, positions, revert_target, select_revert};

verus! {

/// What happened to the action that the session asked for last.
#[derive(Debug)]
pub enum Event {
    /// Nothing yet: the run begins.
    Start,
    /// The action and the change of its record are committed.
    Committed,
    /// The action failed for this reason, and nothing of it is left behind.
    Failed { failure: Failure },
    /// Another runner is at work on the same database; nothing was changed.
    Contended,
}

/// What an event is, as a mathematical value.
pub enum EventView {
    Start,
    Committed,
    Failed { failure: FailureView },
    Contended,
}

impl View for Event {
    type V = EventView;

    open spec fn view(&self) -> EventView {
        match self {
            Event::Start => EventView::Start,
            Event::Committed => EventView::Committed,
            Event::Failed { failure } => EventView::Failed { failure: failure@ },
            Event::Contended => EventView::Contended,
        }
    }
}

/// What the caller is to do next.
#[derive(Debug)]
pub enum Action {
    /// Carry out, in one transaction, this action of the migration at this
    /// position of the list, and write its record (forward) or delete it
    /// (backward).
    Execute { index: usize, direction: Direction },
    /// The run is over: so many migrations were applied, or reverted.
    Done { count: usize },
    /// The run is over with an error; what was committed before stays.
    Fail { error: RunnerError },
}

/// What an action is, as a mathematical value.
pub enum ActionView {
    Execute { index: int, direction: Direction },
    Done { count: int },
    Fail { error: ErrorView },
}

impl View for Action {
    type V = ActionView;

    open spec fn view(&self) -> ActionView {
        match self {
            Action::Execute { index, direction } => ActionView::Execute {
                index: *index as int,
                direction: *direction,
            },
            Action::Done { count } => ActionView::Done { count: *count as int },
            Action::Fail { error } => ActionView::Fail { error: error@ },
        }
    }
}

/// The state of a run, as a mathematical value: the direction, the planned
/// migrations by position and name, how many of them are done, whether an
/// action is under way, and whether the run is over.
pub struct SessionView {
    pub direction: Direction,
    pub planned: Seq<(int, Seq<char>)>,
    pub done: int,
    pub awaiting: bool,
    pub over: bool,
}

impl SessionView {
    /// The state after an event, and the action that answers it.
    ///
    /// An answer to the action under way moves the run on: a commit to the
    /// next planned migration, or to the end; a failure or a contention to
    /// the end, with the error. An answer that nothing waits for changes
    /// nothing. A run that is over stays over.
    pub open spec fn step(self, event: EventView) -> (SessionView, ActionView) {
        if self.over {
            (self, ActionView::Done { count: self.done })
        } else if self.awaiting && event is Failed {
            (
                SessionView { awaiting: false, over: true, ..self },
                ActionView::Fail {
                    error: ErrorView::Migration {
                        name: self.planned[self.done].1,
                        direction: self.direction,
                        failure: event->failure,
                    },
                },
            )
        } else if self.awaiting && event is Contended {
            (
                SessionView { awaiting: false, over: true, ..self },
                ActionView::Fail { error: ErrorView::LockContention },
            )
        } else if !self.awaiting && event is Contended {
            (SessionView { over: true, ..self }, ActionView::Fail { error: ErrorView::LockContention })
        } else {
            let done = if self.awaiting && event is Committed {
                self.done + 1
            } else {
                self.done
            };
            if done < self.planned.len() {
                (
                    SessionView { done, awaiting: true, ..self },
                    ActionView::Execute { index: self.planned[done].0, direction: self.direction },
                )
            } else {
                (
                    SessionView { done, awaiting: false, over: true, ..self },
                    ActionView::Done { count: done },
                )
            }
        }
    }
}

/// The planned positions with the names of their migrations.
pub open spec fn named(names: Seq<Seq<char>>, planned: Seq<int>) -> Seq<(int, Seq<char>)> {
    planned.map_values(|i: int| (i, names[i]))
}

/// One run of the runner.
#[derive(Debug)]
pub struct Session {
    direction: Direction,
    planned: Vec<(usize, String)>,
    done: usize,
    awaiting: bool,
    over: bool,
}

impl View for Session {
    type V = SessionView;

    closed spec fn view(&self) -> SessionView {
        SessionView {
            direction: self.direction,
            planned: self.planned@.map_values(|p: (usize, String)| (p.0 as int, p.1@)),
            done: self.done as int,
            awaiting: self.awaiting,
            over: self.over,
        }
    }
}

impl Session {
    /// The invariant of the type: the run is within its plan, and an action
    /// under way is one of the plan.
    #[verifier::type_invariant]
    spec fn within(self) -> bool {
        &&& self.done <= self.planned.len()
        &&& self.awaiting ==> self.done < self.planned.len()
    }

    /// A run over these positions, each with the name of its migration.
    fn with_names(migrations: &Vec<Migration>, planned: &Vec<usize>, direction: Direction) -> (r:
        Session)
        requires
            forall|k: int| 0 <= k < planned.len() ==> (#[trigger] planned@[k]) < migrations.len(),
        ensures
            r@ == (SessionView {
                direction,
                planned: named(
                    migration_names(migration_views(migrations@)),
                    positions(planned@),
                ),
                done: 0,
                awaiting: false,
                over: false,
            }),
    {
        let ghost names = migration_names(migration_views(migrations@));
        let mut pairs: Vec<(usize, String)> = Vec::new();
        let mut k: usize = 0;
        while k < planned.len()
            invariant
                k <= planned.len(),
                pairs.len() == k,
                names == migration_names(migration_views(migrations@)),
                forall|j: int| 0 <= j < planned.len() ==> (#[trigger] planned@[j]) < migrations.len(),
                forall|j: int|
                    0 <= j < k ==> (#[trigger] pairs@[j]).0 == planned@[j] && pairs@[j].1@
                        == names[planned@[j] as int],
            decreases planned.len() - k,
        {
            let i = planned[k];
            pairs.push((i, migrations[i].name.clone()));
            k = k + 1;
        }
        let r = Session { direction, planned: pairs, done: 0, awaiting: false, over: false };
        assert(r@.planned =~= named(names, positions(planned@)));
        r
    }

    /// A run that applies the pending migrations of the list. It is refused
    /// before anything is done where the plan is: see `plan`.
    pub fn for_apply(migrations: &Vec<Migration>, ledger: &Ledger, allow_out_of_order: bool) -> (r:
        Result<Session, RunnerError>)
        ensures
            match plan(
                migration_names(migration_views(migrations@)),
                record_names(ledger@),
                allow_out_of_order,
            ) {
                Ok(p) => r matches Ok(s) && s@ == (SessionView {
                    direction: Direction::Up,
                    planned: named(migration_names(migration_views(migrations@)), p),
                    done: 0,
                    awaiting: false,
                    over: false,
                }),
                Err(name) => r matches Err(e) && e@ == (ErrorView::OutOfOrder { name }),
            },
    {
        match plan_apply(migrations, ledger, allow_out_of_order) {
            Ok(planned) => {
                proof {
                    crate::runner::lemma_pending_members(
                        migration_names(migration_views(migrations@)),
                        record_names(ledger@),
                        migrations.len() as int,
                    );
                    assert forall|k: int| 0 <= k < planned.len() implies (#[trigger] planned@[k])
                        < migrations.len() by {
                        assert(positions(planned@)[k] == planned@[k]);
                    }
                }
                Ok(Self::with_names(migrations, &planned, Direction::Up))
            },
            Err(e) => Err(e),
        }
    }

    /// A run that reverts the migration that was applied most recently. It
    /// is refused before anything is done where there is none: see
    /// `revert_target`.
    pub fn for_revert(migrations: &Vec<Migration>, ledger: &Ledger) -> (r: Result<
        Session,
        RunnerError,
    >)
        ensures
            match revert_target(migration_names(migration_views(migrations@)), ledger@) {
                Ok(i) => r matches Ok(s) && s@ == (SessionView {
                    direction: Direction::Down,
                    planned: seq![(i, migration_names(migration_views(migrations@))[i])],
                    done: 0,
                    awaiting: false,
                    over: false,
                }),
                Err(e) => r matches Err(x) && x@ == e,
            },
    {
        match select_revert(migrations, ledger) {
            Ok(i) => {
                let mut planned: Vec<usize> = Vec::new();
                planned.push(i);
                let s = Self::with_names(migrations, &planned, Direction::Down);
                proof {
                    let names = migration_names(migration_views(migrations@));
                    assert(named(names, positions(planned@)) =~= seq![(i as int, names[i as int])]);
                }
                Ok(s)
            },
            Err(e) => Err(e),
        }
    }

    /// Takes what happened to the last action and answers with the next one.
    pub fn step(&mut self, event: Event) -> (action: Action)
        ensures
            final(self)@ == old(self)@.step(event@).0,
            action@ == old(self)@.step(event@).1,
    {
        proof {
            use_type_invariant(&*self);
        }
        if self.over {
            return Action::Done { count: self.done };
        }
        match event {
            Event::Failed { failure } => {
                if self.awaiting {
                    let name = self.planned[self.done].1.clone();
                    self.awaiting = false;
                    self.over = true;
                    return Action::Fail {
                        error: RunnerError::Migration { name, direction: self.direction, failure },
                    };
                }
            },
            Event::Contended => {
                self.awaiting = false;
                self.over = true;
                return Action::Fail { error: RunnerError::LockContention };
            },
            Event::Committed => {
                if self.awaiting {
                    self.awaiting = false;
                    self.done = self.done + 1;
                }
            },
            Event::Start => {},
        }
        if self.done < self.planned.len() {
            self.awaiting = true;
            Action::Execute { index: self.planned[self.done].0, direction: self.direction }
        } else {
            self.awaiting = false;
            self.over = true;
            Action::Done { count: self.done }
        }
    }
}

} // verus!
