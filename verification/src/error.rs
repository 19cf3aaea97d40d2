//! What can go wrong while migrations run.

use vstd::prelude::*;
use crate::catalog::SchemaFault;

verus! {

/// The action of a migration: forward or backward.
#[derive(Debug, Clone, Copy, PartialEq, Eq, Structural)]
pub enum Direction {
    Up,
    Down,
}

/// The four kinds of error.
#[derive(Debug, Clone, Copy, PartialEq, Eq, Structural)]
pub enum ErrorKind {
    Connection,
    Migration,
    OutOfOrder,
    LockContention,
}

/// What a failure of one action is, as a mathematical value.
pub enum FailureView {
    Schema { position: int, fault: SchemaFault },
    Backend { detail: Seq<char> },
    MissingDefinition,
}

/// Why one action of one migration failed.
#[derive(Debug)]
pub enum Failure {
    /// The schema refused the operation at this position of the action.
    Schema { position: usize, fault: SchemaFault },
    /// The database reported an error.
    Backend { detail: String },
    /// The migration is recorded as applied, but the list of migrations
    /// holds none of its name.
    MissingDefinition,
}

impl View for Failure {
    type V = FailureView;

    open spec fn view(&self) -> FailureView {
        match self {
            Failure::Schema { position, fault } => FailureView::Schema {
                position: *position as int,
                fault: *fault,
            },
            Failure::Backend { detail } => FailureView::Backend { detail: detail@ },
            Failure::MissingDefinition => FailureView::MissingDefinition,
        }
    }
}

/// What an error is, as a mathematical value.
pub enum ErrorView {
    Connection { detail: Seq<char> },
    NothingToRevert,
    Migration { name: Seq<char>, direction: Direction, failure: FailureView },
    OutOfOrder { name: Seq<char> },
    LockContention,
}

/// An error of the runner. None is retried, and none is swallowed.
#[derive(Debug)]
pub enum RunnerError {
    /// The database cannot be reached.
    Connection { detail: String },
    /// There is no applied migration to revert.
    NothingToRevert,
    /// An action of the named migration failed.
    Migration { name: String, direction: Direction, failure: Failure },
    /// The named migration sorts before one that is applied already.
    OutOfOrder { name: String },
    /// Another runner is at work on the same database.
    LockContention,
}

impl View for RunnerError {
    type V = ErrorView;

    open spec fn view(&self) -> ErrorView {
        match self {
            RunnerError::Connection { detail } => ErrorView::Connection { detail: detail@ },
            RunnerError::NothingToRevert => ErrorView::NothingToRevert,
            RunnerError::Migration { name, direction, failure } => ErrorView::Migration {
                name: name@,
                direction: *direction,
                failure: failure@,
            },
            RunnerError::OutOfOrder { name } => ErrorView::OutOfOrder { name: name@ },
            RunnerError::LockContention => ErrorView::LockContention,
        }
    }
}

impl ErrorView {
    /// The kind of the error; to find nothing to revert is a migration error.
    pub open spec fn kind(self) -> ErrorKind {
        match self {
            ErrorView::Connection { .. } => ErrorKind::Connection,
            ErrorView::NothingToRevert => ErrorKind::Migration,
            ErrorView::Migration { .. } => ErrorKind::Migration,
            ErrorView::OutOfOrder { .. } => ErrorKind::OutOfOrder,
            ErrorView::LockContention => ErrorKind::LockContention,
        }
    }
}

impl RunnerError {
    /// The kind of the error.
    pub fn kind(&self) -> (r: ErrorKind)
        ensures
            r == self@.kind(),
    {
        match self {
            RunnerError::Connection { .. } => ErrorKind::Connection,
            RunnerError::NothingToRevert => ErrorKind::Migration,
            RunnerError::Migration { .. } => ErrorKind::Migration,
            RunnerError::OutOfOrder { .. } => ErrorKind::OutOfOrder,
            RunnerError::LockContention => ErrorKind::LockContention,
        }
    }
}

/// The exit code of a tool that ends with this result: zero on success, one
/// code for each kind of error.
pub open spec fn exit_code_of(kind: Option<ErrorKind>) -> u8 {
    match kind {
        None => 0,
        Some(ErrorKind::Migration) => 1,
        Some(ErrorKind::OutOfOrder) => 2,
        Some(ErrorKind::LockContention) => 3,
        Some(ErrorKind::Connection) => 4,
    }
}

/// The exit code for an outcome: zero exactly where there is no error.
pub fn exit_code(error: Option<&RunnerError>) -> (r: u8)
    ensures
        r == exit_code_of(
            match error {
                Some(e) => Some(e@.kind()),
                None => None,
            },
        ),
        r == 0 <==> error is None,
{
    match error {
        None => 0,
        Some(e) => match e.kind() {
            ErrorKind::Migration => 1,
            ErrorKind::OutOfOrder => 2,
            ErrorKind::LockContention => 3,
            ErrorKind::Connection => 4,
        },
    }
}

} // verus!
