use schema_migration::catalog::SchemaFault;
use schema_migration::error::{Direction, Failure, RunnerError};
use schema_migration::ledger::Ledger;
use schema_migration::migration::Migration;
use schema_migration::operation::SchemaOp;
use schema_migration::schema::{uuid, TableDef};
use schema_migration::session::{Action, Event, Session};

fn list(names: &[&str]) -> Vec<Migration> {
    names
        .iter()
        .map(|n| {
            let up = vec![SchemaOp::CreateTable {
                table: TableDef::new(n).col(uuid("id")),
                if_not_exists: true,
            }];
            Migration::reversing(n.to_string(), up).unwrap()
        })
        .collect()
}

fn ledger(records: &[(&str, u64)]) -> Ledger {
    let mut l = Ledger::new();
    for (name, at) in records {
        l.insert(name.to_string(), *at);
    }
    l
}

fn execute(action: Action) -> (usize, Direction) {
    match action {
        Action::Execute { index, direction } => (index, direction),
        other => panic!("expected an action to carry out, got {:?}", other),
    }
}

fn done(action: Action) -> usize {
    match action {
        Action::Done { count } => count,
        other => panic!("expected the end of the run, got {:?}", other),
    }
}

#[test]
fn a_run_asks_for_each_pending_migration_in_turn() {
    let m = list(&["m1", "m2", "m3"]);
    let mut s = Session::for_apply(&m, &ledger(&[("m1", 1)]), false).unwrap();
    assert_eq!(execute(s.step(Event::Start)), (1, Direction::Up));
    assert_eq!(execute(s.step(Event::Committed)), (2, Direction::Up));
    assert_eq!(done(s.step(Event::Committed)), 2);
    assert_eq!(done(s.step(Event::Committed)), 2);
    assert_eq!(done(s.step(Event::Start)), 2);
}

#[test]
fn a_run_with_nothing_pending_ends_at_once() {
    let m = list(&["m1"]);
    let mut s = Session::for_apply(&m, &ledger(&[("m1", 1)]), false).unwrap();
    assert_eq!(done(s.step(Event::Start)), 0);
}

#[test]
fn a_failure_ends_the_run_with_the_name_and_the_direction() {
    let m = list(&["m1", "m2", "m3"]);
    let mut s = Session::for_apply(&m, &Ledger::new(), false).unwrap();
    assert_eq!(execute(s.step(Event::Start)), (0, Direction::Up));
    assert_eq!(execute(s.step(Event::Committed)), (1, Direction::Up));
    match s.step(Event::Failed { failure: Failure::Backend { detail: "relation exists".to_string() } }) {
        Action::Fail { error: RunnerError::Migration { name, direction, failure } } => {
            assert_eq!(name, "m2");
            assert_eq!(direction, Direction::Up);
            match failure {
                Failure::Backend { detail } => assert_eq!(detail, "relation exists"),
                other => panic!("expected the detail of the database, got {:?}", other),
            }
        }
        other => panic!("expected a failure, got {:?}", other),
    }
    assert_eq!(done(s.step(Event::Committed)), 1);
}

#[test]
fn contention_ends_the_run() {
    let m = list(&["m1", "m2"]);
    let mut s = Session::for_apply(&m, &Ledger::new(), false).unwrap();
    assert!(matches!(
        s.step(Event::Contended),
        Action::Fail { error: RunnerError::LockContention }
    ));
    assert_eq!(done(s.step(Event::Start)), 0);
    let mut t = Session::for_apply(&m, &Ledger::new(), false).unwrap();
    assert_eq!(execute(t.step(Event::Start)), (0, Direction::Up));
    assert!(matches!(
        t.step(Event::Contended),
        Action::Fail { error: RunnerError::LockContention }
    ));
    assert_eq!(done(t.step(Event::Committed)), 0);
}

#[test]
fn an_answer_that_nothing_waits_for_changes_nothing() {
    let m = list(&["m1", "m2"]);
    let mut s = Session::for_apply(&m, &Ledger::new(), false).unwrap();
    assert_eq!(execute(s.step(Event::Committed)), (0, Direction::Up));
    let mut t = Session::for_apply(&m, &Ledger::new(), false).unwrap();
    assert_eq!(execute(t.step(Event::Failed { failure: Failure::MissingDefinition })), (0, Direction::Up));
    assert_eq!(execute(t.step(Event::Start)), (0, Direction::Up));
    assert_eq!(execute(t.step(Event::Committed)), (1, Direction::Up));
}

#[test]
fn a_run_that_is_out_of_order_does_not_begin() {
    let m = list(&["m1", "m2"]);
    match Session::for_apply(&m, &ledger(&[("m2", 1)]), false) {
        Err(RunnerError::OutOfOrder { name }) => assert_eq!(name, "m1"),
        other => panic!("expected an ordering error, got {:?}", other),
    }
    let mut s = Session::for_apply(&m, &ledger(&[("m2", 1)]), true).unwrap();
    assert_eq!(execute(s.step(Event::Start)), (0, Direction::Up));
    assert_eq!(done(s.step(Event::Committed)), 1);
}

#[test]
fn a_revert_asks_for_the_backward_action_of_the_latest() {
    let m = list(&["m1", "m2", "m3"]);
    let mut s = Session::for_revert(&m, &ledger(&[("m1", 1), ("m2", 2)])).unwrap();
    assert_eq!(execute(s.step(Event::Start)), (1, Direction::Down));
    assert_eq!(done(s.step(Event::Committed)), 1);
    let mut t = Session::for_revert(&m, &ledger(&[("m1", 1)])).unwrap();
    assert_eq!(execute(t.step(Event::Start)), (0, Direction::Down));
    match t.step(Event::Failed { failure: Failure::Schema { position: 1, fault: SchemaFault::TableInUse } }) {
        Action::Fail { error: RunnerError::Migration { name, direction, failure } } => {
            assert_eq!(name, "m1");
            assert_eq!(direction, Direction::Down);
            assert!(matches!(
                failure,
                Failure::Schema { position: 1, fault: SchemaFault::TableInUse }
            ));
        }
        other => panic!("expected a failure, got {:?}", other),
    }
}

#[test]
fn a_revert_with_nothing_applied_does_not_begin() {
    let m = list(&["m1"]);
    assert!(matches!(Session::for_revert(&m, &Ledger::new()), Err(RunnerError::NothingToRevert)));
}
