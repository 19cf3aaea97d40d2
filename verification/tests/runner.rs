use schema_migration::error::{Direction, ErrorKind, Failure, RunnerError};
use schema_migration::ledger::Ledger;
use schema_migration::migration::Migration;
use schema_migration::operation::SchemaOp;
use schema_migration::runner::{plan_apply, select_revert, status};
use schema_migration::schema::{uuid, TableDef};

fn table_migration(name: &str, table: &str) -> Migration {
    let up = vec![SchemaOp::CreateTable {
        table: TableDef::new(table).col(uuid("id").primary_key()),
        if_not_exists: false,
    }];
    Migration::reversing(name.to_string(), up).expect("a create can be undone")
}

fn list(names: &[&str]) -> Vec<Migration> {
    names.iter().map(|n| table_migration(n, &format!("t_{}", n))).collect()
}

fn ledger(records: &[(&str, u64)]) -> Ledger {
    let mut l = Ledger::new();
    for (name, at) in records {
        assert!(l.insert(name.to_string(), *at));
    }
    l
}

fn out_of_order(name: &str, r: Result<Vec<usize>, RunnerError>) {
    match r {
        Err(RunnerError::OutOfOrder { name: n }) => assert_eq!(n, name),
        other => panic!("expected an ordering error, got {:?}", other),
    }
}

#[test]
fn everything_is_pending_on_an_empty_ledger() {
    let m = list(&["m1", "m2", "m3"]);
    assert_eq!(plan_apply(&m, &Ledger::new(), false).unwrap(), vec![0, 1, 2]);
    assert_eq!(plan_apply(&Vec::new(), &Ledger::new(), false).unwrap(), Vec::<usize>::new());
}

#[test]
fn applied_migrations_are_not_planned() {
    let m = list(&["m1", "m2", "m3"]);
    assert_eq!(plan_apply(&m, &ledger(&[("m1", 1)]), false).unwrap(), vec![1, 2]);
    assert_eq!(plan_apply(&m, &ledger(&[("m1", 1), ("m2", 1)]), false).unwrap(), vec![2]);
    let all = ledger(&[("m1", 1), ("m2", 1), ("m3", 1)]);
    assert_eq!(plan_apply(&m, &all, false).unwrap(), Vec::<usize>::new());
}

#[test]
fn a_pending_name_before_an_applied_one_is_refused() {
    let m = list(&["m1", "m2", "m3"]);
    out_of_order("m1", plan_apply(&m, &ledger(&[("m2", 1)]), false));
    out_of_order("m2", plan_apply(&m, &ledger(&[("m1", 1), ("m3", 1)]), false));
}

#[test]
fn the_first_offender_is_named() {
    let m = list(&["m1", "m2", "m4"]);
    out_of_order("m1", plan_apply(&m, &ledger(&[("m3", 1)]), false));
}

#[test]
fn the_override_allows_out_of_order_application() {
    let m = list(&["m1", "m2", "m3"]);
    assert_eq!(plan_apply(&m, &ledger(&[("m2", 1)]), true).unwrap(), vec![0, 2]);
    assert_eq!(plan_apply(&m, &ledger(&[("m3", 1)]), true).unwrap(), vec![0, 1]);
}

#[test]
fn a_list_that_is_not_sorted_is_refused_and_never_reordered() {
    let m = list(&["m2", "m1", "m3"]);
    out_of_order("m1", plan_apply(&m, &Ledger::new(), false));
    assert_eq!(plan_apply(&m, &Ledger::new(), true).unwrap(), vec![0, 1, 2]);
}

#[test]
fn a_repeated_name_is_planned_once() {
    let m = list(&["m1", "m1", "m2"]);
    assert_eq!(plan_apply(&m, &Ledger::new(), false).unwrap(), vec![0, 2]);
    assert_eq!(plan_apply(&m, &Ledger::new(), true).unwrap(), vec![0, 2]);
}

#[test]
fn a_record_without_a_migration_still_counts_for_the_order() {
    let m = list(&["m1", "m3"]);
    out_of_order("m1", plan_apply(&m, &ledger(&[("m2", 1)]), false));
    assert_eq!(plan_apply(&list(&["m3"]), &ledger(&[("m2", 1)]), false).unwrap(), vec![0]);
}

#[test]
fn nothing_to_revert_on_an_empty_ledger() {
    let m = list(&["m1"]);
    let e = select_revert(&m, &Ledger::new()).unwrap_err();
    assert!(matches!(e, RunnerError::NothingToRevert));
    assert_eq!(e.kind(), ErrorKind::Migration);
}

#[test]
fn the_migration_applied_last_is_reverted() {
    let m = list(&["m1", "m2", "m3"]);
    assert_eq!(select_revert(&m, &ledger(&[("m1", 1), ("m2", 2)])).unwrap(), 1);
    assert_eq!(select_revert(&m, &ledger(&[("m3", 1), ("m1", 2)])).unwrap(), 0);
}

#[test]
fn a_tie_in_time_is_broken_by_the_greatest_name() {
    let m = list(&["m1", "m2", "m3"]);
    assert_eq!(select_revert(&m, &ledger(&[("m2", 7), ("m3", 7), ("m1", 7)])).unwrap(), 2);
    assert_eq!(select_revert(&m, &ledger(&[("m2", 7), ("m1", 7)])).unwrap(), 1);
}

#[test]
fn a_record_without_a_migration_cannot_be_reverted() {
    let m = list(&["m1"]);
    match select_revert(&m, &ledger(&[("m1", 1), ("m9", 2)])) {
        Err(RunnerError::Migration { name, direction, failure }) => {
            assert_eq!(name, "m9");
            assert_eq!(direction, Direction::Down);
            assert!(matches!(failure, Failure::MissingDefinition));
        }
        other => panic!("expected a migration error, got {:?}", other),
    }
}

#[test]
fn status_lists_every_migration_in_order() {
    let m = list(&["m1", "m2", "m3"]);
    let report = status(&m, &ledger(&[("m2", 1)]));
    assert_eq!(
        report,
        vec![("m1".to_string(), false), ("m2".to_string(), true), ("m3".to_string(), false)]
    );
    assert!(status(&Vec::new(), &Ledger::new()).is_empty());
}

#[test]
fn a_migration_built_from_creates_is_reversible() {
    let m = table_migration("m1", "people");
    assert!(m.is_reversible());
    assert_eq!(m.down.len(), 1);
    let broken = Migration { name: "m2".to_string(), up: m.up.clone(), down: Vec::new() };
    assert!(!broken.is_reversible());
    let dropping = vec![SchemaOp::DropTable { name: "people".to_string(), if_exists: false }];
    assert!(Migration::reversing("m3".to_string(), dropping).is_none());
    let copy = m.clone();
    assert_eq!(copy.name, "m1");
    assert_eq!(copy.up.len(), 1);
}
