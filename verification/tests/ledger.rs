use schema_migration::catalog::Catalog;
use schema_migration::ledger::{bookkeeping_setup, bookkeeping_table, Ledger, Record};
use schema_migration::operation::SchemaOp;
use schema_migration::schema::{DefaultValue, TypeTag};
use schema_migration::statement::build_create_table;
use sea_orm_migration::sea_query::PostgresQueryBuilder;

#[test]
fn a_new_ledger_is_empty() {
    let l = Ledger::new();
    assert_eq!(l.len(), 0);
    assert!(l.latest().is_none());
    assert!(l.record(0).is_none());
    assert!(!l.contains(&"m1".to_string()));
}

#[test]
fn insert_writes_a_record_once() {
    let mut l = Ledger::new();
    assert!(l.insert("m1".to_string(), 10));
    assert!(l.contains(&"m1".to_string()));
    assert_eq!(l.len(), 1);
    assert!(!l.insert("m1".to_string(), 20));
    assert_eq!(l.len(), 1);
    let r = l.record(0).expect("one record");
    assert_eq!(r.name, "m1");
    assert_eq!(r.applied_at, 10);
}

#[test]
fn remove_deletes_the_record_of_that_name() {
    let mut l = Ledger::new();
    l.insert("m1".to_string(), 1);
    l.insert("m2".to_string(), 2);
    l.insert("m3".to_string(), 3);
    assert!(l.remove(&"m2".to_string()));
    assert_eq!(l.len(), 2);
    assert_eq!(l.record(0).unwrap().name, "m1");
    assert_eq!(l.record(1).unwrap().name, "m3");
    assert!(!l.remove(&"m2".to_string()));
    assert_eq!(l.len(), 2);
}

#[test]
fn the_latest_record_is_the_one_applied_last() {
    let mut l = Ledger::new();
    l.insert("m3".to_string(), 5);
    l.insert("m1".to_string(), 9);
    l.insert("m2".to_string(), 7);
    let r = l.latest().unwrap();
    assert_eq!(r.name, "m1");
    assert_eq!(r.applied_at, 9);
}

#[test]
fn among_records_of_one_time_the_greatest_name_is_latest() {
    let mut l = Ledger::new();
    l.insert("m2".to_string(), 5);
    l.insert("m3".to_string(), 5);
    l.insert("m1".to_string(), 5);
    assert_eq!(l.latest().unwrap().name, "m3");
    l.insert("m0".to_string(), 6);
    assert_eq!(l.latest().unwrap().name, "m0");
}

#[test]
fn any_name_after_looks_at_every_record() {
    let mut l = Ledger::new();
    assert!(!l.any_name_after(&"m1".to_string()));
    l.insert("m2".to_string(), 1);
    l.insert("m5".to_string(), 2);
    assert!(l.any_name_after(&"m1".to_string()));
    assert!(l.any_name_after(&"m4".to_string()));
    assert!(!l.any_name_after(&"m5".to_string()));
    assert!(!l.any_name_after(&"m6".to_string()));
}

#[test]
fn a_cloned_ledger_holds_the_same_records() {
    let mut l = Ledger::new();
    l.insert("m1".to_string(), 1);
    let copy = l.clone();
    l.insert("m2".to_string(), 2);
    assert_eq!(copy.len(), 1);
    assert_eq!(copy.record(0).unwrap().name, "m1");
    let r = Record { name: "x".to_string(), applied_at: 3 };
    let s = r.clone();
    assert_eq!(s.name, "x");
    assert_eq!(s.applied_at, 3);
}

#[test]
fn the_bookkeeping_table_holds_a_name_and_a_time() {
    let table = bookkeeping_table();
    assert_eq!(table.name, "schema_migrations");
    assert_eq!(table.columns.len(), 2);
    let name = &table.columns[0];
    assert_eq!(name.name, "name");
    assert!(matches!(name.column_type, TypeTag::Text));
    assert!(name.primary && !name.nullable && name.default.is_none());
    let applied_at = &table.columns[1];
    assert_eq!(applied_at.name, "applied_at");
    assert!(matches!(applied_at.column_type, TypeTag::Timestamp));
    assert!(!applied_at.primary && !applied_at.nullable);
    assert!(matches!(applied_at.default, Some(DefaultValue::CurrentTimestamp)));
}

#[test]
fn the_bookkeeping_is_set_up_unless_it_exists() {
    let setup = bookkeeping_setup();
    match &setup {
        SchemaOp::CreateTable { table, if_not_exists } => {
            assert!(*if_not_exists);
            assert_eq!(
                build_create_table(table, *if_not_exists).to_string(PostgresQueryBuilder),
                [
                    r#"CREATE TABLE IF NOT EXISTS "schema_migrations" ("#,
                    r#""name" varchar NOT NULL PRIMARY KEY,"#,
                    r#""applied_at" timestamp NOT NULL DEFAULT CURRENT_TIMESTAMP"#,
                    r#")"#,
                ]
                .join(" ")
            );
        }
        other => panic!("the setup is {:?}", other),
    }
    let mut c = Catalog::new();
    assert_eq!(c.apply(&setup), Ok(()));
    assert_eq!(c.apply(&setup), Ok(()));
    assert_eq!(c.table_count(), 1);
    assert!(c.has_table("schema_migrations"));
}
