use schema_migration::catalog::{Catalog, SchemaFault};
use schema_migration::operation::SchemaOp;
use schema_migration::schema::{string, uuid, IndexDef, TableDef};

fn people() -> TableDef {
    TableDef::new("people").col(uuid("id").primary_key()).col(string("name"))
}

fn create_people(if_not_exists: bool) -> SchemaOp {
    SchemaOp::CreateTable { table: people(), if_not_exists }
}

fn create_index(if_not_exists: bool) -> SchemaOp {
    SchemaOp::CreateIndex { index: IndexDef::new("idx", "people").col("name"), if_not_exists }
}

fn drop_index(if_exists: bool) -> SchemaOp {
    SchemaOp::DropIndex { name: "idx".to_string(), if_exists }
}

fn drop_people(if_exists: bool) -> SchemaOp {
    SchemaOp::DropTable { name: "people".to_string(), if_exists }
}

#[test]
fn a_new_catalog_is_empty() {
    let c = Catalog::new();
    assert_eq!(c.table_count(), 0);
    assert_eq!(c.index_count(), 0);
    assert!(!c.has_table("people"));
    assert!(!c.has_index("idx"));
    assert!(c.table("people").is_none());
}

#[test]
fn create_table_adds_the_table() {
    let mut c = Catalog::new();
    assert_eq!(c.apply(&create_people(false)), Ok(()));
    assert!(c.has_table("people"));
    assert_eq!(c.table_count(), 1);
    let t = c.table("people").expect("the table is there");
    assert_eq!(t.columns.len(), 2);
    assert_eq!(t.columns[1].name, "name");
}

#[test]
fn create_table_on_an_existing_table() {
    let mut c = Catalog::new();
    c.apply(&create_people(false)).unwrap();
    assert_eq!(c.apply(&create_people(false)), Err(SchemaFault::TableExists));
    assert_eq!(c.apply(&create_people(true)), Ok(()));
    assert_eq!(c.table_count(), 1);
}

#[test]
fn create_table_with_a_repeated_column_is_refused() {
    let mut c = Catalog::new();
    let twice = SchemaOp::CreateTable { table: people().col(string("name")), if_not_exists: true };
    assert_eq!(c.apply(&twice), Err(SchemaFault::DuplicateColumn));
    assert_eq!(c.table_count(), 0);
}

#[test]
fn create_index_needs_its_table_and_its_columns() {
    let mut c = Catalog::new();
    assert_eq!(c.apply(&create_index(true)), Err(SchemaFault::TableMissing));
    c.apply(&create_people(false)).unwrap();
    let on_age = SchemaOp::CreateIndex {
        index: IndexDef::new("idx_age", "people").col("name").col("age"),
        if_not_exists: false,
    };
    assert_eq!(c.apply(&on_age), Err(SchemaFault::ColumnMissing));
    assert_eq!(c.index_count(), 0);
    assert_eq!(c.apply(&create_index(false)), Ok(()));
    assert!(c.has_index("idx"));
    assert_eq!(c.index_count(), 1);
}

#[test]
fn create_index_on_an_existing_index() {
    let mut c = Catalog::new();
    c.apply(&create_people(false)).unwrap();
    c.apply(&create_index(false)).unwrap();
    assert_eq!(c.apply(&create_index(false)), Err(SchemaFault::IndexExists));
    assert_eq!(c.apply(&create_index(true)), Ok(()));
    assert_eq!(c.index_count(), 1);
}

#[test]
fn drop_index_removes_the_index() {
    let mut c = Catalog::new();
    c.apply(&create_people(false)).unwrap();
    c.apply(&create_index(false)).unwrap();
    assert_eq!(c.apply(&drop_index(false)), Ok(()));
    assert!(!c.has_index("idx"));
    assert!(c.has_table("people"));
    assert_eq!(c.apply(&drop_index(false)), Err(SchemaFault::IndexMissing));
    assert_eq!(c.apply(&drop_index(true)), Ok(()));
}

#[test]
fn drop_table_is_refused_while_an_index_is_on_it() {
    let mut c = Catalog::new();
    c.apply(&create_people(false)).unwrap();
    c.apply(&create_index(false)).unwrap();
    assert_eq!(c.apply(&drop_people(false)), Err(SchemaFault::TableInUse));
    assert_eq!(c.apply(&drop_people(true)), Err(SchemaFault::TableInUse));
    assert!(c.has_table("people"));
    c.apply(&drop_index(false)).unwrap();
    assert_eq!(c.apply(&drop_people(false)), Ok(()));
    assert!(!c.has_table("people"));
    assert_eq!(c.table_count(), 0);
}

#[test]
fn drop_table_on_a_missing_table() {
    let mut c = Catalog::new();
    assert_eq!(c.apply(&drop_people(false)), Err(SchemaFault::TableMissing));
    assert_eq!(c.apply(&drop_people(true)), Ok(()));
}

#[test]
fn dropping_one_table_keeps_the_others_in_order() {
    let mut c = Catalog::new();
    for name in ["a", "b", "c"] {
        let op = SchemaOp::CreateTable { table: TableDef::new(name).col(uuid("id")), if_not_exists: false };
        c.apply(&op).unwrap();
    }
    c.apply(&SchemaOp::DropTable { name: "b".to_string(), if_exists: false }).unwrap();
    assert_eq!(c.table_count(), 2);
    assert!(c.has_table("a") && !c.has_table("b") && c.has_table("c"));
}

#[test]
fn apply_all_runs_every_operation_in_order() {
    let mut c = Catalog::new();
    assert_eq!(c.apply_all(&vec![create_people(true), create_index(true)]), Ok(()));
    assert!(c.has_table("people") && c.has_index("idx"));
    assert_eq!(c.apply_all(&vec![drop_index(false), drop_people(false)]), Ok(()));
    assert_eq!(c.table_count(), 0);
    assert_eq!(c.index_count(), 0);
    assert_eq!(c.apply_all(&Vec::new()), Ok(()));
}

#[test]
fn apply_all_changes_nothing_where_one_operation_is_refused() {
    let mut c = Catalog::new();
    let ops = vec![create_people(false), create_index(false), create_people(false)];
    assert_eq!(c.apply_all(&ops), Err((2, SchemaFault::TableExists)));
    assert_eq!(c.table_count(), 0);
    assert_eq!(c.index_count(), 0);
    let table_first = vec![drop_people(false), drop_index(false)];
    c.apply_all(&vec![create_people(false), create_index(false)]).unwrap();
    assert_eq!(c.apply_all(&table_first), Err((0, SchemaFault::TableInUse)));
    assert!(c.has_table("people") && c.has_index("idx"));
}

#[test]
fn a_cloned_catalog_is_independent() {
    let mut c = Catalog::new();
    c.apply(&create_people(false)).unwrap();
    let saved = c.clone();
    c.apply(&create_index(false)).unwrap();
    assert_eq!(saved.index_count(), 0);
    assert_eq!(saved.table_count(), 1);
    assert_eq!(c.index_count(), 1);
}
