use schema_migration::backend::MemoryBackend;
use schema_migration::m20220101_000001_create_event::Migration as CreateEvent;
use schema_migration::m20251223_125421_create_venue::Migration as CreateVenue;
use schema_migration::operation::{is_reverse_of, SchemaOp};
use schema_migration::schema::{DefaultValue, TableDef, TypeTag};
use schema_migration::statement::{
    build_create_index, build_create_table, build_drop_index, build_drop_table, build_statement,
    build_statements, Statement,
};
use sea_orm_migration::sea_query::{MysqlQueryBuilder, PostgresQueryBuilder};

fn column_names(table: &TableDef) -> Vec<&str> {
    table.columns.iter().map(|c| c.name.as_str()).collect()
}

fn required(table: &TableDef) -> Vec<&str> {
    table.columns.iter().filter(|c| !c.nullable).map(|c| c.name.as_str()).collect()
}

fn render(statement: &Statement) -> String {
    match statement {
        Statement::CreateTable(s) => s.to_string(PostgresQueryBuilder),
        Statement::CreateIndex(s) => s.to_string(PostgresQueryBuilder),
        Statement::DropIndex(s) => s.to_string(PostgresQueryBuilder),
        Statement::DropTable(s) => s.to_string(PostgresQueryBuilder),
    }
}

#[test]
fn the_venue_migration_is_named_after_its_file() {
    assert_eq!(CreateVenue.name(), "m20251223_125421_create_venue");
    assert_eq!(CreateEvent.name(), "m20220101_000001_create_event");
    assert_eq!(CreateVenue.definition().name, "m20251223_125421_create_venue");
}

#[test]
fn the_venue_table_has_its_columns_in_order() {
    let t = CreateVenue.table();
    assert_eq!(t.name, "venue");
    assert_eq!(
        column_names(&t),
        vec![
            "id", "title", "description", "host", "co_hosts", "is_external", "street", "city",
            "postal", "state", "country", "created_at", "updated_at", "deleted_at",
        ]
    );
    assert_eq!(
        required(&t),
        vec![
            "id", "title", "host", "co_hosts", "is_external", "street", "city", "postal",
            "state", "country", "created_at", "updated_at",
        ]
    );
    assert!(t.is_well_formed());
    assert!(t.columns[0].primary);
    assert_eq!(t.columns.iter().filter(|c| c.primary).count(), 1);
    assert!(matches!(t.columns[0].column_type, TypeTag::Identifier));
    assert!(matches!(t.columns[1].column_type, TypeTag::Text));
    match &t.columns[4].column_type {
        TypeTag::ArrayOf(inner) => assert!(matches!(**inner, TypeTag::Identifier)),
        other => panic!("co_hosts is {:?}", other),
    }
    assert!(matches!(t.columns[5].default, Some(DefaultValue::Boolean(false))));
    assert!(matches!(t.columns[11].default, Some(DefaultValue::CurrentTimestamp)));
    assert!(matches!(t.columns[12].default, Some(DefaultValue::CurrentTimestamp)));
    assert!(t.columns[13].default.is_none());
}

#[test]
fn the_event_table_has_its_columns_in_order() {
    let t = CreateEvent.table();
    assert_eq!(t.name, "event");
    assert_eq!(
        column_names(&t),
        vec![
            "id", "title", "description", "status", "creator", "organizer", "thumbnail",
            "date_from", "date_to", "is_arrival_time_required", "is_departure_time_required",
            "created_at", "updated_at", "deleted_at",
        ]
    );
    assert_eq!(
        required(&t),
        vec![
            "id", "title", "status", "creator", "organizer", "date_from", "date_to",
            "is_arrival_time_required", "is_departure_time_required", "created_at", "updated_at",
        ]
    );
    assert!(t.is_well_formed());
    assert!(t.columns[0].primary);
    assert!(matches!(t.columns[7].column_type, TypeTag::Timestamp));
    assert!(matches!(t.columns[9].default, Some(DefaultValue::Boolean(true))));
    assert!(matches!(t.columns[10].default, Some(DefaultValue::Boolean(true))));
}

#[test]
fn up_creates_the_table_and_then_the_index() {
    let up = CreateVenue.up();
    assert_eq!(up.len(), 2);
    assert!(matches!(&up[0], SchemaOp::CreateTable { table, if_not_exists: true } if table.name == "venue"));
    match &up[1] {
        SchemaOp::CreateIndex { index, if_not_exists } => {
            assert_eq!(index.name, "idx-venue_title");
            assert_eq!(index.table, "venue");
            assert_eq!(index.columns, vec!["title".to_string()]);
            assert!(!index.unique);
            assert!(*if_not_exists);
        }
        other => panic!("the second operation is {:?}", other),
    }
    let up = CreateEvent.up();
    assert!(matches!(&up[0], SchemaOp::CreateTable { table, if_not_exists: true } if table.name == "event"));
    assert!(matches!(&up[1], SchemaOp::CreateIndex { index, if_not_exists: true } if index.name == "idx-event_title" && index.table == "event"));
}

#[test]
fn down_drops_the_index_and_then_the_table() {
    let down = CreateVenue.down();
    assert_eq!(down.len(), 2);
    assert!(matches!(&down[0], SchemaOp::DropIndex { name, if_exists: false } if name == "idx-venue_title"));
    assert!(matches!(&down[1], SchemaOp::DropTable { name, if_exists: false } if name == "venue"));
    assert!(is_reverse_of(&down, &CreateVenue.up()));
    assert!(CreateVenue.definition().is_reversible());
    let down = CreateEvent.down();
    assert!(matches!(&down[0], SchemaOp::DropIndex { name, if_exists: false } if name == "idx-event_title"));
    assert!(matches!(&down[1], SchemaOp::DropTable { name, if_exists: false } if name == "event"));
    assert!(CreateEvent.definition().is_reversible());
}

#[test]
fn venue_scenario_required_title_and_index() {
    let m = vec![CreateVenue.definition()];
    let mut b = MemoryBackend::new();
    assert_eq!(b.apply_all(&m, false, 1).unwrap(), 1);
    assert!(b.catalog().has_index("idx-venue_title"));
    let table = b.catalog().table("venue").expect("the table exists");
    let title = table.columns.iter().find(|c| c.name == "title").expect("a title column");
    assert!(!title.nullable);
    assert!(title.default.is_none());
    let ddl = build_create_table(&table, true).to_string(PostgresQueryBuilder);
    assert!(ddl.contains(r#""title" varchar NOT NULL"#));
    assert_eq!(b.revert_last(&m).unwrap(), "m20251223_125421_create_venue");
    assert!(!b.catalog().has_index("idx-venue_title"));
    assert!(!b.catalog().has_table("venue"));
}

#[test]
fn event_scenario_status_is_one_of_three_values() {
    let m = vec![CreateEvent.definition()];
    let mut b = MemoryBackend::new();
    assert_eq!(b.apply_all(&m, false, 1).unwrap(), 1);
    let table = b.catalog().table("event").expect("the table exists");
    let status = table.columns.iter().find(|c| c.name == "status").expect("a status column");
    assert!(!status.nullable);
    match &status.column_type {
        TypeTag::Enumeration { name, values } => {
            assert_eq!(name, "event_status");
            assert_eq!(
                values,
                &vec!["draft".to_string(), "published".to_string(), "cancelled".to_string()]
            );
            assert!(!values.contains(&"archived".to_string()));
        }
        other => panic!("status is {:?}", other),
    }
    assert_eq!(CreateEvent.statuses(), vec!["draft", "published", "cancelled"]);
    let ddl = build_create_table(&table, true).to_string(PostgresQueryBuilder);
    assert!(ddl.contains(r#""status" event_status NOT NULL"#));
    let listed = build_create_table(&table, true).to_string(MysqlQueryBuilder);
    assert!(listed.contains("`status` ENUM('draft', 'published', 'cancelled') NOT NULL"));
}

#[test]
fn both_migrations_round_trip_on_one_backend() {
    let m = vec![CreateEvent.definition(), CreateVenue.definition()];
    let mut b = MemoryBackend::new();
    assert_eq!(b.apply_all(&m, false, 7).unwrap(), 2);
    assert_eq!(b.catalog().table_count(), 2);
    assert_eq!(b.catalog().index_count(), 2);
    assert_eq!(b.apply_all(&m, false, 8).unwrap(), 0);
    assert_eq!(b.revert_last(&m).unwrap(), "m20251223_125421_create_venue");
    assert_eq!(b.revert_last(&m).unwrap(), "m20220101_000001_create_event");
    assert_eq!(b.catalog().table_count(), 0);
    assert_eq!(b.catalog().index_count(), 0);
    assert_eq!(b.ledger().len(), 0);
}

#[test]
fn the_venue_table_as_a_statement() {
    let sql = build_create_table(&CreateVenue.table(), true).to_string(PostgresQueryBuilder);
    let expected = [
        r#"CREATE TABLE IF NOT EXISTS "venue" ("#,
        r#""id" uuid NOT NULL PRIMARY KEY,"#,
        r#""title" varchar NOT NULL,"#,
        r#""description" varchar NULL,"#,
        r#""host" uuid NOT NULL,"#,
        r#""co_hosts" uuid[] NOT NULL,"#,
        r#""is_external" bool NOT NULL DEFAULT FALSE,"#,
        r#""street" varchar NOT NULL,"#,
        r#""city" varchar NOT NULL,"#,
        r#""postal" varchar NOT NULL,"#,
        r#""state" varchar NOT NULL,"#,
        r#""country" varchar NOT NULL,"#,
        r#""created_at" timestamp NOT NULL DEFAULT CURRENT_TIMESTAMP,"#,
        r#""updated_at" timestamp NOT NULL DEFAULT CURRENT_TIMESTAMP,"#,
        r#""deleted_at" timestamp NULL"#,
        r#")"#,
    ]
    .join(" ");
    assert_eq!(sql, expected);
}

#[test]
fn the_event_table_as_a_statement() {
    let sql = build_create_table(&CreateEvent.table(), true).to_string(PostgresQueryBuilder);
    let expected = [
        r#"CREATE TABLE IF NOT EXISTS "event" ("#,
        r#""id" uuid NOT NULL PRIMARY KEY,"#,
        r#""title" varchar NOT NULL,"#,
        r#""description" varchar NULL,"#,
        r#""status" event_status NOT NULL,"#,
        r#""creator" uuid NOT NULL,"#,
        r#""organizer" uuid NOT NULL,"#,
        r#""thumbnail" varchar NULL,"#,
        r#""date_from" timestamp NOT NULL,"#,
        r#""date_to" timestamp NOT NULL,"#,
        r#""is_arrival_time_required" bool NOT NULL DEFAULT TRUE,"#,
        r#""is_departure_time_required" bool NOT NULL DEFAULT TRUE,"#,
        r#""created_at" timestamp NOT NULL DEFAULT CURRENT_TIMESTAMP,"#,
        r#""updated_at" timestamp NOT NULL DEFAULT CURRENT_TIMESTAMP,"#,
        r#""deleted_at" timestamp NULL"#,
        r#")"#,
    ]
    .join(" ");
    assert_eq!(sql, expected);
}

#[test]
fn a_table_without_if_not_exists_as_a_statement() {
    let table = TableDef::new("t")
        .col(schema_migration::schema::integer("n"))
        .col(schema_migration::schema::array("grid", TypeTag::ArrayOf(Box::new(TypeTag::Boolean))));
    assert_eq!(
        build_create_table(&table, false).to_string(PostgresQueryBuilder),
        r#"CREATE TABLE "t" ( "n" integer NOT NULL, "grid" bool[][] NOT NULL )"#
    );
}

#[test]
fn the_indexes_as_statements() {
    assert_eq!(
        build_create_index(&CreateVenue.index(), true).to_string(PostgresQueryBuilder),
        r#"CREATE INDEX IF NOT EXISTS "idx-venue_title" ON "venue" ("title")"#
    );
    assert_eq!(
        build_create_index(&CreateEvent.index(), false).to_string(PostgresQueryBuilder),
        r#"CREATE INDEX "idx-event_title" ON "event" ("title")"#
    );
    let wide = schema_migration::schema::IndexDef::new("idx_place", "venue")
        .col("city")
        .col("street")
        .unique();
    assert_eq!(
        build_create_index(&wide, false).to_string(PostgresQueryBuilder),
        r#"CREATE UNIQUE INDEX "idx_place" ON "venue" ("city", "street")"#
    );
}

#[test]
fn the_drops_as_statements() {
    assert_eq!(
        build_drop_index("idx-venue_title", false).to_string(PostgresQueryBuilder),
        r#"DROP INDEX "idx-venue_title""#
    );
    assert_eq!(
        build_drop_index("idx-venue_title", true).to_string(PostgresQueryBuilder),
        r#"DROP INDEX IF EXISTS "idx-venue_title""#
    );
    assert_eq!(
        build_drop_table("venue", false).to_string(PostgresQueryBuilder),
        r#"DROP TABLE "venue""#
    );
    assert_eq!(
        build_drop_table("venue", true).to_string(PostgresQueryBuilder),
        r#"DROP TABLE IF EXISTS "venue""#
    );
}

#[test]
fn an_action_as_statements() {
    let rendered: Vec<String> = build_statements(&CreateVenue.down()).iter().map(render).collect();
    assert_eq!(
        rendered,
        vec![r#"DROP INDEX "idx-venue_title""#.to_string(), r#"DROP TABLE "venue""#.to_string()]
    );
    let up = CreateEvent.up();
    assert!(matches!(build_statement(&up[0]), Statement::CreateTable(_)));
    assert_eq!(
        render(&build_statement(&up[1])),
        r#"CREATE INDEX IF NOT EXISTS "idx-event_title" ON "event" ("title")"#
    );
    assert!(build_statements(&Vec::new()).is_empty());
}
