use schema_migration::operation::{derive_down, is_reverse_of, SchemaOp};
use schema_migration::schema::{
    array, boolean, copy_texts, enumeration, integer, string, string_null,
    timestamp, timestamp_null, uuid, Column, DefaultValue, IndexDef, TableDef, TypeTag,
};

fn people() -> TableDef {
    TableDef::new("people").col(uuid("id").primary_key()).col(string("name"))
}

#[test]
fn a_new_column_is_required_and_plain() {
    let c = Column::new("title", TypeTag::Text);
    assert_eq!(c.name, "title");
    assert!(matches!(c.column_type, TypeTag::Text));
    assert!(!c.nullable);
    assert!(c.default.is_none());
    assert!(!c.primary);
}

#[test]
fn column_builders_change_one_thing_each() {
    let c = Column::new("n", TypeTag::Integer).null();
    assert!(c.nullable && c.default.is_none() && !c.primary);
    let c = Column::new("n", TypeTag::Boolean).with_default(DefaultValue::Boolean(true));
    assert!(matches!(c.default, Some(DefaultValue::Boolean(true))));
    assert!(!c.nullable && !c.primary);
    let c = Column::new("n", TypeTag::Identifier).primary_key();
    assert!(c.primary && !c.nullable && c.default.is_none());
}

#[test]
fn helpers_give_the_type_and_whether_a_value_is_required() {
    assert!(matches!(uuid("a").column_type, TypeTag::Identifier));
    assert!(matches!(string("a").column_type, TypeTag::Text));
    assert!(matches!(boolean("a").column_type, TypeTag::Boolean));
    assert!(matches!(integer("a").column_type, TypeTag::Integer));
    assert!(matches!(timestamp("a").column_type, TypeTag::Timestamp));
    assert!(!uuid("a").nullable);
    assert!(!string("a").nullable);
    assert!(string_null("a").nullable);
    assert!(!timestamp("a").nullable);
    assert!(timestamp_null("a").nullable);
    assert_eq!(string_null("note").name, "note");
}

#[test]
fn an_enumeration_keeps_its_name_and_values_in_order() {
    let c = enumeration("status", "event_status", vec!["draft".to_string(), "published".to_string()]);
    match c.column_type {
        TypeTag::Enumeration { name, values } => {
            assert_eq!(name, "event_status");
            assert_eq!(values, vec!["draft".to_string(), "published".to_string()]);
        }
        _ => panic!("not an enumeration"),
    }
}

#[test]
fn an_array_holds_its_element_type() {
    let c = array("co_hosts", TypeTag::Identifier);
    match c.column_type {
        TypeTag::ArrayOf(inner) => assert!(matches!(*inner, TypeTag::Identifier)),
        _ => panic!("not an array"),
    }
    let nested = array("grid", TypeTag::ArrayOf(Box::new(TypeTag::Integer)));
    match nested.clone().column_type {
        TypeTag::ArrayOf(inner) => match *inner {
            TypeTag::ArrayOf(innermost) => assert!(matches!(*innermost, TypeTag::Integer)),
            _ => panic!("not nested"),
        },
        _ => panic!("not an array"),
    }
}

#[test]
fn a_table_keeps_its_columns_in_order() {
    let t = people();
    assert_eq!(t.name, "people");
    assert_eq!(t.columns.len(), 2);
    assert_eq!(t.columns[0].name, "id");
    assert_eq!(t.columns[1].name, "name");
    assert!(t.has_column(&"name".to_string()));
    assert!(!t.has_column(&"age".to_string()));
}

#[test]
fn a_table_with_a_repeated_column_is_not_well_formed() {
    assert!(people().is_well_formed());
    assert!(TableDef::new("empty").is_well_formed());
    assert!(!people().col(integer("id")).is_well_formed());
    assert!(!TableDef::new("t").col(string("a")).col(string("b")).col(string("b")).is_well_formed());
}

#[test]
fn an_index_keeps_its_columns_in_order() {
    let i = IndexDef::new("idx", "people").col("name").col("id");
    assert_eq!(i.name, "idx");
    assert_eq!(i.table, "people");
    assert_eq!(i.columns, vec!["name".to_string(), "id".to_string()]);
    assert!(!i.unique);
    assert!(i.unique().unique);
}

#[test]
fn texts_are_copied() {
    let v = vec!["a".to_string(), "b".to_string()];
    assert_eq!(copy_texts(&v), v);
    assert!(copy_texts(&Vec::new()).is_empty());
}

#[test]
fn clones_are_equal_in_every_field() {
    let t = people().col(boolean("active").with_default(DefaultValue::Boolean(false)));
    let u = t.clone();
    assert_eq!(format!("{:?}", t), format!("{:?}", u));
    let i = IndexDef::new("idx", "people").col("name").unique();
    assert_eq!(format!("{:?}", i), format!("{:?}", i.clone()));
}

#[test]
fn a_create_is_undone_by_the_plain_drop() {
    let create = SchemaOp::CreateTable { table: people(), if_not_exists: true };
    match create.inverse() {
        Some(SchemaOp::DropTable { name, if_exists }) => {
            assert_eq!(name, "people");
            assert!(!if_exists);
        }
        _ => panic!("not a drop of the table"),
    }
    let index = SchemaOp::CreateIndex {
        index: IndexDef::new("idx", "people").col("name"),
        if_not_exists: false,
    };
    match index.inverse() {
        Some(SchemaOp::DropIndex { name, if_exists }) => {
            assert_eq!(name, "idx");
            assert!(!if_exists);
        }
        _ => panic!("not a drop of the index"),
    }
}

#[test]
fn a_drop_has_no_inverse() {
    assert!(SchemaOp::DropTable { name: "people".to_string(), if_exists: false }.inverse().is_none());
    assert!(SchemaOp::DropIndex { name: "idx".to_string(), if_exists: true }.inverse().is_none());
}

#[test]
fn the_derived_down_drops_in_reverse_order() {
    let up = vec![
        SchemaOp::CreateTable { table: people(), if_not_exists: true },
        SchemaOp::CreateIndex { index: IndexDef::new("idx", "people").col("name"), if_not_exists: true },
    ];
    let down = derive_down(&up).expect("every operation is a create");
    assert_eq!(down.len(), 2);
    assert!(matches!(&down[0], SchemaOp::DropIndex { name, if_exists: false } if name == "idx"));
    assert!(matches!(&down[1], SchemaOp::DropTable { name, if_exists: false } if name == "people"));
    assert!(is_reverse_of(&down, &up));
}

#[test]
fn nothing_is_derived_from_an_action_that_drops() {
    let up = vec![
        SchemaOp::CreateTable { table: people(), if_not_exists: true },
        SchemaOp::DropTable { name: "old".to_string(), if_exists: true },
    ];
    assert!(derive_down(&up).is_none());
    assert_eq!(derive_down(&Vec::new()).map(|d| d.len()), Some(0));
}

#[test]
fn a_down_in_creation_order_does_not_reverse() {
    let up = vec![
        SchemaOp::CreateTable { table: people(), if_not_exists: true },
        SchemaOp::CreateIndex { index: IndexDef::new("idx", "people").col("name"), if_not_exists: true },
    ];
    let table_first = vec![
        SchemaOp::DropTable { name: "people".to_string(), if_exists: false },
        SchemaOp::DropIndex { name: "idx".to_string(), if_exists: false },
    ];
    assert!(!is_reverse_of(&table_first, &up));
    let with_if_exists = vec![
        SchemaOp::DropIndex { name: "idx".to_string(), if_exists: true },
        SchemaOp::DropTable { name: "people".to_string(), if_exists: true },
    ];
    assert!(is_reverse_of(&with_if_exists, &up));
    let short = vec![SchemaOp::DropIndex { name: "idx".to_string(), if_exists: false }];
    assert!(!is_reverse_of(&short, &up));
    let wrong_name = vec![
        SchemaOp::DropIndex { name: "idx".to_string(), if_exists: false },
        SchemaOp::DropTable { name: "persons".to_string(), if_exists: false },
    ];
    assert!(!is_reverse_of(&wrong_name, &up));
}
