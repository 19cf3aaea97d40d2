//! Statements of sea-query, built from the definitions of this crate.
//!
//! The statements are values of sea-query, opaque to the verifier. What a
//! builder call does to one is stated over its parts, as sea-query's source
//! shows it; that a definition of this crate becomes the right statement is
//! proved from those.

use vstd::prelude::*;
use sea_orm_migration::sea_query::{
    Alias, ColumnDef, ColumnType, Expr, Index, IndexCreateStatement, IndexDropStatement, Table,
    TableCreateStatement, TableDropStatement,
};
use crate::operation::{OpView, SchemaOp};
use crate::schema::{
    texts, Column, ColumnView, DefaultValue, DefaultView, IndexDef, IndexView, TableDef, TableView,
    TypeTag, TypeTagView,
};

verus! {

/// sea-query's definition of a column.
#[verifier::external_type_specification]
#[verifier::external_body]
pub struct ExColumnDef(sea_orm_migration::sea_query::ColumnDef);

/// sea-query's type of a column.
#[verifier::external_type_specification]
#[verifier::external_body]
pub struct ExColumnType(sea_orm_migration::sea_query::ColumnType);

/// sea-query's statement that creates a table.
#[verifier::external_type_specification]
#[verifier::external_body]
pub struct ExTableCreateStatement(sea_orm_migration::sea_query::TableCreateStatement);

/// sea-query's statement that creates an index.
#[verifier::external_type_specification]
#[verifier::external_body]
pub struct ExIndexCreateStatement(sea_orm_migration::sea_query::IndexCreateStatement);

/// sea-query's statement that drops an index.
#[verifier::external_type_specification]
#[verifier::external_body]
pub struct ExIndexDropStatement(sea_orm_migration::sea_query::IndexDropStatement);

/// sea-query's statement that drops tables.
#[verifier::external_type_specification]
#[verifier::external_body]
pub struct ExTableDropStatement(sea_orm_migration::sea_query::TableDropStatement);

/// The type of a column, under the names sea-query gives its variants.
pub enum SqlType {
    Uuid,
    /// `String` with the default length.
    String,
    Boolean,
    Integer,
    Timestamp,
    Enum { name: Seq<char>, variants: Seq<Seq<char>> },
    Array(Box<SqlType>),
    /// Any other type.
    Other,
}

/// A keyword of a column's specification, under the names sea-query gives
/// them.
pub enum SqlWord {
    Null,
    NotNull,
    /// `Default` with a boolean value.
    DefaultBool(bool),
    /// `Default` with the keyword `CURRENT_TIMESTAMP`.
    DefaultCurrentTimestamp,
    PrimaryKey,
    /// Any other keyword.
    Other,
}

/// What a column definition of sea-query holds: its name, its type once one
/// is set, and its keywords in the order in which they were added.
pub struct ColumnParts {
    pub name: Seq<char>,
    pub kind: Option<SqlType>,
    pub words: Seq<SqlWord>,
}

/// What a statement that creates a table holds. `plain` says that the
/// table, where one is set, is a bare name, and that all the rest is as in a
/// new statement: no options, partitions, indexes, foreign keys or checks,
/// no comment, nothing extra, and not temporary.
pub struct TableCreateParts {
    pub table: Option<Seq<char>>,
    pub if_not_exists: bool,
    pub columns: Seq<ColumnParts>,
    pub plain: bool,
}

/// What a statement that creates an index holds. `plain` says that the
/// table, where one is set, and the columns are bare names, with no prefix
/// and no order, and that all the rest is as in a new statement: not
/// primary, nulls distinct, no index type, no condition, and no included
/// columns.
pub struct IndexCreateParts {
    pub name: Option<Seq<char>>,
    pub table: Option<Seq<char>>,
    pub columns: Seq<Seq<char>>,
    pub unique: bool,
    pub if_not_exists: bool,
    pub plain: bool,
}

/// What a statement that drops an index holds. `plain` says that all the
/// rest is as in a new statement: no table and no columns.
pub struct IndexDropParts {
    pub name: Option<Seq<char>>,
    pub if_exists: bool,
    pub plain: bool,
}

/// What a statement that drops tables holds. `plain` says that the tables
/// are bare names, and that all the rest is as in a new statement: no
/// options.
pub struct TableDropParts {
    pub tables: Seq<Seq<char>>,
    pub if_exists: bool,
    pub plain: bool,
}

/// The parts of a column definition of sea-query: its fields `name`, `types`
/// and `spec`.
pub uninterp spec fn column_parts(c: ColumnDef) -> ColumnParts;

/// The column type of sea-query as a value.
pub uninterp spec fn type_parts(t: ColumnType) -> SqlType;

/// The parts of a statement that creates a table: its fields `table`,
/// `if_not_exists` and `columns`, and whether its other fields are as in a
/// new statement.
pub uninterp spec fn table_create_parts(s: TableCreateStatement) -> TableCreateParts;

/// The parts of a statement that creates an index: the name and the columns
/// of its field `index`, its fields `table`, `unique` and `if_not_exists`,
/// and whether its other fields are as in a new statement.
pub uninterp spec fn index_create_parts(s: IndexCreateStatement) -> IndexCreateParts;

/// The parts of a statement that drops an index: the name of its field
/// `index`, its field `if_exists`, and whether the rest is as in a new
/// statement.
pub uninterp spec fn index_drop_parts(s: IndexDropStatement) -> IndexDropParts;

/// The parts of a statement that drops tables: its fields `tables` and
/// `if_exists`, and whether its field `options` is as in a new statement.
pub uninterp spec fn table_drop_parts(s: TableDropStatement) -> TableDropParts;

/// `ColumnDef::new` on an `Alias` of the name: a column of that name, with no
/// type and no keyword.
#[verifier::external_body]
fn column_new(name: &str) -> (c: ColumnDef)
    ensures
        column_parts(c) == (ColumnParts { name: name@, kind: None, words: Seq::empty() }),
{
    ColumnDef::new(Alias::new(name))
}

/// `ColumnDef::uuid`: sets the type to `Uuid`.
#[verifier::external_body]
fn column_uuid(c: &mut ColumnDef)
    ensures
        column_parts(*final(c)) == (ColumnParts {
            kind: Some(SqlType::Uuid),
            ..column_parts(*old(c))
        }),
{
    c.uuid();
}

/// `ColumnDef::string`: sets the type to `String` with the default length.
#[verifier::external_body]
fn column_string(c: &mut ColumnDef)
    ensures
        column_parts(*final(c)) == (ColumnParts {
            kind: Some(SqlType::String),
            ..column_parts(*old(c))
        }),
{
    c.string();
}

/// `ColumnDef::boolean`: sets the type to `Boolean`.
#[verifier::external_body]
fn column_boolean(c: &mut ColumnDef)
    ensures
        column_parts(*final(c)) == (ColumnParts {
            kind: Some(SqlType::Boolean),
            ..column_parts(*old(c))
        }),
{
    c.boolean();
}

/// `ColumnDef::integer`: sets the type to `Integer`.
#[verifier::external_body]
fn column_integer(c: &mut ColumnDef)
    ensures
        column_parts(*final(c)) == (ColumnParts {
            kind: Some(SqlType::Integer),
            ..column_parts(*old(c))
        }),
{
    c.integer();
}

/// `ColumnDef::timestamp`: sets the type to `Timestamp`.
#[verifier::external_body]
fn column_timestamp(c: &mut ColumnDef)
    ensures
        column_parts(*final(c)) == (ColumnParts {
            kind: Some(SqlType::Timestamp),
            ..column_parts(*old(c))
        }),
{
    c.timestamp();
}

/// `ColumnDef::enumeration` on an `Alias` of the name and of each value: sets
/// the type to `Enum` with that name and those variants, in their order.
#[verifier::external_body]
fn column_enumeration(c: &mut ColumnDef, name: &str, values: &Vec<String>)
    ensures
        column_parts(*final(c)) == (ColumnParts {
            kind: Some(SqlType::Enum { name: name@, variants: texts(values@) }),
            ..column_parts(*old(c))
        }),
{
    c.enumeration(Alias::new(name), values.iter().map(Alias::new));
}

/// `ColumnDef::array`: sets the type to `Array` of the element type.
#[verifier::external_body]
fn column_array(c: &mut ColumnDef, element: ColumnType)
    ensures
        column_parts(*final(c)) == (ColumnParts {
            kind: Some(SqlType::Array(Box::new(type_parts(element)))),
            ..column_parts(*old(c))
        }),
{
    c.array(element);
}

/// `ColumnDef::get_column_type`, cloned: the type of the column, if one is
/// set.
#[verifier::external_body]
fn column_type_of(c: &ColumnDef) -> (t: Option<ColumnType>)
    ensures
        match t {
            Some(kind) => column_parts(*c).kind == Some(type_parts(kind)),
            None => column_parts(*c).kind is None,
        },
{
    c.get_column_type().cloned()
}

/// `ColumnDef::not_null`: adds the keyword `NotNull`.
#[verifier::external_body]
fn column_not_null(c: &mut ColumnDef)
    ensures
        column_parts(*final(c)) == (ColumnParts {
            words: column_parts(*old(c)).words.push(SqlWord::NotNull),
            ..column_parts(*old(c))
        }),
{
    c.not_null();
}

/// `ColumnDef::null`: adds the keyword `Null`.
#[verifier::external_body]
fn column_null(c: &mut ColumnDef)
    ensures
        column_parts(*final(c)) == (ColumnParts {
            words: column_parts(*old(c)).words.push(SqlWord::Null),
            ..column_parts(*old(c))
        }),
{
    c.null();
}

/// `ColumnDef::default` on a boolean: adds the keyword `Default` with that
/// value.
#[verifier::external_body]
fn column_default_bool(c: &mut ColumnDef, value: bool)
    ensures
        column_parts(*final(c)) == (ColumnParts {
            words: column_parts(*old(c)).words.push(SqlWord::DefaultBool(value)),
            ..column_parts(*old(c))
        }),
{
    c.default(value);
}

/// `ColumnDef::default` on `Expr::current_timestamp()`: adds the keyword
/// `Default` with the keyword `CURRENT_TIMESTAMP`.
#[verifier::external_body]
fn column_default_now(c: &mut ColumnDef)
    ensures
        column_parts(*final(c)) == (ColumnParts {
            words: column_parts(*old(c)).words.push(SqlWord::DefaultCurrentTimestamp),
            ..column_parts(*old(c))
        }),
{
    c.default(Expr::current_timestamp());
}

/// `ColumnDef::primary_key`: adds the keyword `PrimaryKey`.
#[verifier::external_body]
fn column_primary_key(c: &mut ColumnDef)
    ensures
        column_parts(*final(c)) == (ColumnParts {
            words: column_parts(*old(c)).words.push(SqlWord::PrimaryKey),
            ..column_parts(*old(c))
        }),
{
    c.primary_key();
}

/// `Table::create`: a new statement, with no table, no columns, and
/// `if_not_exists` off.
#[verifier::external_body]
fn table_create_new() -> (s: TableCreateStatement)
    ensures
        table_create_parts(s) == (TableCreateParts {
            table: None,
            if_not_exists: false,
            columns: Seq::empty(),
            plain: true,
        }),
{
    Table::create()
}

/// `TableCreateStatement::table` on an `Alias` of the name: sets the table.
#[verifier::external_body]
fn table_create_table(s: &mut TableCreateStatement, name: &str)
    ensures
        table_create_parts(*final(s)) == (TableCreateParts {
            table: Some(name@),
            ..table_create_parts(*old(s))
        }),
{
    s.table(Alias::new(name));
}

/// `TableCreateStatement::if_not_exists`: switches `if_not_exists` on.
#[verifier::external_body]
fn table_create_if_not_exists(s: &mut TableCreateStatement)
    ensures
        table_create_parts(*final(s)) == (TableCreateParts {
            if_not_exists: true,
            ..table_create_parts(*old(s))
        }),
{
    s.if_not_exists();
}

/// `TableCreateStatement::col`: adds the column behind those that are there,
/// with its name, type and keywords as they are.
#[verifier::external_body]
fn table_create_col(s: &mut TableCreateStatement, column: ColumnDef)
    ensures
        table_create_parts(*final(s)) == (TableCreateParts {
            columns: table_create_parts(*old(s)).columns.push(column_parts(column)),
            ..table_create_parts(*old(s))
        }),
{
    s.col(column);
}

/// `Index::create`: a new statement, with no name, no table and no columns,
/// not unique, and `if_not_exists` off.
#[verifier::external_body]
fn index_create_new() -> (s: IndexCreateStatement)
    ensures
        index_create_parts(s) == (IndexCreateParts {
            name: None,
            table: None,
            columns: Seq::empty(),
            unique: false,
            if_not_exists: false,
            plain: true,
        }),
{
    Index::create()
}

/// `IndexCreateStatement::name`: sets the name of the index.
#[verifier::external_body]
fn index_create_name(s: &mut IndexCreateStatement, name: &str)
    ensures
        index_create_parts(*final(s)) == (IndexCreateParts {
            name: Some(name@),
            ..index_create_parts(*old(s))
        }),
{
    s.name(name);
}

/// `IndexCreateStatement::table` on an `Alias` of the name: sets the table.
#[verifier::external_body]
fn index_create_table(s: &mut IndexCreateStatement, name: &str)
    ensures
        index_create_parts(*final(s)) == (IndexCreateParts {
            table: Some(name@),
            ..index_create_parts(*old(s))
        }),
{
    s.table(Alias::new(name));
}

/// `IndexCreateStatement::col` on an `Alias` of the name: adds the column
/// behind those that are there.
#[verifier::external_body]
fn index_create_col(s: &mut IndexCreateStatement, name: &str)
    ensures
        index_create_parts(*final(s)) == (IndexCreateParts {
            columns: index_create_parts(*old(s)).columns.push(name@),
            ..index_create_parts(*old(s))
        }),
{
    s.col(Alias::new(name));
}

/// `IndexCreateStatement::unique`: makes the index unique.
#[verifier::external_body]
fn index_create_unique(s: &mut IndexCreateStatement)
    ensures
        index_create_parts(*final(s)) == (IndexCreateParts {
            unique: true,
            ..index_create_parts(*old(s))
        }),
{
    s.unique();
}

/// `IndexCreateStatement::if_not_exists`: switches `if_not_exists` on.
#[verifier::external_body]
fn index_create_if_not_exists(s: &mut IndexCreateStatement)
    ensures
        index_create_parts(*final(s)) == (IndexCreateParts {
            if_not_exists: true,
            ..index_create_parts(*old(s))
        }),
{
    s.if_not_exists();
}

/// `Index::drop`: a new statement, with no name, and `if_exists` off.
#[verifier::external_body]
fn index_drop_new() -> (s: IndexDropStatement)
    ensures
        index_drop_parts(s) == (IndexDropParts { name: None, if_exists: false, plain: true }),
{
    Index::drop()
}

/// `IndexDropStatement::name`: sets the name of the index.
#[verifier::external_body]
fn index_drop_name(s: &mut IndexDropStatement, name: &str)
    ensures
        index_drop_parts(*final(s)) == (IndexDropParts {
            name: Some(name@),
            ..index_drop_parts(*old(s))
        }),
{
    s.name(name);
}

/// `IndexDropStatement::if_exists`: switches `if_exists` on.
#[verifier::external_body]
fn index_drop_if_exists(s: &mut IndexDropStatement)
    ensures
        index_drop_parts(*final(s)) == (IndexDropParts {
            if_exists: true,
            ..index_drop_parts(*old(s))
        }),
{
    s.if_exists();
}

/// `Table::drop`: a new statement, with no table, and `if_exists` off.
#[verifier::external_body]
fn table_drop_new() -> (s: TableDropStatement)
    ensures
        table_drop_parts(s) == (TableDropParts {
            tables: Seq::empty(),
            if_exists: false,
            plain: true,
        }),
{
    Table::drop()
}

/// `TableDropStatement::table` on an `Alias` of the name: adds the table
/// behind those that are there.
#[verifier::external_body]
fn table_drop_table(s: &mut TableDropStatement, name: &str)
    ensures
        table_drop_parts(*final(s)) == (TableDropParts {
            tables: table_drop_parts(*old(s)).tables.push(name@),
            ..table_drop_parts(*old(s))
        }),
{
    s.table(Alias::new(name));
}

/// `TableDropStatement::if_exists`: switches `if_exists` on.
#[verifier::external_body]
fn table_drop_if_exists(s: &mut TableDropStatement)
    ensures
        table_drop_parts(*final(s)) == (TableDropParts {
            if_exists: true,
            ..table_drop_parts(*old(s))
        }),
{
    s.if_exists();
}

/// The type that stands for a type tag: an identifier is a `Uuid`, text a
/// `String` of the default length.
pub open spec fn sql_type(tag: TypeTagView) -> SqlType
    decreases tag,
{
    match tag {
        TypeTagView::Identifier => SqlType::Uuid,
        TypeTagView::Text => SqlType::String,
        TypeTagView::Boolean => SqlType::Boolean,
        TypeTagView::Integer => SqlType::Integer,
        TypeTagView::Timestamp => SqlType::Timestamp,
        TypeTagView::Enumeration { name, values } => SqlType::Enum { name, variants: values },
        TypeTagView::ArrayOf(inner) => SqlType::Array(Box::new(sql_type(*inner))),
    }
}

/// The keywords of a column: whether it may be empty, then its default,
/// then whether it is the primary key.
pub open spec fn sql_words(column: ColumnView) -> Seq<SqlWord> {
    let nullability = if column.nullable {
        seq![SqlWord::Null]
    } else {
        seq![SqlWord::NotNull]
    };
    let default = match column.default {
        Some(DefaultView::Boolean(value)) => seq![SqlWord::DefaultBool(value)],
        Some(DefaultView::CurrentTimestamp) => seq![SqlWord::DefaultCurrentTimestamp],
        None => Seq::empty(),
    };
    let key = if column.primary {
        seq![SqlWord::PrimaryKey]
    } else {
        Seq::empty()
    };
    nullability + default + key
}

/// The parts of the column definition that stands for a column.
pub open spec fn column_sql(column: ColumnView) -> ColumnParts {
    ColumnParts {
        name: column.name,
        kind: Some(sql_type(column.column_type)),
        words: sql_words(column),
    }
}

/// The parts of the statement that creates a table.
pub open spec fn table_create_sql(table: TableView, if_not_exists: bool) -> TableCreateParts {
    TableCreateParts {
        table: Some(table.name),
        if_not_exists,
        columns: table.columns.map_values(|c: ColumnView| column_sql(c)),
        plain: true,
    }
}

/// The parts of the statement that creates an index.
pub open spec fn index_create_sql(index: IndexView, if_not_exists: bool) -> IndexCreateParts {
    IndexCreateParts {
        name: Some(index.name),
        table: Some(index.table),
        columns: index.columns,
        unique: index.unique,
        if_not_exists,
        plain: true,
    }
}

/// Sets the type of a column definition to what stands for the tag.
fn set_type(c: &mut ColumnDef, tag: &TypeTag)
    ensures
        column_parts(*final(c)) == (ColumnParts {
            kind: Some(sql_type(tag@)),
            ..column_parts(*old(c))
        }),
    decreases tag,
{
    match tag {
        TypeTag::Identifier => column_uuid(c),
        TypeTag::Text => column_string(c),
        TypeTag::Boolean => column_boolean(c),
        TypeTag::Integer => column_integer(c),
        TypeTag::Timestamp => column_timestamp(c),
        TypeTag::Enumeration { name, values } => column_enumeration(c, name.as_str(), values),
        TypeTag::ArrayOf(inner) => {
            let mut element = column_new("");
            set_type(&mut element, inner);
            match column_type_of(&element) {
                Some(kind) => column_array(c, kind),
                None => {
                    assert(false);
                },
            }
        },
    }
}

/// The column definition of sea-query for a column.
pub fn build_column(column: &Column) -> (c: ColumnDef)
    ensures
        column_parts(c) == column_sql(column@),
{
    let mut c = column_new(column.name.as_str());
    set_type(&mut c, &column.column_type);
    if column.nullable {
        column_null(&mut c);
    } else {
        column_not_null(&mut c);
    }
    match column.default {
        Some(DefaultValue::Boolean(value)) => column_default_bool(&mut c, value),
        Some(DefaultValue::CurrentTimestamp) => column_default_now(&mut c),
        None => {},
    }
    if column.primary {
        column_primary_key(&mut c);
    }
    assert(column_parts(c).words =~= sql_words(column@));
    c
}

/// The statement of sea-query that creates a table.
pub fn build_create_table(table: &TableDef, if_not_exists: bool) -> (s: TableCreateStatement)
    ensures
        table_create_parts(s) == table_create_sql(table@, if_not_exists),
{
    let mut s = table_create_new();
    table_create_table(&mut s, table.name.as_str());
    if if_not_exists {
        table_create_if_not_exists(&mut s);
    }
    let mut i: usize = 0;
    while i < table.columns.len()
        invariant
            i <= table.columns.len(),
            table_create_parts(s).table == Some(table@.name),
            table_create_parts(s).if_not_exists == if_not_exists,
            table_create_parts(s).plain,
            table_create_parts(s).columns == table@.columns.take(i as int).map_values(
                |c: ColumnView| column_sql(c),
            ),
        decreases table.columns.len() - i,
    {
        let c = build_column(&table.columns[i]);
        table_create_col(&mut s, c);
        proof {
            let f = |c: ColumnView| column_sql(c);
            assert(table@.columns.take(i + 1).map_values(f) =~= table@.columns.take(
                i as int,
            ).map_values(f).push(column_sql(table.columns@[i as int]@)));
        }
        i = i + 1;
    }
    assert(table@.columns.take(i as int) =~= table@.columns);
    s
}

/// The statement of sea-query that creates an index.
pub fn build_create_index(index: &IndexDef, if_not_exists: bool) -> (s: IndexCreateStatement)
    ensures
        index_create_parts(s) == index_create_sql(index@, if_not_exists),
{
    let mut s = index_create_new();
    if if_not_exists {
        index_create_if_not_exists(&mut s);
    }
    index_create_name(&mut s, index.name.as_str());
    index_create_table(&mut s, index.table.as_str());
    if index.unique {
        index_create_unique(&mut s);
    }
    assert(index@.columns.take(0) =~= Seq::<Seq<char>>::empty());
    let mut i: usize = 0;
    while i < index.columns.len()
        invariant
            i <= index.columns.len(),
            index_create_parts(s) == (IndexCreateParts {
                columns: index@.columns.take(i as int),
                ..index_create_sql(index@, if_not_exists)
            }),
        decreases index.columns.len() - i,
    {
        index_create_col(&mut s, index.columns[i].as_str());
        proof {
            assert(index@.columns.take(i + 1) =~= index@.columns.take(i as int).push(
                index.columns@[i as int]@,
            ));
        }
        i = i + 1;
    }
    assert(index@.columns.take(i as int) =~= index@.columns);
    s
}

/// The statement of sea-query that drops an index.
pub fn build_drop_index(name: &str, if_exists: bool) -> (s: IndexDropStatement)
    ensures
        index_drop_parts(s) == (IndexDropParts { name: Some(name@), if_exists, plain: true }),
{
    let mut s = index_drop_new();
    index_drop_name(&mut s, name);
    if if_exists {
        index_drop_if_exists(&mut s);
    }
    s
}

/// The statement of sea-query that drops a table.
pub fn build_drop_table(name: &str, if_exists: bool) -> (s: TableDropStatement)
    ensures
        table_drop_parts(s) == (TableDropParts { tables: seq![name@], if_exists, plain: true }),
{
    let mut s = table_drop_new();
    table_drop_table(&mut s, name);
    if if_exists {
        table_drop_if_exists(&mut s);
    }
    s
}

/// A statement of sea-query, ready to be handed to a database.
pub enum Statement {
    CreateTable(TableCreateStatement),
    CreateIndex(IndexCreateStatement),
    DropIndex(IndexDropStatement),
    DropTable(TableDropStatement),
}

/// The statement is the one that carries out the operation.
pub open spec fn carries_out(statement: Statement, op: OpView) -> bool {
    match op {
        OpView::CreateTable { table, if_not_exists } => statement matches Statement::CreateTable(s)
            && table_create_parts(s) == table_create_sql(table, if_not_exists),
        OpView::CreateIndex { index, if_not_exists } => statement matches Statement::CreateIndex(s)
            && index_create_parts(s) == index_create_sql(index, if_not_exists),
        OpView::DropIndex { name, if_exists } => statement matches Statement::DropIndex(s)
            && index_drop_parts(s) == (IndexDropParts { name: Some(name), if_exists, plain: true }),
        OpView::DropTable { name, if_exists } => statement matches Statement::DropTable(s)
            && table_drop_parts(s) == (TableDropParts { tables: seq![name], if_exists, plain: true }),
    }
}

/// The statement of sea-query that carries out an operation.
pub fn build_statement(op: &SchemaOp) -> (statement: Statement)
    ensures
        carries_out(statement, op@),
{
    match op {
        SchemaOp::CreateTable { table, if_not_exists } => Statement::CreateTable(
            build_create_table(table, *if_not_exists),
        ),
        SchemaOp::CreateIndex { index, if_not_exists } => Statement::CreateIndex(
            build_create_index(index, *if_not_exists),
        ),
        SchemaOp::DropIndex { name, if_exists } => Statement::DropIndex(
            build_drop_index(name.as_str(), *if_exists),
        ),
        SchemaOp::DropTable { name, if_exists } => Statement::DropTable(
            build_drop_table(name.as_str(), *if_exists),
        ),
    }
}

/// The statements that carry out the operations of an action, in its order.
pub fn build_statements(ops: &Vec<SchemaOp>) -> (statements: Vec<Statement>)
    ensures
        statements.len() == ops.len(),
        forall|i: int|
            0 <= i < ops.len() ==> carries_out(#[trigger] statements@[i], ops@[i]@),
{
    let mut statements: Vec<Statement> = Vec::new();
    let mut i: usize = 0;
    while i < ops.len()
        invariant
            i <= ops.len(),
            statements.len() == i,
            forall|j: int| 0 <= j < i ==> carries_out(#[trigger] statements@[j], ops@[j]@),
        decreases ops.len() - i,
    {
        statements.push(build_statement(&ops[i]));
        i = i + 1;
    }
    statements
}

} // verus!
