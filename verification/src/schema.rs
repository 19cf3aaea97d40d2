//! Table, column and index definitions: the values a migration is made of.

use vstd::prelude::*;

verus! {

/// The texts of a sequence of strings.
pub open spec fn texts(v: Seq<String>) -> Seq<Seq<char>> {
    v.map_values(|s: String| s@)
}

/// A copy of a list of strings.
pub fn copy_texts(v: &Vec<String>) -> (r: Vec<String>)
    ensures
        texts(r@) == texts(v@),
{
    let mut out: Vec<String> = Vec::new();
    let mut i: usize = 0;
    while i < v.len()
        invariant
            i <= v.len(),
            out.len() == i,
            forall|j: int| 0 <= j < i ==> out@[j]@ == v@[j]@,
        decreases v.len() - i,
    {
        out.push(v[i].clone());
        i = i + 1;
    }
    out
}

/// What a column type is, as a mathematical value.
pub enum TypeTagView {
    Identifier,
    Text,
    Boolean,
    Integer,
    Timestamp,
    Enumeration { name: Seq<char>, values: Seq<Seq<char>> },
    ArrayOf(Box<TypeTagView>),
}

/// The semantic type of a column.
#[derive(Debug)]
pub enum TypeTag {
    /// A unique identifier.
    Identifier,
    /// Text.
    Text,
    /// True or false.
    Boolean,
    /// A whole number.
    Integer,
    /// A point in time.
    Timestamp,
    /// One of the listed values of a named enumeration.
    Enumeration { name: String, values: Vec<String> },
    /// A sequence of values of one type.
    ArrayOf(Box<TypeTag>),
}

impl TypeTag {
    /// The type as a mathematical value.
    pub open spec fn model(&self) -> TypeTagView
        decreases self,
    {
        match self {
            TypeTag::Identifier => TypeTagView::Identifier,
            TypeTag::Text => TypeTagView::Text,
            TypeTag::Boolean => TypeTagView::Boolean,
            TypeTag::Integer => TypeTagView::Integer,
            TypeTag::Timestamp => TypeTagView::Timestamp,
            TypeTag::Enumeration { name, values } => TypeTagView::Enumeration {
                name: name@,
                values: texts(values@),
            },
            TypeTag::ArrayOf(inner) => TypeTagView::ArrayOf(Box::new(inner.model())),
        }
    }
}

impl View for TypeTag {
    type V = TypeTagView;

    open spec fn view(&self) -> TypeTagView {
        self.model()
    }
}

impl Clone for TypeTag {
    fn clone(&self) -> (r: Self)
        ensures
            r@ == self@,
        decreases self,
    {
        match self {
            TypeTag::Identifier => TypeTag::Identifier,
            TypeTag::Text => TypeTag::Text,
            TypeTag::Boolean => TypeTag::Boolean,
            TypeTag::Integer => TypeTag::Integer,
            TypeTag::Timestamp => TypeTag::Timestamp,
            TypeTag::Enumeration { name, values } => TypeTag::Enumeration {
                name: name.clone(),
                values: copy_texts(values),
            },
            TypeTag::ArrayOf(inner) => TypeTag::ArrayOf(Box::new((**inner).clone())),
        }
    }
}

/// What a default value is, as a mathematical value.
pub enum DefaultView {
    Boolean(bool),
    CurrentTimestamp,
}

/// The value a column takes when a row names none.
#[derive(Debug)]
pub enum DefaultValue {
    /// A fixed truth value.
    Boolean(bool),
    /// The time at which the row is written.
    CurrentTimestamp,
}

impl View for DefaultValue {
    type V = DefaultView;

    open spec fn view(&self) -> DefaultView {
        match self {
            DefaultValue::Boolean(b) => DefaultView::Boolean(*b),
            DefaultValue::CurrentTimestamp => DefaultView::CurrentTimestamp,
        }
    }
}

impl Clone for DefaultValue {
    fn clone(&self) -> (r: Self)
        ensures
            r@ == self@,
    {
        match self {
            DefaultValue::Boolean(b) => DefaultValue::Boolean(*b),
            DefaultValue::CurrentTimestamp => DefaultValue::CurrentTimestamp,
        }
    }
}

/// What a column definition is, as a mathematical value.
pub struct ColumnView {
    pub name: Seq<char>,
    pub column_type: TypeTagView,
    pub nullable: bool,
    pub default: Option<DefaultView>,
    pub primary: bool,
}

/// One column of a table: its name, its type, whether a row may leave it
/// empty, what it defaults to, and whether it is the table's primary key.
#[derive(Debug)]
pub struct Column {
    pub name: String,
    pub column_type: TypeTag,
    pub nullable: bool,
    pub default: Option<DefaultValue>,
    pub primary: bool,
}

impl View for Column {
    type V = ColumnView;

    open spec fn view(&self) -> ColumnView {
        ColumnView {
            name: self.name@,
            column_type: self.column_type@,
            nullable: self.nullable,
            default: match self.default {
                Some(d) => Some(d@),
                None => None,
            },
            primary: self.primary,
        }
    }
}

impl Clone for Column {
    fn clone(&self) -> (r: Self)
        ensures
            r@ == self@,
    {
        Column {
            name: self.name.clone(),
            column_type: self.column_type.clone(),
            nullable: self.nullable,
            default: match &self.default {
                Some(d) => Some(d.clone()),
                None => None,
            },
            primary: self.primary,
        }
    }
}

/// A column as a mathematical value.
pub open spec fn column(
    name: Seq<char>,
    column_type: TypeTagView,
    nullable: bool,
    default: Option<DefaultView>,
    primary: bool,
) -> ColumnView {
    ColumnView { name, column_type, nullable, default, primary }
}

/// The views of a sequence of columns.
pub open spec fn column_views(v: Seq<Column>) -> Seq<ColumnView> {
    v.map_values(|c: Column| c@)
}

/// The names of a sequence of columns.
pub open spec fn column_names(v: Seq<ColumnView>) -> Seq<Seq<char>> {
    v.map_values(|c: ColumnView| c.name)
}

/// What a table definition is, as a mathematical value.
pub struct TableView {
    pub name: Seq<char>,
    pub columns: Seq<ColumnView>,
}

impl TableView {
    /// No two columns share a name.
    pub open spec fn well_formed(self) -> bool {
        column_names(self.columns).no_duplicates()
    }

    /// The table has a column of this name.
    pub open spec fn has_column(self, name: Seq<char>) -> bool {
        column_names(self.columns).contains(name)
    }
}

/// A table: its name and its columns, in order.
#[derive(Debug)]
pub struct TableDef {
    pub name: String,
    pub columns: Vec<Column>,
}

impl View for TableDef {
    type V = TableView;

    open spec fn view(&self) -> TableView {
        TableView { name: self.name@, columns: column_views(self.columns@) }
    }
}

impl Clone for TableDef {
    fn clone(&self) -> (r: Self)
        ensures
            r@ == self@,
    {
        let mut columns: Vec<Column> = Vec::new();
        let mut i: usize = 0;
        while i < self.columns.len()
            invariant
                i <= self.columns.len(),
                columns.len() == i,
                forall|j: int| 0 <= j < i ==> columns@[j]@ == self.columns@[j]@,
            decreases self.columns.len() - i,
        {
            columns.push(self.columns[i].clone());
            i = i + 1;
        }
        assert(column_views(columns@) =~= column_views(self.columns@));
        TableDef { name: self.name.clone(), columns }
    }
}

impl TableDef {
    /// Whether the table has a column of this name.
    pub fn has_column(&self, name: &String) -> (r: bool)
        ensures
            r == self@.has_column(name@),
    {
        let mut i: usize = 0;
        while i < self.columns.len()
            invariant
                i <= self.columns.len(),
                forall|j: int| 0 <= j < i ==> column_names(self@.columns)[j] != name@,
            decreases self.columns.len() - i,
        {
            if self.columns[i].name == *name {
                assert(column_names(self@.columns)[i as int] == name@);
                return true;
            }
            i = i + 1;
        }
        false
    }

    /// Whether no two columns share a name.
    pub fn is_well_formed(&self) -> (r: bool)
        ensures
            r == self@.well_formed(),
    {
        let n = self.columns.len();
        let mut i: usize = 0;
        while i < n
            invariant
                n == self.columns.len(),
                i <= n,
                forall|a: int, b: int|
                    0 <= a < b < i ==> column_names(self@.columns)[a] != column_names(
                        self@.columns,
                    )[b],
            decreases n - i,
        {
            let mut j: usize = 0;
            while j < i
                invariant
                    n == self.columns.len(),
                    i < n,
                    j <= i,
                    forall|a: int|
                        0 <= a < j ==> column_names(self@.columns)[a] != column_names(
                            self@.columns,
                        )[i as int],
                decreases i - j,
            {
                if self.columns[j].name == self.columns[i].name {
                    assert(column_names(self@.columns)[j as int] == column_names(
                        self@.columns,
                    )[i as int]);
                    return false;
                }
                j = j + 1;
            }
            i = i + 1;
        }
        true
    }
}

/// What an index definition is, as a mathematical value.
pub struct IndexView {
    pub name: Seq<char>,
    pub table: Seq<char>,
    pub columns: Seq<Seq<char>>,
    pub unique: bool,
}

/// An index: its name, the table it is on, the columns it covers, in order,
/// and whether it admits each combination of values once only.
#[derive(Debug)]
pub struct IndexDef {
    pub name: String,
    pub table: String,
    pub columns: Vec<String>,
    pub unique: bool,
}

impl View for IndexDef {
    type V = IndexView;

    open spec fn view(&self) -> IndexView {
        IndexView {
            name: self.name@,
            table: self.table@,
            columns: texts(self.columns@),
            unique: self.unique,
        }
    }
}

impl Clone for IndexDef {
    fn clone(&self) -> (r: Self)
        ensures
            r@ == self@,
    {
        IndexDef {
            name: self.name.clone(),
            table: self.table.clone(),
            columns: copy_texts(&self.columns),
            unique: self.unique,
        }
    }
}

impl Column {
    /// A required column of this name and type, with no default.
    pub fn new(name: &str, column_type: TypeTag) -> (r: Column)
        ensures
            r@ == (ColumnView {
                name: name@,
                column_type: column_type@,
                nullable: false,
                default: None,
                primary: false,
            }),
    {
        Column { name: name.to_owned(), column_type, nullable: false, default: None, primary: false }
    }

    /// The same column, but a row may leave it empty.
    pub fn null(self) -> (r: Column)
        ensures
            r@ == (ColumnView { nullable: true, ..self@ }),
    {
        Column { nullable: true, ..self }
    }

    /// The same column, with this default.
    pub fn with_default(self, value: DefaultValue) -> (r: Column)
        ensures
            r@ == (ColumnView { default: Some(value@), ..self@ }),
    {
        Column { default: Some(value), ..self }
    }

    /// The same column, as the primary key of its table.
    pub fn primary_key(self) -> (r: Column)
        ensures
            r@ == (ColumnView { primary: true, ..self@ }),
    {
        Column { primary: true, ..self }
    }
}

/// A required column that holds a unique identifier.
pub fn uuid(name: &str) -> (r: Column)
    ensures
        r@ == (ColumnView {
            name: name@,
            column_type: TypeTagView::Identifier,
            nullable: false,
            default: None,
            primary: false,
        }),
{
    Column::new(name, TypeTag::Identifier)
}

/// A required column that holds text.
pub fn string(name: &str) -> (r: Column)
    ensures
        r@ == (ColumnView {
            name: name@,
            column_type: TypeTagView::Text,
            nullable: false,
            default: None,
            primary: false,
        }),
{
    Column::new(name, TypeTag::Text)
}

/// An optional column that holds text.
pub fn string_null(name: &str) -> (r: Column)
    ensures
        r@ == (ColumnView {
            name: name@,
            column_type: TypeTagView::Text,
            nullable: true,
            default: None,
            primary: false,
        }),
{
    Column::new(name, TypeTag::Text).null()
}

/// A required column that holds a truth value.
pub fn boolean(name: &str) -> (r: Column)
    ensures
        r@ == (ColumnView {
            name: name@,
            column_type: TypeTagView::Boolean,
            nullable: false,
            default: None,
            primary: false,
        }),
{
    Column::new(name, TypeTag::Boolean)
}

/// A required column that holds a whole number.
pub fn integer(name: &str) -> (r: Column)
    ensures
        r@ == (ColumnView {
            name: name@,
            column_type: TypeTagView::Integer,
            nullable: false,
            default: None,
            primary: false,
        }),
{
    Column::new(name, TypeTag::Integer)
}

/// A required column that holds a point in time.
pub fn timestamp(name: &str) -> (r: Column)
    ensures
        r@ == (ColumnView {
            name: name@,
            column_type: TypeTagView::Timestamp,
            nullable: false,
            default: None,
            primary: false,
        }),
{
    Column::new(name, TypeTag::Timestamp)
}

/// An optional column that holds a point in time.
pub fn timestamp_null(name: &str) -> (r: Column)
    ensures
        r@ == (ColumnView {
            name: name@,
            column_type: TypeTagView::Timestamp,
            nullable: true,
            default: None,
            primary: false,
        }),
{
    Column::new(name, TypeTag::Timestamp).null()
}

/// A required column that holds one of the values of a named enumeration.
pub fn enumeration(name: &str, enumeration_name: &str, values: Vec<String>) -> (r: Column)
    ensures
        r@ == (ColumnView {
            name: name@,
            column_type: TypeTagView::Enumeration {
                name: enumeration_name@,
                values: texts(values@),
            },
            nullable: false,
            default: None,
            primary: false,
        }),
{
    Column::new(name, TypeTag::Enumeration { name: enumeration_name.to_owned(), values })
}

/// A required column that holds a sequence of values of one type.
pub fn array(name: &str, element: TypeTag) -> (r: Column)
    ensures
        r@ == (ColumnView {
            name: name@,
            column_type: TypeTagView::ArrayOf(Box::new(element@)),
            nullable: false,
            default: None,
            primary: false,
        }),
{
    Column::new(name, TypeTag::ArrayOf(Box::new(element)))
}

impl TableDef {
    /// A table of this name, with no columns yet.
    pub fn new(name: &str) -> (r: TableDef)
        ensures
            r@ == (TableView { name: name@, columns: Seq::empty() }),
    {
        let r = TableDef { name: name.to_owned(), columns: Vec::new() };
        assert(r@.columns =~= Seq::empty());
        r
    }

    /// The same table, with this column behind those it has.
    pub fn col(self, column: Column) -> (r: TableDef)
        ensures
            r@ == (TableView { columns: self@.columns.push(column@), ..self@ }),
    {
        let mut table = self;
        table.columns.push(column);
        assert(table@.columns =~= self@.columns.push(column@));
        table
    }
}

impl IndexDef {
    /// An index of this name on this table, not unique, with no columns yet.
    pub fn new(name: &str, table: &str) -> (r: IndexDef)
        ensures
            r@ == (IndexView {
                name: name@,
                table: table@,
                columns: Seq::empty(),
                unique: false,
            }),
    {
        let r = IndexDef {
            name: name.to_owned(),
            table: table.to_owned(),
            columns: Vec::new(),
            unique: false,
        };
        assert(r@.columns =~= Seq::empty());
        r
    }

    /// The same index, with this column behind those it covers.
    pub fn col(self, column: &str) -> (r: IndexDef)
        ensures
            r@ == (IndexView { columns: self@.columns.push(column@), ..self@ }),
    {
        let mut index = self;
        index.columns.push(column.to_owned());
        assert(index@.columns =~= self@.columns.push(column@));
        index
    }

    /// The same index, but unique.
    pub fn unique(self) -> (r: IndexDef)
        ensures
            r@ == (IndexView { unique: true, ..self@ }),
    {
        IndexDef { unique: true, ..self }
    }
}

} // verus!
