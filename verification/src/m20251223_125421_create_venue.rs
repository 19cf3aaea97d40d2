//! The migration that creates the table of venues and the index on their
//! titles.

use vstd::prelude::*;
use crate::catalog::{lemma_run_concat, lemma_run_single, CatalogView, SchemaFault};
use crate::name::lemma_first_index;
use crate::operation::{op_views, reverses, OpView, SchemaOp};
use crate::schema::{
    array, boolean, column, column_names, string, string_null, timestamp, timestamp_null, uuid,
    DefaultValue, DefaultView, IndexDef, IndexView, TableDef, TableView, TypeTag, TypeTagView,
};

verus! {

/// The table of venues: who hosts, where it is, and when the row was
/// written, changed and marked as deleted.
pub open spec fn venue_table() -> TableView {
    let now = Some(DefaultView::CurrentTimestamp);
    TableView {
        name: "venue"@,
        columns: seq![
            column("id"@, TypeTagView::Identifier, false, None, true),
            column("title"@, TypeTagView::Text, false, None, false),
            column("description"@, TypeTagView::Text, true, None, false),
            column("host"@, TypeTagView::Identifier, false, None, false),
            column(
                "co_hosts"@,
                TypeTagView::ArrayOf(Box::new(TypeTagView::Identifier)),
                false,
                None,
                false,
            ),
            column(
                "is_external"@,
                TypeTagView::Boolean,
                false,
                Some(DefaultView::Boolean(false)),
                false,
            ),
            column("street"@, TypeTagView::Text, false, None, false),
            column("city"@, TypeTagView::Text, false, None, false),
            column("postal"@, TypeTagView::Text, false, None, false),
            column("state"@, TypeTagView::Text, false, None, false),
            column("country"@, TypeTagView::Text, false, None, false),
            column("created_at"@, TypeTagView::Timestamp, false, now, false),
            column("updated_at"@, TypeTagView::Timestamp, false, now, false),
            column("deleted_at"@, TypeTagView::Timestamp, true, None, false),
        ],
    }
}

/// The index on the titles of venues.
pub open spec fn title_index() -> IndexView {
    IndexView {
        name: "idx-venue_title"@,
        table: "venue"@,
        columns: seq!["title"@],
        unique: false,
    }
}

/// The forward action: the table, then the index on it, each only where it
/// does not exist yet.
pub open spec fn up_ops() -> Seq<OpView> {
    seq![
        OpView::CreateTable { table: venue_table(), if_not_exists: true },
        OpView::CreateIndex { index: title_index(), if_not_exists: true },
    ]
}

/// The backward action: the index first, then the table.
pub open spec fn down_ops() -> Seq<OpView> {
    seq![
        OpView::DropIndex { name: "idx-venue_title"@, if_exists: false },
        OpView::DropTable { name: "venue"@, if_exists: false },
    ]
}

/// The migration that creates the venues.
#[derive(Debug, Clone, Copy)]
pub struct Migration;

impl Migration {
    /// The name of the migration.
    pub fn name(&self) -> (r: String)
        ensures
            r@ == "m20251223_125421_create_venue"@,
    {
        "m20251223_125421_create_venue".to_owned()
    }

    /// The definition of the table of venues.
    pub fn table(&self) -> (r: TableDef)
        ensures
            r@ == venue_table(),
    {
        let table = TableDef::new("venue")
            .col(uuid("id").primary_key())
            .col(string("title"))
            .col(string_null("description"))
            .col(uuid("host"))
            .col(array("co_hosts", TypeTag::Identifier))
            .col(boolean("is_external").with_default(DefaultValue::Boolean(false)))
            .col(string("street"))
            .col(string("city"))
            .col(string("postal"))
            .col(string("state"))
            .col(string("country"))
            .col(timestamp("created_at").with_default(DefaultValue::CurrentTimestamp))
            .col(timestamp("updated_at").with_default(DefaultValue::CurrentTimestamp))
            .col(timestamp_null("deleted_at"));
        assert(table@.columns =~= venue_table().columns);
        table
    }

    /// The definition of the index on the titles.
    pub fn index(&self) -> (r: IndexDef)
        ensures
            r@ == title_index(),
    {
        let index = IndexDef::new("idx-venue_title", "venue").col("title");
        index
    }

    /// The forward action.
    pub fn up(&self) -> (r: Vec<SchemaOp>)
        ensures
            op_views(r@) == up_ops(),
    {
        let mut ops: Vec<SchemaOp> = Vec::new();
        ops.push(SchemaOp::CreateTable { table: self.table(), if_not_exists: true });
        ops.push(SchemaOp::CreateIndex { index: self.index(), if_not_exists: true });
        ops
    }

    /// The backward action, which undoes the forward action.
    pub fn down(&self) -> (r: Vec<SchemaOp>)
        ensures
            op_views(r@) == down_ops(),
            reverses(down_ops(), up_ops()),
    {
        let mut ops: Vec<SchemaOp> = Vec::new();
        ops.push(SchemaOp::DropIndex { name: "idx-venue_title".to_owned(), if_exists: false });
        ops.push(SchemaOp::DropTable { name: "venue".to_owned(), if_exists: false });
        ops
    }

    /// The migration as the runner takes it.
    pub fn definition(&self) -> (r: crate::migration::Migration)
        ensures
            r@.name == "m20251223_125421_create_venue"@,
            r@.up == up_ops(),
            r@.down == down_ops(),
            r@.reversible(),
    {
        crate::migration::Migration { name: self.name(), up: self.up(), down: self.down() }
    }
}

/// The place of a column of the table of venues, told from the length of
/// its name and its first letter.
spec fn place(name: Seq<char>) -> int {
    let first = name[0];
    if name.len() == 2 {
        0
    } else if name.len() == 5 && first == 't' {
        1
    } else if name.len() == 11 && first == 'd' {
        2
    } else if name.len() == 4 && first == 'h' {
        3
    } else if name.len() == 8 {
        4
    } else if name.len() == 11 {
        5
    } else if name.len() == 6 && first == 's' {
        6
    } else if name.len() == 4 {
        7
    } else if name.len() == 6 {
        8
    } else if name.len() == 5 {
        9
    } else if name.len() == 7 {
        10
    } else if name.len() == 10 && first == 'c' {
        11
    } else if name.len() == 10 && first == 'u' {
        12
    } else {
        13
    }
}

/// No two columns of the table of venues share a name.
pub proof fn lemma_table_well_formed()
    ensures
        venue_table().well_formed(),
{
    reveal_strlit("id");
    reveal_strlit("title");
    reveal_strlit("description");
    reveal_strlit("host");
    reveal_strlit("co_hosts");
    reveal_strlit("is_external");
    reveal_strlit("street");
    reveal_strlit("city");
    reveal_strlit("postal");
    reveal_strlit("state");
    reveal_strlit("country");
    reveal_strlit("created_at");
    reveal_strlit("updated_at");
    reveal_strlit("deleted_at");
    let names = column_names(venue_table().columns);
    assert forall|i: int| 0 <= i < 14 implies place(#[trigger] names[i]) == i by {}
}

/// On a schema that holds nothing the forward action makes the table and
/// the index, and the backward action then leaves nothing again.
pub proof fn law_applies_to_empty()
    ensures
        ({
            let empty = CatalogView { tables: Seq::empty(), indexes: Seq::empty() };
            let made = CatalogView { tables: seq![venue_table()], indexes: seq![title_index()] };
            &&& empty.run(up_ops()) == Ok::<CatalogView, (int, SchemaFault)>(made)
            &&& made.run(down_ops()) == Ok::<CatalogView, (int, SchemaFault)>(empty)
        }),
{
    let empty = CatalogView { tables: Seq::empty(), indexes: Seq::empty() };
    let tabled = CatalogView { tables: seq![venue_table()], indexes: Seq::empty() };
    let made = CatalogView { tables: seq![venue_table()], indexes: seq![title_index()] };
    let create_table = up_ops()[0];
    let create_index = up_ops()[1];
    let drop_index = down_ops()[0];
    let drop_table = down_ops()[1];
    lemma_table_well_formed();
    assert(tabled.table_names()[0] == "venue"@);
    lemma_first_index(tabled.table_names(), "venue"@, 0);
    assert(column_names(venue_table().columns)[1] == "title"@);
    assert(made.index_names()[0] == "idx-venue_title"@);
    lemma_first_index(made.index_names(), "idx-venue_title"@, 0);
    assert(made.indexes.remove(0) =~= tabled.indexes);
    assert(tabled.tables.remove(0) =~= empty.tables);
    assert(up_ops() =~= seq![create_table] + seq![create_index]);
    assert(down_ops() =~= seq![drop_index] + seq![drop_table]);
    lemma_run_single(empty, create_table);
    lemma_run_single(tabled, create_index);
    lemma_run_concat(empty, seq![create_table], seq![create_index]);
    lemma_run_single(made, drop_index);
    lemma_run_single(tabled, drop_table);
    lemma_run_concat(made, seq![drop_index], seq![drop_table]);
}

} // verus!
