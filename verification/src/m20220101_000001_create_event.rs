//! The migration that creates the table of events and the index on their
//! titles.

use vstd::prelude::*;
use crate::catalog::{lemma_run_concat, lemma_run_single, CatalogView, SchemaFault};
use crate::name::lemma_first_index;
use crate::operation::{op_views, reverses, OpView, SchemaOp};
use crate::schema::{
    boolean, column, column_names, enumeration, string, string_null, texts, timestamp,
    timestamp_null, uuid, DefaultValue, DefaultView, IndexDef, IndexView, TableDef, TableView,
    TypeTagView,
};

verus! {

/// The states of an event, Draft, Published and Cancelled, as the database
/// stores them.
pub open spec fn status_values() -> Seq<Seq<char>> {
    seq!["draft"@, "published"@, "cancelled"@]
}

/// The table of events: what it is, who made and who runs it, when it takes
/// place, and when the row was written, changed and marked as deleted.
pub open spec fn event_table() -> TableView {
    let now = Some(DefaultView::CurrentTimestamp);
    let yes = Some(DefaultView::Boolean(true));
    TableView {
        name: "event"@,
        columns: seq![
            column("id"@, TypeTagView::Identifier, false, None, true),
            column("title"@, TypeTagView::Text, false, None, false),
            column("description"@, TypeTagView::Text, true, None, false),
            column(
                "status"@,
                TypeTagView::Enumeration { name: "event_status"@, values: status_values() },
                false,
                None,
                false,
            ),
            column("creator"@, TypeTagView::Identifier, false, None, false),
            column("organizer"@, TypeTagView::Identifier, false, None, false),
            column("thumbnail"@, TypeTagView::Text, true, None, false),
            column("date_from"@, TypeTagView::Timestamp, false, None, false),
            column("date_to"@, TypeTagView::Timestamp, false, None, false),
            column("is_arrival_time_required"@, TypeTagView::Boolean, false, yes, false),
            column("is_departure_time_required"@, TypeTagView::Boolean, false, yes, false),
            column("created_at"@, TypeTagView::Timestamp, false, now, false),
            column("updated_at"@, TypeTagView::Timestamp, false, now, false),
            column("deleted_at"@, TypeTagView::Timestamp, true, None, false),
        ],
    }
}

/// The index on the titles of events.
pub open spec fn title_index() -> IndexView {
    IndexView {
        name: "idx-event_title"@,
        table: "event"@,
        columns: seq!["title"@],
        unique: false,
    }
}

/// The forward action: the table, then the index on it, each only where it
/// does not exist yet.
pub open spec fn up_ops() -> Seq<OpView> {
    seq![
        OpView::CreateTable { table: event_table(), if_not_exists: true },
        OpView::CreateIndex { index: title_index(), if_not_exists: true },
    ]
}

/// The backward action: the index first, then the table.
pub open spec fn down_ops() -> Seq<OpView> {
    seq![
        OpView::DropIndex { name: "idx-event_title"@, if_exists: false },
        OpView::DropTable { name: "event"@, if_exists: false },
    ]
}

/// The migration that creates the events.
#[derive(Debug, Clone, Copy)]
pub struct Migration;

impl Migration {
    /// The name of the migration.
    pub fn name(&self) -> (r: String)
        ensures
            r@ == "m20220101_000001_create_event"@,
    {
        "m20220101_000001_create_event".to_owned()
    }

    /// The states an event can be in, as the database stores them.
    pub fn statuses(&self) -> (r: Vec<String>)
        ensures
            texts(r@) == status_values(),
    {
        let mut values: Vec<String> = Vec::new();
        values.push("draft".to_owned());
        values.push("published".to_owned());
        values.push("cancelled".to_owned());
        values
    }

    /// The definition of the table of events.
    pub fn table(&self) -> (r: TableDef)
        ensures
            r@ == event_table(),
    {
        let table = TableDef::new("event")
            .col(uuid("id").primary_key())
            .col(string("title"))
            .col(string_null("description"))
            .col(enumeration("status", "event_status", self.statuses()))
            .col(uuid("creator"))
            .col(uuid("organizer"))
            .col(string_null("thumbnail"))
            .col(timestamp("date_from"))
            .col(timestamp("date_to"))
            .col(boolean("is_arrival_time_required").with_default(DefaultValue::Boolean(true)))
            .col(boolean("is_departure_time_required").with_default(DefaultValue::Boolean(true)))
            .col(timestamp("created_at").with_default(DefaultValue::CurrentTimestamp))
            .col(timestamp("updated_at").with_default(DefaultValue::CurrentTimestamp))
            .col(timestamp_null("deleted_at"));
        assert(table@.columns =~= event_table().columns);
        table
    }

    /// The definition of the index on the titles.
    pub fn index(&self) -> (r: IndexDef)
        ensures
            r@ == title_index(),
    {
        let index = IndexDef::new("idx-event_title", "event").col("title");
        index
    }

    /// The forward action.
    pub fn up(&self) -> (r: Vec<SchemaOp>)
        ensures
            op_views(r@) == up_ops(),
    {
        let mut ops: Vec<SchemaOp> = Vec::new();
        ops.push(SchemaOp::CreateTable { table: self.table(), if_not_exists: true });
        ops.push(SchemaOp::CreateIndex { index: self.index(), if_not_exists: true });
        ops
    }

    /// The backward action, which undoes the forward action.
    pub fn down(&self) -> (r: Vec<SchemaOp>)
        ensures
            op_views(r@) == down_ops(),
            reverses(down_ops(), up_ops()),
    {
        let mut ops: Vec<SchemaOp> = Vec::new();
        ops.push(SchemaOp::DropIndex { name: "idx-event_title".to_owned(), if_exists: false });
        ops.push(SchemaOp::DropTable { name: "event".to_owned(), if_exists: false });
        ops
    }

    /// The migration as the runner takes it.
    pub fn definition(&self) -> (r: crate::migration::Migration)
        ensures
            r@.name == "m20220101_000001_create_event"@,
            r@.up == up_ops(),
            r@.down == down_ops(),
            r@.reversible(),
    {
        crate::migration::Migration { name: self.name(), up: self.up(), down: self.down() }
    }
}

/// The place of a column of the table of events, told from the length of
/// its name and its first letter.
spec fn place(name: Seq<char>) -> int {
    let first = name[0];
    if name.len() == 2 {
        0
    } else if name.len() == 5 {
        1
    } else if name.len() == 11 {
        2
    } else if name.len() == 6 {
        3
    } else if name.len() == 7 && first == 'c' {
        4
    } else if name.len() == 9 && first == 'o' {
        5
    } else if name.len() == 9 && first == 't' {
        6
    } else if name.len() == 9 {
        7
    } else if name.len() == 7 {
        8
    } else if name.len() == 24 {
        9
    } else if name.len() == 26 {
        10
    } else if name.len() == 10 && first == 'c' {
        11
    } else if name.len() == 10 && first == 'u' {
        12
    } else {
        13
    }
}

/// No two columns of the table of events share a name.
pub proof fn lemma_table_well_formed()
    ensures
        event_table().well_formed(),
{
    reveal_strlit("id");
    reveal_strlit("title");
    reveal_strlit("description");
    reveal_strlit("status");
    reveal_strlit("creator");
    reveal_strlit("organizer");
    reveal_strlit("thumbnail");
    reveal_strlit("date_from");
    reveal_strlit("date_to");
    reveal_strlit("is_arrival_time_required");
    reveal_strlit("is_departure_time_required");
    reveal_strlit("created_at");
    reveal_strlit("updated_at");
    reveal_strlit("deleted_at");
    let names = column_names(event_table().columns);
    assert forall|i: int| 0 <= i < 14 implies place(#[trigger] names[i]) == i by {}
}

/// On a schema that holds nothing the forward action makes the table and
/// the index, and the backward action then leaves nothing again.
pub proof fn law_applies_to_empty()
    ensures
        ({
            let empty = CatalogView { tables: Seq::empty(), indexes: Seq::empty() };
            let made = CatalogView { tables: seq![event_table()], indexes: seq![title_index()] };
            &&& empty.run(up_ops()) == Ok::<CatalogView, (int, SchemaFault)>(made)
            &&& made.run(down_ops()) == Ok::<CatalogView, (int, SchemaFault)>(empty)
        }),
{
    let empty = CatalogView { tables: Seq::empty(), indexes: Seq::empty() };
    let tabled = CatalogView { tables: seq![event_table()], indexes: Seq::empty() };
    let made = CatalogView { tables: seq![event_table()], indexes: seq![title_index()] };
    let create_table = up_ops()[0];
    let create_index = up_ops()[1];
    let drop_index = down_ops()[0];
    let drop_table = down_ops()[1];
    lemma_table_well_formed();
    assert(tabled.table_names()[0] == "event"@);
    lemma_first_index(tabled.table_names(), "event"@, 0);
    assert(column_names(event_table().columns)[1] == "title"@);
    assert(made.index_names()[0] == "idx-event_title"@);
    lemma_first_index(made.index_names(), "idx-event_title"@, 0);
    assert(made.indexes.remove(0) =~= tabled.indexes);
    assert(tabled.tables.remove(0) =~= empty.tables);
    assert(up_ops() =~= seq![create_table] + seq![create_index]);
    assert(down_ops() =~= seq![drop_index] + seq![drop_table]);
    lemma_run_single(empty, create_table);
    lemma_run_single(tabled, create_index);
    lemma_run_concat(empty, seq![create_table], seq![create_index]);
    lemma_run_single(made, drop_index);
    lemma_run_single(tabled, drop_table);
    lemma_run_concat(made, seq![drop_index], seq![drop_table]);
}

} // verus!
