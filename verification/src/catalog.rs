//! The schema a database holds, as far as migrations can observe it: its
//! tables and its indexes, and what each operation does to them.

use vstd::prelude::*;
use crate::name::{first_index, is_first, lemma_first_exists, lemma_first_index};
use crate::operation::{op_views, OpView, SchemaOp};
use crate::schema::{IndexDef, IndexView, TableDef, TableView};

verus! {

/// Why a schema refuses an operation.
#[derive(Debug, Clone, Copy, PartialEq, Eq, Structural)]
pub enum SchemaFault {
    /// The table to create exists already.
    TableExists,
    /// The table to drop, or to put an index on, does not exist.
    TableMissing,
    /// The index to create exists already.
    IndexExists,
    /// The index to drop does not exist.
    IndexMissing,
    /// The index names a column that its table does not have.
    ColumnMissing,
    /// The table to create names a column twice.
    DuplicateColumn,
    /// The table to drop still carries an index.
    TableInUse,
}

/// The views of a sequence of tables.
pub open spec fn table_views(v: Seq<TableDef>) -> Seq<TableView> {
    v.map_values(|t: TableDef| t@)
}

/// The views of a sequence of indexes.
pub open spec fn index_views(v: Seq<IndexDef>) -> Seq<IndexView> {
    v.map_values(|x: IndexDef| x@)
}

/// The observable schema: the tables and the indexes, each in the order of
/// creation.
pub struct CatalogView {
    pub tables: Seq<TableView>,
    pub indexes: Seq<IndexView>,
}

impl CatalogView {
    /// The names of the tables.
    pub open spec fn table_names(self) -> Seq<Seq<char>> {
        self.tables.map_values(|t: TableView| t.name)
    }

    /// The names of the indexes.
    pub open spec fn index_names(self) -> Seq<Seq<char>> {
        self.indexes.map_values(|x: IndexView| x.name)
    }

    /// There is a table of this name.
    pub open spec fn has_table(self, name: Seq<char>) -> bool {
        self.table_names().contains(name)
    }

    /// There is an index of this name.
    pub open spec fn has_index(self, name: Seq<char>) -> bool {
        self.index_names().contains(name)
    }

    /// Some index is on the table of this name.
    pub open spec fn in_use(self, name: Seq<char>) -> bool {
        exists|j: int| 0 <= j < self.indexes.len() && (#[trigger] self.indexes[j]).table == name
    }

    /// The table of this name, where there is one.
    pub open spec fn table_named(self, name: Seq<char>) -> TableView {
        self.tables[first_index(self.table_names(), name)]
    }

    /// The table of the index has every column that the index names.
    pub open spec fn covers(self, index: IndexView) -> bool {
        forall|k: int|
            0 <= k < index.columns.len() ==> self.table_named(index.table).has_column(
                #[trigger] index.columns[k],
            )
    }

    /// No two tables and no two indexes share a name, and every index is on
    /// a table that exists.
    pub open spec fn well_formed(self) -> bool {
        &&& self.table_names().no_duplicates()
        &&& self.index_names().no_duplicates()
        &&& forall|j: int|
            0 <= j < self.indexes.len() ==> self.has_table((#[trigger] self.indexes[j]).table)
    }

    /// The schema after one operation, or why the operation is refused.
    pub open spec fn step(self, op: OpView) -> Result<CatalogView, SchemaFault> {
        match op {
            OpView::CreateTable { table, if_not_exists } => {
                if self.has_table(table.name) {
                    if if_not_exists {
                        Ok(self)
                    } else {
                        Err(SchemaFault::TableExists)
                    }
                } else if !table.well_formed() {
                    Err(SchemaFault::DuplicateColumn)
                } else {
                    Ok(CatalogView { tables: self.tables.push(table), indexes: self.indexes })
                }
            },
            OpView::CreateIndex { index, if_not_exists } => {
                if !self.has_table(index.table) {
                    Err(SchemaFault::TableMissing)
                } else if self.has_index(index.name) {
                    if if_not_exists {
                        Ok(self)
                    } else {
                        Err(SchemaFault::IndexExists)
                    }
                } else if !self.covers(index) {
                    Err(SchemaFault::ColumnMissing)
                } else {
                    Ok(CatalogView { tables: self.tables, indexes: self.indexes.push(index) })
                }
            },
            OpView::DropIndex { name, if_exists } => {
                if !self.has_index(name) {
                    if if_exists {
                        Ok(self)
                    } else {
                        Err(SchemaFault::IndexMissing)
                    }
                } else {
                    Ok(
                        CatalogView {
                            tables: self.tables,
                            indexes: self.indexes.remove(first_index(self.index_names(), name)),
                        },
                    )
                }
            },
            OpView::DropTable { name, if_exists } => {
                if !self.has_table(name) {
                    if if_exists {
                        Ok(self)
                    } else {
                        Err(SchemaFault::TableMissing)
                    }
                } else if self.in_use(name) {
                    Err(SchemaFault::TableInUse)
                } else {
                    Ok(
                        CatalogView {
                            tables: self.tables.remove(first_index(self.table_names(), name)),
                            indexes: self.indexes,
                        },
                    )
                }
            },
        }
    }

    /// The schema after the operations, one after the other, or the position
    /// of the first one that is refused, and why.
    pub open spec fn run(self, ops: Seq<OpView>) -> Result<CatalogView, (int, SchemaFault)>
        decreases ops.len(),
    {
        if ops.len() == 0 {
            Ok(self)
        } else {
            match self.run(ops.drop_last()) {
                Err(e) => Err(e),
                Ok(c) => match c.step(ops.last()) {
                    Ok(d) => Ok(d),
                    Err(f) => Err((ops.len() - 1, f)),
                },
            }
        }
    }
}

/// An operation leaves a well-formed schema well formed.
pub proof fn lemma_step_well_formed(c: CatalogView, op: OpView)
    requires
        c.well_formed(),
    ensures
        c.step(op) matches Ok(d) ==> d.well_formed(),
{
    if let Ok(d) = c.step(op) {
        if d != c {
            match op {
                OpView::CreateTable { table, .. } => {
                    assert forall|i: int, j: int|
                        0 <= i < d.table_names().len() && 0 <= j < d.table_names().len() && i
                            != j implies d.table_names()[i] != d.table_names()[j] by {
                        if i < c.tables.len() {
                            assert(c.table_names()[i] == d.table_names()[i]);
                        }
                        if j < c.tables.len() {
                            assert(c.table_names()[j] == d.table_names()[j]);
                        }
                    }
                    assert forall|j: int| 0 <= j < d.indexes.len() implies d.has_table(
                        (#[trigger] d.indexes[j]).table,
                    ) by {
                        let k = choose|k: int|
                            0 <= k < c.table_names().len() && c.table_names()[k]
                                == c.indexes[j].table;
                        assert(d.table_names()[k] == c.indexes[j].table);
                    }
                },
                OpView::CreateIndex { index, .. } => {
                    assert forall|i: int, j: int|
                        0 <= i < d.index_names().len() && 0 <= j < d.index_names().len() && i
                            != j implies d.index_names()[i] != d.index_names()[j] by {
                        if i < c.indexes.len() {
                            assert(c.index_names()[i] == d.index_names()[i]);
                        }
                        if j < c.indexes.len() {
                            assert(c.index_names()[j] == d.index_names()[j]);
                        }
                    }
                },
                OpView::DropIndex { name, .. } => {
                    let p = first_index(c.index_names(), name);
                    lemma_first_exists(c.index_names(), name);
                    assert forall|i: int, j: int|
                        0 <= i < d.index_names().len() && 0 <= j < d.index_names().len() && i
                            != j implies d.index_names()[i] != d.index_names()[j] by {
                        let i2 = if i < p { i } else { i + 1 };
                        let j2 = if j < p { j } else { j + 1 };
                        assert(d.index_names()[i] == c.index_names()[i2]);
                        assert(d.index_names()[j] == c.index_names()[j2]);
                    }
                    assert forall|j: int| 0 <= j < d.indexes.len() implies d.has_table(
                        (#[trigger] d.indexes[j]).table,
                    ) by {
                        let j2 = if j < p { j } else { j + 1 };
                    }
                },
                OpView::DropTable { name, .. } => {
                    let p = first_index(c.table_names(), name);
                    lemma_first_exists(c.table_names(), name);
                    assert forall|i: int, j: int|
                        0 <= i < d.table_names().len() && 0 <= j < d.table_names().len() && i
                            != j implies d.table_names()[i] != d.table_names()[j] by {
                        let i2 = if i < p { i } else { i + 1 };
                        let j2 = if j < p { j } else { j + 1 };
                        assert(d.table_names()[i] == c.table_names()[i2]);
                        assert(d.table_names()[j] == c.table_names()[j2]);
                    }
                    assert forall|j: int| 0 <= j < d.indexes.len() implies d.has_table(
                        (#[trigger] d.indexes[j]).table,
                    ) by {
                        let t = c.indexes[j].table;
                        let k = choose|k: int|
                            0 <= k < c.table_names().len() && c.table_names()[k] == t;
                        let k2 = if k < p { k } else { k - 1 };
                        assert(d.table_names()[k2] == t);
                    }
                },
            }
        }
    }
}

/// A run of operations leaves a well-formed schema well formed.
pub proof fn lemma_run_well_formed(c: CatalogView, ops: Seq<OpView>)
    requires
        c.well_formed(),
    ensures
        c.run(ops) matches Ok(d) ==> d.well_formed(),
    decreases ops.len(),
{
    if ops.len() > 0 {
        lemma_run_well_formed(c, ops.drop_last());
        if let Ok(m) = c.run(ops.drop_last()) {
            lemma_step_well_formed(m, ops.last());
        }
    }
}

/// Running two lists of operations in a row is running the one list made of
/// both: where the first succeeds the second starts from what it leaves,
/// where it fails the whole fails in the same place.
pub proof fn lemma_run_concat(c: CatalogView, first: Seq<OpView>, second: Seq<OpView>)
    ensures
        c.run(first + second) == match c.run(first) {
            Err(e) => Err::<CatalogView, (int, SchemaFault)>(e),
            Ok(m) => match m.run(second) {
                Ok(d) => Ok(d),
                Err((i, f)) => Err((first.len() + i, f)),
            },
        },
    decreases second.len(),
{
    if second.len() == 0 {
        assert(first + second =~= first);
    } else {
        assert((first + second).drop_last() =~= first + second.drop_last());
        lemma_run_concat(c, first, second.drop_last());
    }
}

/// Running a single operation is taking the one step.
pub proof fn lemma_run_single(c: CatalogView, op: OpView)
    ensures
        c.run(seq![op]) == match c.step(op) {
            Ok(d) => Ok::<CatalogView, (int, SchemaFault)>(d),
            Err(f) => Err((0int, f)),
        },
{
    let ops = seq![op];
    assert(c.run(ops.drop_last()) == Ok::<CatalogView, (int, SchemaFault)>(c));
}

/// A schema held in memory.
#[derive(Debug)]
pub struct Catalog {
    tables: Vec<TableDef>,
    indexes: Vec<IndexDef>,
}

impl View for Catalog {
    type V = CatalogView;

    closed spec fn view(&self) -> CatalogView {
        CatalogView { tables: table_views(self.tables@), indexes: index_views(self.indexes@) }
    }
}

impl Clone for Catalog {
    fn clone(&self) -> (r: Self)
        ensures
            r@ == self@,
    {
        let mut tables: Vec<TableDef> = Vec::new();
        let mut i: usize = 0;
        while i < self.tables.len()
            invariant
                i <= self.tables.len(),
                tables.len() == i,
                forall|j: int| 0 <= j < i ==> tables@[j]@ == self.tables@[j]@,
            decreases self.tables.len() - i,
        {
            tables.push(self.tables[i].clone());
            i = i + 1;
        }
        let mut indexes: Vec<IndexDef> = Vec::new();
        let mut k: usize = 0;
        while k < self.indexes.len()
            invariant
                k <= self.indexes.len(),
                indexes.len() == k,
                forall|j: int| 0 <= j < k ==> indexes@[j]@ == self.indexes@[j]@,
            decreases self.indexes.len() - k,
        {
            indexes.push(self.indexes[k].clone());
            k = k + 1;
        }
        assert(table_views(tables@) =~= table_views(self.tables@));
        assert(index_views(indexes@) =~= index_views(self.indexes@));
        Catalog { tables, indexes }
    }
}

impl Catalog {
    /// The empty schema.
    pub fn new() -> (r: Self)
        ensures
            r@ == (CatalogView { tables: Seq::empty(), indexes: Seq::empty() }),
            r@.well_formed(),
    {
        let r = Catalog { tables: Vec::new(), indexes: Vec::new() };
        assert(r@.tables =~= Seq::empty());
        assert(r@.indexes =~= Seq::empty());
        r
    }

    /// The first position of the table of this name.
    fn find_table(&self, name: &String) -> (r: Option<usize>)
        ensures
            match r {
                Some(i) => i < self.tables.len() && is_first(self@.table_names(), name@, i as int),
                None => !self@.has_table(name@),
            },
    {
        let mut i: usize = 0;
        while i < self.tables.len()
            invariant
                i <= self.tables.len(),
                forall|j: int| 0 <= j < i ==> self@.table_names()[j] != name@,
            decreases self.tables.len() - i,
        {
            if self.tables[i].name == *name {
                return Some(i);
            }
            i = i + 1;
        }
        None
    }

    /// The first position of the index of this name.
    fn find_index(&self, name: &String) -> (r: Option<usize>)
        ensures
            match r {
                Some(i) => i < self.indexes.len() && is_first(
                    self@.index_names(),
                    name@,
                    i as int,
                ),
                None => !self@.has_index(name@),
            },
    {
        let mut i: usize = 0;
        while i < self.indexes.len()
            invariant
                i <= self.indexes.len(),
                forall|j: int| 0 <= j < i ==> self@.index_names()[j] != name@,
            decreases self.indexes.len() - i,
        {
            if self.indexes[i].name == *name {
                return Some(i);
            }
            i = i + 1;
        }
        None
    }

    /// Whether some index is on the table of this name.
    fn carries_index(&self, table: &String) -> (r: bool)
        ensures
            r == self@.in_use(table@),
    {
        let mut i: usize = 0;
        while i < self.indexes.len()
            invariant
                i <= self.indexes.len(),
                forall|j: int| 0 <= j < i ==> (#[trigger] self@.indexes[j]).table != table@,
            decreases self.indexes.len() - i,
        {
            if self.indexes[i].table == *table {
                assert(self@.indexes[i as int].table == table@);
                return true;
            }
            i = i + 1;
        }
        false
    }

    /// Whether the table has every column that the index names.
    fn table_covers(table: &TableDef, index: &IndexDef) -> (r: bool)
        ensures
            r == (forall|k: int|
                0 <= k < index@.columns.len() ==> table@.has_column(#[trigger] index@.columns[k])),
    {
        let mut k: usize = 0;
        while k < index.columns.len()
            invariant
                k <= index.columns.len(),
                forall|j: int| 0 <= j < k ==> table@.has_column(#[trigger] index@.columns[j]),
            decreases index.columns.len() - k,
        {
            if !table.has_column(&index.columns[k]) {
                assert(index@.columns[k as int] == index.columns@[k as int]@);
                return false;
            }
            k = k + 1;
        }
        true
    }

    /// Whether the schema has a table of this name.
    pub fn has_table(&self, name: &str) -> (r: bool)
        ensures
            r == self@.has_table(name@),
    {
        self.find_table(&name.to_owned()).is_some()
    }

    /// Whether the schema has an index of this name.
    pub fn has_index(&self, name: &str) -> (r: bool)
        ensures
            r == self@.has_index(name@),
    {
        self.find_index(&name.to_owned()).is_some()
    }

    /// The definition of the table of this name, if the schema has one.
    pub fn table(&self, name: &str) -> (r: Option<TableDef>)
        ensures
            match r {
                Some(t) => self@.has_table(name@) && t@ == self@.table_named(name@),
                None => !self@.has_table(name@),
            },
    {
        match self.find_table(&name.to_owned()) {
            Some(i) => {
                proof {
                    lemma_first_index(self@.table_names(), name@, i as int);
                }
                Some(self.tables[i].clone())
            },
            None => None,
        }
    }

    /// The number of tables.
    pub fn table_count(&self) -> (r: usize)
        ensures
            r == self@.tables.len(),
    {
        self.tables.len()
    }

    /// The number of indexes.
    pub fn index_count(&self) -> (r: usize)
        ensures
            r == self@.indexes.len(),
    {
        self.indexes.len()
    }

    /// Carries out one operation, or refuses it and changes nothing.
    pub fn apply(&mut self, op: &SchemaOp) -> (r: Result<(), SchemaFault>)
        ensures
            match old(self)@.step(op@) {
                Ok(c) => r is Ok && final(self)@ == c,
                Err(f) => r == Err::<(), SchemaFault>(f) && final(self)@ == old(self)@,
            },
            old(self)@.well_formed() ==> final(self)@.well_formed(),
    {
        proof {
            if old(self)@.well_formed() {
                lemma_step_well_formed(old(self)@, op@);
            }
        }
        match op {
            SchemaOp::CreateTable { table, if_not_exists } => {
                if self.find_table(&table.name).is_some() {
                    if *if_not_exists {
                        Ok(())
                    } else {
                        Err(SchemaFault::TableExists)
                    }
                } else if !table.is_well_formed() {
                    Err(SchemaFault::DuplicateColumn)
                } else {
                    self.tables.push(table.clone());
                    assert(self@.tables =~= old(self)@.tables.push(table@));
                    Ok(())
                }
            },
            SchemaOp::CreateIndex { index, if_not_exists } => {
                match self.find_table(&index.table) {
                    None => Err(SchemaFault::TableMissing),
                    Some(t) => {
                        proof {
                            lemma_first_index(self@.table_names(), index.table@, t as int);
                        }
                        if self.find_index(&index.name).is_some() {
                            if *if_not_exists {
                                Ok(())
                            } else {
                                Err(SchemaFault::IndexExists)
                            }
                        } else if !Self::table_covers(&self.tables[t], index) {
                            Err(SchemaFault::ColumnMissing)
                        } else {
                            self.indexes.push(index.clone());
                            assert(self@.indexes =~= old(self)@.indexes.push(index@));
                            Ok(())
                        }
                    },
                }
            },
            SchemaOp::DropIndex { name, if_exists } => {
                match self.find_index(name) {
                    None => {
                        if *if_exists {
                            Ok(())
                        } else {
                            Err(SchemaFault::IndexMissing)
                        }
                    },
                    Some(i) => {
                        proof {
                            lemma_first_index(self@.index_names(), name@, i as int);
                        }
                        let _ = self.indexes.remove(i);
                        assert(self@.indexes =~= old(self)@.indexes.remove(i as int));
                        Ok(())
                    },
                }
            },
            SchemaOp::DropTable { name, if_exists } => {
                match self.find_table(name) {
                    None => {
                        if *if_exists {
                            Ok(())
                        } else {
                            Err(SchemaFault::TableMissing)
                        }
                    },
                    Some(i) => {
                        proof {
                            lemma_first_index(self@.table_names(), name@, i as int);
                        }
                        if self.carries_index(name) {
                            Err(SchemaFault::TableInUse)
                        } else {
                            let _ = self.tables.remove(i);
                            assert(self@.tables =~= old(self)@.tables.remove(i as int));
                            Ok(())
                        }
                    },
                }
            },
        }
    }

    /// Carries out the operations one after the other, all of them or none:
    /// where one is refused, the schema is left as it was, and the position
    /// of that operation is returned with the reason.
    pub fn apply_all(&mut self, ops: &Vec<SchemaOp>) -> (r: Result<(), (usize, SchemaFault)>)
        ensures
            match old(self)@.run(op_views(ops@)) {
                Ok(c) => r is Ok && final(self)@ == c,
                Err((i, f)) => r == Err::<(), (usize, SchemaFault)>((i as usize, f)) && i
                    < ops.len() && final(self)@ == old(self)@,
            },
            old(self)@.well_formed() ==> final(self)@.well_formed(),
    {
        let saved = self.clone();
        let ghost start = self@;
        let ghost all = op_views(ops@);
        let mut i: usize = 0;
        while i < ops.len()
            invariant
                i <= ops.len(),
                all == op_views(ops@),
                start == old(self)@,
                saved@ == start,
                start.run(all.take(i as int)) == Ok::<CatalogView, (int, SchemaFault)>(self@),
                start.well_formed() ==> self@.well_formed(),
            decreases ops.len() - i,
        {
            proof {
                assert(all.take(i + 1).drop_last() =~= all.take(i as int));
            }
            let ghost before = self@;
            match self.apply(&ops[i]) {
                Ok(()) => {},
                Err(f) => {
                    proof {
                        assert(before.step(all.take(i + 1).last()) == Err::<
                            CatalogView,
                            SchemaFault,
                        >(f));
                        assert(start.run(all.take(i + 1)) == Err::<
                            CatalogView,
                            (int, SchemaFault),
                        >((i as int, f)));
                        lemma_run_fails_on(start, all, i as int + 1);
                    }
                    *self = saved;
                    return Err((i, f));
                },
            }
            i = i + 1;
        }
        assert(all.take(i as int) =~= all);
        Ok(())
    }
}

/// A run that fails on a prefix fails on the whole in the same place.
pub proof fn lemma_run_fails_on(c: CatalogView, ops: Seq<OpView>, n: int)
    requires
        0 <= n <= ops.len(),
        c.run(ops.take(n)) is Err,
    ensures
        c.run(ops) == c.run(ops.take(n)),
{
    assert(ops =~= ops.take(n) + ops.skip(n));
    lemma_run_concat(c, ops.take(n), ops.skip(n));
}

/// A run fails, if at all, at a position within the list.
pub proof fn lemma_run_fault_position(c: CatalogView, ops: Seq<OpView>)
    ensures
        c.run(ops) matches Err((i, _)) ==> 0 <= i < ops.len(),
    decreases ops.len(),
{
    if ops.len() > 0 {
        lemma_run_fault_position(c, ops.drop_last());
    }
}

} // verus!
