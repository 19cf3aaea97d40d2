//! The bookkeeping of applied migrations: one record for each migration that
//! has run, with the time at which it ran.

use vstd::prelude::*;
use crate::name::{
    first_index, is_first, lemma_first_index, lemma_name_lt_asymmetric, lemma_name_lt_total,
    lemma_name_lt_transitive, name_less, name_lt,
};
use crate::operation::{OpView, SchemaOp};
use crate::schema::{
    column, string, timestamp, DefaultValue, DefaultView, TableDef, TableView, TypeTagView,
};

verus! {

/// What a record is, as a mathematical value.
pub struct RecordView {
    pub name: Seq<char>,
    pub applied_at: nat,
}

/// The note that the migration of this name was applied at this time.
#[derive(Debug)]
pub struct Record {
    pub name: String,
    pub applied_at: u64,
}

impl View for Record {
    type V = RecordView;

    open spec fn view(&self) -> RecordView {
        RecordView { name: self.name@, applied_at: self.applied_at as nat }
    }
}

impl Clone for Record {
    fn clone(&self) -> (r: Self)
        ensures
            r@ == self@,
    {
        Record { name: self.name.clone(), applied_at: self.applied_at }
    }
}

/// The views of a sequence of records.
pub open spec fn record_views(v: Seq<Record>) -> Seq<RecordView> {
    v.map_values(|r: Record| r@)
}

/// The names of a sequence of records.
pub open spec fn record_names(l: Seq<RecordView>) -> Seq<Seq<char>> {
    l.map_values(|r: RecordView| r.name)
}

/// `a` was applied more recently than `b`: at a later time, or at the same
/// time under the greater name.
pub open spec fn newer(a: RecordView, b: RecordView) -> bool {
    a.applied_at > b.applied_at || (a.applied_at == b.applied_at && name_lt(b.name, a.name))
}

/// The record at `i` is more recent than every other one.
pub open spec fn is_latest(l: Seq<RecordView>, i: int) -> bool {
    &&& 0 <= i < l.len()
    &&& forall|j: int| 0 <= j < l.len() && j != i ==> newer(l[i], #[trigger] l[j])
}

/// The position of the most recent record, where there is one.
pub open spec fn latest_index(l: Seq<RecordView>) -> int {
    choose|i: int| is_latest(l, i)
}

/// Of two records under different names one is more recent than the other.
pub proof fn lemma_newer_total(a: RecordView, b: RecordView)
    requires
        a.name != b.name,
    ensures
        newer(a, b) || newer(b, a),
{
    lemma_name_lt_total(a.name, b.name);
}

/// To be more recent is transitive.
pub proof fn lemma_newer_transitive(a: RecordView, b: RecordView, c: RecordView)
    requires
        newer(a, b),
        newer(b, c),
    ensures
        newer(a, c),
{
    if a.applied_at == b.applied_at && b.applied_at == c.applied_at {
        lemma_name_lt_transitive(c.name, b.name, a.name);
    }
}

/// Of two records at most one is more recent than the other.
pub proof fn lemma_newer_asymmetric(a: RecordView, b: RecordView)
    requires
        newer(a, b),
    ensures
        !newer(b, a),
{
    if a.applied_at == b.applied_at {
        lemma_name_lt_asymmetric(b.name, a.name);
    }
}

/// There is one most recent record at most.
pub proof fn lemma_latest_index(l: Seq<RecordView>, i: int)
    requires
        is_latest(l, i),
    ensures
        latest_index(l) == i,
{
    let k = latest_index(l);
    if k != i {
        lemma_newer_asymmetric(l[i], l[k]);
    }
}

/// Among records under distinct names, one is the most recent.
pub proof fn lemma_latest_exists(l: Seq<RecordView>)
    requires
        l.len() > 0,
        record_names(l).no_duplicates(),
    ensures
        is_latest(l, latest_index(l)),
{
    let i = lemma_latest_among(l, l.len() as int);
    assert(is_latest(l, i));
}

/// Among the first `n` records one is more recent than the others.
proof fn lemma_latest_among(l: Seq<RecordView>, n: int) -> (i: int)
    requires
        0 < n <= l.len(),
        record_names(l).no_duplicates(),
    ensures
        0 <= i < n,
        forall|j: int| 0 <= j < n && j != i ==> newer(l[i], #[trigger] l[j]),
    decreases n,
{
    if n == 1 {
        0
    } else {
        let p = lemma_latest_among(l, n - 1);
        let c = l[n - 1];
        assert(record_names(l)[n - 1] == c.name);
        assert(record_names(l)[p] == l[p].name);
        lemma_newer_total(c, l[p]);
        if newer(c, l[p]) {
            assert forall|j: int| 0 <= j < n && j != n - 1 implies newer(c, #[trigger] l[j]) by {
                if j != p {
                    lemma_newer_transitive(c, l[p], l[j]);
                }
            }
            n - 1
        } else {
            p
        }
    }
}

/// The records of the migrations that are applied, in the order in which
/// they were written. No two records share a name.
#[derive(Debug)]
pub struct Ledger {
    records: Vec<Record>,
}

impl View for Ledger {
    type V = Seq<RecordView>;

    closed spec fn view(&self) -> Seq<RecordView> {
        record_views(self.records@)
    }
}

impl Clone for Ledger {
    fn clone(&self) -> (r: Self)
        ensures
            r@ == self@,
    {
        proof {
            use_type_invariant(self);
        }
        let mut records: Vec<Record> = Vec::new();
        let mut i: usize = 0;
        while i < self.records.len()
            invariant
                i <= self.records.len(),
                records.len() == i,
                forall|j: int| 0 <= j < i ==> records@[j]@ == self.records@[j]@,
            decreases self.records.len() - i,
        {
            records.push(self.records[i].clone());
            i = i + 1;
        }
        assert(record_views(records@) =~= record_views(self.records@));
        Ledger { records }
    }
}

impl Ledger {
    /// The invariant of the type: no two records share a name.
    #[verifier::type_invariant]
    pub closed spec fn distinct(self) -> bool {
        record_names(record_views(self.records@)).no_duplicates()
    }

    /// What the invariant says of the view.
    pub proof fn lemma_names_distinct(self)
        requires
            self.distinct(),
        ensures
            record_names(self@).no_duplicates(),
    {
    }

    /// The empty ledger.
    pub fn new() -> (r: Self)
        ensures
            r@ == Seq::<RecordView>::empty(),
    {
        let r = Ledger { records: Vec::new() };
        r
    }

    /// The number of records.
    pub fn len(&self) -> (r: usize)
        ensures
            r == self@.len(),
    {
        self.records.len()
    }

    /// The record at a position.
    pub fn record(&self, i: usize) -> (r: Option<Record>)
        ensures
            match r {
                Some(rec) => i < self@.len() && rec@ == self@[i as int],
                None => i >= self@.len(),
            },
    {
        if i < self.records.len() {
            Some(self.records[i].clone())
        } else {
            None
        }
    }

    /// The first position of the record of this name.
    fn find(&self, name: &String) -> (r: Option<usize>)
        ensures
            match r {
                Some(i) => i < self@.len() && is_first(record_names(self@), name@, i as int),
                None => !record_names(self@).contains(name@),
            },
    {
        let mut i: usize = 0;
        while i < self.records.len()
            invariant
                i <= self.records.len(),
                forall|j: int| 0 <= j < i ==> record_names(self@)[j] != name@,
            decreases self.records.len() - i,
        {
            if self.records[i].name == *name {
                return Some(i);
            }
            i = i + 1;
        }
        None
    }

    /// Whether the migration of this name is recorded as applied.
    pub fn contains(&self, name: &String) -> (r: bool)
        ensures
            r == record_names(self@).contains(name@),
    {
        self.find(name).is_some()
    }

    /// Whether some recorded name sorts after this name.
    pub fn any_name_after(&self, name: &String) -> (r: bool)
        ensures
            r == exists|k: int|
                0 <= k < self@.len() && name_lt(name@, #[trigger] record_names(self@)[k]),
    {
        let mut i: usize = 0;
        while i < self.records.len()
            invariant
                i <= self.records.len(),
                forall|k: int| 0 <= k < i ==> !name_lt(name@, #[trigger] record_names(self@)[k]),
            decreases self.records.len() - i,
        {
            if name_less(name.as_str(), self.records[i].name.as_str()) {
                assert(name_lt(name@, record_names(self@)[i as int]));
                return true;
            }
            i = i + 1;
        }
        false
    }

    /// Records the migration of this name as applied at this time. Where it
    /// is recorded already nothing changes, and the result is `false`.
    pub fn insert(&mut self, name: String, applied_at: u64) -> (r: bool)
        ensures
            r == !record_names(old(self)@).contains(name@),
            r ==> final(self)@ == old(self)@.push(
                RecordView { name: name@, applied_at: applied_at as nat },
            ),
            !r ==> final(self)@ == old(self)@,
    {
        proof {
            use_type_invariant(&*self);
        }
        if self.find(&name).is_some() {
            return false;
        }
        let ghost before = self@;
        let ghost added = RecordView { name: name@, applied_at: applied_at as nat };
        proof {
            let after = record_names(before.push(added));
            assert forall|i: int, j: int|
                0 <= i < after.len() && 0 <= j < after.len() && i != j implies after[i]
                != after[j] by {
                if i < before.len() {
                    assert(after[i] == record_names(before)[i]);
                }
                if j < before.len() {
                    assert(after[j] == record_names(before)[j]);
                }
            }
            assert(record_views(self.records@.push(Record { name, applied_at })) =~= before.push(
                added,
            ));
        }
        let mut records: Vec<Record> = Vec::new();
        std::mem::swap(&mut self.records, &mut records);
        records.push(Record { name, applied_at });
        self.records = records;
        true
    }

    /// Removes the record of this name. Where there is none nothing changes,
    /// and the result is `false`.
    pub fn remove(&mut self, name: &String) -> (r: bool)
        ensures
            r == record_names(old(self)@).contains(name@),
            r ==> final(self)@ == old(self)@.remove(first_index(record_names(old(self)@), name@)),
            !r ==> final(self)@ == old(self)@,
    {
        proof {
            use_type_invariant(&*self);
        }
        match self.find(name) {
            None => false,
            Some(i) => {
                let ghost before = self@;
                proof {
                    lemma_first_index(record_names(before), name@, i as int);
                    lemma_remove_keeps_distinct(before, i as int);
                    assert(record_views(self.records@.remove(i as int)) =~= before.remove(
                        i as int,
                    ));
                }
                let mut records: Vec<Record> = Vec::new();
                std::mem::swap(&mut self.records, &mut records);
                let _ = records.remove(i);
                self.records = records;
                true
            },
        }
    }

    /// The most recent record: the one applied last, and of those applied at
    /// the same time the one with the greatest name. `None` where the ledger
    /// is empty.
    pub fn latest(&self) -> (r: Option<Record>)
        ensures
            match r {
                Some(rec) => is_latest(self@, latest_index(self@)) && rec@ == self@[latest_index(
                    self@,
                )],
                None => self@.len() == 0,
            },
    {
        proof {
            use_type_invariant(self);
        }
        if self.records.len() == 0 {
            return None;
        }
        let mut best: usize = 0;
        let mut i: usize = 1;
        while i < self.records.len()
            invariant
                1 <= i <= self.records.len(),
                best < i,
                record_names(self@).no_duplicates(),
                forall|j: int| 0 <= j < i && j != best ==> newer(self@[best as int], #[trigger] self@[j]),
            decreases self.records.len() - i,
        {
            let candidate = &self.records[i];
            let current = &self.records[best];
            let later = candidate.applied_at > current.applied_at || (candidate.applied_at
                == current.applied_at && name_less(current.name.as_str(), candidate.name.as_str()));
            proof {
                let c = self@[i as int];
                let b = self@[best as int];
                assert(record_names(self@)[i as int] == c.name);
                assert(record_names(self@)[best as int] == b.name);
                if later {
                    assert forall|j: int| 0 <= j < i + 1 && j != i implies newer(
                        c,
                        #[trigger] self@[j],
                    ) by {
                        if j != best {
                            lemma_newer_transitive(c, b, self@[j]);
                        }
                    }
                } else {
                    lemma_newer_total(c, b);
                }
            }
            if later {
                best = i;
            }
            i = i + 1;
        }
        proof {
            lemma_latest_index(self@, best as int);
        }
        Some(self.records[best].clone())
    }
}

/// Removing a record leaves the names of the others distinct.
pub proof fn lemma_remove_keeps_distinct(l: Seq<RecordView>, p: int)
    requires
        0 <= p < l.len(),
        record_names(l).no_duplicates(),
    ensures
        record_names(l.remove(p)).no_duplicates(),
{
    let after = record_names(l.remove(p));
    assert forall|i: int, j: int|
        0 <= i < after.len() && 0 <= j < after.len() && i != j implies after[i] != after[j] by {
        let i2 = if i < p { i } else { i + 1 };
        let j2 = if j < p { j } else { j + 1 };
        assert(after[i] == record_names(l)[i2]);
        assert(after[j] == record_names(l)[j2]);
    }
}

/// The table in which a database keeps the records: the name of each
/// applied migration, which is the key, and the time of its application,
/// which defaults to the time at which the record is written.
pub open spec fn bookkeeping_view() -> TableView {
    TableView {
        name: "schema_migrations"@,
        columns: seq![
            column("name"@, TypeTagView::Text, false, None, true),
            column(
                "applied_at"@,
                TypeTagView::Timestamp,
                false,
                Some(DefaultView::CurrentTimestamp),
                false,
            ),
        ],
    }
}

/// The definition of the bookkeeping table.
pub fn bookkeeping_table() -> (r: TableDef)
    ensures
        r@ == bookkeeping_view(),
{
    let table = TableDef::new("schema_migrations")
        .col(string("name").primary_key())
        .col(timestamp("applied_at").with_default(DefaultValue::CurrentTimestamp));
    assert(table@.columns =~= bookkeeping_view().columns);
    table
}

/// The operation that sets the bookkeeping up before its first use: it
/// creates the table unless it exists.
pub fn bookkeeping_setup() -> (r: SchemaOp)
    ensures
        r@ == (OpView::CreateTable { table: bookkeeping_view(), if_not_exists: true }),
{
    SchemaOp::CreateTable { table: bookkeeping_table(), if_not_exists: true }
}

} // verus!
