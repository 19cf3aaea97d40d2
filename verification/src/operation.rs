//! Schema operations, and how the operations of a migration are undone.

use vstd::prelude::*;
use crate::schema::{IndexDef, IndexView, TableDef, TableView};

verus! {

/// What a schema operation is, as a mathematical value.
pub enum OpView {
    CreateTable { table: TableView, if_not_exists: bool },
    CreateIndex { index: IndexView, if_not_exists: bool },
    DropIndex { name: Seq<char>, if_exists: bool },
    DropTable { name: Seq<char>, if_exists: bool },
}

/// One statement of data definition.
#[derive(Debug)]
pub enum SchemaOp {
    /// Create a table; with `if_not_exists`, do nothing where it exists.
    CreateTable { table: TableDef, if_not_exists: bool },
    /// Create an index; with `if_not_exists`, do nothing where it exists.
    CreateIndex { index: IndexDef, if_not_exists: bool },
    /// Drop an index; with `if_exists`, do nothing where there is none.
    DropIndex { name: String, if_exists: bool },
    /// Drop a table; with `if_exists`, do nothing where there is none.
    DropTable { name: String, if_exists: bool },
}

impl View for SchemaOp {
    type V = OpView;

    open spec fn view(&self) -> OpView {
        match self {
            SchemaOp::CreateTable { table, if_not_exists } => OpView::CreateTable {
                table: table@,
                if_not_exists: *if_not_exists,
            },
            SchemaOp::CreateIndex { index, if_not_exists } => OpView::CreateIndex {
                index: index@,
                if_not_exists: *if_not_exists,
            },
            SchemaOp::DropIndex { name, if_exists } => OpView::DropIndex {
                name: name@,
                if_exists: *if_exists,
            },
            SchemaOp::DropTable { name, if_exists } => OpView::DropTable {
                name: name@,
                if_exists: *if_exists,
            },
        }
    }
}

impl Clone for SchemaOp {
    fn clone(&self) -> (r: Self)
        ensures
            r@ == self@,
    {
        match self {
            SchemaOp::CreateTable { table, if_not_exists } => SchemaOp::CreateTable {
                table: table.clone(),
                if_not_exists: *if_not_exists,
            },
            SchemaOp::CreateIndex { index, if_not_exists } => SchemaOp::CreateIndex {
                index: index.clone(),
                if_not_exists: *if_not_exists,
            },
            SchemaOp::DropIndex { name, if_exists } => SchemaOp::DropIndex {
                name: name.clone(),
                if_exists: *if_exists,
            },
            SchemaOp::DropTable { name, if_exists } => SchemaOp::DropTable {
                name: name.clone(),
                if_exists: *if_exists,
            },
        }
    }
}

/// The views of a sequence of operations.
pub open spec fn op_views(v: Seq<SchemaOp>) -> Seq<OpView> {
    v.map_values(|o: SchemaOp| o@)
}

/// A copy of a list of operations.
pub fn copy_ops(v: &Vec<SchemaOp>) -> (r: Vec<SchemaOp>)
    ensures
        op_views(r@) == op_views(v@),
{
    let mut out: Vec<SchemaOp> = Vec::new();
    let mut i: usize = 0;
    while i < v.len()
        invariant
            i <= v.len(),
            out.len() == i,
            forall|j: int| 0 <= j < i ==> out@[j]@ == v@[j]@,
        decreases v.len() - i,
    {
        out.push(v[i].clone());
        i = i + 1;
    }
    out
}

impl OpView {
    /// The operation creates something.
    pub open spec fn is_create(self) -> bool {
        self is CreateTable || self is CreateIndex
    }

    /// The plain drop of what a create makes; for a drop, which loses the
    /// definition of what it removes, there is none.
    pub open spec fn undo(self) -> Option<OpView> {
        match self {
            OpView::CreateTable { table, .. } => Some(
                OpView::DropTable { name: table.name, if_exists: false },
            ),
            OpView::CreateIndex { index, .. } => Some(
                OpView::DropIndex { name: index.name, if_exists: false },
            ),
            _ => None,
        }
    }

    /// `self` drops exactly what `made` creates, with or without "if exists".
    pub open spec fn undoes(self, made: OpView) -> bool {
        match made {
            OpView::CreateTable { table, .. } => self is DropTable && self->DropTable_name
                == table.name,
            OpView::CreateIndex { index, .. } => self is DropIndex && self->DropIndex_name
                == index.name,
            _ => false,
        }
    }
}

/// `down` undoes `up`: one drop for each create, in the reverse of the order
/// of creation.
pub open spec fn reverses(down: Seq<OpView>, up: Seq<OpView>) -> bool {
    &&& down.len() == up.len()
    &&& forall|i: int| 0 <= i < down.len() ==> (#[trigger] down[i]).undoes(up[up.len() - 1 - i])
}

/// The plain drops of what `up` creates, last created first.
pub open spec fn undo_all(up: Seq<OpView>) -> Seq<OpView> {
    Seq::new(up.len(), |i: int| up[up.len() - 1 - i].undo().unwrap())
}

/// Every operation of `up` creates something.
pub open spec fn all_creates(up: Seq<OpView>) -> bool {
    forall|i: int| 0 <= i < up.len() ==> (#[trigger] up[i]).is_create()
}

impl SchemaOp {
    /// The drop that undoes this operation, if it is a create.
    pub fn inverse(&self) -> (r: Option<SchemaOp>)
        ensures
            match r {
                Some(d) => Some(d@) == self@.undo(),
                None => self@.undo() is None,
            },
    {
        match self {
            SchemaOp::CreateTable { table, .. } => Some(
                SchemaOp::DropTable { name: table.name.clone(), if_exists: false },
            ),
            SchemaOp::CreateIndex { index, .. } => Some(
                SchemaOp::DropIndex { name: index.name.clone(), if_exists: false },
            ),
            _ => None,
        }
    }

    /// Whether `self` drops exactly what `made` creates.
    pub fn is_inverse_of(&self, made: &SchemaOp) -> (r: bool)
        ensures
            r == self@.undoes(made@),
    {
        match made {
            SchemaOp::CreateTable { table, .. } => match self {
                SchemaOp::DropTable { name, .. } => *name == table.name,
                _ => false,
            },
            SchemaOp::CreateIndex { index, .. } => match self {
                SchemaOp::DropIndex { name, .. } => *name == index.name,
                _ => false,
            },
            _ => false,
        }
    }
}

/// The operations that undo `up`: for each create its plain drop, in the
/// reverse of the order of creation. There are none to give where `up` holds
/// a drop.
pub fn derive_down(up: &Vec<SchemaOp>) -> (r: Option<Vec<SchemaOp>>)
    ensures
        r is Some <==> all_creates(op_views(up@)),
        r matches Some(down) ==> op_views(down@) == undo_all(op_views(up@)) && reverses(
            op_views(down@),
            op_views(up@),
        ),
{
    let n = up.len();
    let mut down: Vec<SchemaOp> = Vec::new();
    let mut k: usize = 0;
    while k < n
        invariant
            n == up.len(),
            k <= n,
            down.len() == k,
            forall|i: int| 0 <= i < k ==> Some((#[trigger] down@[i])@) == up@[n - 1 - i]@.undo(),
        decreases n - k,
    {
        match up[n - 1 - k].inverse() {
            Some(d) => {
                down.push(d);
            },
            None => {
                assert(!(op_views(up@)[n - 1 - k]).is_create());
                return None;
            },
        }
        k = k + 1;
    }
    proof {
        let ups = op_views(up@);
        assert forall|i: int| 0 <= i < ups.len() implies (#[trigger] ups[i]).is_create() by {
            let j = n - 1 - i;
            assert(Some(down@[j]@) == up@[n - 1 - j]@.undo());
        }
    }
    Some(down)
}

/// Whether `down` undoes `up`.
pub fn is_reverse_of(down: &Vec<SchemaOp>, up: &Vec<SchemaOp>) -> (r: bool)
    ensures
        r == reverses(op_views(down@), op_views(up@)),
{
    let n = up.len();
    if down.len() != n {
        return false;
    }
    let mut k: usize = 0;
    while k < n
        invariant
            n == up.len(),
            n == down.len(),
            k <= n,
            forall|i: int| 0 <= i < k ==> (#[trigger] down@[i])@.undoes(up@[n - 1 - i]@),
        decreases n - k,
    {
        if !down[k].is_inverse_of(&up[n - 1 - k]) {
            assert(!(op_views(down@)[k as int]).undoes(op_views(up@)[n - 1 - k]));
            return false;
        }
        k = k + 1;
    }
    true
}

/// The drops that undo the creates of a migration come in the reverse of the
/// order of creation: what was made later is dropped earlier. An index made
/// after its table is therefore dropped before that table.
pub proof fn law_later_made_is_dropped_earlier(
    down: Seq<OpView>,
    up: Seq<OpView>,
    first: int,
    second: int,
)
    requires
        reverses(down, up),
        0 <= first < second < up.len(),
    ensures
        0 <= up.len() - 1 - second < up.len() - 1 - first < down.len(),
        down[up.len() - 1 - second].undoes(up[second]),
        down[up.len() - 1 - first].undoes(up[first]),
{
}

} // verus!
