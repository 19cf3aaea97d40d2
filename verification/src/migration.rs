//! A migration: a named, reversible unit of schema change.

use vstd::prelude::*;
use crate::operation::{copy_ops, derive_down, is_reverse_of, op_views, reverses, OpView, SchemaOp};

verus! {

/// What a migration is, as a mathematical value.
pub struct MigrationView {
    pub name: Seq<char>,
    pub up: Seq<OpView>,
    pub down: Seq<OpView>,
}

impl MigrationView {
    /// The backward action drops what the forward action creates, last
    /// created first.
    pub open spec fn reversible(self) -> bool {
        reverses(self.down, self.up)
    }
}

/// A named unit of schema change with its forward and its backward action.
/// Names order migrations: by convention a sortable timestamp and a
/// description.
#[derive(Debug)]
pub struct Migration {
    pub name: String,
    pub up: Vec<SchemaOp>,
    pub down: Vec<SchemaOp>,
}

impl View for Migration {
    type V = MigrationView;

    open spec fn view(&self) -> MigrationView {
        MigrationView { name: self.name@, up: op_views(self.up@), down: op_views(self.down@) }
    }
}

impl Clone for Migration {
    fn clone(&self) -> (r: Self)
        ensures
            r@ == self@,
    {
        Migration { name: self.name.clone(), up: copy_ops(&self.up), down: copy_ops(&self.down) }
    }
}

impl Migration {
    /// A migration with the backward action that undoes `up`; there is none
    /// where `up` drops anything.
    pub fn reversing(name: String, up: Vec<SchemaOp>) -> (r: Option<Migration>)
        ensures
            r is Some <==> crate::operation::all_creates(op_views(up@)),
            r matches Some(m) ==> m@.name == name@ && m@.up == op_views(up@) && m@.down
                == crate::operation::undo_all(op_views(up@)) && m@.reversible(),
    {
        match derive_down(&up) {
            Some(down) => Some(Migration { name, up, down }),
            None => None,
        }
    }

    /// Whether the backward action undoes the forward action.
    pub fn is_reversible(&self) -> (r: bool)
        ensures
            r == self@.reversible(),
    {
        is_reverse_of(&self.down, &self.up)
    }
}

/// The views of a sequence of migrations.
pub open spec fn migration_views(v: Seq<Migration>) -> Seq<MigrationView> {
    v.map_values(|m: Migration| m@)
}

/// The names of a sequence of migrations.
pub open spec fn migration_names(v: Seq<MigrationView>) -> Seq<Seq<char>> {
    v.map_values(|m: MigrationView| m.name)
}

} // verus!
