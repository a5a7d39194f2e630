//! The entity capability descriptor: an entity's columns and its ordered primary key.

use crate::value::ValueKind;
use vstd::prelude::*;

verus! {

/// One column: its name and its scalar type.
pub struct Column {
    pub name: String,
    pub kind: ValueKind,
}

/// What the generic engine knows of an entity: its table, its columns, and which of them
/// (by position, in declared order) form the primary key.
pub struct EntityDescriptor {
    pub table: String,
    pub columns: Vec<Column>,
    pub key: Vec<usize>,
}

/// The mathematical form of an [`EntityDescriptor`].
pub struct EntityView {
    pub table: Seq<char>,
    pub columns: Seq<(Seq<char>, ValueKind)>,
    pub key: Seq<int>,
}

impl View for EntityDescriptor {
    type V = EntityView;

    open spec fn view(&self) -> EntityView {
        EntityView {
            table: self.table@,
            columns: self.columns@.map_values(|c: Column| (c.name@, c.kind)),
            key: self.key@.map_values(|k: usize| k as int),
        }
    }
}

impl EntityView {
    /// The key is non-empty, names existing columns, and its columns have distinct names.
    pub open spec fn wf(self) -> bool {
        &&& self.key.len() > 0
        &&& forall|i: int| 0 <= i < self.key.len() ==> 0 <= #[trigger] self.key[i] < self.columns.len()
        &&& forall|i: int, j: int|
            0 <= i < self.key.len() && 0 <= j < self.key.len() && i != j ==> self.key_name(i)
                != self.key_name(j)
    }

    /// Number of columns.
    pub open spec fn width(self) -> nat {
        self.columns.len()
    }

    /// Name of the `i`-th key column.
    pub open spec fn key_name(self, i: int) -> Seq<char> {
        self.columns[self.key[i]].0
    }

    /// Type of the `i`-th key column.
    pub open spec fn key_kind(self, i: int) -> ValueKind {
        self.columns[self.key[i]].1
    }

    /// Whether column `c` belongs to the key.
    pub open spec fn is_key_column(self, c: int) -> bool {
        self.key.contains(c)
    }
}

} // verus!
