//! Rectangular lookup tables with edge-clamped indexing, used for the
//! late-move-reduction and late-move-pruning tables.

use vstd::prelude::*;

verus! {

/// A table indexed by `(depth, move_count)`; reads past either edge clamp
/// to the last row or column.
#[derive(Debug, Clone)]
pub struct LookUp<T> {
    table: Vec<Vec<T>>,
}

impl<T: Copy> LookUp<T> {
    /// The rows of the table.
    pub closed spec fn view(&self) -> Seq<Seq<T>> {
        self.table@.map_values(|row: Vec<T>| row@)
    }

    pub open spec fn rows(&self) -> int {
        self.view().len() as int
    }

    pub open spec fn cols(&self) -> int {
        if self.view().len() == 0 {
            0
        } else {
            self.view()[0].len() as int
        }
    }

    /// Non-empty and rectangular.
    pub open spec fn wf(&self) -> bool {
        &&& self.rows() > 0
        &&& self.cols() > 0
        &&& forall|i: int|
            0 <= i < self.rows() ==> (#[trigger] self.view()[i]).len() == self.cols()
    }

    /// Builds the table from its rows; every row must have the same
    /// positive length.
    pub fn new(table: Vec<Vec<T>>) -> (r: Self)
        requires
            table@.len() > 0,
            table@[0].len() > 0,
            forall|i: int| 0 <= i < table@.len() ==> (#[trigger] table@[i])@.len() == table@[0]@.len(),
        ensures
            r.wf(),
            r@.len() == table@.len(),
            forall|i: int| 0 <= i < table@.len() ==> r@[i] == (#[trigger] table@[i])@,
    {
        LookUp { table }
    }

    /// Reads the entry at `(depth, mv)`, clamping each index to its last
    /// valid value.
    pub fn get(&self, depth: usize, mv: usize) -> (r: T)
        requires
            self.wf(),
        ensures
            r == self@[if depth < self.rows() {
                depth as int
            } else {
                self.rows() - 1
            }][if mv < self.cols() {
                mv as int
            } else {
                self.cols() - 1
            }],
    {
        let d = if depth < self.table.len() {
            depth
        } else {
            self.table.len() - 1
        };
        let row = &self.table[d];
        assert(self@[d as int] == self.table@[d as int]@);
        let m = if mv < row.len() {
            mv
        } else {
            row.len() - 1
        };
        row[m]
    }
}

} // verus!
