use vstd::prelude::*;

verus! {

/// What one position of the terrain holds: solid land, navigable river,
/// or an enemy sitting on the river.
#[derive(Clone, Copy, PartialEq, Eq, Structural, Debug)]
pub enum Kind {
    Land,
    River,
    Enemy,
}

/// One position of a terrain row.
#[derive(Clone, Copy, PartialEq, Eq, Structural, Debug)]
pub struct Cell {
    pub kind: Kind,
}

impl Cell {
    /// A run of `size` identical cells, used to assemble one terrain segment.
    pub fn create_cells_vec(size: usize, kind: Kind) -> (v: Vec<Cell>)
        ensures
            v@.len() == size,
            forall|i: int| 0 <= i < size ==> v@[i] == (Cell { kind }),
    {
        let mut v: Vec<Cell> = Vec::new();
        let mut n: usize = 0;
        while n < size
            invariant
                n <= size,
                v@.len() == n,
                forall|i: int| 0 <= i < n ==> v@[i] == (Cell { kind }),
            decreases size - n,
        {
            v.push(Cell { kind });
            n = n + 1;
        }
        v
    }
}

} // verus!
