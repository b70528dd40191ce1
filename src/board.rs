use vstd::prelude::*;

use crate::error::GridError;
use crate::grid::{col_of, in_grid, row_of, GRID_CELLS, GRID_WIDTH};

verus! {

/// One cell of the board: the chip placed on it and where the cell lies.
#[derive(Debug, Clone, Copy, PartialEq, Eq, Structural)]
pub struct GridChip {
    /// Identifier of the placed chip; 0 is the empty chip.
    pub chip_index: i32,
    /// Linear index of the cell.
    pub index: i32,
    pub row: i32,
    pub col: i32,
}

impl GridChip {
    /// An empty cell at the given position.
    pub fn new(index: i32, row: i32, col: i32) -> (r: GridChip)
        ensures
            r == (GridChip { chip_index: 0, index, row, col }),
    {
        GridChip { row, col, index, chip_index: 0 }
    }
}

/// The placement state: one cell per board index, in index order.
pub struct Board {
    cells: Vec<GridChip>,
}

impl View for Board {
    type V = Seq<i32>;

    /// The chip identifier of each cell.
    closed spec fn view(&self) -> Seq<i32> {
        self.cells@.map_values(|c: GridChip| c.chip_index)
    }
}

impl Board {
    /// Every board index has its cell, at the coordinate that the index denotes.
    pub closed spec fn wf(&self) -> bool {
        &&& self.cells@.len() == GRID_CELLS
        &&& forall|i: int|
            0 <= i < GRID_CELLS ==> {
                let c = #[trigger] self.cells@[i];
                &&& c.index == i
                &&& c.col == col_of(i)
                &&& c.row == row_of(i)
            }
    }

    /// A board with the empty chip on every cell.
    pub fn new() -> (r: Board)
        ensures
            r.wf(),
            r@ == Seq::new(GRID_CELLS as nat, |i: int| 0i32),
    {
        let mut cells: Vec<GridChip> = Vec::new();
        let mut i: i32 = 0;
        while i < GRID_CELLS
            invariant
                0 <= i <= GRID_CELLS,
                cells@.len() == i,
                forall|j: int|
                    0 <= j < i ==> {
                        let c = #[trigger] cells@[j];
                        &&& c.index == j
                        &&& c.col == col_of(j)
                        &&& c.row == row_of(j)
                        &&& c.chip_index == 0
                    },
            decreases GRID_CELLS - i,
        {
            cells.push(GridChip::new(i, i / GRID_WIDTH, i % GRID_WIDTH));
            i += 1;
        }
        let r = Board { cells };
        assert(r@ =~= Seq::new(GRID_CELLS as nat, |i: int| 0i32));
        r
    }

    /// Number of cells.
    pub fn len(&self) -> (r: usize)
        requires
            self.wf(),
        ensures
            r == GRID_CELLS,
            r == self@.len(),
    {
        self.cells.len()
    }

    /// The cell at a board index.
    pub fn cell(&self, index: usize) -> (r: GridChip)
        requires
            self.wf(),
            index < GRID_CELLS,
        ensures
            r.chip_index == self@[index as int],
            r.index == index,
            r.col == col_of(index as int),
            r.row == row_of(index as int),
    {
        self.cells[index]
    }

    /// Puts the chip `chip_id` on the cell `index`.
    pub fn place(&mut self, index: i32, chip_id: i32) -> (r: Result<(), GridError>)
        requires
            old(self).wf(),
        ensures
            final(self).wf(),
            in_grid(index as int) ==> r is Ok && final(self)@ == old(self)@.update(
                index as int,
                chip_id,
            ),
            !in_grid(index as int) ==> r == Err::<(), GridError>(GridError::IndexOutOfGrid)
                && final(self)@ == old(self)@,
    {
        if index < 0 || index >= GRID_CELLS {
            return Err(GridError::IndexOutOfGrid);
        }
        let i = index as usize;
        let mut c = self.cells[i];
        c.chip_index = chip_id;
        self.cells.set(i, c);
        assert(self@ =~= old(self)@.update(index as int, chip_id));
        Ok(())
    }
}

} // verus!
