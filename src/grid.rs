use vstd::prelude::*;

use crate::error::GridError;

verus! {

/// Number of columns of the board.
pub const GRID_WIDTH: i32 = 9;

/// Number of rows of the board.
pub const GRID_HEIGHT: i32 = 6;

/// Number of cells of the board.
pub const GRID_CELLS: i32 = GRID_WIDTH * GRID_HEIGHT;

/// A linear index denotes a cell of the board.
pub open spec fn in_grid(index: int) -> bool {
    0 <= index < GRID_CELLS
}

/// The column of a cell.
pub open spec fn col_of(index: int) -> int {
    index % (GRID_WIDTH as int)
}

/// The row of a cell.
pub open spec fn row_of(index: int) -> int {
    index / (GRID_WIDTH as int)
}

/// The cell at a (column, row) coordinate.
pub open spec fn cell_at(col: int, row: int) -> int {
    row * (GRID_WIDTH as int) + col
}

/// The (column, row) coordinate of a cell.
pub fn coordinate_of(index: i32) -> (r: Result<(i32, i32), GridError>)
    ensures
        in_grid(index as int) ==> r == Ok::<(i32, i32), GridError>(
            (col_of(index as int) as i32, row_of(index as int) as i32),
        ),
        !in_grid(index as int) ==> r == Err::<(i32, i32), GridError>(GridError::IndexOutOfGrid),
{
    if index < 0 || index >= GRID_CELLS {
        Err(GridError::IndexOutOfGrid)
    } else {
        Ok((index % GRID_WIDTH, index / GRID_WIDTH))
    }
}

/// The coordinate step that a linear offset stands for, seen from a cell in an
/// even column. Offsets with no entry are no legal relative position there.
pub open spec fn even_step(offset: i32) -> Option<(int, int)> {
    match offset {
        18 => Some((0, 2)),
        7 => Some((-2, 1)),
        8 => Some((-1, 1)),
        9 => Some((0, 1)),
        10 => Some((1, 1)),
        11 => Some((2, 1)),
        2 => Some((0, 2)),
        1 => Some((0, 1)),
        0 => Some((0, 0)),
        -1 => Some((0, -1)),
        -2 => Some((0, -2)),
        -11 => Some((-2, -1)),
        -10 => Some((-2, -1)),
        -9 => Some((0, -1)),
        -8 => Some((1, -1)),
        -7 => Some((2, -1)),
        -17 => Some((-1, -2)),
        -18 => Some((0, -2)),
        -19 => Some((1, -2)),
        _ => None,
    }
}

/// The coordinate step that a linear offset stands for, seen from a cell in an
/// odd column.
pub open spec fn odd_step(offset: i32) -> Option<(int, int)> {
    match offset {
        17 => Some((-1, 2)),
        18 => Some((0, 2)),
        19 => Some((1, 2)),
        7 => Some((-2, 1)),
        8 => Some((-1, 1)),
        9 => Some((0, 1)),
        10 => Some((1, 1)),
        11 => Some((2, 1)),
        2 => Some((0, 2)),
        1 => Some((0, 1)),
        0 => Some((0, 0)),
        -1 => Some((0, -1)),
        -2 => Some((0, -2)),
        -11 => Some((-2, -1)),
        -10 => Some((-2, -1)),
        -9 => Some((0, -1)),
        -8 => Some((1, -1)),
        -7 => Some((2, -1)),
        -18 => Some((0, -2)),
        _ => None,
    }
}

/// The step table chosen by the parity of the origin's column.
pub open spec fn step_of(odd: bool, offset: i32) -> Option<(int, int)> {
    if odd {
        odd_step(offset)
    } else {
        even_step(offset)
    }
}

/// The origin cell lies in an odd column.
pub open spec fn odd_column(origin: int) -> bool {
    col_of(origin) % 2 == 1
}

/// The target cell is on the board but the offset has no entry in the
/// origin's step table.
pub open spec fn range_fault(origin: int, offset: i32) -> bool {
    &&& in_grid(origin + offset)
    &&& step_of(odd_column(origin), offset) is None
}

/// The offset leads from the origin to a cell on the board, and the step table
/// of the origin's column parity reproduces the coordinate difference exactly.
pub open spec fn valid_target(origin: int, offset: i32) -> bool {
    let target = origin + offset;
    &&& in_grid(target)
    &&& match step_of(odd_column(origin), offset) {
        Some(step) => col_of(origin) + step.0 == col_of(target) && row_of(origin) + step.1
            == row_of(target),
        None => false,
    }
}

/// The exec step agrees with the step of a table.
pub open spec fn same_step(r: Option<(i32, i32)>, step: Option<(int, int)>) -> bool {
    match r {
        Some(p) => step == Some((p.0 as int, p.1 as int)),
        None => step is None,
    }
}

/// What resolving `origin + offset` gives: no target when it leaves the board;
/// otherwise an error for an origin off the board or an offset with no entry in
/// the origin's step table, and else whether the offset is a valid target.
pub open spec fn target_check(origin: int, offset: i32) -> Result<bool, GridError> {
    if !in_grid(origin + offset) {
        Ok(false)
    } else if !in_grid(origin) {
        Err(GridError::IndexOutOfGrid)
    } else if range_fault(origin, offset) {
        Err(GridError::InvalidRange)
    } else {
        Ok(valid_target(origin, offset))
    }
}

/// Looks up the coordinate step of an offset in the table of an even column.
fn even_table(offset: i32) -> (r: Option<(i32, i32)>)
    ensures
        same_step(r, even_step(offset)),
{
    match offset {
        18 => Some((0, 2)),
        7 => Some((-2, 1)),
        8 => Some((-1, 1)),
        9 => Some((0, 1)),
        10 => Some((1, 1)),
        11 => Some((2, 1)),
        2 => Some((0, 2)),
        1 => Some((0, 1)),
        0 => Some((0, 0)),
        -1 => Some((0, -1)),
        -2 => Some((0, -2)),
        -11 => Some((-2, -1)),
        -10 => Some((-2, -1)),
        -9 => Some((0, -1)),
        -8 => Some((1, -1)),
        -7 => Some((2, -1)),
        -17 => Some((-1, -2)),
        -18 => Some((0, -2)),
        -19 => Some((1, -2)),
        _ => None,
    }
}

/// Looks up the coordinate step of an offset in the table of an odd column.
fn odd_table(offset: i32) -> (r: Option<(i32, i32)>)
    ensures
        same_step(r, odd_step(offset)),
{
    match offset {
        17 => Some((-1, 2)),
        18 => Some((0, 2)),
        19 => Some((1, 2)),
        7 => Some((-2, 1)),
        8 => Some((-1, 1)),
        9 => Some((0, 1)),
        10 => Some((1, 1)),
        11 => Some((2, 1)),
        2 => Some((0, 2)),
        1 => Some((0, 1)),
        0 => Some((0, 0)),
        -1 => Some((0, -1)),
        -2 => Some((0, -2)),
        -11 => Some((-2, -1)),
        -10 => Some((-2, -1)),
        -9 => Some((0, -1)),
        -8 => Some((1, -1)),
        -7 => Some((2, -1)),
        -18 => Some((0, -2)),
        _ => None,
    }
}

/// Decides whether `origin + offset` is a geometrically valid target of the
/// origin: an offset that leaves the board is no target; otherwise the origin
/// must be on the board and the offset must be a legal relative position.
pub fn is_valid_target(origin: i32, offset: i32) -> (r: Result<bool, GridError>)
    ensures
        !in_grid(origin + offset) ==> r == Ok::<bool, GridError>(false),
        r == target_check(origin as int, offset),
{
    let target: i64 = origin as i64 + offset as i64;
    if target < 0 || target >= GRID_CELLS as i64 {
        return Ok(false);
    }
    let target = target as i32;
    let (x, y) = match coordinate_of(origin) {
        Ok(c) => c,
        Err(e) => return Err(e),
    };
    let (tx, ty) = match coordinate_of(target) {
        Ok(c) => c,
        Err(e) => return Err(e),
    };
    let step = if x % 2 == 0 {
        even_table(offset)
    } else {
        odd_table(offset)
    };
    match step {
        Some((dx, dy)) => Ok(x + dx == tx && y + dy == ty),
        None => Err(GridError::InvalidRange),
    }
}

/// The map from cells to coordinates is a bijection onto the
/// `GRID_WIDTH × GRID_HEIGHT` rectangle: every cell lands inside it, no two
/// cells share a coordinate, and every coordinate inside it belongs to a cell.
pub proof fn lemma_coordinates_bijective()
    ensures
        forall|i: int|
            in_grid(i) ==> 0 <= #[trigger] col_of(i) < GRID_WIDTH && 0 <= row_of(i) < GRID_HEIGHT,
        forall|i: int, j: int|
            in_grid(i) && in_grid(j) && #[trigger] col_of(i) == #[trigger] col_of(j) && row_of(i)
                == row_of(j) ==> i == j,
        forall|x: int, y: int|
            0 <= x < GRID_WIDTH && 0 <= y < GRID_HEIGHT ==> in_grid(#[trigger] cell_at(x, y))
                && col_of(cell_at(x, y)) == x && row_of(cell_at(x, y)) == y,
{
    assert forall|i: int| in_grid(i) implies 0 <= #[trigger] col_of(i) < GRID_WIDTH && 0 <= row_of(
        i,
    ) < GRID_HEIGHT by {
        assert(0 <= i < 54 ==> 0 <= i % 9 < 9 && 0 <= i / 9 < 6) by (nonlinear_arith);
    }
    assert forall|i: int, j: int|
        in_grid(i) && in_grid(j) && #[trigger] col_of(i) == #[trigger] col_of(j) && row_of(i)
            == row_of(j) implies i == j by {
        assert(0 <= i && 0 <= j && i % 9 == j % 9 && i / 9 == j / 9 ==> i == j)
            by (nonlinear_arith);
    }
    assert forall|x: int, y: int| 0 <= x < GRID_WIDTH && 0 <= y < GRID_HEIGHT implies in_grid(
        #[trigger] cell_at(x, y),
    ) && col_of(cell_at(x, y)) == x && row_of(cell_at(x, y)) == y by {
        assert(0 <= x < 9 && 0 <= y < 6 ==> 0 <= y * 9 + x < 54 && (y * 9 + x) % 9 == x && (y
            * 9 + x) / 9 == y) by (nonlinear_arith);
    }
}

} // verus!
