use vstd::prelude::*;
use crate::{GameError, Owner};
use crate::grid::{a2d_cells, a2d_filled, a2d_get, a2d_set};
use array2d::Array2D;

verus! {

/// True when `(r, c)` indexes a cell of the grid `g`.
pub open spec fn in_grid(g: Seq<Seq<Owner>>, r: int, c: int) -> bool {
    0 <= r < g.len() && 0 <= c < g[r].len()
}

/// True when no cell of column `c` is `Empty`: a drop into `c` has nowhere
/// to land.
pub open spec fn column_full(g: Seq<Seq<Owner>>, c: int) -> bool {
    forall|r: int| 0 <= r < g.len() ==> #[trigger] g[r][c] != Owner::Empty
}

/// True when `row` is where a marker dropped into column `c` settles: the
/// numerically largest row index whose cell in `c` is `Empty` (row 0 is the
/// top, so larger indices are lower).
pub open spec fn is_landing_row(g: Seq<Seq<Owner>>, c: int, row: int) -> bool {
    &&& 0 <= row < g.len()
    &&& g[row][c] == Owner::Empty
    &&& forall|r: int| row < r < g.len() ==> #[trigger] g[r][c] != Owner::Empty
}

/// True when every cell of the grid is occupied: the draw condition once no
/// winner exists.
pub open spec fn board_full(g: Seq<Seq<Owner>>) -> bool {
    forall|r: int, c: int|
        0 <= r < g.len() && 0 <= c < g[r].len() ==> #[trigger] g[r][c] != Owner::Empty
}

/// Every row has the first row's length: the shape of any real board.
pub open spec fn rectangular(g: Seq<Seq<Owner>>) -> bool {
    forall|r: int| 0 <= r < g.len() ==> (#[trigger] g[r]).len() == g[0].len()
}

/// The grid `g` with the cell at `(row, c)` overwritten by `o`.
pub open spec fn grid_set(g: Seq<Seq<Owner>>, row: int, c: int, o: Owner) -> Seq<Seq<Owner>> {
    g.update(row, g[row].update(c, o))
}

/// Scans column `c` upward from row `upper - 1`: if every cell from `upper`
/// down is occupied but the column is not full, some cell above is empty
/// and the lowest of them is the landing row.
proof fn lemma_landing_search(g: Seq<Seq<Owner>>, c: int, upper: int)
    requires
        0 <= upper <= g.len(),
        forall|r: int| upper <= r < g.len() ==> #[trigger] g[r][c] != Owner::Empty,
        !column_full(g, c),
    ensures
        exists|row: int| #[trigger] is_landing_row(g, c, row),
    decreases upper,
{
    if upper == 0 {
        assert(column_full(g, c));
    } else {
        if g[upper - 1][c] == Owner::Empty {
            assert(is_landing_row(g, c, upper - 1));
        } else {
            lemma_landing_search(g, c, upper - 1);
        }
    }
}

/// A column that is not full has a landing row.
pub proof fn lemma_landing_row_exists(g: Seq<Seq<Owner>>, c: int)
    requires
        !column_full(g, c),
    ensures
        exists|row: int| #[trigger] is_landing_row(g, c, row),
{
    lemma_landing_search(g, c, g.len() as int);
}

/// Law: gravity never lets two markers coexist out of physical order. After
/// a marker settles on the landing row `row` of column `c`, every landing
/// row of that column on the new grid lies strictly above `row` (a strictly
/// smaller row index) — and one exists unless the column became full.
pub proof fn lemma_gravity_descends(g: Seq<Seq<Owner>>, c: int, row: int, o: Owner)
    requires
        o != Owner::Empty,
        is_landing_row(g, c, row),
        0 <= c < g[row].len(),
    ensures
        forall|r2: int| #[trigger] is_landing_row(grid_set(g, row, c, o), c, r2) ==> r2 < row,
        !column_full(grid_set(g, row, c, o), c) ==> exists|r2: int|
            #[trigger] is_landing_row(grid_set(g, row, c, o), c, r2) && r2 < row,
{
    let g2 = grid_set(g, row, c, o);
    assert forall|r2: int| #[trigger] is_landing_row(g2, c, r2) implies r2 < row by {
        assert(g2[r2][c] == Owner::Empty);
        if r2 == row {
            assert(g2[row][c] == g[row].update(c, o)[c]);
        } else {
            assert(g2[r2][c] == g[r2][c]);
        }
    }
    if !column_full(g2, c) {
        lemma_landing_row_exists(g2, c);
    }
}

/// A rectangular grid of `Owner` cells with gravity placement. Row 0 is the
/// top row; a dropped marker settles in the lowest empty cell of its column.
/// Cells move from `Empty` to a concrete owner exactly once and never
/// revert: `place` is the only mutation.
pub struct Board {
    pub grid: Array2D<Owner>,
    pub width: usize,
    pub height: usize,
}

impl View for Board {
    type V = Seq<Seq<Owner>>;

    open spec fn view(&self) -> Seq<Seq<Owner>> {
        a2d_cells(self.grid)
    }
}

impl Board {
    /// The board's shape is consistent: at least one row and one column, and
    /// the stored dimensions match the grid's.
    pub open spec fn wf(&self) -> bool {
        &&& self.width >= 1
        &&& self.height >= 1
        &&& self@.len() == self.height
        &&& forall|r: int| 0 <= r < self.height ==> (#[trigger] self@[r]).len() == self.width
    }

    /// A `width` x `height` board with every cell `Empty`. Zero in either
    /// dimension is a contract violation, reported as `InvalidDimensions`.
    pub fn new(width: usize, height: usize) -> (r: Result<Board, GameError>)
        requires
            width * height <= usize::MAX,
        ensures
            match r {
                Ok(b) => {
                    &&& b.wf()
                    &&& b.width == width
                    &&& b.height == height
                    &&& width >= 1 && height >= 1
                    &&& forall|rr: int, cc: int|
                        0 <= rr < height && 0 <= cc < width ==> #[trigger] b@[rr][cc] == Owner::Empty
                },
                Err(e) => e == GameError::InvalidDimensions && (width == 0 || height == 0),
            },
    {
        if width == 0 || height == 0 {
            return Err(GameError::InvalidDimensions);
        }
        let grid = a2d_filled(Owner::Empty, height, width);
        Ok(Board { grid, width, height })
    }

    /// Unchecked cell read for callers that have already bounded the
    /// coordinates.
    pub(crate) fn at(&self, row: usize, col: usize) -> (r: Owner)
        requires
            self.wf(),
            row < self.height,
            col < self.width,
        ensures
            r == self@[row as int][col as int],
    {
        match a2d_get(&self.grid, row, col) {
            Some(v) => v,
            None => {
                proof {
                    assert(false);
                }
                Owner::Empty
            },
        }
    }

    /// Read-only cell lookup; any coordinate outside the grid is a contract
    /// violation, reported as `OutOfBounds`.
    pub fn cell(&self, row: usize, column: usize) -> (r: Result<Owner, GameError>)
        requires
            self.wf(),
        ensures
            match r {
                Ok(o) => {
                    &&& row < self.height
                    &&& column < self.width
                    &&& o == self@[row as int][column as int]
                },
                Err(e) => e == GameError::OutOfBounds && (row >= self.height || column >= self.width),
            },
    {
        if row >= self.height || column >= self.width {
            return Err(GameError::OutOfBounds);
        }
        Ok(self.at(row, column))
    }

    /// The row where a marker dropped into `column` would settle: the lowest
    /// `Empty` cell of the column. `ColumnFull` when the column has no empty
    /// cell; a column index at or beyond the width is a contract violation,
    /// reported as `InvalidColumn`.
    pub fn landing_row(&self, column: usize) -> (r: Result<usize, GameError>)
        requires
            self.wf(),
        ensures
            match r {
                Ok(row) => column < self.width && is_landing_row(self@, column as int, row as int),
                Err(e) => match e {
                    GameError::InvalidColumn => column >= self.width,
                    GameError::ColumnFull => column < self.width && column_full(self@, column as int),
                    _ => false,
                },
            },
    {
        if column >= self.width {
            return Err(GameError::InvalidColumn);
        }
        let mut row: usize = self.height;
        while row > 0
            invariant
                self.wf(),
                column < self.width,
                row <= self.height,
                forall|r: int| row <= r < self.height ==> #[trigger] self@[r][column as int] != Owner::Empty,
            decreases row,
        {
            row = row - 1;
            if matches!(self.at(row, column), Owner::Empty) {
                return Ok(row);
            }
        }
        Err(GameError::ColumnFull)
    }

    /// Gravity placement: drops a marker for `owner` into `column`, filling
    /// the landing row and returning it. `ColumnFull` leaves the board
    /// untouched, as do the contract violations `InvalidOwner` (placing the
    /// `Empty` sentinel) and `InvalidColumn`.
    pub fn place(&mut self, column: usize, owner: Owner) -> (r: Result<usize, GameError>)
        requires
            old(self).wf(),
        ensures
            final(self).wf(),
            final(self).width == old(self).width,
            final(self).height == old(self).height,
            match r {
                Ok(row) => {
                    &&& owner != Owner::Empty
                    &&& column < old(self).width
                    &&& is_landing_row(old(self)@, column as int, row as int)
                    &&& final(self)@ == grid_set(old(self)@, row as int, column as int, owner)
                },
                Err(e) => final(self)@ == old(self)@ && match e {
                    GameError::InvalidOwner => owner == Owner::Empty,
                    GameError::InvalidColumn => owner != Owner::Empty && column >= old(self).width,
                    GameError::ColumnFull => {
                        &&& owner != Owner::Empty
                        &&& column < old(self).width
                        &&& column_full(old(self)@, column as int)
                    },
                    _ => false,
                },
            },
    {
        if matches!(owner, Owner::Empty) {
            return Err(GameError::InvalidOwner);
        }
        let row = match self.landing_row(column) {
            Ok(row) => row,
            Err(e) => {
                return Err(e);
            },
        };
        let ok = a2d_set(&mut self.grid, row, column, owner);
        proof {
            assert(ok);
        }
        Ok(row)
    }

    /// True when every cell is occupied: with no winner, the game is a draw.
    pub fn is_full(&self) -> (r: bool)
        requires
            self.wf(),
        ensures
            r == board_full(self@),
    {
        let mut row: usize = 0;
        while row < self.height
            invariant
                self.wf(),
                row <= self.height,
                forall|r: int, c: int|
                    0 <= r < row && 0 <= c < self.width ==> #[trigger] self@[r][c] != Owner::Empty,
            decreases self.height - row,
        {
            let mut col: usize = 0;
            while col < self.width
                invariant
                    self.wf(),
                    row < self.height,
                    col <= self.width,
                    forall|r: int, c: int|
                        0 <= r < row && 0 <= c < self.width ==> #[trigger] self@[r][c] != Owner::Empty,
                    forall|c: int| 0 <= c < col ==> #[trigger] self@[row as int][c] != Owner::Empty,
                decreases self.width - col,
            {
                if matches!(self.at(row, col), Owner::Empty) {
                    return false;
                }
                col = col + 1;
            }
            row = row + 1;
        }
        true
    }
}

} // verus!
