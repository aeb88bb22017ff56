use vstd::prelude::*;
use crate::Owner;
use crate::board::{in_grid, rectangular, Board};

verus! {

/// Four contiguous cells of `g` owned by `o`, starting at `(r, c)` and
/// stepping by `(dr, dc)`. A streak of more than four contiguous cells
/// contains such a window, so this also covers longer runs.
pub open spec fn line_of_four(
    g: Seq<Seq<Owner>>,
    r: int,
    c: int,
    dr: int,
    dc: int,
    o: Owner,
) -> bool {
    &&& o != Owner::Empty
    &&& in_grid(g, r, c) && g[r][c] == o
    &&& in_grid(g, r + dr, c + dc) && g[r + dr][c + dc] == o
    &&& in_grid(g, r + 2 * dr, c + 2 * dc) && g[r + 2 * dr][c + 2 * dc] == o
    &&& in_grid(g, r + 3 * dr, c + 3 * dc) && g[r + 3 * dr][c + 3 * dc] == o
}

/// Some four-in-a-row for `o` exists in the scan family with step
/// `(dr, dc)`.
pub open spec fn has_dir_win(g: Seq<Seq<Owner>>, dr: int, dc: int, o: Owner) -> bool {
    exists|r: int, c: int| #[trigger] line_of_four(g, r, c, dr, dc, o)
}

/// Owner `o` has four contiguous same-owner cells somewhere on the board,
/// in one of the four scan families: a row (step right), a column (step
/// down), a down-right diagonal, or a down-left diagonal.
pub open spec fn has_win(g: Seq<Seq<Owner>>, o: Owner) -> bool {
    ||| has_dir_win(g, 0, 1, o)
    ||| has_dir_win(g, 1, 0, o)
    ||| has_dir_win(g, 1, 1, o)
    ||| has_dir_win(g, 1, -1, o)
}

/// The verdict of the single window starting at `(r, c)` with step
/// `(dr, dc)`: the owner of a four-in-a-row filling exactly this window,
/// or `None`. A window reaching off the grid is `None`.
pub open spec fn window_verdict(
    g: Seq<Seq<Owner>>,
    r: int,
    c: int,
    dr: int,
    dc: int,
) -> Option<Owner> {
    if line_of_four(g, r, c, dr, dc, g[r][c]) {
        Some(g[r][c])
    } else {
        None
    }
}

/// Row family, one row: the first winning window of row `r`, walking
/// window starts left to right from column `c`.
pub open spec fn row_scan(g: Seq<Seq<Owner>>, w: int, r: int, c: int) -> Option<Owner>
    decreases w - c,
{
    if c >= w {
        None
    } else if window_verdict(g, r, c, 0, 1) is Some {
        window_verdict(g, r, c, 0, 1)
    } else {
        row_scan(g, w, r, c + 1)
    }
}

/// Row family, whole grid: the first winning row window, walking rows top
/// to bottom from row `r`, each row left to right.
pub open spec fn rows_verdict(g: Seq<Seq<Owner>>, h: int, w: int, r: int) -> Option<Owner>
    decreases h - r,
{
    if r >= h {
        None
    } else if row_scan(g, w, r, 0) is Some {
        row_scan(g, w, r, 0)
    } else {
        rows_verdict(g, h, w, r + 1)
    }
}

/// One column of a downward family (step `(1, dc)`): the first winning
/// window with start column `c`, walking start rows top to bottom from `r`.
pub open spec fn col_major_scan(g: Seq<Seq<Owner>>, h: int, dc: int, c: int, r: int) -> Option<
    Owner,
>
    decreases h - r,
{
    if r + 3 >= h {
        None
    } else if window_verdict(g, r, c, 1, dc) is Some {
        window_verdict(g, r, c, 1, dc)
    } else {
        col_major_scan(g, h, dc, c, r + 1)
    }
}

/// A downward family (step `(1, dc)`), whole grid: the first winning
/// window, walking start columns left to right from `c`, each column top
/// to bottom.
pub open spec fn col_major_verdict(
    g: Seq<Seq<Owner>>,
    h: int,
    w: int,
    dc: int,
    c: int,
) -> Option<Owner>
    decreases w - c,
{
    if c >= w {
        None
    } else if col_major_scan(g, h, dc, c, 0) is Some {
        col_major_scan(g, h, dc, c, 0)
    } else {
        col_major_verdict(g, h, w, dc, c + 1)
    }
}

/// The detector's verdict on a grid: the owner of the first four-in-a-row
/// met by the fixed scan order — the row family first (rows top to bottom,
/// windows left to right), then the column family, the down-right
/// diagonals and the down-left diagonals (each walked column by column,
/// top to bottom) — and `None` when nobody holds one. Detection
/// short-circuits: once a family yields a winner, later families are not
/// consulted. A full grid with verdict `None` is a draw.
pub open spec fn spec_winner(g: Seq<Seq<Owner>>) -> Option<Owner> {
    let h = g.len() as int;
    let w = if g.len() > 0 {
        g[0].len() as int
    } else {
        0
    };
    if rows_verdict(g, h, w, 0) is Some {
        rows_verdict(g, h, w, 0)
    } else if col_major_verdict(g, h, w, 0, 0) is Some {
        col_major_verdict(g, h, w, 0, 0)
    } else if col_major_verdict(g, h, w, 1, 0) is Some {
        col_major_verdict(g, h, w, 1, 0)
    } else {
        col_major_verdict(g, h, w, -1, 3)
    }
}

/// Row family scanner: walks rows top to bottom, windows left to right,
/// and returns the first four-in-a-row found.
fn scan_rows(b: &Board) -> (res: Option<Owner>)
    requires
        b.wf(),
    ensures
        res == rows_verdict(b@, b.height as int, b.width as int, 0),
{
    let w = b.width;
    let h = b.height;
    let mut row: usize = 0;
    while row < h
        invariant
            b.wf(),
            b.width == w,
            b.height == h,
            row <= h,
            rows_verdict(b@, h as int, w as int, 0) == rows_verdict(
                b@,
                h as int,
                w as int,
                row as int,
            ),
        decreases h - row,
    {
        let mut col: usize = 0;
        while col < w
            invariant
                b.wf(),
                b.width == w,
                b.height == h,
                row < h,
                col <= w,
                rows_verdict(b@, h as int, w as int, 0) == rows_verdict(
                    b@,
                    h as int,
                    w as int,
                    row as int,
                ),
                row_scan(b@, w as int, row as int, 0) == row_scan(
                    b@,
                    w as int,
                    row as int,
                    col as int,
                ),
            decreases w - col,
        {
            if w > 3 && col < w - 3 {
                let o = b.at(row, col);
                if !matches!(o, Owner::Empty) && b.at(row, col + 1) == o && b.at(row, col + 2) == o
                    && b.at(row, col + 3) == o {
                    proof {
                        assert(line_of_four(b@, row as int, col as int, 0, 1, o));
                        assert(window_verdict(b@, row as int, col as int, 0, 1) == Some(o));
                        assert(rows_verdict(b@, h as int, w as int, row as int) == Some(o));
                    }
                    return Some(o);
                }
            }
            proof {
                assert(window_verdict(b@, row as int, col as int, 0, 1) is None) by {
                    if line_of_four(b@, row as int, col as int, 0, 1, b@[row as int][col as int]) {
                        assert(in_grid(b@, row as int, col as int + 3));
                    }
                }
                assert(row_scan(b@, w as int, row as int, col as int) == row_scan(
                    b@,
                    w as int,
                    row as int,
                    col as int + 1,
                ));
            }
            col = col + 1;
        }
        proof {
            assert(rows_verdict(b@, h as int, w as int, row as int) == rows_verdict(
                b@,
                h as int,
                w as int,
                row as int + 1,
            ));
        }
        row = row + 1;
    }
    None
}

/// Column family scanner: walks start columns left to right, start rows
/// top to bottom, and returns the first four-in-a-column found.
fn scan_columns(b: &Board) -> (res: Option<Owner>)
    requires
        b.wf(),
    ensures
        res == col_major_verdict(b@, b.height as int, b.width as int, 0, 0),
{
    let w = b.width;
    let h = b.height;
    let mut col: usize = 0;
    while col < w
        invariant
            b.wf(),
            b.width == w,
            b.height == h,
            col <= w,
            col_major_verdict(b@, h as int, w as int, 0, 0) == col_major_verdict(
                b@,
                h as int,
                w as int,
                0,
                col as int,
            ),
        decreases w - col,
    {
        let mut row: usize = 0;
        while row < h
            invariant
                b.wf(),
                b.width == w,
                b.height == h,
                col < w,
                row <= h,
                col_major_verdict(b@, h as int, w as int, 0, 0) == col_major_verdict(
                    b@,
                    h as int,
                    w as int,
                    0,
                    col as int,
                ),
                col_major_scan(b@, h as int, 0, col as int, 0) == col_major_scan(
                    b@,
                    h as int,
                    0,
                    col as int,
                    row as int,
                ),
            decreases h - row,
        {
            if h > 3 && row < h - 3 {
                let o = b.at(row, col);
                if !matches!(o, Owner::Empty) && b.at(row + 1, col) == o && b.at(row + 2, col) == o
                    && b.at(row + 3, col) == o {
                    proof {
                        assert(line_of_four(b@, row as int, col as int, 1, 0, o));
                        assert(window_verdict(b@, row as int, col as int, 1, 0) == Some(o));
                        assert(col_major_verdict(b@, h as int, w as int, 0, col as int) == Some(o));
                    }
                    return Some(o);
                }
            }
            proof {
                assert(window_verdict(b@, row as int, col as int, 1, 0) is None) by {
                    if line_of_four(b@, row as int, col as int, 1, 0, b@[row as int][col as int]) {
                        assert(in_grid(b@, row as int + 3, col as int));
                    }
                }
                assert(col_major_scan(b@, h as int, 0, col as int, row as int) == col_major_scan(
                    b@,
                    h as int,
                    0,
                    col as int,
                    row as int + 1,
                ));
            }
            row = row + 1;
        }
        proof {
            assert(col_major_verdict(b@, h as int, w as int, 0, col as int) == col_major_verdict(
                b@,
                h as int,
                w as int,
                0,
                col as int + 1,
            ));
        }
        col = col + 1;
    }
    None
}

/// Down-right diagonal scanner: walks start columns left to right, start
/// rows top to bottom; each window carries its own check, independent of
/// its neighbours.
fn scan_down_right(b: &Board) -> (res: Option<Owner>)
    requires
        b.wf(),
    ensures
        res == col_major_verdict(b@, b.height as int, b.width as int, 1, 0),
{
    let w = b.width;
    let h = b.height;
    let mut col: usize = 0;
    while col < w
        invariant
            b.wf(),
            b.width == w,
            b.height == h,
            col <= w,
            col_major_verdict(b@, h as int, w as int, 1, 0) == col_major_verdict(
                b@,
                h as int,
                w as int,
                1,
                col as int,
            ),
        decreases w - col,
    {
        let mut row: usize = 0;
        while row < h
            invariant
                b.wf(),
                b.width == w,
                b.height == h,
                col < w,
                row <= h,
                col_major_verdict(b@, h as int, w as int, 1, 0) == col_major_verdict(
                    b@,
                    h as int,
                    w as int,
                    1,
                    col as int,
                ),
                col_major_scan(b@, h as int, 1, col as int, 0) == col_major_scan(
                    b@,
                    h as int,
                    1,
                    col as int,
                    row as int,
                ),
            decreases h - row,
        {
            if h > 3 && row < h - 3 && w > 3 && col < w - 3 {
                let o = b.at(row, col);
                if !matches!(o, Owner::Empty) && b.at(row + 1, col + 1) == o && b.at(
                    row + 2,
                    col + 2,
                ) == o && b.at(row + 3, col + 3) == o {
                    proof {
                        assert(line_of_four(b@, row as int, col as int, 1, 1, o));
                        assert(window_verdict(b@, row as int, col as int, 1, 1) == Some(o));
                        assert(col_major_verdict(b@, h as int, w as int, 1, col as int) == Some(o));
                    }
                    return Some(o);
                }
            }
            proof {
                assert(window_verdict(b@, row as int, col as int, 1, 1) is None) by {
                    if line_of_four(b@, row as int, col as int, 1, 1, b@[row as int][col as int]) {
                        assert(in_grid(b@, row as int + 3, col as int + 3));
                    }
                }
                assert(col_major_scan(b@, h as int, 1, col as int, row as int) == col_major_scan(
                    b@,
                    h as int,
                    1,
                    col as int,
                    row as int + 1,
                ));
            }
            row = row + 1;
        }
        proof {
            assert(col_major_verdict(b@, h as int, w as int, 1, col as int) == col_major_verdict(
                b@,
                h as int,
                w as int,
                1,
                col as int + 1,
            ));
        }
        col = col + 1;
    }
    None
}

/// Down-left diagonal scanner: start columns from 3 (so the window stays
/// on the grid) left to right, start rows top to bottom; each window
/// carries its own check.
fn scan_down_left(b: &Board) -> (res: Option<Owner>)
    requires
        b.wf(),
    ensures
        res == col_major_verdict(b@, b.height as int, b.width as int, -1, 3),
{
    let w = b.width;
    let h = b.height;
    let mut col: usize = 3;
    while col < w
        invariant
            b.wf(),
            b.width == w,
            b.height == h,
            3 <= col,
            col_major_verdict(b@, h as int, w as int, -1, 3) == col_major_verdict(
                b@,
                h as int,
                w as int,
                -1,
                col as int,
            ),
        decreases w - col,
    {
        let mut row: usize = 0;
        while row < h
            invariant
                b.wf(),
                b.width == w,
                b.height == h,
                3 <= col < w,
                row <= h,
                col_major_verdict(b@, h as int, w as int, -1, 3) == col_major_verdict(
                    b@,
                    h as int,
                    w as int,
                    -1,
                    col as int,
                ),
                col_major_scan(b@, h as int, -1, col as int, 0) == col_major_scan(
                    b@,
                    h as int,
                    -1,
                    col as int,
                    row as int,
                ),
            decreases h - row,
        {
            if h > 3 && row < h - 3 {
                let o = b.at(row, col);
                if !matches!(o, Owner::Empty) && b.at(row + 1, col - 1) == o && b.at(
                    row + 2,
                    col - 2,
                ) == o && b.at(row + 3, col - 3) == o {
                    proof {
                        assert(line_of_four(b@, row as int, col as int, 1, -1, o));
                        assert(window_verdict(b@, row as int, col as int, 1, -1) == Some(o));
                        assert(col_major_verdict(b@, h as int, w as int, -1, col as int) == Some(
                            o,
                        ));
                    }
                    return Some(o);
                }
            }
            proof {
                assert(window_verdict(b@, row as int, col as int, 1, -1) is None) by {
                    if line_of_four(b@, row as int, col as int, 1, -1, b@[row as int][col as int]) {
                        assert(in_grid(b@, row as int + 3, col as int - 3));
                    }
                }
                assert(col_major_scan(b@, h as int, -1, col as int, row as int) == col_major_scan(
                    b@,
                    h as int,
                    -1,
                    col as int,
                    row as int + 1,
                ));
            }
            row = row + 1;
        }
        proof {
            assert(col_major_verdict(b@, h as int, w as int, -1, col as int) == col_major_verdict(
                b@,
                h as int,
                w as int,
                -1,
                col as int + 1,
            ));
        }
        col = col + 1;
    }
    None
}

/// The winner now on the board, if any: a pure, side-effect-free query.
/// Families are scanned in the fixed order rows, columns, down-right
/// diagonals, down-left diagonals, and detection short-circuits at the
/// first four-in-a-row found.
pub fn check_winner(board: &Board) -> (r: Option<Owner>)
    requires
        board.wf(),
    ensures
        r == spec_winner(board@),
{
    proof {
        assert(board@.len() == board.height);
        assert(board@[0].len() == board.width);
    }
    let rows = scan_rows(board);
    if rows.is_some() {
        return rows;
    }
    let cols = scan_columns(board);
    if cols.is_some() {
        return cols;
    }
    let diag = scan_down_right(board);
    if diag.is_some() {
        return diag;
    }
    scan_down_left(board)
}

/// A row-family hit from any start column is a row four-in-a-row.
proof fn lemma_row_scan_sound(g: Seq<Seq<Owner>>, w: int, r: int, c: int, o: Owner)
    requires
        row_scan(g, w, r, c) == Some(o),
    ensures
        has_dir_win(g, 0, 1, o),
    decreases w - c,
{
    if c >= w {
    } else if window_verdict(g, r, c, 0, 1) is Some {
        assert(line_of_four(g, r, c, 0, 1, o));
    } else {
        lemma_row_scan_sound(g, w, r, c + 1, o);
    }
}

/// A row-family verdict from any start row is a row four-in-a-row.
proof fn lemma_rows_verdict_sound(g: Seq<Seq<Owner>>, h: int, w: int, r: int, o: Owner)
    requires
        rows_verdict(g, h, w, r) == Some(o),
    ensures
        has_dir_win(g, 0, 1, o),
    decreases h - r,
{
    if r >= h {
    } else if row_scan(g, w, r, 0) is Some {
        lemma_row_scan_sound(g, w, r, 0, o);
    } else {
        lemma_rows_verdict_sound(g, h, w, r + 1, o);
    }
}

/// A downward-family hit in one start column is a four-in-a-row of that
/// family.
proof fn lemma_col_scan_sound(g: Seq<Seq<Owner>>, h: int, dc: int, c: int, r: int, o: Owner)
    requires
        col_major_scan(g, h, dc, c, r) == Some(o),
    ensures
        has_dir_win(g, 1, dc, o),
    decreases h - r,
{
    if r + 3 >= h {
    } else if window_verdict(g, r, c, 1, dc) is Some {
        assert(line_of_four(g, r, c, 1, dc, o));
    } else {
        lemma_col_scan_sound(g, h, dc, c, r + 1, o);
    }
}

/// A downward-family verdict from any start column is a four-in-a-row of
/// that family.
proof fn lemma_col_verdict_sound(g: Seq<Seq<Owner>>, h: int, w: int, dc: int, c: int, o: Owner)
    requires
        col_major_verdict(g, h, w, dc, c) == Some(o),
    ensures
        has_dir_win(g, 1, dc, o),
    decreases w - c,
{
    if c >= w {
    } else if col_major_scan(g, h, dc, c, 0) is Some {
        lemma_col_scan_sound(g, h, dc, c, 0, o);
    } else {
        lemma_col_verdict_sound(g, h, w, dc, c + 1, o);
    }
}

/// A row scan that found nothing leaves no winning window in the columns
/// it covered.
proof fn lemma_row_scan_none(g: Seq<Seq<Owner>>, w: int, r: int, c: int)
    requires
        row_scan(g, w, r, c) is None,
    ensures
        forall|cc: int| c <= cc < w ==> #[trigger] window_verdict(g, r, cc, 0, 1) is None,
    decreases w - c,
{
    if c >= w {
    } else {
        assert(window_verdict(g, r, c, 0, 1) is None);
        lemma_row_scan_none(g, w, r, c + 1);
    }
}

/// A row-family verdict of `None` leaves no winning row window on the
/// grid.
proof fn lemma_rows_verdict_none(g: Seq<Seq<Owner>>, h: int, w: int, r: int)
    requires
        rows_verdict(g, h, w, r) is None,
    ensures
        forall|rr: int, cc: int|
            r <= rr < h && 0 <= cc < w ==> #[trigger] window_verdict(g, rr, cc, 0, 1) is None,
    decreases h - r,
{
    if r >= h {
    } else {
        assert(row_scan(g, w, r, 0) is None);
        lemma_row_scan_none(g, w, r, 0);
        lemma_rows_verdict_none(g, h, w, r + 1);
    }
}

/// A downward column scan that found nothing leaves no winning window in
/// its start column, at any start row.
proof fn lemma_col_scan_none(g: Seq<Seq<Owner>>, h: int, dc: int, c: int, r: int)
    requires
        col_major_scan(g, h, dc, c, r) is None,
        h == g.len(),
    ensures
        forall|rr: int| r <= rr ==> #[trigger] window_verdict(g, rr, c, 1, dc) is None,
    decreases h - r,
{
    if r + 3 >= h {
        assert forall|rr: int| r <= rr implies window_verdict(g, rr, c, 1, dc) is None by {
            if line_of_four(g, rr, c, 1, dc, g[rr][c]) {
                assert(in_grid(g, rr + 3, c + 3 * dc));
            }
        }
    } else {
        assert(window_verdict(g, r, c, 1, dc) is None);
        lemma_col_scan_none(g, h, dc, c, r + 1);
    }
}

/// A downward-family verdict of `None` leaves no winning window of that
/// family in the start columns it covered.
proof fn lemma_col_verdict_none(g: Seq<Seq<Owner>>, h: int, w: int, dc: int, c: int)
    requires
        col_major_verdict(g, h, w, dc, c) is None,
        h == g.len(),
    ensures
        forall|rr: int, cc: int|
            c <= cc < w ==> #[trigger] window_verdict(g, rr, cc, 1, dc) is None,
    decreases w - c,
{
    if c >= w {
    } else {
        assert(col_major_scan(g, h, dc, c, 0) is None);
        lemma_col_scan_none(g, h, dc, c, 0);
        lemma_col_verdict_none(g, h, w, dc, c + 1);
        assert forall|rr: int, cc: int| c <= cc < w implies window_verdict(
            g,
            rr,
            cc,
            1,
            dc,
        ) is None by {
            if cc == c && rr < 0 {
                if line_of_four(g, rr, cc, 1, dc, g[rr][cc]) {
                    assert(in_grid(g, rr, cc));
                }
            }
        }
    }
}

/// Law: the detector is sound and complete. It reports a winner only for
/// an owner that holds four contiguous same-owner cells in one of the four
/// scan families — never for fewer — and it reports a winner whenever any
/// owner holds one.
pub proof fn lemma_detector_exact(g: Seq<Seq<Owner>>)
    requires
        rectangular(g),
    ensures
        spec_winner(g) matches Some(o) ==> has_win(g, o),
        (spec_winner(g) is None) <==> (forall|o: Owner| !has_win(g, o)),
{
    let h = g.len() as int;
    let w = if g.len() > 0 {
        g[0].len() as int
    } else {
        0
    };
    match spec_winner(g) {
        Some(o) => {
            if rows_verdict(g, h, w, 0) is Some {
                lemma_rows_verdict_sound(g, h, w, 0, o);
            } else if col_major_verdict(g, h, w, 0, 0) is Some {
                lemma_col_verdict_sound(g, h, w, 0, 0, o);
            } else if col_major_verdict(g, h, w, 1, 0) is Some {
                lemma_col_verdict_sound(g, h, w, 1, 0, o);
            } else {
                lemma_col_verdict_sound(g, h, w, -1, 3, o);
            }
            assert(has_win(g, o));
        },
        None => {
            lemma_rows_verdict_none(g, h, w, 0);
            lemma_col_verdict_none(g, h, w, 0, 0);
            lemma_col_verdict_none(g, h, w, 1, 0);
            lemma_col_verdict_none(g, h, w, -1, 3);
            assert forall|o: Owner| !has_win(g, o) by {
                if has_dir_win(g, 0, 1, o) {
                    let (r, c) = choose|r: int, c: int| #[trigger] line_of_four(g, r, c, 0, 1, o);
                    assert(in_grid(g, r, c));
                    assert(in_grid(g, r, c + 3));
                    assert(window_verdict(g, r, c, 0, 1) is Some);
                }
                if has_dir_win(g, 1, 0, o) {
                    let (r, c) = choose|r: int, c: int| #[trigger] line_of_four(g, r, c, 1, 0, o);
                    assert(in_grid(g, r, c));
                    assert(window_verdict(g, r, c, 1, 0) is Some);
                }
                if has_dir_win(g, 1, 1, o) {
                    let (r, c) = choose|r: int, c: int| #[trigger] line_of_four(g, r, c, 1, 1, o);
                    assert(in_grid(g, r, c));
                    assert(window_verdict(g, r, c, 1, 1) is Some);
                }
                if has_dir_win(g, 1, -1, o) {
                    let (r, c) = choose|r: int, c: int| #[trigger] line_of_four(g, r, c, 1, -1, o);
                    assert(in_grid(g, r, c));
                    assert(in_grid(g, r + 3, c - 3));
                    assert(window_verdict(g, r, c, 1, -1) is Some);
                }
            }
        },
    }
}

/// Law: the detector is idempotent. Its verdict is a function of the board
/// contents alone, so checking the same unchanged board twice yields the
/// same result.
pub proof fn lemma_detector_idempotent(g1: Seq<Seq<Owner>>, g2: Seq<Seq<Owner>>)
    requires
        g1 == g2,
    ensures
        spec_winner(g1) == spec_winner(g2),
{
}

} // verus!
