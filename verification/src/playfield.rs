use vstd::prelude::*;

use crate::errors::GameError;
use crate::tetrominos;

verus! {

/// One cell of the padded matrix: free space, the permanent border, or a
/// locked block remembering which kind filled it.
#[derive(Debug, Copy, Clone, PartialEq, Eq, Structural)]
pub enum Location {
    Empty,
    Edge,
    Filled(tetrominos::Kind),
}

/// A 4x4 bitmask overlay: each cell is 0 (transparent) or 1 (solid).
pub type Shape = [[u8; 4]; 4];

/// Total padding added to the well: 4 empty spawn rows above, 2 edge rows
/// below.
pub const ROWS_PADDING: usize = 6;

/// Total padding added to the well: 3 edge columns on each side.
pub const COLS_PADDING: usize = 6;

/// Matrix row where the well starts (the spawn headroom above it).
pub const WELL_Y: usize = 4;

/// Matrix column where the well starts (edge columns to its left).
pub const WELL_X: usize = 3;

/// The padded playing field. `rows` and `cols` give the size of the well,
/// the interior rectangle where blocks live; the owned matrix is larger by
/// the fixed paddings, and all callers locate the well through the
/// `well_x`/`well_y` offsets rather than recomputing them.
#[derive(Debug)]
#[verifier::ext_equal]
pub struct PlayField {
    pub cols: usize,
    pub rows: usize,
    pub matrix: Vec<Vec<Location>>,
}

impl PlayField {
    /// Number of rows of the padded matrix.
    pub open spec fn mrows(self) -> int {
        self.rows + ROWS_PADDING
    }

    /// Number of columns of the padded matrix.
    pub open spec fn mcols(self) -> int {
        self.cols + COLS_PADDING
    }

    /// The matrix is a well-sized rectangle.
    pub open spec fn wf(self) -> bool {
        &&& self.rows >= 4
        &&& self.cols >= 4
        &&& self.rows <= usize::MAX - ROWS_PADDING
        &&& self.cols <= usize::MAX - COLS_PADDING
        &&& self.matrix@.len() == self.mrows()
        &&& forall|r: int| 0 <= r < self.mrows() ==> (#[trigger] self.matrix@[r])@.len()
            == self.mcols()
    }

    /// The cell at matrix coordinates (r, c).
    #[verifier::inline]
    pub open spec fn cell(self, r: int, c: int) -> Location {
        self.matrix@[r]@[c]
    }

    /// What a fresh playfield holds at matrix coordinates (r, c): the top
    /// four spawn rows and the well are empty, everything else is edge.
    pub open spec fn initial_cell(rows: int, cols: int, r: int, c: int) -> Location {
        if r < WELL_Y || (r < rows + WELL_Y && WELL_X <= c < cols + WELL_X) {
            Location::Empty
        } else {
            Location::Edge
        }
    }

    /// Build a playfield with a well of the given size. The well must be at
    /// least 4x4; the padded matrix adds 4 empty spawn rows on top, 2 edge
    /// rows below and 3 edge columns on either side.
    #[verifier::loop_isolation(false)]
    pub fn new(rows: usize, cols: usize) -> (result: Result<PlayField, GameError>)
        requires
            rows <= usize::MAX - ROWS_PADDING,
            cols <= usize::MAX - COLS_PADDING,
        ensures
            result is Ok <==> rows >= 4 && cols >= 4,
            result is Err ==> result == Result::<PlayField, GameError>::Err(
                GameError::InvalidDimensions,
            ),
            result matches Ok(pf) ==> {
                &&& pf.wf()
                &&& pf.rows == rows
                &&& pf.cols == cols
                &&& forall|r: int, c: int|
                    0 <= r < pf.mrows() && 0 <= c < pf.mcols() ==> #[trigger] pf.matrix@[r]@[c]
                        == Self::initial_cell(rows as int, cols as int, r, c)
            },
    {
        if rows < 4 || cols < 4 {
            return Err(GameError::InvalidDimensions);
        }

        let matrix_rows = rows + ROWS_PADDING;
        let matrix_cols = cols + COLS_PADDING;

        let mut pf = PlayField { cols, rows, matrix: vec![vec![Location::Edge; matrix_cols]; matrix_rows] };

        // clear the top spawn rows
        let mut row: usize = 0;
        while row < WELL_Y
            invariant
                row <= WELL_Y,
                pf.rows == rows,
                pf.cols == cols,
                pf.wf(),
                rows >= 4,
                cols >= 4,
                forall|r: int, c: int|
                    0 <= r < row && 0 <= c < pf.mcols() ==> #[trigger] pf.matrix@[r]@[c]
                        == Location::Empty,
                forall|r: int, c: int|
                    row <= r < pf.mrows() && 0 <= c < pf.mcols() ==> #[trigger] pf.matrix@[r]@[c]
                        == Location::Edge,
            decreases WELL_Y - row,
        {
            let mut col: usize = 0;
            while col < matrix_cols
                invariant
                    col <= matrix_cols,
                    row < WELL_Y,
                    matrix_cols == pf.mcols(),
                    pf.rows == rows,
                    pf.cols == cols,
                    pf.wf(),
                    forall|r: int, c: int|
                        0 <= r < row && 0 <= c < pf.mcols() ==> #[trigger] pf.matrix@[r]@[c]
                            == Location::Empty,
                    forall|c: int|
                        0 <= c < col ==> #[trigger] pf.matrix@[row as int]@[c] == Location::Empty,
                    forall|c: int|
                        col <= c < pf.mcols() ==> #[trigger] pf.matrix@[row as int]@[c]
                            == Location::Edge,
                    forall|r: int, c: int|
                        row < r < pf.mrows() && 0 <= c < pf.mcols() ==> #[trigger] pf.matrix@[r]@[c]
                            == Location::Edge,
                decreases matrix_cols - col,
            {
                pf.matrix[row][col] = Location::Empty;
                col += 1;
            }
            row += 1;
        }

        // cut out the well
        let mut wrow: usize = 0;
        while wrow < rows
            invariant
                wrow <= rows,
                pf.rows == rows,
                pf.cols == cols,
                pf.wf(),
                rows >= 4,
                cols >= 4,
                forall|r: int, c: int|
                    0 <= r < WELL_Y && 0 <= c < pf.mcols() ==> #[trigger] pf.matrix@[r]@[c]
                        == Location::Empty,
                forall|r: int, c: int|
                    WELL_Y <= r < WELL_Y + wrow && WELL_X <= c < WELL_X + cols
                        ==> #[trigger] pf.matrix@[r]@[c] == Location::Empty,
                forall|r: int, c: int|
                    WELL_Y <= r < pf.mrows() && 0 <= c < pf.mcols() && !(r < WELL_Y + wrow && WELL_X
                        <= c < WELL_X + cols) ==> #[trigger] pf.matrix@[r]@[c] == Location::Edge,
            decreases rows - wrow,
        {
            let mut wcol: usize = 0;
            while wcol < cols
                invariant
                    wcol <= cols,
                    wrow < rows,
                    pf.rows == rows,
                    pf.cols == cols,
                    pf.wf(),
                    forall|r: int, c: int|
                        0 <= r < WELL_Y && 0 <= c < pf.mcols() ==> #[trigger] pf.matrix@[r]@[c]
                            == Location::Empty,
                    forall|r: int, c: int|
                        WELL_Y <= r < WELL_Y + wrow && WELL_X <= c < WELL_X + cols
                            ==> #[trigger] pf.matrix@[r]@[c] == Location::Empty,
                    forall|c: int|
                        WELL_X <= c < WELL_X + wcol ==> #[trigger] pf.matrix@[(WELL_Y + wrow) as int]@[c] == Location::Empty,
                    forall|r: int, c: int|
                        WELL_Y <= r < pf.mrows() && 0 <= c < pf.mcols() && !(r < WELL_Y + wrow
                            && WELL_X <= c < WELL_X + cols) && !(r == WELL_Y + wrow && WELL_X <= c
                            < WELL_X + wcol) ==> #[trigger] pf.matrix@[r]@[c] == Location::Edge,
                decreases cols - wcol,
            {
                pf.matrix[WELL_Y + wrow][WELL_X + wcol] = Location::Empty;
                wcol += 1;
            }
            wrow += 1;
        }

        Ok(pf)
    }

    /// Matrix column where the well starts.
    pub fn well_x(&self) -> (x: usize)
        ensures
            x == WELL_X,
    {
        COLS_PADDING / 2
    }

    /// Matrix row where the well starts.
    pub fn well_y(&self) -> (y: usize)
        ensures
            y == WELL_Y,
    {
        WELL_Y
    }

    /// The shape, overlaid with its 4x4 bounding box at (y, x), collides:
    /// either the box reaches past the matrix (out of range counts as
    /// occupied) or some solid bit lands on a non-empty cell.
    pub open spec fn collides(self, y: int, x: int, bits: Seq<Seq<u8>>) -> bool {
        grid_collides(self.mat(), self.rows as int, self.cols as int, y, x, bits)
    }

    /// Overlay the shape's 4x4 bounding box at matrix position
    /// (shape_y, shape_x) and report whether it collides. This single
    /// predicate serves fall checks, move checks, rotation checks and spawn
    /// checks alike.
    #[verifier::loop_isolation(false)]
    pub fn has_collission(&self, shape_y: usize, shape_x: usize, shape: &Shape) -> (collision:
        bool)
        requires
            self.wf(),
        ensures
            collision == self.collides(shape_y as int, shape_x as int, shape_bits(*shape)),
    {
        let ghost m = self.mat();
        let ghost bits = shape_bits(*shape);
        let matrix_rows = self.rows + ROWS_PADDING;
        let matrix_cols = self.cols + COLS_PADDING;

        if shape_y > matrix_rows - 4 || shape_x > matrix_cols - 4 {
            return true;
        }

        let mut row: usize = 0;
        while row < 4
            invariant
                row <= 4,
                self.wf(),
                shape_y + 4 <= self.mrows(),
                shape_x + 4 <= self.mcols(),
                forall|r: int, c: int|
                    0 <= r < row && 0 <= c < 4 ==> !#[trigger] grid_hit(
                        m,
                        shape_y as int,
                        shape_x as int,
                        bits,
                        r,
                        c,
                    ),
            decreases 4 - row,
        {
            let mut col: usize = 0;
            while col < 4
                invariant
                    row < 4,
                    col <= 4,
                    self.wf(),
                    shape_y + 4 <= self.mrows(),
                    shape_x + 4 <= self.mcols(),
                    forall|r: int, c: int|
                        0 <= r < row && 0 <= c < 4 ==> !#[trigger] grid_hit(
                            m,
                            shape_y as int,
                            shape_x as int,
                            bits,
                            r,
                            c,
                        ),
                    forall|c: int|
                        0 <= c < col ==> !#[trigger] grid_hit(
                            m,
                            shape_y as int,
                            shape_x as int,
                            bits,
                            row as int,
                            c,
                        ),
                decreases 4 - col,
            {
                if shape[row][col] != 0 && self.matrix[shape_y + row][shape_x + col]
                    != Location::Empty {
                    proof {
                        assert(grid_hit(m, shape_y as int, shape_x as int, bits, row as int, col as int));
                    }
                    return true;
                }
                col += 1;
            }
            row += 1;
        }
        false
    }
}

impl PlayField {
    /// The whole matrix as a mathematical grid of cells.
    pub open spec fn mat(self) -> Seq<Seq<Location>> {
        self.matrix@.map_values(|v: Vec<Location>| v@)
    }
}

/// A row of the well (length `cols`), read out of a grid at well-relative
/// row index `i`.
pub open spec fn grid_well_row(m: Seq<Seq<Location>>, cols: int, i: int) -> Seq<Location> {
    Seq::new(cols as nat, |c: int| m[WELL_Y + i][WELL_X + c])
}

/// All rows of the well, top to bottom.
pub open spec fn grid_wells(m: Seq<Seq<Location>>, rows: int, cols: int) -> Seq<Seq<Location>> {
    Seq::new(rows as nat, |i: int| grid_well_row(m, cols, i))
}

/// Every cell of the row is empty.
pub open spec fn row_clear(row: Seq<Location>) -> bool {
    forall|c: int| 0 <= c < row.len() ==> row[c] == Location::Empty
}

/// No cell of the row is empty.
pub open spec fn row_full(row: Seq<Location>) -> bool {
    forall|c: int| 0 <= c < row.len() ==> #[trigger] row[c] != Location::Empty
}

/// Well row `i` of the grid is full: no cell of it is empty.
pub open spec fn grid_row_full(m: Seq<Seq<Location>>, cols: int, i: int) -> bool {
    row_full(grid_well_row(m, cols, i))
}

/// The rows of the well that still hold at least one block, in their
/// prior top-to-bottom order.
pub open spec fn occupied_rows(s: Seq<Seq<Location>>) -> Seq<Seq<Location>> {
    s.filter(|row: Seq<Location>| !row_clear(row))
}

/// Number of full well rows among the first `n`.
pub open spec fn grid_count_full(m: Seq<Seq<Location>>, cols: int, n: int) -> int
    decreases n,
{
    if n <= 0 {
        0
    } else {
        grid_count_full(m, cols, n - 1) + if grid_row_full(m, cols, n - 1) {
            1int
        } else {
            0int
        }
    }
}

/// The grid after full well rows are reset to empty in place.
pub open spec fn grid_cleared(m: Seq<Seq<Location>>, rows: int, cols: int) -> Seq<Seq<Location>> {
    Seq::new(
        m.len(),
        |r: int|
            Seq::new(
                m[r].len(),
                |c: int|
                    if WELL_Y <= r < WELL_Y + rows && WELL_X <= c < WELL_X + cols && grid_row_full(
                        m,
                        cols,
                        r - WELL_Y,
                    ) {
                        Location::Empty
                    } else {
                        m[r][c]
                    },
            ),
    )
}

/// The grid after gravity settles the well: the occupied well rows keep
/// their order and sink to the bottom, empty rows collect on top, and the
/// padding is untouched.
pub open spec fn grid_collapsed(m: Seq<Seq<Location>>, rows: int, cols: int) -> Seq<
    Seq<Location>,
> {
    let kept = occupied_rows(grid_wells(m, rows, cols));
    let gap = rows - kept.len();
    Seq::new(
        m.len(),
        |r: int|
            Seq::new(
                m[r].len(),
                |c: int|
                    if WELL_Y <= r < WELL_Y + rows && WELL_X <= c < WELL_X + cols {
                        if r - WELL_Y < gap {
                            Location::Empty
                        } else {
                            kept[r - WELL_Y - gap][c - WELL_X]
                        }
                    } else {
                        m[r][c]
                    },
            ),
    )
}

/// There are never more full rows than rows looked at.
pub proof fn lemma_count_full_bound(m: Seq<Seq<Location>>, cols: int, n: int)
    ensures
        0 <= grid_count_full(m, cols, n) <= if n <= 0 {
            0int
        } else {
            n
        },
    decreases n,
{
    if n > 0 {
        lemma_count_full_bound(m, cols, n - 1);
    }
}

/// Filtering a sequence with one row prepended keeps the row exactly when
/// it is occupied.
proof fn lemma_occupied_prepend(x: Seq<Location>, s: Seq<Seq<Location>>)
    ensures
        occupied_rows(seq![x] + s) == if !row_clear(x) {
            seq![x] + occupied_rows(s)
        } else {
            occupied_rows(s)
        },
    decreases s.len(),
{
    broadcast use vstd::seq_lib::group_seq_properties;

    Seq::filter_distributes_over_add(seq![x], s, |row: Seq<Location>| !row_clear(row));
    reveal_with_fuel(Seq::filter, 2);
    assert(seq![x].drop_last() =~= Seq::<Seq<Location>>::empty());
    if !row_clear(x) {
        assert(occupied_rows(seq![x]) =~= seq![x]);
    } else {
        assert(occupied_rows(seq![x]) =~= Seq::<Seq<Location>>::empty());
    }
}

impl PlayField {
    /// Whether well row `i` has no empty cell.
    #[verifier::loop_isolation(false)]
    fn well_row_is_full(&self, i: usize) -> (full: bool)
        requires
            self.wf(),
            i < self.rows,
        ensures
            full == grid_row_full(self.mat(), self.cols as int, i as int),
    {
        let mut c: usize = 0;
        while c < self.cols
            invariant
                c <= self.cols,
                forall|k: int|
                    0 <= k < c ==> #[trigger] self.matrix@[WELL_Y + i]@[WELL_X + k]
                        != Location::Empty,
            decreases self.cols - c,
        {
            if self.matrix[WELL_Y + i][WELL_X + c] == Location::Empty {
                proof {
                    assert(grid_well_row(self.mat(), self.cols as int, i as int)[c as int]
                        == Location::Empty);
                }
                return false;
            }
            c += 1;
        }
        true
    }

    /// Whether well row `i` holds no block at all.
    #[verifier::loop_isolation(false)]
    fn well_row_is_clear(&self, i: usize) -> (clear: bool)
        requires
            self.wf(),
            i < self.rows,
        ensures
            clear == row_clear(grid_well_row(self.mat(), self.cols as int, i as int)),
    {
        let mut c: usize = 0;
        while c < self.cols
            invariant
                c <= self.cols,
                forall|k: int|
                    0 <= k < c ==> #[trigger] self.matrix@[WELL_Y + i]@[WELL_X + k]
                        == Location::Empty,
            decreases self.cols - c,
        {
            if self.matrix[WELL_Y + i][WELL_X + c] != Location::Empty {
                proof {
                    assert(grid_well_row(self.mat(), self.cols as int, i as int)[c as int]
                        != Location::Empty);
                }
                return false;
            }
            c += 1;
        }
        true
    }

    /// Reset every cell of well row `i` to empty.
    #[verifier::loop_isolation(false)]
    fn set_well_row_empty(&mut self, i: usize)
        requires
            old(self).wf(),
            i < old(self).rows,
        ensures
            final(self).wf(),
            final(self).rows == old(self).rows,
            final(self).cols == old(self).cols,
            forall|r: int, c: int|
                0 <= r < old(self).mrows() && 0 <= c < old(self).mcols() ==> #[trigger] final(self).matrix@[r]@[c] == if r == WELL_Y + i && WELL_X <= c < WELL_X + old(self).cols {
                    Location::Empty
                } else {
                    old(self).matrix@[r]@[c]
                },
    {
        let mut c: usize = 0;
        while c < self.cols
            invariant
                c <= self.cols,
                self.wf(),
                self.rows == old(self).rows,
                self.cols == old(self).cols,
                i < self.rows,
                forall|r: int, cc: int|
                    0 <= r < self.mrows() && 0 <= cc < self.mcols() ==> #[trigger] self.matrix@[r]@[cc]
                        == if r == WELL_Y + i && WELL_X <= cc < WELL_X + c {
                        Location::Empty
                    } else {
                        old(self).matrix@[r]@[cc]
                    },
            decreases self.cols - c,
        {
            self.matrix[WELL_Y + i][WELL_X + c] = Location::Empty;
            c += 1;
        }
    }

    /// Copy the well cells of row `src` into row `dst`; everything else is
    /// untouched.
    #[verifier::loop_isolation(false)]
    fn copy_well_row(&mut self, src: usize, dst: usize)
        requires
            old(self).wf(),
            src < old(self).rows,
            dst < old(self).rows,
            src != dst,
        ensures
            final(self).wf(),
            final(self).rows == old(self).rows,
            final(self).cols == old(self).cols,
            forall|r: int, c: int|
                0 <= r < old(self).mrows() && 0 <= c < old(self).mcols() ==> #[trigger] final(self).matrix@[r]@[c] == if r == WELL_Y + dst && WELL_X <= c < WELL_X + old(self).cols {
                    old(self).matrix@[WELL_Y + src]@[c]
                } else {
                    old(self).matrix@[r]@[c]
                },
    {
        let mut c: usize = 0;
        while c < self.cols
            invariant
                c <= self.cols,
                self.wf(),
                self.rows == old(self).rows,
                self.cols == old(self).cols,
                src < self.rows,
                dst < self.rows,
                src != dst,
                forall|r: int, cc: int|
                    0 <= r < self.mrows() && 0 <= cc < self.mcols() ==> #[trigger] self.matrix@[r]@[cc]
                        == if r == WELL_Y + dst && WELL_X <= cc < WELL_X + c {
                        old(self).matrix@[WELL_Y + src]@[cc]
                    } else {
                        old(self).matrix@[r]@[cc]
                    },
            decreases self.cols - c,
        {
            let v = self.matrix[WELL_Y + src][WELL_X + c];
            self.matrix[WELL_Y + dst][WELL_X + c] = v;
            c += 1;
        }
    }

    /// Reset every full well row to empty in place (no shifting; gravity is
    /// `collapse`'s job) and report how many rows were cleared. At most one
    /// falling piece locks between calls, so in play the result is 0 to 4.
    #[verifier::loop_isolation(false)]
    pub fn clear_full_rows(&mut self) -> (lines_cleared: usize)
        requires
            old(self).wf(),
        ensures
            final(self).wf(),
            final(self).rows == old(self).rows,
            final(self).cols == old(self).cols,
            final(self).mat() == grid_cleared(
                old(self).mat(),
                old(self).rows as int,
                old(self).cols as int,
            ),
            lines_cleared == grid_count_full(
                old(self).mat(),
                old(self).cols as int,
                old(self).rows as int,
            ),
            forall|i: int|
                0 <= i < old(self).rows && grid_row_full(old(self).mat(), old(self).cols as int, i)
                    ==> row_clear(
                    #[trigger] grid_well_row(final(self).mat(), old(self).cols as int, i),
                ),
            forall|i: int|
                0 <= i < old(self).rows && !grid_row_full(old(self).mat(), old(self).cols as int, i)
                    ==> #[trigger] grid_well_row(final(self).mat(), old(self).cols as int, i)
                    == grid_well_row(old(self).mat(), old(self).cols as int, i),
    {
        let ghost m0 = old(self).mat();
        let rows = self.rows;
        let cols = self.cols;

        let mut lines_cleared: usize = 0;
        let mut i: usize = 0;
        while i < rows
            invariant
                i <= rows,
                self.wf(),
                self.rows == rows,
                self.cols == cols,
                lines_cleared == grid_count_full(m0, cols as int, i as int),
                lines_cleared <= i,
                forall|r: int, c: int|
                    0 <= r < self.mrows() && 0 <= c < self.mcols() && r >= WELL_Y + i
                        ==> #[trigger] self.matrix@[r]@[c] == m0[r][c],
                forall|r: int, c: int|
                    0 <= r < self.mrows() && 0 <= c < self.mcols() && r < WELL_Y + i
                        ==> #[trigger] self.matrix@[r]@[c] == grid_cleared(
                        m0,
                        rows as int,
                        cols as int,
                    )[r][c],
            decreases rows - i,
        {
            proof {
                assert(grid_well_row(self.mat(), cols as int, i as int) =~= grid_well_row(
                    m0,
                    cols as int,
                    i as int,
                ));
            }
            if self.well_row_is_full(i) {
                self.set_well_row_empty(i);
                lines_cleared += 1;
            }
            i += 1;
        }
        proof {
            assert(self.mat() =~~= grid_cleared(m0, rows as int, cols as int));
            assert forall|i2: int|
                0 <= i2 < rows && grid_row_full(m0, cols as int, i2) implies row_clear(
                #[trigger] grid_well_row(self.mat(), cols as int, i2),
            ) by {
                assert forall|c: int|
                    0 <= c < cols implies #[trigger] grid_well_row(self.mat(), cols as int, i2)[c]
                    == Location::Empty by {}
            }
            assert forall|i2: int|
                0 <= i2 < rows && !grid_row_full(m0, cols as int, i2)
                implies #[trigger] grid_well_row(self.mat(), cols as int, i2) == grid_well_row(
                m0,
                cols as int,
                i2,
            ) by {
                assert(grid_well_row(self.mat(), cols as int, i2) =~= grid_well_row(
                    m0,
                    cols as int,
                    i2,
                ));
            }
        }
        lines_cleared
    }
}

impl PlayField {
    /// Let gravity settle the well: scanning from the bottom, every occupied
    /// row sinks past the empty rows beneath it, so the occupied rows keep
    /// their order at the bottom of the well and the empty rows collect on
    /// top. Run after `clear_full_rows`; the padding is never touched.
    #[verifier::loop_isolation(false)]
    pub fn collapse(&mut self)
        requires
            old(self).wf(),
        ensures
            final(self).wf(),
            final(self).rows == old(self).rows,
            final(self).cols == old(self).cols,
            final(self).mat() == grid_collapsed(
                old(self).mat(),
                old(self).rows as int,
                old(self).cols as int,
            ),
            forall|i1: int, i2: int|
                0 <= i1 < i2 < old(self).rows && !row_clear(
                    #[trigger] grid_well_row(final(self).mat(), old(self).cols as int, i1),
                ) ==> !row_clear(
                    #[trigger] grid_well_row(final(self).mat(), old(self).cols as int, i2),
                ),
    {
        broadcast use vstd::seq_lib::group_filter_ensures;

        let ghost m0 = old(self).mat();
        let rows = self.rows;
        let cols = self.cols;
        let ghost wells0 = grid_wells(m0, rows as int, cols as int);
        let ghost kept = occupied_rows(wells0);

        let mut src: usize = rows;
        let mut dst: usize = rows;
        while src > 0
            invariant
                src <= dst,
                dst <= rows,
                self.wf(),
                self.rows == rows,
                self.cols == cols,
                forall|r: int, c: int|
                    0 <= r < self.mrows() && 0 <= c < self.mcols() && !(WELL_Y <= r < WELL_Y + rows
                        && WELL_X <= c < WELL_X + cols) ==> #[trigger] self.matrix@[r]@[c]
                        == m0[r][c],
                forall|i: int, c: int|
                    0 <= i < src && 0 <= c < cols ==> #[trigger] self.matrix@[WELL_Y + i]@[WELL_X
                        + c] == m0[WELL_Y + i][WELL_X + c],
                grid_wells(self.mat(), rows as int, cols as int).subrange(dst as int, rows as int)
                    == occupied_rows(wells0.subrange(src as int, rows as int)),
            decreases src,
        {
            src -= 1;
            proof {
                assert(grid_well_row(self.mat(), cols as int, src as int) =~= grid_well_row(
                    m0,
                    cols as int,
                    src as int,
                ));
                assert(wells0[src as int] =~= grid_well_row(m0, cols as int, src as int));
                assert(wells0.subrange(src as int, rows as int) =~= seq![wells0[src as int]]
                    + wells0.subrange(src as int + 1, rows as int));
                lemma_occupied_prepend(
                    wells0[src as int],
                    wells0.subrange(src as int + 1, rows as int),
                );
            }
            let ghost prev = *self;
            let occupied = !self.well_row_is_clear(src);
            if occupied {
                dst -= 1;
                if dst != src {
                    self.copy_well_row(src, dst);
                }
                proof {
                    let newwells = grid_wells(self.mat(), rows as int, cols as int);
                    let prevwells = grid_wells(prev.mat(), rows as int, cols as int);
                    assert(newwells[dst as int] =~= grid_well_row(m0, cols as int, src as int));
                    assert forall|j: int| dst < j < rows implies #[trigger] newwells[j]
                        =~= prevwells[j] by {
                        assert forall|c: int|
                            0 <= c < cols implies #[trigger] self.matrix@[WELL_Y + j]@[WELL_X + c]
                            == prev.matrix@[WELL_Y + j]@[WELL_X + c] by {}
                    }
                    assert(newwells.subrange(dst as int, rows as int) =~= seq![
                        grid_well_row(m0, cols as int, src as int),
                    ] + prevwells.subrange(dst as int + 1, rows as int));
                    assert(newwells.subrange(dst as int, rows as int) == occupied_rows(
                        wells0.subrange(src as int, rows as int),
                    ));
                }
            } else {
                proof {
                    assert(occupied_rows(wells0.subrange(src as int, rows as int))
                        == occupied_rows(wells0.subrange(src as int + 1, rows as int)));
                }
            }
        }

        proof {
            assert(wells0.subrange(0, rows as int) =~= wells0);
            assert(grid_wells(self.mat(), rows as int, cols as int).subrange(
                dst as int,
                rows as int,
            ) == kept);
            assert(kept.len() == rows - dst);
        }

        let ghost mid = *self;
        let mut i: usize = 0;
        while i < dst
            invariant
                i <= dst,
                dst <= rows,
                self.wf(),
                self.rows == rows,
                self.cols == cols,
                forall|r: int, c: int|
                    0 <= r < self.mrows() && 0 <= c < self.mcols() && !(WELL_Y <= r < WELL_Y + i
                        && WELL_X <= c < WELL_X + cols) ==> #[trigger] self.matrix@[r]@[c]
                        == mid.matrix@[r]@[c],
                forall|r: int, c: int|
                    WELL_Y <= r < WELL_Y + i && WELL_X <= c < WELL_X + cols
                        ==> #[trigger] self.matrix@[r]@[c] == Location::Empty,
            decreases dst - i,
        {
            self.set_well_row_empty(i);
            i += 1;
        }

        proof {
            let gap = rows - kept.len();
            assert(gap == dst);
            assert forall|j: int| dst <= j < rows implies #[trigger] grid_well_row(
                self.mat(),
                cols as int,
                j,
            ) =~= kept[j - dst] by {
                assert(grid_well_row(mid.mat(), cols as int, j) == grid_wells(
                    mid.mat(),
                    rows as int,
                    cols as int,
                ).subrange(dst as int, rows as int)[j - dst]);
                assert forall|c: int|
                    0 <= c < cols implies #[trigger] self.matrix@[WELL_Y + j]@[WELL_X + c]
                    == mid.matrix@[WELL_Y + j]@[WELL_X + c] by {}
                assert(grid_well_row(self.mat(), cols as int, j) =~= grid_well_row(
                    mid.mat(),
                    cols as int,
                    j,
                ));
            }
            assert(self.mat() =~~= grid_collapsed(m0, rows as int, cols as int));

            assert forall|i1: int, i2: int|
                0 <= i1 < i2 < rows && !row_clear(
                    #[trigger] grid_well_row(self.mat(), cols as int, i1),
                ) implies !row_clear(
                #[trigger] grid_well_row(self.mat(), cols as int, i2),
            ) by {
                if i1 < dst {
                    assert forall|c: int|
                        0 <= c < cols implies #[trigger] grid_well_row(self.mat(), cols as int, i1)[c]
                        == Location::Empty by {}
                    assert(row_clear(grid_well_row(self.mat(), cols as int, i1)));
                } else {
                    assert(grid_well_row(self.mat(), cols as int, i2) =~= kept[i2 - dst]);
                    assert(!row_clear(kept[i2 - dst]));
                }
            }
        }
    }
}

/// The bitmask of a shape as a mathematical 4x4 grid.
pub open spec fn shape_bits(s: Shape) -> Seq<Seq<u8>> {
    Seq::new(4, |r: int| Seq::new(4, |c: int| s[r][c]))
}

/// A solid bit of the mask, overlaid at (y, x), lands on a non-empty cell at
/// offset (r, c).
pub open spec fn grid_hit(
    m: Seq<Seq<Location>>,
    y: int,
    x: int,
    bits: Seq<Seq<u8>>,
    r: int,
    c: int,
) -> bool {
    bits[r][c] != 0 && m[y + r][x + c] != Location::Empty
}

/// The 4x4 mask, overlaid at (y, x) on a grid whose well is `rows` by
/// `cols`, collides: either the box reaches past the matrix (out of range
/// counts as occupied) or some solid bit lands on a non-empty cell.
pub open spec fn grid_collides(
    m: Seq<Seq<Location>>,
    rows: int,
    cols: int,
    y: int,
    x: int,
    bits: Seq<Seq<u8>>,
) -> bool {
    ||| y + 4 > rows + ROWS_PADDING
    ||| x + 4 > cols + COLS_PADDING
    ||| exists|r: int, c: int| 0 <= r < 4 && 0 <= c < 4 && #[trigger] grid_hit(m, y, x, bits, r, c)
}

/// The grid after a mask is imprinted at (y, x): every solid bit of the mask
/// becomes a block of kind `k`; all other cells are untouched.
pub open spec fn grid_imprint(
    m: Seq<Seq<Location>>,
    y: int,
    x: int,
    bits: Seq<Seq<u8>>,
    k: tetrominos::Kind,
) -> Seq<Seq<Location>> {
    Seq::new(
        m.len(),
        |r: int|
            Seq::new(
                m[r].len(),
                |c: int|
                    if y <= r < y + 4 && x <= c < x + 4 && bits[r - y][c - x] != 0 {
                        Location::Filled(k)
                    } else {
                        m[r][c]
                    },
            ),
    )
}

impl PlayField {
    /// Burn the shape into the matrix at (y, x): every solid bit becomes a
    /// block of the given kind. The caller locks a piece this way once its
    /// lock delay has run out.
    #[verifier::loop_isolation(false)]
    pub fn imprint(&mut self, y: usize, x: usize, shape: &Shape, kind: tetrominos::Kind)
        requires
            old(self).wf(),
            y + 4 <= old(self).mrows(),
            x + 4 <= old(self).mcols(),
        ensures
            final(self).wf(),
            final(self).rows == old(self).rows,
            final(self).cols == old(self).cols,
            final(self).mat() == grid_imprint(
                old(self).mat(),
                y as int,
                x as int,
                shape_bits(*shape),
                kind,
            ),
    {
        let ghost m0 = old(self).mat();
        let ghost bits = shape_bits(*shape);
        let mut row: usize = 0;
        while row < 4
            invariant
                row <= 4,
                self.wf(),
                self.rows == old(self).rows,
                self.cols == old(self).cols,
                forall|r: int, c: int|
                    0 <= r < self.mrows() && 0 <= c < self.mcols() ==> #[trigger] self.matrix@[r]@[c]
                        == if y <= r < y + row && x <= c < x + 4 && bits[r - y][c - x] != 0 {
                        Location::Filled(kind)
                    } else {
                        m0[r][c]
                    },
            decreases 4 - row,
        {
            let mut col: usize = 0;
            while col < 4
                invariant
                    row < 4,
                    col <= 4,
                    self.wf(),
                    self.rows == old(self).rows,
                    self.cols == old(self).cols,
                    forall|r: int, c: int|
                        0 <= r < self.mrows() && 0 <= c < self.mcols() ==> #[trigger] self.matrix@[r]@[c]
                            == if (y <= r < y + row && x <= c < x + 4 && bits[r - y][c - x] != 0)
                            || (r == y + row && x <= c < x + col && bits[r - y][c - x] != 0) {
                            Location::Filled(kind)
                        } else {
                            m0[r][c]
                        },
                decreases 4 - col,
            {
                if shape[row][col] != 0 {
                    self.matrix[y + row][x + col] = Location::Filled(kind);
                }
                col += 1;
            }
            row += 1;
        }
        proof {
            assert(self.mat() =~~= grid_imprint(m0, y as int, x as int, bits, kind));
        }
    }
}

/// A shape whose bounding box lies fully outside the matrix always collides:
/// out of range is never silently treated as free space.
pub proof fn lemma_collision_out_of_bounds(pf: PlayField, y: int, x: int, bits: Seq<Seq<u8>>)
    requires
        y >= pf.mrows() || x >= pf.mcols(),
    ensures
        pf.collides(y, x, bits),
{
}

} // verus!
