use vstd::prelude::*;
use core::ops::Range;
use crate::coord::{Coord, Pos};
use crate::game_renderer::TetriminoType;
use crate::pieces::{cells_of, tetrimino_of, Piece};

verus! {

pub const BOARD_WIDTH: usize = 10;

pub const BOARD_HEIGHT: usize = 22;

/// The row whose occupation ends the game: it lies just below the spawn rows.
pub const GAME_OVER_ROW: usize = BOARD_HEIGHT - 3;

/// A row in which every cell is empty.
pub open spec fn empty_row() -> Seq<TetriminoType> {
    Seq::new(BOARD_WIDTH as nat, |x: int| TetriminoType::EmptySpace)
}

/// `n` empty rows.
pub open spec fn empty_rows(n: nat) -> Seq<Seq<TetriminoType>> {
    Seq::new(n, |i: int| empty_row())
}

/// True when no cell of the row is empty.
pub open spec fn row_is_full(row: Seq<TetriminoType>) -> bool {
    forall|x: int| 0 <= x < row.len() ==> row[x] != TetriminoType::EmptySpace
}

/// True when every cell of the row is empty.
pub open spec fn row_is_empty(row: Seq<TetriminoType>) -> bool {
    forall|x: int| 0 <= x < row.len() ==> row[x] == TetriminoType::EmptySpace
}

/// True when `p` is a column of the board and a row from -1 (one below the
/// bottom row) to the top row.
pub open spec fn in_bounds(p: Pos) -> bool {
    0 <= p.x < BOARD_WIDTH && -1 <= p.y < BOARD_HEIGHT
}

pub open spec fn cells_within_bounds(cells: Seq<Pos>) -> bool {
    forall|i: int| 0 <= i < cells.len() ==> in_bounds(#[trigger] cells[i])
}

/// True when some cell at row 0 or above is taken on the board `rows`.
pub open spec fn cells_occupied(rows: Seq<Seq<TetriminoType>>, cells: Seq<Pos>) -> bool {
    exists|i: int|
        0 <= i < cells.len() && (#[trigger] cells[i]).y >= 0 && rows[cells[i].y][cells[i].x]
            != TetriminoType::EmptySpace
}

/// True when some cell is on row -1 and none is below it.
pub open spec fn cells_at_bottom(cells: Seq<Pos>) -> bool {
    &&& exists|i: int| 0 <= i < cells.len() && (#[trigger] cells[i]).y == -1
    &&& forall|i: int| 0 <= i < cells.len() ==> (#[trigger] cells[i]).y >= -1
}

/// True when one of `cells` is the point `(x, y)`.
pub open spec fn covers(cells: Seq<Pos>, x: int, y: int) -> bool {
    exists|i: int| 0 <= i < cells.len() && #[trigger] cells[i] == Pos { x, y }
}

/// The board `rows` with each of `cells` that lies on it set to `t`.
pub open spec fn stamp(
    rows: Seq<Seq<TetriminoType>>,
    cells: Seq<Pos>,
    t: TetriminoType,
) -> Seq<Seq<TetriminoType>> {
    Seq::new(
        rows.len(),
        |y: int| Seq::new(rows[y].len(), |x: int| if covers(cells, x, y) { t } else { rows[y][x] }),
    )
}

pub open spec fn min_int(a: int, b: int) -> int {
    if a <= b { a } else { b }
}

pub open spec fn max_int(a: int, b: int) -> int {
    if a >= b { a } else { b }
}

/// The lowest row of four cells.
pub open spec fn lowest_row(cells: Seq<Pos>) -> int {
    min_int(min_int(cells[0].y, cells[1].y), min_int(cells[2].y, cells[3].y))
}

/// The highest row of four cells.
pub open spec fn highest_row(cells: Seq<Pos>) -> int {
    max_int(max_int(cells[0].y, cells[1].y), max_int(cells[2].y, cells[3].y))
}

/// The rows of `rows[lo..hi]` that are not full, in order.
pub open spec fn non_full_rows(rows: Seq<Seq<TetriminoType>>, lo: int, hi: int) -> Seq<
    Seq<TetriminoType>,
>
    decreases hi - lo,
{
    if hi <= lo {
        Seq::empty()
    } else if row_is_full(rows[hi - 1]) {
        non_full_rows(rows, lo, hi - 1)
    } else {
        non_full_rows(rows, lo, hi - 1).push(rows[hi - 1])
    }
}

/// The number of full rows in `rows[lo..hi]`.
pub open spec fn count_full_rows(rows: Seq<Seq<TetriminoType>>, lo: int, hi: int) -> nat
    decreases hi - lo,
{
    if hi <= lo {
        0
    } else if row_is_full(rows[hi - 1]) {
        count_full_rows(rows, lo, hi - 1) + 1
    } else {
        count_full_rows(rows, lo, hi - 1)
    }
}

/// The board after the full rows of `rows[lo..hi]` are removed: the rows above
/// each move down, and as many empty rows as were removed fill the top.
pub open spec fn rows_after_clear(rows: Seq<Seq<TetriminoType>>, lo: int, hi: int) -> Seq<
    Seq<TetriminoType>,
> {
    rows.subrange(0, lo) + non_full_rows(rows, lo, hi) + rows.subrange(hi, rows.len() as int)
        + empty_rows(count_full_rows(rows, lo, hi))
}

pub proof fn lemma_non_full_rows_len(rows: Seq<Seq<TetriminoType>>, lo: int, hi: int)
    requires
        lo <= hi,
    ensures
        non_full_rows(rows, lo, hi).len() + count_full_rows(rows, lo, hi) == hi - lo,
    decreases hi - lo,
{
    if hi > lo {
        lemma_non_full_rows_len(rows, lo, hi - 1);
    }
}

proof fn lemma_covers_prefix(cells: Seq<Pos>, i: int, x: int, y: int)
    requires
        0 <= i < cells.len(),
    ensures
        covers(cells.subrange(0, i + 1), x, y) == (covers(cells.subrange(0, i), x, y)
            || cells[i] == Pos { x, y }),
{
    if covers(cells.subrange(0, i + 1), x, y) {
        let k = choose|k: int| 0 <= k < i + 1 && #[trigger] cells.subrange(0, i + 1)[k] == Pos { x, y };
        if k < i {
            assert(cells.subrange(0, i)[k] == Pos { x, y });
        }
    }
    if covers(cells.subrange(0, i), x, y) {
        let k = choose|k: int| 0 <= k < i && #[trigger] cells.subrange(0, i)[k] == Pos { x, y };
        assert(cells.subrange(0, i + 1)[k] == Pos { x, y });
    }
    if cells[i] == (Pos { x, y }) {
        assert(cells.subrange(0, i + 1)[i] == Pos { x, y });
    }
}

/// Rows that are not full, appended to the range, are all kept.
proof fn lemma_no_full_rows_above(rows: Seq<Seq<TetriminoType>>, lo: int, m: int, hi: int)
    requires
        0 <= lo <= m <= hi <= rows.len(),
        forall|y: int| m <= y < hi ==> !row_is_full(#[trigger] rows[y]),
    ensures
        non_full_rows(rows, lo, hi) == non_full_rows(rows, lo, m) + rows.subrange(m, hi),
        count_full_rows(rows, lo, hi) == count_full_rows(rows, lo, m),
    decreases hi - m,
{
    if hi > m {
        lemma_no_full_rows_above(rows, lo, m, hi - 1);
        assert(non_full_rows(rows, lo, m) + rows.subrange(m, hi) =~= (non_full_rows(rows, lo, m)
            + rows.subrange(m, hi - 1)).push(rows[hi - 1]));
    } else {
        assert(non_full_rows(rows, lo, m) + rows.subrange(m, hi) =~= non_full_rows(rows, lo, m));
    }
}

/// When, among the rows of a checked range, exactly rows 5 and 7 are full,
/// clearing that range removes two rows: the rows below 5 stay, row 6 comes
/// down to 5, every row from 8 up comes down by two, and the two top rows
/// become empty.
pub proof fn lemma_clear_rows_five_and_seven(rows: Seq<Seq<TetriminoType>>, lo: int, hi: int)
    requires
        rows.len() == BOARD_HEIGHT,
        0 <= lo <= 5,
        7 < hi <= BOARD_HEIGHT,
        row_is_full(rows[5]),
        row_is_full(rows[7]),
        forall|y: int| lo <= y < hi && y != 5 && y != 7 ==> !row_is_full(#[trigger] rows[y]),
    ensures
        count_full_rows(rows, lo, hi) == 2,
        rows_after_clear(rows, lo, hi).len() == BOARD_HEIGHT,
        forall|y: int| 0 <= y < 5 ==> #[trigger] rows_after_clear(rows, lo, hi)[y] == rows[y],
        rows_after_clear(rows, lo, hi)[5] == rows[6],
        forall|y: int| 6 <= y < 20 ==> #[trigger] rows_after_clear(rows, lo, hi)[y] == rows[y + 2],
        rows_after_clear(rows, lo, hi)[20] == empty_row(),
        rows_after_clear(rows, lo, hi)[21] == empty_row(),
{
    lemma_no_full_rows_above(rows, lo, lo, 5);
    lemma_no_full_rows_above(rows, lo, 8, hi);
    assert(non_full_rows(rows, lo, lo) =~= Seq::<Seq<TetriminoType>>::empty());
    assert(non_full_rows(rows, lo, 6) == non_full_rows(rows, lo, 5));
    assert(non_full_rows(rows, lo, 7) == non_full_rows(rows, lo, 5).push(rows[6]));
    assert(non_full_rows(rows, lo, 8) == non_full_rows(rows, lo, 7));
    assert(count_full_rows(rows, lo, 5) == 0);
    assert(count_full_rows(rows, lo, 6) == 1);
    assert(count_full_rows(rows, lo, 7) == 1);
    assert(count_full_rows(rows, lo, 8) == 2);
    let after = rows_after_clear(rows, lo, hi);
    let expected = rows.subrange(0, 5) + seq![rows[6]] + rows.subrange(8, BOARD_HEIGHT as int)
        + empty_rows(2);
    assert(after =~= expected);
}

/// `is_tetrimino_within_bounds` rejects a set of cells holding one with `x < 0`,
/// `x >= 10`, `y < -1` or `y >= 22`, and accepts a set whose cells have a column
/// of the board and a row from -1 up to the top.
pub proof fn lemma_bounds(cells: Seq<Pos>)
    ensures
        (exists|i: int|
            0 <= i < cells.len() && ((#[trigger] cells[i]).x < 0 || cells[i].x >= 10
                || cells[i].y < -1 || cells[i].y >= 22)) ==> !cells_within_bounds(cells),
        (forall|i: int|
            0 <= i < cells.len() ==> 0 <= (#[trigger] cells[i]).x < 10 && -1 <= cells[i].y < 22)
            ==> cells_within_bounds(cells),
{
}

/// The playfield: 22 rows of 10 cells, row 0 at the bottom. It never holds the
/// falling piece, only settled ones.
pub struct Board {
    content: [[TetriminoType; BOARD_WIDTH]; BOARD_HEIGHT],
}

impl View for Board {
    /// The rows from the bottom up, each from the left.
    type V = Seq<Seq<TetriminoType>>;

    closed spec fn view(&self) -> Seq<Seq<TetriminoType>> {
        Seq::new(BOARD_HEIGHT as nat, |y: int| self.content[y]@)
    }
}

/// A board has 22 rows of 10 cells.
pub broadcast proof fn lemma_board_shape(b: Board)
    ensures
        #![trigger b@]
        b@.len() == BOARD_HEIGHT,
        forall|y: int| 0 <= y < BOARD_HEIGHT ==> (#[trigger] b@[y]).len() == BOARD_WIDTH,
{
}

fn row_is_complete(row: &[TetriminoType; BOARD_WIDTH]) -> (r: bool)
    ensures
        r == row_is_full(row@),
{
    let mut x: usize = 0;
    while x < BOARD_WIDTH
        invariant
            x <= BOARD_WIDTH,
            forall|j: int| 0 <= j < x ==> row[j] != TetriminoType::EmptySpace,
        decreases BOARD_WIDTH - x,
    {
        if row[x] == TetriminoType::EmptySpace {
            return false;
        }
        x = x + 1;
    }
    true
}

impl Board {
    /// An empty board.
    pub fn new() -> (b: Board)
        ensures
            b@ == empty_rows(BOARD_HEIGHT as nat),
    {
        let b = Board { content: [[TetriminoType::EmptySpace; BOARD_WIDTH]; BOARD_HEIGHT] };
        assert(b@ =~~= empty_rows(BOARD_HEIGHT as nat));
        b
    }

    /// What the cell at column `x`, row `y` holds.
    pub fn tetrimino_type_at(&self, x: u8, y: u8) -> (r: TetriminoType)
        requires
            x < BOARD_WIDTH,
            y < BOARD_HEIGHT,
        ensures
            r == self@[y as int][x as int],
    {
        self.content[y as usize][x as usize]
    }

    /// True iff every cell has `0 <= x < 10` and `-1 <= y < 22`.
    pub fn is_tetrimino_within_bounds(&self, coords: &[Coord; 4]) -> (r: bool)
        ensures
            r == cells_within_bounds(cells_of(*coords)),
    {
        let mut i: usize = 0;
        while i < 4
            invariant
                i <= 4,
                forall|j: int| 0 <= j < i ==> in_bounds(#[trigger] cells_of(*coords)[j]),
            decreases 4 - i,
        {
            let c = coords[i];
            if !(0 <= c.x && c.x < BOARD_WIDTH as i32 && -1 <= c.y && c.y < BOARD_HEIGHT as i32) {
                assert(!in_bounds(cells_of(*coords)[i as int]));
                return false;
            }
            i = i + 1;
        }
        true
    }

    /// Sets the cell at column `x`, row `y`.
    pub fn add_tetrimino_at(&mut self, x: usize, y: usize, tet_type: TetriminoType)
        requires
            x < BOARD_WIDTH,
            y < BOARD_HEIGHT,
        ensures
            final(self)@ == old(self)@.update(y as int, old(self)@[y as int].update(x as int, tet_type)),
    {
        let mut row = self.content[y];
        row[x] = tet_type;
        self.content[y] = row;
        assert(self@ =~~= old(self)@.update(y as int, old(self)@[y as int].update(x as int, tet_type)));
    }

    /// True iff a cell at row 0 or above is already taken. Cells below row 0
    /// are never taken. The cells must be within bounds.
    pub fn is_occupied(&self, coords: &[Coord; 4]) -> (r: bool)
        requires
            cells_within_bounds(cells_of(*coords)),
        ensures
            r == cells_occupied(self@, cells_of(*coords)),
    {
        let mut i: usize = 0;
        while i < 4
            invariant
                i <= 4,
                cells_within_bounds(cells_of(*coords)),
                forall|j: int|
                    0 <= j < i ==> !((#[trigger] cells_of(*coords)[j]).y >= 0 && self@[cells_of(
                        *coords,
                    )[j].y][cells_of(*coords)[j].x] != TetriminoType::EmptySpace),
            decreases 4 - i,
        {
            let c = coords[i];
            assert(in_bounds(cells_of(*coords)[i as int]));
            if c.y >= 0 && self.content[c.y as usize][c.x as usize] != TetriminoType::EmptySpace {
                assert(cells_of(*coords)[i as int].y >= 0);
                return true;
            }
            i = i + 1;
        }
        false
    }

    /// True iff some cell is on row -1 and none is below it.
    pub fn is_at_the_bottom(&self, coords: &[Coord; 4]) -> (r: bool)
        ensures
            r == cells_at_bottom(cells_of(*coords)),
    {
        let mut one_at_bottom = false;
        let mut none_below = true;
        let mut i: usize = 0;
        while i < 4
            invariant
                i <= 4,
                one_at_bottom == exists|j: int| 0 <= j < i && (#[trigger] cells_of(*coords)[j]).y == -1,
                none_below == forall|j: int| 0 <= j < i ==> (#[trigger] cells_of(*coords)[j]).y >= -1,
            decreases 4 - i,
        {
            let c = coords[i];
            assert(cells_of(*coords)[i as int] == c@);
            if c.y == -1 {
                one_at_bottom = true;
            }
            if c.y < -1 {
                none_below = false;
            }
            i = i + 1;
        }
        one_at_bottom && none_below
    }

    /// Stamps the piece's colour on each of its cells that lies on the board
    /// (a cell on row -1 lies below it), and returns the rows the piece spans,
    /// from its lowest row (or row 0) up to and excluding the row above its
    /// highest.
    pub fn add_piece(&mut self, piece: &Piece) -> (r: Range<usize>)
        requires
            cells_within_bounds(piece@.cells),
        ensures
            final(self)@ == stamp(old(self)@, piece@.cells, tetrimino_of(piece.piece_type)),
            r.start == max_int(lowest_row(piece@.cells), 0),
            r.end == highest_row(piece@.cells) + 1,
            r.start <= r.end <= BOARD_HEIGHT,
    {
        let tet_type = piece.piece_type.tetrimino_type();
        let ghost cells = piece@.cells;
        let mut i: usize = 0;
        assert(stamp(old(self)@, cells.subrange(0, 0), tet_type) =~~= old(self)@);
        while i < 4
            invariant
                i <= 4,
                cells == piece@.cells,
                tet_type == tetrimino_of(piece.piece_type),
                cells_within_bounds(cells),
                self@ == stamp(old(self)@, cells.subrange(0, i as int), tet_type),
            decreases 4 - i,
        {
            let c = piece.position[i];
            let ghost before = self@;
            assert(in_bounds(cells[i as int]));
            assert(c@ == cells[i as int]);
            if c.y >= 0 {
                self.add_tetrimino_at(c.x as usize, c.y as usize, tet_type);
            }
            let ghost target = stamp(old(self)@, cells.subrange(0, i + 1), tet_type);
            assert forall|y: int| 0 <= y < BOARD_HEIGHT implies #[trigger] self@[y] =~= target[y] by {
                assert forall|x: int| 0 <= x < BOARD_WIDTH implies self@[y][x] == target[y][x] by {
                    lemma_covers_prefix(cells, i as int, x, y);
                    if c.y >= 0 && y == c.y && x == c.x {
                        assert(cells[i as int] == Pos { x, y });
                        assert(self@[y][x] == tet_type);
                    } else {
                        assert(cells[i as int] != Pos { x, y });
                        assert(self@[y][x] == before[y][x]);
                    }
                }
            }
            assert(self@ =~= target);
            i = i + 1;
        }
        assert(cells.subrange(0, 4) =~= cells);

        // the rows spanned by the piece bound where completed lines can be
        let mut y_min: i32 = piece.position[0].y;
        let mut y_max: i32 = piece.position[0].y;
        let mut j: usize = 1;
        assert(cells[0].y == y_min);
        while j < 4
            invariant
                1 <= j <= 4,
                cells == piece@.cells,
                forall|k: int| 0 <= k < j ==> y_min <= #[trigger] cells[k].y <= y_max,
                exists|k: int| 0 <= k < j && #[trigger] cells[k].y == y_min,
                exists|k: int| 0 <= k < j && #[trigger] cells[k].y == y_max,
            decreases 4 - j,
        {
            let c = piece.position[j];
            assert(cells[j as int].y == c.y);
            if c.y < y_min {
                y_min = c.y;
            }
            if c.y > y_max {
                y_max = c.y;
            }
            j = j + 1;
        }
        assert(y_min == lowest_row(cells));
        assert(y_max == highest_row(cells));
        assert(in_bounds(cells[0]));
        let start: usize = if y_min < 0 { 0 } else { y_min as usize };
        start..((y_max + 1) as usize)
    }

    /// Removes the full rows among `y_range`, from the lowest up. For each one,
    /// the rows above it move down by one and the top row becomes empty.
    /// Returns how many rows were removed.
    pub fn clear_lines(&mut self, y_range: Range<usize>) -> (r: u32)
        requires
            y_range.start <= y_range.end <= BOARD_HEIGHT,
        ensures
            final(self)@ == rows_after_clear(old(self)@, y_range.start as int, y_range.end as int),
            r == count_full_rows(old(self)@, y_range.start as int, y_range.end as int),
    {
        let lo = y_range.start;
        let hi = y_range.end;
        let ghost rows = self@;
        let mut lines_cleared: u32 = 0;
        let mut y: usize = lo;
        assert(self@ =~= rows.subrange(0, lo as int) + non_full_rows(rows, lo as int, lo as int)
            + rows.subrange(lo as int, BOARD_HEIGHT as int) + empty_rows(0));
        while y < hi
            invariant
                lo <= y <= hi <= BOARD_HEIGHT,
                rows.len() == BOARD_HEIGHT,
                lines_cleared == count_full_rows(rows, lo as int, y as int),
                self@ == rows.subrange(0, lo as int) + non_full_rows(rows, lo as int, y as int)
                    + rows.subrange(y as int, BOARD_HEIGHT as int) + empty_rows(
                    lines_cleared as nat,
                ),
            decreases hi - y,
        {
            proof {
                lemma_non_full_rows_len(rows, lo as int, y as int);
            }
            let ghost kept = non_full_rows(rows, lo as int, y as int);
            // the rows already removed below moved this one down
            let real_y = y - lines_cleared as usize;
            assert(self@[real_y as int] == rows[y as int]);
            let full = row_is_complete(&self.content[real_y]);
            if full {
                let ghost before = self@;
                let mut i: usize = real_y;
                while i < BOARD_HEIGHT - 1
                    invariant
                        real_y <= i <= BOARD_HEIGHT - 1,
                        before.len() == BOARD_HEIGHT,
                        forall|j: int| 0 <= j < real_y ==> #[trigger] self@[j] == before[j],
                        forall|j: int| real_y <= j < i ==> #[trigger] self@[j] == before[j + 1],
                        forall|j: int| i <= j < BOARD_HEIGHT ==> #[trigger] self@[j] == before[j],
                    decreases BOARD_HEIGHT - 1 - i,
                {
                    let ghost prev = self@;
                    self.content[i] = self.content[i + 1];
                    assert(self@ =~= prev.update(i as int, prev[i + 1]));
                    i = i + 1;
                }
                let ghost shifted = self@;
                self.content[BOARD_HEIGHT - 1] = [TetriminoType::EmptySpace; BOARD_WIDTH];
                assert(self@[BOARD_HEIGHT - 1] =~= empty_row());
                assert(self@ =~= shifted.update(BOARD_HEIGHT - 1, empty_row()));
                assert(non_full_rows(rows, lo as int, y + 1) == kept);
                let ghost prefix = rows.subrange(0, lo as int) + kept;
                let ghost target = prefix + rows.subrange(y + 1, BOARD_HEIGHT as int) + empty_rows(
                    (lines_cleared + 1) as nat,
                );
                assert(prefix.len() == real_y);
                assert forall|j: int| 0 <= j < BOARD_HEIGHT implies #[trigger] self@[j]
                    == target[j] by {
                    if j < real_y {
                        assert(before[j] == prefix[j]);
                        assert(target[j] == prefix[j]);
                    } else if j < real_y + (BOARD_HEIGHT - 1 - y) {
                        assert(before[j + 1] == rows[y + 1 + (j - real_y)]);
                        assert(target[j] == rows[y + 1 + (j - real_y)]);
                    } else if j < BOARD_HEIGHT - 1 {
                        assert(before[j + 1] == empty_row());
                        assert(target[j] == empty_row());
                    } else {
                        assert(target[j] == empty_row());
                    }
                }
                assert(self@ =~= target);
                lines_cleared = lines_cleared + 1;
            } else {
                assert(non_full_rows(rows, lo as int, y + 1) == kept.push(rows[y as int]));
                assert(self@ =~= rows.subrange(0, lo as int) + kept.push(rows[y as int])
                    + rows.subrange(y + 1, BOARD_HEIGHT as int) + empty_rows(lines_cleared as nat));
            }
            y = y + 1;
        }
        lines_cleared
    }

    /// True iff the row just below the spawn rows holds a settled cell.
    pub fn is_board_full(&self) -> (r: bool)
        ensures
            r == !row_is_empty(self@[GAME_OVER_ROW as int]),
    {
        let row = &self.content[GAME_OVER_ROW];
        let mut x: usize = 0;
        while x < BOARD_WIDTH
            invariant
                x <= BOARD_WIDTH,
                *row == self.content[GAME_OVER_ROW as int],
                forall|j: int| 0 <= j < x ==> row[j] == TetriminoType::EmptySpace,
            decreases BOARD_WIDTH - x,
        {
            if row[x] != TetriminoType::EmptySpace {
                return true;
            }
            x = x + 1;
        }
        false
    }
}

} // verus!
