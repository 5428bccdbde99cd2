use vstd::prelude::*;
use crate::board::{
    cells_at_bottom, cells_occupied, cells_within_bounds, count_full_rows, empty_rows,
    highest_row, in_bounds, lemma_board_shape, lowest_row, max_int, row_is_empty,
    rows_after_clear, stamp, Board, BOARD_HEIGHT, BOARD_WIDTH, GAME_OVER_ROW,
};
use crate::coord::{pos_fits, Coord, Pos};
use crate::game_renderer::{GameRenderer, TetriminoType};
use crate::pieces::{
    cells_fit, cells_of, cells_within_limits, COORD_LIMIT, ccw_view, cw_view, piece_types, pt, shifted,
    spawn_view, tetrimino_of, translate, Piece, PieceView,
};
use crate::rng::Rng;

verus! {

broadcast use lemma_board_shape;

/// The player's controls for one tick.
#[derive(Default, Clone, Copy, Debug)]
pub struct Input {
    /// true when user attempts to move the piece left
    pub left: bool,
    /// true when user attempts to move the piece right
    pub right: bool,
    /// true when user attempts to move the piece down
    pub down: bool,
    /// true when user wishes to rotate a piece clockwise
    pub cw_rotate: bool,
    /// true when user wishes to rotate a piece counterclockwise
    pub ccw_rotate: bool,
}

/// Whether the game goes on; `GameOver` is final.
#[derive(Copy, Clone, Debug, PartialEq, Eq, Structural)]
pub enum GameState {
    Playing,
    GameOver,
}

/// Ticks to wait after an accepted move (or rotation) before the next one.
pub const COOLDOWN: u32 = 10;

/// Gravity is counted in millionths of a cell.
pub const GRAVITY_UNIT: u32 = 1_000_000;

/// The highest level.
pub const MAX_LEVEL: usize = 15;

/// Cells fallen per tick at each level from 1 to 15, in millionths of a cell,
/// for 60 ticks per second.
pub open spec fn gravity_table() -> Seq<u32> {
    seq![
        16670u32, 21017, 26977, 35356, 46930, 63610, 87900, 123600, 177500, 259800, 388000,
        590000, 920000, 1460000, 2360000,
    ]
}

fn gravity_at_level(level: usize) -> (r: u32)
    requires
        1 <= level <= MAX_LEVEL,
    ensures
        r == gravity_table()[level - 1],
        r <= 2360000,
{
    let table: [u32; 15] = [
        16670, 21017, 26977, 35356, 46930, 63610, 87900, 123600, 177500, 259800, 388000, 590000,
        920000, 1460000, 2360000,
    ];
    assert(table@ =~= gravity_table());
    table[level - 1]
}

/// Points for clearing `lines` rows with one piece.
pub open spec fn points_for(lines: int) -> int {
    if lines == 1 {
        1
    } else if lines == 2 {
        3
    } else if lines == 3 {
        5
    } else if lines == 4 {
        8
    } else {
        0
    }
}

/// Points for clearing `lines_cleared` rows with one piece: 1, 3, 5 and 8 for
/// one to four rows, none otherwise.
pub fn points_for_lines(lines_cleared: u32) -> (r: u32)
    ensures
        r == points_for(lines_cleared as int),
{
    if lines_cleared == 1 {
        1
    } else if lines_cleared == 2 {
        3
    } else if lines_cleared == 3 {
        5
    } else if lines_cleared == 4 {
        8
    } else {
        0
    }
}

/// `v`, or the largest `u32` if `v` is larger.
pub open spec fn saturate(v: int) -> int {
    if v > u32::MAX {
        u32::MAX as int
    } else {
        v
    }
}

/// The model of a [`RenderInfo`].
pub struct RenderView {
    pub previous_cells: Option<Seq<Pos>>,
    pub settled_cells: Option<Seq<Pos>>,
    pub lines_cleared: bool,
    pub new_score: Option<int>,
    pub new_level: Option<int>,
}

/// What changed during the last tick, for a renderer that repaints only that.
#[derive(Clone, Copy, Debug)]
pub struct RenderInfo {
    /// Where the falling piece was, if it moved.
    pub previous_piece_pos: Option<[Coord; 4]>,
    /// The cells of a piece that settled.
    pub newly_settled_pieces: Option<[Coord; 4]>,
    /// Whether rows were cleared.
    pub lines_cleared: bool,
    /// The score, if it changed.
    pub new_score: Option<u32>,
    /// The level, if it changed.
    pub new_level: Option<usize>,
}

pub open spec fn option_cells(o: Option<[Coord; 4]>) -> Option<Seq<Pos>> {
    match o {
        Some(a) => Some(cells_of(a)),
        None => None,
    }
}

impl View for RenderInfo {
    type V = RenderView;

    open spec fn view(&self) -> RenderView {
        RenderView {
            previous_cells: option_cells(self.previous_piece_pos),
            settled_cells: option_cells(self.newly_settled_pieces),
            lines_cleared: self.lines_cleared,
            new_score: match self.new_score {
                Some(s) => Some(s as int),
                None => None,
            },
            new_level: match self.new_level {
                Some(l) => Some(l as int),
                None => None,
            },
        }
    }
}

/// A record of no change.
pub open spec fn no_changes() -> RenderView {
    RenderView {
        previous_cells: None,
        settled_cells: None,
        lines_cleared: false,
        new_score: None,
        new_level: None,
    }
}

impl RenderInfo {
    /// A record of no change.
    pub fn cleared() -> (r: RenderInfo)
        ensures
            r@ == no_changes(),
    {
        RenderInfo {
            previous_piece_pos: None,
            newly_settled_pieces: None,
            lines_cleared: false,
            new_score: None,
            new_level: None,
        }
    }
}

/// The model of a [`Game`].
pub struct GameView {
    /// The bag: each of the seven kinds once, at its spawn pose.
    pub pieces: Seq<PieceView>,
    /// The index in the bag of the falling piece.
    pub piece_index: int,
    /// The falling piece.
    pub current: PieceView,
    pub board: Seq<Seq<TetriminoType>>,
    pub state: GameState,
    /// Progress of gravity towards the next row, in millionths of a cell.
    pub displacement: int,
    pub level: int,
    pub score: int,
    pub next_level_score: int,
    pub rotation_cooldown: int,
    pub translation_cooldown: int,
    pub render: RenderView,
}

/// True when `p` is the spawn pose of one of the seven kinds.
pub open spec fn is_spawn_pose(p: PieceView) -> bool {
    exists|k: int| 0 <= k < 7 && p == spawn_view(k)
}

/// True when the spawn pose of each of the seven kinds is in the bag; a bag
/// of seven spawn poses then holds each kind exactly once.
pub open spec fn holds_every_kind(bag: Seq<PieceView>) -> bool {
    forall|k: int| 0 <= k < 7 ==> exists|i: int| 0 <= i < bag.len() && bag[i] == #[trigger] spawn_view(k)
}

/// The invariant of a game.
pub open spec fn game_wf(g: GameView) -> bool {
    game_fields_wf(g) && 0 <= g.piece_index < 7
}

/// The invariant of a game but for the bag index, which may have run past the
/// end of the bag.
pub open spec fn game_fields_wf(g: GameView) -> bool {
    &&& g.pieces.len() == 7
    &&& forall|i: int| 0 <= i < 7 ==> is_spawn_pose(#[trigger] g.pieces[i])
    &&& holds_every_kind(g.pieces)
    &&& 0 <= g.piece_index <= 7
    &&& g.current.cells.len() == 4
    &&& cells_within_bounds(g.current.cells)
    &&& g.board.len() == BOARD_HEIGHT
    &&& forall|y: int| 0 <= y < BOARD_HEIGHT ==> (#[trigger] g.board[y]).len() == BOARD_WIDTH
    &&& 0 <= g.displacement < GRAVITY_UNIT
    &&& 1 <= g.level <= MAX_LEVEL
    &&& 0 <= g.score <= u32::MAX
    &&& 0 <= g.next_level_score <= u32::MAX
    &&& 0 <= g.rotation_cooldown <= COOLDOWN
    &&& 0 <= g.translation_cooldown <= COOLDOWN
}

/// True when a piece with these cells may stand on the board.
pub open spec fn fits_on(board: Seq<Seq<TetriminoType>>, cells: Seq<Pos>) -> bool {
    cells_within_bounds(cells) && !cells_occupied(board, cells)
}

/// The piece the horizontal controls ask for, if exactly one of them is held.
pub open spec fn horizontal_candidate(input: Input, p: PieceView) -> Option<PieceView> {
    if input.left && !input.right {
        Some(shifted(p, pt(-1, 0)))
    } else if input.right && !input.left {
        Some(shifted(p, pt(1, 0)))
    } else {
        None
    }
}

/// The piece the rotation controls ask for, if exactly one of them is held.
pub open spec fn rotation_candidate(input: Input, p: PieceView) -> Option<PieceView> {
    if input.cw_rotate && !input.ccw_rotate {
        Some(cw_view(p))
    } else if input.ccw_rotate && !input.cw_rotate {
        Some(ccw_view(p))
    } else {
        None
    }
}

/// The horizontal step of a tick: while the cooldown runs it only counts down;
/// otherwise a requested move that fits is taken and restarts the cooldown.
pub open spec fn translation_phase(g: GameView, input: Input) -> GameView {
    if g.translation_cooldown > 0 {
        GameView { translation_cooldown: g.translation_cooldown - 1, ..g }
    } else {
        match horizontal_candidate(input, g.current) {
            Some(c) => if fits_on(g.board, c.cells) {
                GameView { current: c, translation_cooldown: COOLDOWN as int, ..g }
            } else {
                g
            },
            None => g,
        }
    }
}

/// The rotation step of a tick, like the horizontal one with its own cooldown.
pub open spec fn rotation_phase(g: GameView, input: Input) -> GameView {
    if g.rotation_cooldown > 0 {
        GameView { rotation_cooldown: g.rotation_cooldown - 1, ..g }
    } else {
        match rotation_candidate(input, g.current) {
            Some(c) => if fits_on(g.board, c.cells) {
                GameView { current: c, rotation_cooldown: COOLDOWN as int, ..g }
            } else {
                g
            },
            None => g,
        }
    }
}

/// True when the piece cannot take this position on its way down: it leaves
/// the bounds, meets a settled cell, or reaches row -1.
pub open spec fn blocked(board: Seq<Seq<TetriminoType>>, cells: Seq<Pos>) -> bool {
    !cells_within_bounds(cells) || cells_occupied(board, cells) || cells_at_bottom(cells)
}

/// The piece moved down by up to `n` rows, one row at a time, and whether it
/// settled: it stops at the last position before the first blocked one.
pub open spec fn fall(board: Seq<Seq<TetriminoType>>, p: PieceView, n: nat) -> (PieceView, bool)
    decreases n,
{
    if n == 0 {
        (p, false)
    } else {
        let next = shifted(p, pt(0, -1));
        if blocked(board, next.cells) {
            (p, true)
        } else {
            fall(board, next, (n - 1) as nat)
        }
    }
}

/// The sequence with the items at `i` and `j` exchanged.
pub open spec fn swapped<A>(s: Seq<A>, i: int, j: int) -> Seq<A> {
    s.update(i, s[j]).update(j, s[i])
}

/// The first `n` steps of a Knuth shuffle of a bag of seven: step `i` exchanges
/// item `i` with item `draws[i] % 7`.
pub open spec fn shuffled<A>(bag: Seq<A>, draws: Seq<usize>, n: int) -> Seq<A>
    decreases n,
{
    if n <= 0 {
        bag
    } else {
        swapped(shuffled(bag, draws, n - 1), n - 1, (draws[n - 1] % 7) as int)
    }
}

/// The game after the falling piece settles at `p`: the piece is stamped on
/// the board, full rows among those it spans are cleared, score and level are
/// updated, the cells are recorded for the renderer, and the bag index moves on
/// (to 7 once the whole bag is used).
pub open spec fn settle_board(g: GameView, p: PieceView) -> GameView {
    let stamped = stamp(g.board, p.cells, tetrimino_of(p.kind));
    let lo = max_int(lowest_row(p.cells), 0);
    let hi = highest_row(p.cells) + 1;
    let lines = count_full_rows(stamped, lo, hi);
    let score = saturate(g.score + points_for(lines as int));
    let level_up = score > g.next_level_score && g.level < MAX_LEVEL;
    let level = if level_up {
        g.level + 1
    } else {
        g.level
    };
    GameView {
        board: rows_after_clear(stamped, lo, hi),
        score,
        level,
        next_level_score: if level_up {
            saturate(g.next_level_score + 5 * level)
        } else {
            g.next_level_score
        },
        render: RenderView {
            settled_cells: Some(p.cells),
            lines_cleared: lines > 0,
            new_score: if lines > 0 {
                Some(score)
            } else {
                None
            },
            new_level: if level_up {
                Some(level)
            } else {
                None
            },
            ..g.render
        },
        piece_index: g.piece_index + 1,
        ..g
    }
}

/// The next piece of the bag starts to fall; a used-up bag is first
/// reshuffled with `draws` and started again.
pub open spec fn next_piece(g: GameView, draws: Seq<usize>) -> GameView {
    let used_up = g.piece_index == 7;
    let pieces = if used_up {
        shuffled(g.pieces, draws, 7)
    } else {
        g.pieces
    };
    let piece_index = if used_up {
        0
    } else {
        g.piece_index
    };
    GameView { pieces, piece_index, current: pieces[piece_index], ..g }
}

/// The gravity step of a tick, before the next piece is taken: the level's
/// gravity accumulates; each whole row of it (at least one row while "down" is
/// held, which also empties the accumulator) moves the piece down, and the
/// piece settles where it stops. Also says whether it settled.
pub open spec fn gravity_move(g: GameView, input: Input) -> (GameView, bool) {
    let acc = g.displacement + gravity_table()[g.level - 1];
    let whole = acc / GRAVITY_UNIT as int;
    if whole > 0 || input.down {
        let rows = if input.down {
            whole + 1
        } else {
            whole
        };
        let rest = if input.down {
            0
        } else {
            acc - rows * GRAVITY_UNIT
        };
        let (moved, settled) = fall(g.board, g.current, rows as nat);
        if settled {
            (settle_board(GameView { displacement: rest, ..g }, moved), true)
        } else {
            (GameView { current: moved, displacement: rest, ..g }, false)
        }
    } else {
        (GameView { displacement: acc, ..g }, false)
    }
}

/// The number of rows completed by settling the piece `p` on the board of `g`.
pub open spec fn rows_completed(g: GameView, p: PieceView) -> nat {
    count_full_rows(
        stamp(g.board, p.cells, tetrimino_of(p.kind)),
        max_int(lowest_row(p.cells), 0),
        highest_row(p.cells) + 1,
    )
}

/// Settling a piece that completes 1, 2, 3 or 4 rows awards 1, 3, 5 or 8
/// points, and one that completes no row awards none (short of the largest
/// score a `u32` holds).
pub proof fn lemma_settle_score(g: GameView, p: PieceView)
    requires
        0 <= g.score,
        g.score + 8 <= u32::MAX,
    ensures
        rows_completed(g, p) == 0 ==> settle_board(g, p).score == g.score,
        rows_completed(g, p) == 1 ==> settle_board(g, p).score == g.score + 1,
        rows_completed(g, p) == 2 ==> settle_board(g, p).score == g.score + 3,
        rows_completed(g, p) == 3 ==> settle_board(g, p).score == g.score + 5,
        rows_completed(g, p) == 4 ==> settle_board(g, p).score == g.score + 8,
{
}

/// The gravity step of a tick.
pub open spec fn gravity_phase(g: GameView, input: Input, draws: Seq<usize>) -> GameView {
    if gravity_move(g, input).1 {
        next_piece(gravity_move(g, input).0, draws)
    } else {
        gravity_move(g, input).0
    }
}

/// The end of a tick: the earlier cells of the falling piece are recorded if
/// it moved, and the game is over when the row below the spawn rows is taken.
pub open spec fn finish(g: GameView, previous: PieceView) -> GameView {
    GameView {
        render: RenderView {
            previous_cells: if g.current.cells != previous.cells {
                Some(previous.cells)
            } else {
                None
            },
            ..g.render
        },
        state: if row_is_empty(g.board[GAME_OVER_ROW as int]) {
            GameState::Playing
        } else {
            GameState::GameOver
        },
        ..g
    }
}

/// One tick of the game; `draws` are used only if the bag runs out.
pub open spec fn tick(g: GameView, input: Input, draws: Seq<usize>) -> GameView {
    if g.state == GameState::GameOver {
        g
    } else {
        let g0 = GameView { render: no_changes(), ..g };
        let g1 = translation_phase(g0, input);
        let g2 = rotation_phase(g1, input);
        let g3 = gravity_phase(g2, input, draws);
        finish(g3, g.current)
    }
}

/// Once the game is over, a tick changes nothing.
pub proof fn lemma_game_over_is_terminal(g: GameView, input: Input, draws: Seq<usize>)
    requires
        g.state == GameState::GameOver,
    ensures
        tick(g, input, draws) == g,
{
}

/// A tick never lowers the score.
pub proof fn lemma_score_never_decreases(g: GameView, input: Input, draws: Seq<usize>)
    requires
        game_wf(g),
    ensures
        tick(g, input, draws).score >= g.score,
{
}

/// A new game whose bag is `bag`.
pub open spec fn initial_game(bag: Seq<PieceView>) -> GameView {
    GameView {
        pieces: bag,
        piece_index: 0,
        current: bag[0],
        board: empty_rows(BOARD_HEIGHT as nat),
        state: GameState::Playing,
        displacement: 0,
        level: 1,
        score: 0,
        next_level_score: 5,
        rotation_cooldown: 0,
        translation_cooldown: 0,
        render: no_changes(),
    }
}

/// The seven spawn poses in the order I, O, J, L, S, Z, T.
pub open spec fn spawn_bag() -> Seq<PieceView> {
    Seq::new(7, |k: int| spawn_view(k))
}

/// The views of the pieces of a bag.
pub open spec fn bag_view(pieces: [Piece; 7]) -> Seq<PieceView> {
    pieces@.map_values(|p: Piece| p@)
}

proof fn lemma_spawn_pose_in_bounds(p: PieceView)
    requires
        is_spawn_pose(p),
    ensures
        p.cells.len() == 4,
        cells_within_bounds(p.cells),
{
    let k = choose|k: int| 0 <= k < 7 && p == spawn_view(k);
    assert(in_bounds(p.cells[0]));
    assert(in_bounds(p.cells[1]));
    assert(in_bounds(p.cells[2]));
    assert(in_bounds(p.cells[3]));
}

/// Cells within bounds can move by a row or a column, and rotate, without overflow.
proof fn lemma_in_bounds_fit(cells: Seq<Pos>)
    requires
        cells_within_bounds(cells),
    ensures
        cells_fit(translate(cells, pt(-1, 0))),
        cells_fit(translate(cells, pt(1, 0))),
        cells_fit(translate(cells, pt(0, -1))),
        cells_within_limits(cells),
{
    assert forall|i: int| 0 <= i < cells.len() implies -COORD_LIMIT <= (#[trigger] cells[i]).x
        <= COORD_LIMIT && -COORD_LIMIT <= cells[i].y <= COORD_LIMIT by {
        assert(in_bounds(cells[i]));
    }
    assert forall|i: int| 0 <= i < cells.len() implies pos_fits(
        #[trigger] translate(cells, pt(-1, 0))[i],
    ) by {
        assert(in_bounds(cells[i]));
    }
    assert forall|i: int| 0 <= i < cells.len() implies pos_fits(
        #[trigger] translate(cells, pt(1, 0))[i],
    ) by {
        assert(in_bounds(cells[i]));
    }
    assert forall|i: int| 0 <= i < cells.len() implies pos_fits(
        #[trigger] translate(cells, pt(0, -1))[i],
    ) by {
        assert(in_bounds(cells[i]));
    }
}

proof fn lemma_spawn_bag_is_full()
    ensures
        spawn_bag().len() == 7,
        forall|i: int| 0 <= i < 7 ==> is_spawn_pose(#[trigger] spawn_bag()[i]),
        holds_every_kind(spawn_bag()),
{
    assert forall|i: int| 0 <= i < 7 implies is_spawn_pose(#[trigger] spawn_bag()[i]) by {
        assert(spawn_bag()[i] == spawn_view(i));
    }
    assert forall|k: int| 0 <= k < 7 implies exists|i: int|
        0 <= i < spawn_bag().len() && spawn_bag()[i] == #[trigger] spawn_view(k) by {
        assert(spawn_bag()[k] == spawn_view(k));
    }
}

proof fn lemma_shuffled_keeps_spawn_poses(bag: Seq<PieceView>, draws: Seq<usize>, n: int)
    requires
        bag.len() == 7,
        forall|i: int| 0 <= i < 7 ==> is_spawn_pose(#[trigger] bag[i]),
        holds_every_kind(bag),
        n <= 7,
        n <= draws.len(),
    ensures
        shuffled(bag, draws, n).len() == 7,
        forall|i: int| 0 <= i < 7 ==> is_spawn_pose(#[trigger] shuffled(bag, draws, n)[i]),
        holds_every_kind(shuffled(bag, draws, n)),
    decreases n,
{
    if n > 0 {
        lemma_shuffled_keeps_spawn_poses(bag, draws, n - 1);
        let prev = shuffled(bag, draws, n - 1);
        let j = (draws[n - 1] % 7) as int;
        let next = shuffled(bag, draws, n);
        assert forall|k: int| 0 <= k < 7 implies exists|i: int|
            0 <= i < next.len() && next[i] == #[trigger] spawn_view(k) by {
            let i0 = choose|i: int| 0 <= i < prev.len() && prev[i] == spawn_view(k);
            if i0 == n - 1 {
                assert(next[j] == spawn_view(k));
            } else if i0 == j {
                assert(next[n - 1] == spawn_view(k));
            } else {
                assert(next[i0] == spawn_view(k));
            }
        }
        assert forall|i: int| 0 <= i < 7 implies is_spawn_pose(
            #[trigger] shuffled(bag, draws, n)[i],
        ) by {
            assert(is_spawn_pose(prev[n - 1]));
            assert(is_spawn_pose(prev[j]));
            assert(is_spawn_pose(prev[i]));
        }
    }
}

/// A Knuth shuffle of the bag: for each index `i` in order, the piece at `i`
/// is exchanged with the piece at `draws[i] % 7`.
pub fn shuffle_bag(pieces: &mut [Piece; 7], draws: &[usize; 7])
    ensures
        bag_view(*final(pieces)) == shuffled(bag_view(*old(pieces)), draws@, 7),
{
    let ghost start = bag_view(*pieces);
    let mut i: usize = 0;
    while i < 7
        invariant
            i <= 7,
            start.len() == 7,
            bag_view(*pieces) == shuffled(start, draws@, i as int),
        decreases 7 - i,
    {
        let index = draws[i] % 7;
        let ghost before = bag_view(*pieces);
        if index != i {
            let temp = pieces[i];
            pieces[i] = pieces[index];
            pieces[index] = temp;
        }
        assert(bag_view(*pieces) =~= swapped(before, i as int, index as int));
        i = i + 1;
    }
}

/// Seven draws from the randomness source, one per step of a shuffle.
fn draw_indices<R: Rng>(rng: &mut R) -> [usize; 7] {
    let mut draws: [usize; 7] = [0; 7];
    let mut i: usize = 0;
    while i < 7
        invariant
            i <= 7,
        decreases 7 - i,
    {
        draws[i] = rng.next();
        i = i + 1;
    }
    draws
}

/// True iff the two arrays differ at some index.
fn positions_differ(a: &[Coord; 4], b: &[Coord; 4]) -> (r: bool)
    ensures
        r == (cells_of(*a) != cells_of(*b)),
{
    let mut i: usize = 0;
    while i < 4
        invariant
            i <= 4,
            forall|j: int| 0 <= j < i ==> a[j] == b[j],
        decreases 4 - i,
    {
        if a[i] != b[i] {
            assert(cells_of(*a)[i as int] != cells_of(*b)[i as int]);
            return true;
        }
        i = i + 1;
    }
    assert(cells_of(*a) =~= cells_of(*b));
    false
}

/// True when `r` is what filtering `candidate` through `accept` gives: nothing
/// without a candidate; the candidate if `accept` returned true on it; nothing
/// if `accept` returned false on it.
pub open spec fn filtered_by<P: Fn(&Piece) -> bool>(
    candidate: Option<PieceView>,
    r: Option<Piece>,
    accept: P,
) -> bool {
    match candidate {
        None => r is None,
        Some(c) => match r {
            Some(q) => q@ == c && accept.ensures((&q,), true),
            None => exists|q: Piece| q@ == c && #[trigger] accept.ensures((&q,), false),
        },
    }
}

/// The game: the bag of pieces, the falling piece, the board, score, level,
/// gravity progress and the movement cooldowns.
pub struct Game {
    /// Each of the seven kinds once, at its spawn pose.
    /// Gets shuffled after all pieces have been used.
    pieces: [Piece; 7],
    /// The currently falling piece
    current_piece: Piece,
    /// The playing board
    board: Board,
    /// Index for the pieces array.
    piece_index: usize,
    /// Indicates whether the game is still active.
    state: GameState,
    /// Progress of the falling piece towards the next row, in millionths of a cell.
    displacement: u32,
    /// The current level. This determines how fast the pieces fall.
    level: usize,
    /// The current score, used to determine which level has been reached.
    score: u32,
    /// The score to pass to get to the next level.
    next_level_score: u32,
    /// Counter to keep track of when to allow another rotation.
    rotation_cooldown_counter: u32,
    /// Counter to keep track of when to allow another translation.
    translation_cooldown_counter: u32,
    /// What changed during the last tick.
    render_info: RenderInfo,
}

impl View for Game {
    type V = GameView;

    closed spec fn view(&self) -> GameView {
        GameView {
            pieces: bag_view(self.pieces),
            piece_index: self.piece_index as int,
            current: self.current_piece@,
            board: self.board@,
            state: self.state,
            displacement: self.displacement as int,
            level: self.level as int,
            score: self.score as int,
            next_level_score: self.next_level_score as int,
            rotation_cooldown: self.rotation_cooldown_counter as int,
            translation_cooldown: self.translation_cooldown_counter as int,
            render: self.render_info@,
        }
    }
}

impl Game {
    /// A new game on an empty board, its bag shuffled with draws from `rng`.
    pub fn new<R: Rng>(rng: &mut R) -> (g: Game)
        ensures
            game_wf(g@),
            exists|d: Seq<usize>| d.len() == 7 && g@ == initial_game(shuffled(spawn_bag(), d, 7)),
    {
        let mut tets = piece_types();
        assert(bag_view(tets) =~= spawn_bag());
        let draws = draw_indices(rng);
        shuffle_bag(&mut tets, &draws);
        proof {
            lemma_spawn_bag_is_full();
            lemma_shuffled_keeps_spawn_poses(spawn_bag(), draws@, 7);
        }
        let g = Game::with_bag(tets);
        assert(draws@.len() == 7 && g@ == initial_game(shuffled(spawn_bag(), draws@, 7)));
        g
    }

    /// A new game on an empty board, its bag in the order I, O, J, L, S, Z, T.
    pub fn new_unshuffled() -> (g: Game)
        ensures
            game_wf(g@),
            g@ == initial_game(spawn_bag()),
    {
        let tets = piece_types();
        assert(bag_view(tets) =~= spawn_bag());
        proof {
            lemma_spawn_bag_is_full();
        }
        Game::with_bag(tets)
    }

    fn with_bag(pieces: [Piece; 7]) -> (g: Game)
        requires
            forall|i: int| 0 <= i < 7 ==> is_spawn_pose(#[trigger] bag_view(pieces)[i]),
            holds_every_kind(bag_view(pieces)),
        ensures
            game_wf(g@),
            g@ == initial_game(bag_view(pieces)),
    {
        let g = Game {
            pieces,
            current_piece: pieces[0],
            board: Board::new(),
            piece_index: 0,
            state: GameState::Playing,
            displacement: 0,
            level: 1,
            score: 0,
            next_level_score: 5,
            rotation_cooldown_counter: 0,
            translation_cooldown_counter: 0,
            render_info: RenderInfo::cleared(),
        };
        proof {
            lemma_spawn_pose_in_bounds(bag_view(pieces)[0]);
        }
        g
    }

    /// The horizontal move the controls ask for (left or right, not both),
    /// if `accept_new_position` accepts it.
    pub fn handle_horizontal_input<P: Fn(&Piece) -> bool>(
        input: &Input,
        piece: &Piece,
        accept_new_position: P,
    ) -> (r: Option<Piece>)
        requires
            cells_fit(translate(piece@.cells, pt(-1, 0))),
            cells_fit(translate(piece@.cells, pt(1, 0))),
            forall|p: &Piece| #[trigger] accept_new_position.requires((p,)),
        ensures
            filtered_by(horizontal_candidate(*input, piece@), r, accept_new_position),
    {
        let translated_piece = if input.left && !input.right {
            Some(piece.move_left())
        } else if input.right && !input.left {
            Some(piece.move_right())
        } else {
            None
        };
        // if the translated piece is within the playfield
        // and it doesn't collide with any of the pieces on the board
        // accept the translation
        match translated_piece {
            Some(candidate) => {
                if accept_new_position(&candidate) {
                    Some(candidate)
                } else {
                    None
                }
            },
            None => None,
        }
    }

    /// The rotation the controls ask for (clockwise or counterclockwise, not
    /// both), if `accept_new_position` accepts it.
    pub fn handle_rotation_input<P: Fn(&Piece) -> bool>(
        input: &Input,
        piece: &Piece,
        accept_new_position: P,
    ) -> (r: Option<Piece>)
        requires
            cells_within_limits(piece@.cells),
            forall|p: &Piece| #[trigger] accept_new_position.requires((p,)),
        ensures
            filtered_by(rotation_candidate(*input, piece@), r, accept_new_position),
    {
        let rotated_piece = if input.cw_rotate && !input.ccw_rotate {
            Some(piece.cw_rot())
        } else if input.ccw_rotate && !input.cw_rotate {
            Some(piece.ccw_rot())
        } else {
            None
        };
        match rotated_piece {
            Some(candidate) => {
                if accept_new_position(&candidate) {
                    Some(candidate)
                } else {
                    None
                }
            },
            None => None,
        }
    }

    /// Moves the piece down by up to `displacement` rows, one row at a time,
    /// and says whether it settled: it stops before the first position that
    /// leaves the bounds, meets a settled cell or reaches row -1.
    pub fn handle_vertical_movement(piece: &Piece, board: &Board, displacement: u32) -> (r: (
        Piece,
        bool,
    ))
        requires
            cells_within_bounds(piece@.cells),
        ensures
            (r.0@, r.1) == fall(board@, piece@, displacement as nat),
            cells_within_bounds(r.0@.cells),
    {
        let mut relocated_piece = *piece;
        let mut is_settled = false;
        let mut moved: u32 = 0;
        while moved < displacement && !is_settled
            invariant
                moved <= displacement,
                cells_within_bounds(relocated_piece@.cells),
                is_settled ==> fall(board@, piece@, displacement as nat) == (relocated_piece@, true),
                !is_settled ==> fall(board@, piece@, displacement as nat) == fall(
                    board@,
                    relocated_piece@,
                    (displacement - moved) as nat,
                ),
            decreases displacement - moved,
        {
            proof {
                lemma_in_bounds_fit(relocated_piece@.cells);
            }
            let candidate = relocated_piece.apply_gravity(1);
            if !board.is_tetrimino_within_bounds(&candidate.position) || board.is_occupied(
                &candidate.position,
            ) || board.is_at_the_bottom(&candidate.position) {
                // the piece stays at its last free position
                is_settled = true;
            } else {
                relocated_piece = candidate;
            }
            moved = moved + 1;
        }
        (relocated_piece, is_settled)
    }

    /// Resets the change record, then applies the horizontal and the rotation
    /// steps. Returns the falling piece as it was.
    fn begin_tick(&mut self, input: &Input) -> (previous: Piece)
        requires
            game_wf(old(self)@),
        ensures
            final(self)@ == rotation_phase(
                translation_phase(GameView { render: no_changes(), ..old(self)@ }, *input),
                *input,
            ),
            game_wf(final(self)@),
            previous@ == old(self)@.current,
    {
        self.render_info = RenderInfo::cleared();
        let previous_piece = self.current_piece;
        self.translation_step(input);
        self.rotation_step(input);
        previous_piece
    }

    fn translation_step(&mut self, input: &Input)
        requires
            game_wf(old(self)@),
        ensures
            final(self)@ == translation_phase(old(self)@, *input),
            game_wf(final(self)@),
    {
        if self.translation_cooldown_counter > 0 {
            self.translation_cooldown_counter = self.translation_cooldown_counter - 1;
        } else {
            proof {
                lemma_in_bounds_fit(self.current_piece@.cells);
            }
            let board = &self.board;
            // a position is valid when it lies within the playfield
            // and doesn't collide with any of the pieces on the board
            let valid_piece_location = |p: &Piece| -> (ok: bool)
                ensures ok == fits_on(board@, p@.cells)
            {
                board.is_tetrimino_within_bounds(&p.position) && !board.is_occupied(&p.position)
            };
            let translated_piece = Game::handle_horizontal_input(input, &self.current_piece, valid_piece_location);
            if let Some(candidate) = translated_piece {
                self.current_piece = candidate;
                // only apply the cooldown if the piece has moved
                self.translation_cooldown_counter = COOLDOWN;
            }
        }
    }

    fn rotation_step(&mut self, input: &Input)
        requires
            game_wf(old(self)@),
        ensures
            final(self)@ == rotation_phase(old(self)@, *input),
            game_wf(final(self)@),
    {
        if self.rotation_cooldown_counter > 0 {
            self.rotation_cooldown_counter = self.rotation_cooldown_counter - 1;
        } else {
            proof {
                lemma_in_bounds_fit(self.current_piece@.cells);
            }
            let board = &self.board;
            // a position is valid when it lies within the playfield
            // and doesn't collide with any of the pieces on the board
            let valid_piece_location = |p: &Piece| -> (ok: bool)
                ensures ok == fits_on(board@, p@.cells)
            {
                board.is_tetrimino_within_bounds(&p.position) && !board.is_occupied(&p.position)
            };
            let rotated_piece = Game::handle_rotation_input(input, &self.current_piece, valid_piece_location);
            if let Some(candidate) = rotated_piece {
                self.current_piece = candidate;
                // only apply the cooldown if the piece has rotated
                self.rotation_cooldown_counter = COOLDOWN;
            }
        }
    }

    fn gravity_step(&mut self, input: &Input) -> (settled: bool)
        requires
            game_wf(old(self)@),
        ensures
            (final(self)@, settled) == gravity_move(old(self)@, *input),
            game_fields_wf(final(self)@),
            !settled ==> game_wf(final(self)@),
    {
        let gravity = gravity_at_level(self.level);
        self.displacement = self.displacement + gravity;
        let acc = self.displacement;
        let whole = acc / GRAVITY_UNIT;
        assert(whole * GRAVITY_UNIT <= acc < whole * GRAVITY_UNIT + GRAVITY_UNIT && whole <= 3) by (nonlinear_arith)
            requires
                whole == acc / GRAVITY_UNIT,
                acc < 3360000,
                GRAVITY_UNIT == 1000000,
        ;
        if whole > 0 || input.down {
            // while "down" is held the piece moves at least one row per tick
            let displacement = if input.down {
                whole + 1
            } else {
                whole
            };
            self.displacement = if input.down {
                0
            } else {
                acc - displacement * GRAVITY_UNIT
            };
            let (updated_piece, is_settled) = Game::handle_vertical_movement(
                &self.current_piece,
                &self.board,
                displacement,
            );
            if is_settled {
                self.settle_piece(&updated_piece);
            } else {
                self.current_piece = updated_piece;
            }
            is_settled
        } else {
            false
        }
    }

    fn settle_piece(&mut self, piece: &Piece)
        requires
            game_wf(old(self)@),
            cells_within_bounds(piece@.cells),
        ensures
            final(self)@ == settle_board(old(self)@, piece@),
            game_fields_wf(final(self)@),
    {
        let y_range = self.board.add_piece(piece);
        let lines_cleared = self.board.clear_lines(y_range);
        self.score = self.score.saturating_add(points_for_lines(lines_cleared));
        let off_to_a_new_level = self.score > self.next_level_score && self.level < MAX_LEVEL;
        if off_to_a_new_level {
            self.level = self.level + 1;
            self.next_level_score = self.next_level_score.saturating_add(5 * self.level as u32);
        }
        let lines_were_cleared = lines_cleared > 0;
        self.render_info.lines_cleared = lines_were_cleared;
        self.render_info.new_score = if lines_were_cleared {
            Some(self.score)
        } else {
            None
        };
        self.render_info.new_level = if off_to_a_new_level {
            Some(self.level)
        } else {
            None
        };
        self.render_info.newly_settled_pieces = Some(piece.position);
        self.piece_index = self.piece_index + 1;
    }

    fn take_next_piece(&mut self, draws: &[usize; 7])
        requires
            game_fields_wf(old(self)@),
        ensures
            final(self)@ == next_piece(old(self)@, draws@),
            game_wf(final(self)@),
    {
        if self.piece_index == 7 {
            // the whole bag has been used: shuffle it
            shuffle_bag(&mut self.pieces, draws);
            self.piece_index = 0;
            proof {
                lemma_shuffled_keeps_spawn_poses(old(self)@.pieces, draws@, 7);
            }
        }
        self.current_piece = self.pieces[self.piece_index];
        proof {
            lemma_spawn_pose_in_bounds(self@.pieces[self.piece_index as int]);
        }
    }

    fn finish_tick(&mut self, previous_piece: &Piece) -> (r: GameState)
        requires
            game_wf(old(self)@),
        ensures
            final(self)@ == finish(old(self)@, previous_piece@),
            game_wf(final(self)@),
            r == final(self)@.state,
    {
        let piece_has_moved = positions_differ(
            &self.current_piece.position,
            &previous_piece.position,
        );
        self.render_info.previous_piece_pos = if piece_has_moved {
            Some(previous_piece.position)
        } else {
            None
        };
        if self.board.is_board_full() {
            self.state = GameState::GameOver;
            GameState::GameOver
        } else {
            self.state = GameState::Playing;
            GameState::Playing
        }
    }

    /// One tick of the game, with `draws` as the draws of a reshuffle should
    /// the bag run out during it.
    pub fn step(&mut self, input: &Input, draws: &[usize; 7]) -> (r: GameState)
        requires
            game_wf(old(self)@),
        ensures
            final(self)@ == tick(old(self)@, *input, draws@),
            game_wf(final(self)@),
            r == final(self)@.state,
    {
        if self.state == GameState::GameOver {
            return GameState::GameOver;
        }
        let previous_piece = self.begin_tick(input);
        let settled = self.gravity_step(input);
        if settled {
            self.take_next_piece(draws);
        }
        self.finish_tick(&previous_piece)
    }

    /// One tick of the game. Once the game is over nothing changes. Draws
    /// from `rng` are taken only to reshuffle a used-up bag.
    pub fn run_loop<R: Rng>(&mut self, input: &Input, rng: &mut R) -> (r: GameState)
        requires
            game_wf(old(self)@),
        ensures
            exists|d: Seq<usize>| d.len() == 7 && final(self)@ == tick(old(self)@, *input, d),
            game_wf(final(self)@),
            r == final(self)@.state,
    {
        let ghost mut used: Seq<usize> = seq![0usize, 0, 0, 0, 0, 0, 0];
        if self.state == GameState::GameOver {
            assert(used.len() == 7 && self@ == tick(old(self)@, *input, used));
            return GameState::GameOver;
        }
        let previous_piece = self.begin_tick(input);
        let settled = self.gravity_step(input);
        if settled {
            let draws = if self.piece_index == 7 {
                draw_indices(rng)
            } else {
                [0usize; 7]
            };
            self.take_next_piece(&draws);
            proof {
                used = draws@;
            }
        }
        let r = self.finish_tick(&previous_piece);
        assert(used.len() == 7 && self@ == tick(old(self)@, *input, used));
        r
    }

    /// The score.
    pub fn score(&self) -> (r: u32)
        ensures
            r == self@.score,
    {
        self.score
    }

    /// The level, from 1 to 15.
    pub fn level(&self) -> (r: u8)
        requires
            game_wf(self@),
        ensures
            r == self@.level,
    {
        self.level as u8
    }

    /// The board.
    pub fn board(&self) -> (r: &Board)
        ensures
            r@ == self@.board,
    {
        &self.board
    }

    /// What to paint after the last tick: the new score and level if they
    /// changed; the whole board if rows were cleared, else the old cells of
    /// the falling piece as empty and the cells of a piece that settled; then
    /// the falling piece. Rows are counted from the top, as the renderer
    /// draws them; cells below the bottom row are left out.
    pub fn draw_commands(&self) -> (r: Vec<DrawCommand>)
        ensures
            r@ == frame_commands(self@),
            forall|i: int| 0 <= i < r@.len() ==> block_in_range(#[trigger] r@[i]),
    {
        let mut commands: Vec<DrawCommand> = Vec::new();
        if let Some(score) = self.render_info.new_score {
            commands.push(DrawCommand::Score(score));
        }
        if let Some(level) = self.render_info.new_level {
            commands.push(DrawCommand::Level(level));
        }
        assert(commands@ =~= score_commands(self@.render) + level_commands(self@.render));
        if self.render_info.lines_cleared {
            // redraw the board
            push_board_blocks(&mut commands, &self.board);
        } else {
            // erase first, in case the piece overlaps its previous position
            if let Some(previous_pos) = &self.render_info.previous_piece_pos {
                push_cell_blocks(
                    &mut commands,
                    previous_pos,
                    &self.board,
                    Some(TetriminoType::EmptySpace),
                );
                proof {
                    lemma_cell_blocks_ignore_board(
                        cells_of(*previous_pos),
                        4,
                        self@.board,
                        Seq::empty(),
                        TetriminoType::EmptySpace,
                    );
                }
            } else {
                assert(commands@ =~= commands@ + erase_commands(self@.render));
            }
            let ghost with_erased = commands@;
            if let Some(newly_settled_pieces) = &self.render_info.newly_settled_pieces {
                push_cell_blocks(&mut commands, newly_settled_pieces, &self.board, None);
            }
            assert(commands@ =~= with_erased + settled_commands(self@.render, self@.board));
        }
        let tet_type = self.current_piece.piece_type.tetrimino_type();
        push_cell_blocks(&mut commands, &self.current_piece.position, &self.board, Some(tet_type));
        assert(commands@ =~= frame_commands(self@));
        commands
    }

    /// Paints what changed during the last tick with `renderer`, as
    /// [`Game::draw_commands`] lists it.
    pub fn draw<G: GameRenderer>(&self, renderer: &mut G) {
        let commands = self.draw_commands();
        let mut i: usize = 0;
        while i < commands.len()
            invariant
                i <= commands@.len(),
                forall|k: int| 0 <= k < commands@.len() ==> block_in_range(#[trigger] commands@[k]),
            decreases commands@.len() - i,
        {
            match commands[i] {
                DrawCommand::Block { x, y, kind } => {
                    assert(block_in_range(commands@[i as int]));
                    renderer.draw_block(x, y, kind);
                },
                DrawCommand::Score(score) => renderer.draw_score(score),
                DrawCommand::Level(level) => renderer.draw_level(level),
            }
            i = i + 1;
        }
    }
}

/// One call to a [`GameRenderer`].
#[derive(Clone, Copy, Debug, PartialEq, Eq)]
pub enum DrawCommand {
    /// Paint the cell at column `x`, row `y` counted from the top.
    Block { x: u8, y: u8, kind: TetriminoType },
    Score(u32),
    Level(usize),
}

/// True unless the command paints a cell outside the 10 by 22 field.
pub open spec fn block_in_range(c: DrawCommand) -> bool {
    match c {
        DrawCommand::Block { x, y, kind } => x < BOARD_WIDTH && y < BOARD_HEIGHT,
        _ => true,
    }
}

/// True when the cell lies on the board.
pub open spec fn on_board(c: Pos) -> bool {
    0 <= c.x < BOARD_WIDTH && 0 <= c.y < BOARD_HEIGHT
}

/// Paint `kind` at the screen position of the board cell `c`.
pub open spec fn block_for(c: Pos, kind: TetriminoType) -> DrawCommand {
    DrawCommand::Block { x: c.x as u8, y: (BOARD_HEIGHT - 1 - c.y) as u8, kind }
}

/// The colour to paint at `c`: `fixed` if given, else what the board holds.
pub open spec fn paint_of(board: Seq<Seq<TetriminoType>>, fixed: Option<TetriminoType>, c: Pos) -> TetriminoType {
    match fixed {
        Some(t) => t,
        None => board[c.y][c.x],
    }
}

/// A block for each of the first `n` cells that lies on the board.
pub open spec fn cell_blocks(
    cells: Seq<Pos>,
    n: int,
    board: Seq<Seq<TetriminoType>>,
    fixed: Option<TetriminoType>,
) -> Seq<DrawCommand>
    decreases n,
{
    if n <= 0 {
        Seq::empty()
    } else if on_board(cells[n - 1]) {
        cell_blocks(cells, n - 1, board, fixed).push(
            block_for(cells[n - 1], paint_of(board, fixed, cells[n - 1])),
        )
    } else {
        cell_blocks(cells, n - 1, board, fixed)
    }
}

/// A block for each cell of row `y`, from the left.
pub open spec fn row_blocks(board: Seq<Seq<TetriminoType>>, y: int) -> Seq<DrawCommand> {
    Seq::new(BOARD_WIDTH as nat, |x: int| block_for(pt(x, y), board[y][x]))
}

/// A block for each cell of the first `n` rows, from the bottom row up.
pub open spec fn board_blocks(board: Seq<Seq<TetriminoType>>, n: int) -> Seq<DrawCommand>
    decreases n,
{
    if n <= 0 {
        Seq::empty()
    } else {
        board_blocks(board, n - 1) + row_blocks(board, n - 1)
    }
}

pub open spec fn score_commands(r: RenderView) -> Seq<DrawCommand> {
    match r.new_score {
        Some(s) => seq![DrawCommand::Score(s as u32)],
        None => Seq::empty(),
    }
}

pub open spec fn level_commands(r: RenderView) -> Seq<DrawCommand> {
    match r.new_level {
        Some(l) => seq![DrawCommand::Level(l as usize)],
        None => Seq::empty(),
    }
}

pub open spec fn erase_commands(r: RenderView) -> Seq<DrawCommand> {
    match r.previous_cells {
        Some(cells) => cell_blocks(cells, 4, Seq::empty(), Some(TetriminoType::EmptySpace)),
        None => Seq::empty(),
    }
}

pub open spec fn settled_commands(r: RenderView, board: Seq<Seq<TetriminoType>>) -> Seq<DrawCommand> {
    match r.settled_cells {
        Some(cells) => cell_blocks(cells, 4, board, None),
        None => Seq::empty(),
    }
}

/// What to paint for the game `g`; see [`Game::draw_commands`].
pub open spec fn frame_commands(g: GameView) -> Seq<DrawCommand> {
    score_commands(g.render) + level_commands(g.render) + (if g.render.lines_cleared {
        board_blocks(g.board, BOARD_HEIGHT as int)
    } else {
        erase_commands(g.render) + settled_commands(g.render, g.board)
    }) + cell_blocks(g.current.cells, 4, g.board, Some(tetrimino_of(g.current.kind)))
}

proof fn lemma_cell_blocks_ignore_board(
    cells: Seq<Pos>,
    n: int,
    b1: Seq<Seq<TetriminoType>>,
    b2: Seq<Seq<TetriminoType>>,
    t: TetriminoType,
)
    ensures
        cell_blocks(cells, n, b1, Some(t)) == cell_blocks(cells, n, b2, Some(t)),
    decreases n,
{
    if n > 0 {
        lemma_cell_blocks_ignore_board(cells, n - 1, b1, b2, t);
    }
}

fn push_cell_blocks(
    commands: &mut Vec<DrawCommand>,
    cells: &[Coord; 4],
    board: &Board,
    fixed: Option<TetriminoType>,
)
    requires
        forall|i: int| 0 <= i < old(commands)@.len() ==> block_in_range(#[trigger] old(commands)@[i]),
    ensures
        final(commands)@ == old(commands)@ + cell_blocks(cells_of(*cells), 4, board@, fixed),
        forall|i: int| 0 <= i < final(commands)@.len() ==> block_in_range(#[trigger] final(commands)@[i]),
{
    let ghost start = commands@;
    let mut i: usize = 0;
    while i < 4
        invariant
            i <= 4,
            commands@ == start + cell_blocks(cells_of(*cells), i as int, board@, fixed),
            forall|k: int| 0 <= k < commands@.len() ==> block_in_range(#[trigger] commands@[k]),
        decreases 4 - i,
    {
        let c = cells[i];
        assert(cells_of(*cells)[i as int] == c@);
        if 0 <= c.x && c.x < BOARD_WIDTH as i32 && 0 <= c.y && c.y < BOARD_HEIGHT as i32 {
            let kind = match fixed {
                Some(t) => t,
                None => board.tetrimino_type_at(c.x as u8, c.y as u8),
            };
            commands.push(
                DrawCommand::Block { x: c.x as u8, y: (BOARD_HEIGHT as i32 - 1 - c.y) as u8, kind },
            );
        }
        i = i + 1;
    }
}

fn push_board_blocks(commands: &mut Vec<DrawCommand>, board: &Board)
    requires
        forall|i: int| 0 <= i < old(commands)@.len() ==> block_in_range(#[trigger] old(commands)@[i]),
    ensures
        final(commands)@ == old(commands)@ + board_blocks(board@, BOARD_HEIGHT as int),
        forall|i: int| 0 <= i < final(commands)@.len() ==> block_in_range(#[trigger] final(commands)@[i]),
{
    let ghost start = commands@;
    let mut y: usize = 0;
    assert(start =~= start + board_blocks(board@, 0));
    while y < BOARD_HEIGHT
        invariant
            y <= BOARD_HEIGHT,
            commands@ == start + board_blocks(board@, y as int),
            forall|k: int| 0 <= k < commands@.len() ==> block_in_range(#[trigger] commands@[k]),
        decreases BOARD_HEIGHT - y,
    {
        let ghost row_start = commands@;
        let mut x: usize = 0;
        while x < BOARD_WIDTH
            invariant
                x <= BOARD_WIDTH,
                y < BOARD_HEIGHT,
                commands@ == row_start + row_blocks(board@, y as int).subrange(0, x as int),
                forall|k: int| 0 <= k < commands@.len() ==> block_in_range(#[trigger] commands@[k]),
            decreases BOARD_WIDTH - x,
        {
            let kind = board.tetrimino_type_at(x as u8, y as u8);
            commands.push(DrawCommand::Block { x: x as u8, y: (BOARD_HEIGHT - 1 - y) as u8, kind });
            assert(row_blocks(board@, y as int).subrange(0, x + 1) =~= row_blocks(
                board@,
                y as int,
            ).subrange(0, x as int).push(block_for(pt(x as int, y as int), kind)));
            x = x + 1;
        }
        assert(row_blocks(board@, y as int).subrange(0, BOARD_WIDTH as int) =~= row_blocks(
            board@,
            y as int,
        ));
        assert(start + board_blocks(board@, y + 1) =~= start + board_blocks(board@, y as int)
            + row_blocks(board@, y as int));
        y = y + 1;
    }
}

} // verus!
