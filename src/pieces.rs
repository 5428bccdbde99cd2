use vstd::prelude::*;
use crate::coord::{pos_add, pos_fits, Coord, Pos};
use crate::game_renderer::TetriminoType;

verus! {

/// Orientation of the I piece, in clockwise order.
///
/// HorizontalDown: `[o][o][o][o]` on the lower middle row of its 4x4 box;
/// VerticalLeft: the second column; HorizontalUp: the upper middle row;
/// VerticalRight: the third column.
#[derive(Copy, Clone, Debug, PartialEq, Eq, Structural)]
pub enum Orientation {
    HorizontalDown,
    VerticalLeft,
    HorizontalUp,
    VerticalRight,
}

impl Orientation {
    /// The orientation one clockwise step further.
    pub open spec fn next_cw(self) -> Orientation {
        match self {
            Orientation::HorizontalDown => Orientation::VerticalLeft,
            Orientation::VerticalLeft => Orientation::HorizontalUp,
            Orientation::HorizontalUp => Orientation::VerticalRight,
            Orientation::VerticalRight => Orientation::HorizontalDown,
        }
    }

    /// The orientation one counterclockwise step back.
    pub open spec fn next_ccw(self) -> Orientation {
        match self {
            Orientation::HorizontalDown => Orientation::VerticalRight,
            Orientation::VerticalLeft => Orientation::HorizontalDown,
            Orientation::HorizontalUp => Orientation::VerticalLeft,
            Orientation::VerticalRight => Orientation::HorizontalUp,
        }
    }
}

/// The seven tetrimino kinds; only the I piece carries an orientation.
#[derive(Copy, Clone, Debug, PartialEq, Eq, Structural)]
pub enum PieceType {
    IType(Orientation),
    OType,
    JType,
    LType,
    SType,
    ZType,
    TType,
}

/// The colour a settled piece of this kind leaves on the board.
pub open spec fn tetrimino_of(kind: PieceType) -> TetriminoType {
    match kind {
        PieceType::IType(_) => TetriminoType::I,
        PieceType::OType => TetriminoType::O,
        PieceType::JType => TetriminoType::J,
        PieceType::LType => TetriminoType::L,
        PieceType::SType => TetriminoType::S,
        PieceType::ZType => TetriminoType::Z,
        PieceType::TType => TetriminoType::T,
    }
}

impl PieceType {
    /// The colour a settled piece of this kind leaves on the board.
    pub fn tetrimino_type(&self) -> (r: TetriminoType)
        ensures
            r == tetrimino_of(*self),
    {
        match self {
            PieceType::IType(_) => TetriminoType::I,
            PieceType::OType => TetriminoType::O,
            PieceType::JType => TetriminoType::J,
            PieceType::LType => TetriminoType::L,
            PieceType::SType => TetriminoType::S,
            PieceType::ZType => TetriminoType::Z,
            PieceType::TType => TetriminoType::T,
        }
    }
}

/// The model of a [`Piece`]: its kind and its four cells as mathematical points.
pub struct PieceView {
    pub kind: PieceType,
    pub cells: Seq<Pos>,
}

/// Every cell of `cells` moved by `offset`.
pub open spec fn translate(cells: Seq<Pos>, offset: Pos) -> Seq<Pos> {
    cells.map_values(|c: Pos| pos_add(c, offset))
}

/// The cells expressed relative to the first one (the pivot).
pub open spec fn relative_to_first(cells: Seq<Pos>) -> Seq<Pos> {
    translate(cells, Pos { x: -cells[0].x, y: -cells[0].y })
}

/// A quarter turn clockwise about the origin: `(dx, dy) -> (dy, -dx)`.
pub open spec fn rot_cw(p: Pos) -> Pos {
    Pos { x: p.y, y: -p.x }
}

/// A quarter turn counterclockwise about the origin: `(dx, dy) -> (-dy, dx)`.
pub open spec fn rot_ccw(p: Pos) -> Pos {
    Pos { x: -p.y, y: p.x }
}

/// The cells turned clockwise about the pivot, then moved by `shift`.
pub open spec fn turned_cw(cells: Seq<Pos>, shift: Pos) -> Seq<Pos> {
    translate(relative_to_first(cells).map_values(|c: Pos| rot_cw(c)), pos_add(cells[0], shift))
}

/// The cells turned counterclockwise about the pivot, then moved by `shift`.
pub open spec fn turned_ccw(cells: Seq<Pos>, shift: Pos) -> Seq<Pos> {
    translate(relative_to_first(cells).map_values(|c: Pos| rot_ccw(c)), pos_add(cells[0], shift))
}

/// The correction applied after a clockwise turn of the I piece, which has its
/// pivot at an end rather than at its centre.
pub open spec fn i_cw_offset(o: Orientation) -> Pos {
    match o {
        Orientation::HorizontalDown => Pos { x: -2, y: -1 },
        Orientation::VerticalLeft => Pos { x: -1, y: 2 },
        Orientation::HorizontalUp => Pos { x: 2, y: 1 },
        Orientation::VerticalRight => Pos { x: 1, y: -2 },
    }
}

/// The correction after a counterclockwise turn: the clockwise one turned clockwise.
pub open spec fn i_ccw_offset(o: Orientation) -> Pos {
    rot_cw(i_cw_offset(o))
}

pub open spec fn zero_pos() -> Pos {
    Pos { x: 0, y: 0 }
}

/// A piece after a clockwise rotation.
pub open spec fn cw_view(p: PieceView) -> PieceView {
    match p.kind {
        PieceType::IType(o) => PieceView {
            kind: PieceType::IType(o.next_cw()),
            cells: turned_cw(p.cells, i_cw_offset(o)),
        },
        PieceType::OType => p,
        _ => PieceView { kind: p.kind, cells: turned_cw(p.cells, zero_pos()) },
    }
}

/// A piece after a counterclockwise rotation.
pub open spec fn ccw_view(p: PieceView) -> PieceView {
    match p.kind {
        PieceType::IType(o) => PieceView {
            kind: PieceType::IType(o.next_ccw()),
            cells: turned_ccw(p.cells, i_ccw_offset(o)),
        },
        PieceType::OType => p,
        _ => PieceView { kind: p.kind, cells: turned_ccw(p.cells, zero_pos()) },
    }
}

/// A piece moved by `offset`, its kind kept.
pub open spec fn shifted(p: PieceView, offset: Pos) -> PieceView {
    PieceView { kind: p.kind, cells: translate(p.cells, offset) }
}

/// True when every point of `cells` can be stored as a [`Coord`].
pub open spec fn cells_fit(cells: Seq<Pos>) -> bool {
    forall|i: int| 0 <= i < cells.len() ==> pos_fits(#[trigger] cells[i])
}

/// Bound on coordinates under which a rotation cannot overflow.
pub const COORD_LIMIT: i32 = 0x2000_0000;

/// True when every coordinate of `cells` lies within `bound` of the origin.
pub open spec fn cells_bounded(cells: Seq<Pos>, bound: int) -> bool {
    forall|i: int|
        0 <= i < cells.len() ==> -bound <= (#[trigger] cells[i]).x <= bound && -bound
            <= cells[i].y <= bound
}

/// True when every coordinate of `cells` lies within `COORD_LIMIT` of the origin.
pub open spec fn cells_within_limits(cells: Seq<Pos>) -> bool {
    cells_bounded(cells, COORD_LIMIT as int)
}

/// The four cells of an array as points.
pub open spec fn cells_of(coords: [Coord; 4]) -> Seq<Pos> {
    coords@.map_values(|c: Coord| c@)
}

/// Takes all the coordinates for a piece and adds an offset to them.
pub fn add_offset(coords: &[Coord; 4], offset: Coord) -> (r: [Coord; 4])
    requires
        cells_fit(translate(cells_of(*coords), offset@)),
    ensures
        cells_of(r) == translate(cells_of(*coords), offset@),
{
    let mut new_pos: [Coord; 4] = [Coord { x: 0, y: 0 };4];
    let mut i: usize = 0;
    while i < 4
        invariant
            i <= 4,
            cells_fit(translate(cells_of(*coords), offset@)),
            forall|j: int| 0 <= j < i ==> new_pos[j]@ == pos_add(coords[j]@, offset@),
        decreases 4 - i,
    {
        assert(pos_fits(translate(cells_of(*coords), offset@)[i as int]));
        new_pos[i] = coords[i].add(offset);
        i = i + 1;
    }
    assert(cells_of(new_pos) =~= translate(cells_of(*coords), offset@));
    new_pos
}

/// Returns the coordinates relative to the first one (the pivot).
pub fn make_relative(coords: &[Coord; 4]) -> (r: [Coord; 4])
    requires
        coords[0].x > i32::MIN,
        coords[0].y > i32::MIN,
        cells_fit(relative_to_first(cells_of(*coords))),
    ensures
        cells_of(r) == relative_to_first(cells_of(*coords)),
{
    let center_point = coords[0];
    add_offset(coords, Coord { x: -center_point.x, y: -center_point.y })
}

fn i_cw_offset_coord(o: Orientation) -> (r: Coord)
    ensures
        r@ == i_cw_offset(o),
{
    match o {
        Orientation::HorizontalDown => Coord { x: -2, y: -1 },
        Orientation::VerticalLeft => Coord { x: -1, y: 2 },
        Orientation::HorizontalUp => Coord { x: 2, y: 1 },
        Orientation::VerticalRight => Coord { x: 1, y: -2 },
    }
}

/// A tetris piece: its kind and the positions of its four cells.
/// `position[0]` is the pivot (for the I piece, one of its ends).
#[derive(Debug, Copy, Clone, PartialEq, Eq)]
pub struct Piece {
    pub piece_type: PieceType,
    /// The coordinates of the individual tetriminoes
    pub position: [Coord; 4],
}

impl View for Piece {
    type V = PieceView;

    open spec fn view(&self) -> PieceView {
        PieceView { kind: self.piece_type, cells: cells_of(self.position) }
    }
}

/// The offsets of the cells from the pivot, each turned by a quarter.
fn rotated_relative(relative_coords: &[Coord; 4], clockwise: bool) -> (r: [Coord; 4])
    requires
        cells_bounded(cells_of(*relative_coords), 2 * COORD_LIMIT),
    ensures
        clockwise ==> cells_of(r) == cells_of(*relative_coords).map_values(|c: Pos| rot_cw(c)),
        !clockwise ==> cells_of(r) == cells_of(*relative_coords).map_values(|c: Pos| rot_ccw(c)),
        cells_bounded(cells_of(r), 2 * COORD_LIMIT),
{
    let mut out: [Coord; 4] = [Coord { x: 0, y: 0 };4];
    let mut i: usize = 0;
    while i < 4
        invariant
            i <= 4,
            cells_bounded(cells_of(*relative_coords), 2 * COORD_LIMIT),
            forall|j: int|
                0 <= j < i ==> (#[trigger] out[j])@ == (if clockwise {
                    rot_cw(relative_coords[j]@)
                } else {
                    rot_ccw(relative_coords[j]@)
                }),
        decreases 4 - i,
    {
        let c = relative_coords[i];
        assert(-2 * COORD_LIMIT <= cells_of(*relative_coords)[i as int].x <= 2 * COORD_LIMIT);
        out[i] = if clockwise {
            Coord { x: c.y, y: -c.x }
        } else {
            Coord { x: -c.y, y: c.x }
        };
        i = i + 1;
    }
    if clockwise {
        assert(cells_of(out) =~= cells_of(*relative_coords).map_values(|c: Pos| rot_cw(c)));
    } else {
        assert(cells_of(out) =~= cells_of(*relative_coords).map_values(|c: Pos| rot_ccw(c)));
    }
    assert forall|j: int| 0 <= j < 4 implies -2 * COORD_LIMIT <= (#[trigger] cells_of(out)[j]).x
        <= 2 * COORD_LIMIT && -2 * COORD_LIMIT <= cells_of(out)[j].y <= 2 * COORD_LIMIT by {
        assert(-2 * COORD_LIMIT <= cells_of(*relative_coords)[j].x <= 2 * COORD_LIMIT);
    }
    out
}

impl Piece {
    /// The piece moved left by one column.
    pub fn move_left(&self) -> (r: Piece)
        requires
            cells_fit(translate(self@.cells, pt(-1, 0))),
        ensures
            r@ == shifted(self@, pt(-1, 0)),
    {
        let offset = Coord { x: -1, y: 0 };
        Piece { piece_type: self.piece_type, position: add_offset(&self.position, offset) }
    }

    /// The piece moved right by one column.
    pub fn move_right(&self) -> (r: Piece)
        requires
            cells_fit(translate(self@.cells, pt(1, 0))),
        ensures
            r@ == shifted(self@, pt(1, 0)),
    {
        let offset = Coord { x: 1, y: 0 };
        Piece { piece_type: self.piece_type, position: add_offset(&self.position, offset) }
    }

    /// The piece moved down by `displacement` rows.
    pub fn apply_gravity(&self, displacement: u32) -> (r: Piece)
        requires
            displacement <= i32::MAX,
            cells_fit(translate(self@.cells, pt(0, -displacement))),
        ensures
            r@ == shifted(self@, pt(0, -displacement)),
    {
        let offset = Coord { x: 0, y: -(displacement as i32) };
        Piece { piece_type: self.piece_type, position: add_offset(&self.position, offset) }
    }

    /// The piece rotated clockwise by a quarter turn.
    ///
    /// The O piece is returned unchanged; the I piece is moved by a correction
    /// that depends on its orientation, which advances by one step.
    pub fn cw_rot(&self) -> (r: Piece)
        requires
            cells_within_limits(self@.cells),
        ensures
            r@ == cw_view(self@),
    {
        self.rotated(true)
    }

    /// The piece rotated counterclockwise by a quarter turn.
    ///
    /// The O piece is returned unchanged; the I piece is moved by a correction
    /// that depends on its orientation, which goes back by one step.
    pub fn ccw_rot(&self) -> (r: Piece)
        requires
            cells_within_limits(self@.cells),
        ensures
            r@ == ccw_view(self@),
    {
        self.rotated(false)
    }

    // The idea for rotating is:
    // 1. make all the cells relative to the pivot,
    // 2. turn them a quarter about it,
    // 3. move them back by the pivot, plus the correction of the I piece.
    fn rotated(&self, clockwise: bool) -> (r: Piece)
        requires
            cells_within_limits(self@.cells),
        ensures
            clockwise ==> r@ == cw_view(self@),
            !clockwise ==> r@ == ccw_view(self@),
    {
        if let PieceType::OType = self.piece_type {
            return *self;
        }
        let center_coord = self.position[0];
        assert forall|j: int| 0 <= j < 4 implies pos_fits(
            #[trigger] relative_to_first(self@.cells)[j],
        ) by {
            assert(-COORD_LIMIT <= self@.cells[j].x <= COORD_LIMIT);
        }
        let relative_coords = make_relative(&self.position);
        assert forall|j: int| 0 <= j < 4 implies -2 * COORD_LIMIT <= (
        #[trigger] cells_of(relative_coords)[j]).x <= 2 * COORD_LIMIT && -2 * COORD_LIMIT
            <= cells_of(relative_coords)[j].y <= 2 * COORD_LIMIT by {
            assert(-COORD_LIMIT <= self@.cells[j].x <= COORD_LIMIT);
            assert(-COORD_LIMIT <= self@.cells[j].y <= COORD_LIMIT);
        }
        let rel_rotated_coords = rotated_relative(&relative_coords, clockwise);
        let (piece_type, shift) = match self.piece_type {
            PieceType::IType(orientation) => {
                let cw_offset = i_cw_offset_coord(orientation);
                if clockwise {
                    let next = match orientation {
                        Orientation::HorizontalDown => Orientation::VerticalLeft,
                        Orientation::VerticalLeft => Orientation::HorizontalUp,
                        Orientation::HorizontalUp => Orientation::VerticalRight,
                        Orientation::VerticalRight => Orientation::HorizontalDown,
                    };
                    (PieceType::IType(next), cw_offset)
                } else {
                    let next = match orientation {
                        Orientation::HorizontalDown => Orientation::VerticalRight,
                        Orientation::VerticalLeft => Orientation::HorizontalDown,
                        Orientation::HorizontalUp => Orientation::VerticalLeft,
                        Orientation::VerticalRight => Orientation::HorizontalUp,
                    };
                    // the counterclockwise correction is the clockwise one turned clockwise
                    (PieceType::IType(next), Coord { x: cw_offset.y, y: -cw_offset.x })
                }
            },
            _ => (self.piece_type, Coord { x: 0, y: 0 }),
        };
        let new_position = add_offset(&rel_rotated_coords, center_coord.add(shift));
        Piece { piece_type, position: new_position }
    }
}

pub open spec fn pt(x: int, y: int) -> Pos {
    Pos { x, y }
}

/// The spawn pose of the `k`-th kind, in the order I, O, J, L, S, Z, T.
/// All kinds spawn on rows 20 and 21 of the 10-wide board.
pub open spec fn spawn_view(k: int) -> PieceView {
    if k == 0 {
        PieceView {
            kind: PieceType::IType(Orientation::HorizontalDown),
            cells: seq![pt(6, 20), pt(5, 20), pt(4, 20), pt(3, 20)],
        }
    } else if k == 1 {
        PieceView { kind: PieceType::OType, cells: seq![pt(4, 20), pt(4, 21), pt(5, 20), pt(5, 21)] }
    } else if k == 2 {
        PieceView { kind: PieceType::JType, cells: seq![pt(4, 20), pt(3, 20), pt(3, 21), pt(5, 20)] }
    } else if k == 3 {
        PieceView { kind: PieceType::LType, cells: seq![pt(4, 20), pt(3, 20), pt(5, 20), pt(5, 21)] }
    } else if k == 4 {
        PieceView { kind: PieceType::SType, cells: seq![pt(4, 20), pt(3, 20), pt(4, 21), pt(5, 21)] }
    } else if k == 5 {
        PieceView { kind: PieceType::ZType, cells: seq![pt(4, 20), pt(3, 21), pt(4, 21), pt(5, 20)] }
    } else {
        PieceView { kind: PieceType::TType, cells: seq![pt(4, 20), pt(3, 20), pt(4, 21), pt(5, 20)] }
    }
}

fn c(x: i32, y: i32) -> (r: Coord)
    ensures
        r@ == pt(x as int, y as int),
{
    Coord { x, y }
}

/// The seven pieces at their spawn poses, in the order I, O, J, L, S, Z, T.
pub fn piece_types() -> (r: [Piece; 7])
    ensures
        forall|k: int| 0 <= k < 7 ==> (#[trigger] r[k])@ == spawn_view(k),
{
    // [3][2][1][0]
    let i = Piece {
        piece_type: PieceType::IType(Orientation::HorizontalDown),
        position: [c(6, 20), c(5, 20), c(4, 20), c(3, 20)],
    };
    // [1][3]
    // [0][2]
    let o = Piece { piece_type: PieceType::OType, position: [c(4, 20), c(4, 21), c(5, 20), c(5, 21)] };
    // [2]
    // [1][0][3]
    let j = Piece { piece_type: PieceType::JType, position: [c(4, 20), c(3, 20), c(3, 21), c(5, 20)] };
    //       [3]
    // [1][0][2]
    let l = Piece { piece_type: PieceType::LType, position: [c(4, 20), c(3, 20), c(5, 20), c(5, 21)] };
    //    [2][3]
    // [1][0]
    let s = Piece { piece_type: PieceType::SType, position: [c(4, 20), c(3, 20), c(4, 21), c(5, 21)] };
    // [1][2]
    //    [0][3]
    let z = Piece { piece_type: PieceType::ZType, position: [c(4, 20), c(3, 21), c(4, 21), c(5, 20)] };
    //    [3]
    // [1][0][2]
    let t = Piece { piece_type: PieceType::TType, position: [c(4, 20), c(3, 20), c(4, 21), c(5, 20)] };
    let r = [i, o, j, l, s, z, t];
    assert(cells_of(i.position) =~= spawn_view(0).cells);
    assert(cells_of(o.position) =~= spawn_view(1).cells);
    assert(cells_of(j.position) =~= spawn_view(2).cells);
    assert(cells_of(l.position) =~= spawn_view(3).cells);
    assert(cells_of(s.position) =~= spawn_view(4).cells);
    assert(cells_of(z.position) =~= spawn_view(5).cells);
    assert(cells_of(t.position) =~= spawn_view(6).cells);
    r
}

proof fn lemma_turned_cw_at(cells: Seq<Pos>, shift: Pos)
    ensures
        turned_cw(cells, shift).len() == cells.len(),
        forall|i: int|
            0 <= i < cells.len() ==> #[trigger] turned_cw(cells, shift)[i] == pt(
                cells[0].x + shift.x + (cells[i].y - cells[0].y),
                cells[0].y + shift.y - (cells[i].x - cells[0].x),
            ),
{
}

proof fn lemma_turned_ccw_at(cells: Seq<Pos>, shift: Pos)
    ensures
        turned_ccw(cells, shift).len() == cells.len(),
        forall|i: int|
            0 <= i < cells.len() ==> #[trigger] turned_ccw(cells, shift)[i] == pt(
                cells[0].x + shift.x - (cells[i].y - cells[0].y),
                cells[0].y + shift.y + (cells[i].x - cells[0].x),
            ),
{
}

/// Four clockwise turns with corrections that sum to zero restore the cells.
proof fn lemma_four_cw_turns(cells: Seq<Pos>, s1: Pos, s2: Pos, s3: Pos, s4: Pos)
    requires
        s1.x + s2.x + s3.x + s4.x == 0,
        s1.y + s2.y + s3.y + s4.y == 0,
    ensures
        turned_cw(turned_cw(turned_cw(turned_cw(cells, s1), s2), s3), s4) == cells,
{
    let c1 = turned_cw(cells, s1);
    let c2 = turned_cw(c1, s2);
    let c3 = turned_cw(c2, s3);
    let c4 = turned_cw(c3, s4);
    lemma_turned_cw_at(cells, s1);
    lemma_turned_cw_at(c1, s2);
    lemma_turned_cw_at(c2, s3);
    lemma_turned_cw_at(c3, s4);
    assert(c4 =~= cells);
}

/// Four counterclockwise turns with corrections that sum to zero restore the cells.
proof fn lemma_four_ccw_turns(cells: Seq<Pos>, s1: Pos, s2: Pos, s3: Pos, s4: Pos)
    requires
        s1.x + s2.x + s3.x + s4.x == 0,
        s1.y + s2.y + s3.y + s4.y == 0,
    ensures
        turned_ccw(turned_ccw(turned_ccw(turned_ccw(cells, s1), s2), s3), s4) == cells,
{
    let c1 = turned_ccw(cells, s1);
    let c2 = turned_ccw(c1, s2);
    let c3 = turned_ccw(c2, s3);
    let c4 = turned_ccw(c3, s4);
    lemma_turned_ccw_at(cells, s1);
    lemma_turned_ccw_at(c1, s2);
    lemma_turned_ccw_at(c2, s3);
    lemma_turned_ccw_at(c3, s4);
    assert(c4 =~= cells);
}

/// Rotating any piece clockwise four times gives back exactly its cells and its
/// kind (for the I piece, its orientation too).
pub proof fn lemma_cw_rot_four_times(p: PieceView)
    ensures
        cw_view(cw_view(cw_view(cw_view(p)))) == p,
{
    match p.kind {
        PieceType::IType(o) => {
            lemma_four_cw_turns(
                p.cells,
                i_cw_offset(o),
                i_cw_offset(o.next_cw()),
                i_cw_offset(o.next_cw().next_cw()),
                i_cw_offset(o.next_cw().next_cw().next_cw()),
            );
        },
        PieceType::OType => {},
        _ => {
            lemma_four_cw_turns(p.cells, zero_pos(), zero_pos(), zero_pos(), zero_pos());
        },
    }
}

/// Rotating any piece counterclockwise four times gives back exactly its cells
/// and its kind (for the I piece, its orientation too).
pub proof fn lemma_ccw_rot_four_times(p: PieceView)
    ensures
        ccw_view(ccw_view(ccw_view(ccw_view(p)))) == p,
{
    match p.kind {
        PieceType::IType(o) => {
            lemma_four_ccw_turns(
                p.cells,
                i_ccw_offset(o),
                i_ccw_offset(o.next_ccw()),
                i_ccw_offset(o.next_ccw().next_ccw()),
                i_ccw_offset(o.next_ccw().next_ccw().next_ccw()),
            );
        },
        PieceType::OType => {},
        _ => {
            lemma_four_ccw_turns(p.cells, zero_pos(), zero_pos(), zero_pos(), zero_pos());
        },
    }
}

/// Every spawn pose comes back to itself after four clockwise turns, and after
/// four counterclockwise turns.
pub proof fn lemma_spawn_rotation_closure(k: int)
    requires
        0 <= k < 7,
    ensures
        cw_view(cw_view(cw_view(cw_view(spawn_view(k))))) == spawn_view(k),
        ccw_view(ccw_view(ccw_view(ccw_view(spawn_view(k))))) == spawn_view(k),
{
    lemma_cw_rot_four_times(spawn_view(k));
    lemma_ccw_rot_four_times(spawn_view(k));
}

/// A clockwise turn followed by a counterclockwise one, or the other way
/// round, gives back exactly the piece.
pub proof fn lemma_rotation_reversible(p: PieceView)
    ensures
        ccw_view(cw_view(p)) == p,
        cw_view(ccw_view(p)) == p,
{
    let (s1, s2, t1, t2) = match p.kind {
        PieceType::IType(o) => (
            i_cw_offset(o),
            i_ccw_offset(o.next_cw()),
            i_ccw_offset(o),
            i_cw_offset(o.next_ccw()),
        ),
        _ => (zero_pos(), zero_pos(), zero_pos(), zero_pos()),
    };
    if p.kind != PieceType::OType {
        let c1 = turned_cw(p.cells, s1);
        lemma_turned_cw_at(p.cells, s1);
        lemma_turned_ccw_at(c1, s2);
        assert(turned_ccw(c1, s2) =~= p.cells);
        let d1 = turned_ccw(p.cells, t1);
        lemma_turned_ccw_at(p.cells, t1);
        lemma_turned_cw_at(d1, t2);
        assert(turned_cw(d1, t2) =~= p.cells);
    }
}

/// Rotating the O piece, either way, leaves it unchanged.
pub proof fn lemma_o_rotation_is_identity(p: PieceView)
    requires
        p.kind == PieceType::OType,
    ensures
        cw_view(p) == p,
        ccw_view(p) == p,
{
}

/// From HorizontalDown, clockwise turns visit VerticalLeft, HorizontalUp,
/// VerticalRight and HorizontalDown in that order; counterclockwise turns visit
/// the same orientations in reverse.
pub proof fn lemma_i_orientation_cycle(p: PieceView)
    requires
        p.kind == PieceType::IType(Orientation::HorizontalDown),
    ensures
        cw_view(p).kind == PieceType::IType(Orientation::VerticalLeft),
        cw_view(cw_view(p)).kind == PieceType::IType(Orientation::HorizontalUp),
        cw_view(cw_view(cw_view(p))).kind == PieceType::IType(Orientation::VerticalRight),
        cw_view(cw_view(cw_view(cw_view(p)))).kind == PieceType::IType(Orientation::HorizontalDown),
        ccw_view(p).kind == PieceType::IType(Orientation::VerticalRight),
        ccw_view(ccw_view(p)).kind == PieceType::IType(Orientation::HorizontalUp),
        ccw_view(ccw_view(ccw_view(p))).kind == PieceType::IType(Orientation::VerticalLeft),
        ccw_view(ccw_view(ccw_view(ccw_view(p)))).kind == PieceType::IType(
            Orientation::HorizontalDown,
        ),
{
}

} // verus!
