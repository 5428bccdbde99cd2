use vstd::prelude::*;

verus! {

/// What a board cell holds, as the renderer draws it.
#[derive(Copy, Clone, Debug, PartialEq, Eq, Structural)]
pub enum TetriminoType {
    EmptySpace,
    I,
    O,
    J,
    L,
    S,
    Z,
    T,
}

impl Default for TetriminoType {
    fn default() -> (r: Self)
        ensures
            r == TetriminoType::EmptySpace,
    {
        TetriminoType::EmptySpace
    }
}

/// A drawing backend. `x` counts columns from the left, `y` counts rows from
/// the top of the playfield.
pub trait GameRenderer {
    fn draw_block(&mut self, x: u8, y: u8, piece_type: TetriminoType)
        requires
            x < 10,
            y < 22,
    ;

    fn draw_score(&mut self, score: u32);

    fn draw_level(&mut self, level: usize);
}

} // verus!
