use vstd::prelude::*;

verus! {

/// A point of the plane with mathematical coordinates, the model of a [`Coord`].
pub struct Pos {
    pub x: int,
    pub y: int,
}

/// True when both components of `p` can be stored in an `i32`.
pub open spec fn pos_fits(p: Pos) -> bool {
    i32::MIN <= p.x <= i32::MAX && i32::MIN <= p.y <= i32::MAX
}

/// The component-wise sum of two points.
pub open spec fn pos_add(a: Pos, b: Pos) -> Pos {
    Pos { x: a.x + b.x, y: a.y + b.y }
}

/// The component-wise difference of two points.
pub open spec fn pos_sub(a: Pos, b: Pos) -> Pos {
    Pos { x: a.x - b.x, y: a.y - b.y }
}

/// A cell position on (or near) the board; `y` grows upward, row 0 is the bottom.
#[derive(Default, Debug, Copy, Clone, PartialEq, Eq, Structural)]
pub struct Coord {
    pub x: i32,
    pub y: i32,
}

impl View for Coord {
    type V = Pos;

    open spec fn view(&self) -> Pos {
        Pos { x: self.x as int, y: self.y as int }
    }
}

impl Coord {
    /// Component-wise addition.
    pub fn add(self, rhs: Coord) -> (r: Coord)
        requires
            pos_fits(pos_add(self@, rhs@)),
        ensures
            r@ == pos_add(self@, rhs@),
    {
        Coord { x: self.x + rhs.x, y: self.y + rhs.y }
    }

    /// Component-wise subtraction.
    pub fn sub(self, rhs: Coord) -> (r: Coord)
        requires
            pos_fits(pos_sub(self@, rhs@)),
        ensures
            r@ == pos_sub(self@, rhs@),
    {
        Coord { x: self.x - rhs.x, y: self.y - rhs.y }
    }
}

} // verus!
