use vstd::prelude::*;

verus! {

/// A source of indices used to shuffle the bag of pieces once all of its
/// pieces have been used. Values are expected in `0..7`; the engine reduces
/// any other value modulo 7.
pub trait Rng {
    fn next(&mut self) -> usize;
}

} // verus!
