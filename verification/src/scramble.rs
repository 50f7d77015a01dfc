use vstd::prelude::*;
use crate::puzzle::Puzzle;

verus! {

/// Values with a neutral element.
pub trait Identity: Sized {
    fn identity() -> Self;
}

/// Values that can be undone.
pub trait Invertable: Sized {
    fn inverse(&self) -> Self;
}

/// Rotations that conjugate moves: given move `M`, computes `S' M S`.
pub trait Conjugate<M>: Invertable {
    fn conjugate(&self, m: &M) -> M;
}

/// A whole-puzzle rotation.
pub trait Rotation: Sized + Identity + Eq + Invertable + Conjugate<Self> {

}

/// A sequence of moves followed by a rotation, both applied left to right.
pub struct Scramble<P: Puzzle> {
    pub moves: Vec<P::CoreMove>,
    pub rotation: P::Rotation,
}

} // verus!
