use vstd::prelude::*;
use crate::scramble::{Conjugate, Rotation, Scramble};

verus! {

/// A twisty puzzle: its moves, its states and its whole-puzzle rotations.
pub trait Puzzle: Sized {
    type CoreMove;

    type ExtMove;

    type State: Eq;

    type Rotation: Rotation + Conjugate<Self::CoreMove> + Conjugate<Self::ExtMove>;

    /// The solved state.
    spec fn solved_state() -> Self::State;

    fn get_solved_state() -> (r: Self::State)
        ensures
            r == Self::solved_state(),
    ;
}

/// A puzzle with a solver.
pub trait Solvable: Puzzle {
    /// Applying `scramble` to `from` gives `to`.
    spec fn leads_to(from: Self::State, to: Self::State, scramble: Scramble<Self>) -> bool;

    /// Returns the first scramble at or below `move_target`, the shortest one found before
    /// `time_target`, or the first one found after `time_target`.
    fn solve(
        state: Self::State,
        move_target: usize,
        time_target: core::time::Duration,
        threads: usize,
    ) -> (r: Scramble<Self>)
        ensures
            Self::leads_to(state, Self::solved_state(), r),
    {
        Self::solve_into(state, Self::get_solved_state(), move_target, time_target, threads)
    }

    /// Returns the first scramble at or below `move_target`, the shortest one found before
    /// `time_target`, or the first one found after `time_target`.
    fn solve_into(
        from: Self::State,
        to: Self::State,
        move_target: usize,
        time_target: core::time::Duration,
        threads: usize,
    ) -> (r: Scramble<Self>)
        ensures
            Self::leads_to(from, to, r),
    ;

    fn obfuscate(
        scramble: Scramble<Self>,
        move_target: usize,
        time_target: core::time::Duration,
        threads: usize,
    ) -> Scramble<Self>;
}

/// A puzzle whose random states can be drawn and reached from the solved state.
pub trait RandomStateScrambleable: Solvable {
    /// A state that moves can reach from the solved state.
    spec fn reachable(state: Self::State) -> bool;

    /// A reachable state drawn at random.
    fn get_random_state() -> (r: Self::State)
        ensures
            Self::reachable(r),
    ;

    /// A scramble from the solved state to a reachable state drawn at random.
    fn random_state_scramble(
        move_target: usize,
        time_target: core::time::Duration,
        threads: usize,
    ) -> (r: Scramble<Self>)
        ensures
            exists|s: Self::State| Self::reachable(s) && #[trigger] Self::leads_to(Self::solved_state(), s, r),
    {
        Self::solve_into(
            Self::get_solved_state(),
            Self::get_random_state(),
            move_target,
            time_target,
            threads,
        )
    }
}

/// A puzzle with an optimal solver.
pub trait OptimallySolvable: Solvable {
    /// A shortest scramble that takes `state` to the solved state.
    fn solve_optimal(state: Self::State, move_target: usize, threads: usize) -> (r: Scramble<Self>)
        ensures
            Self::leads_to(state, Self::solved_state(), r),
            forall|s: Scramble<Self>| #[trigger] Self::leads_to(state, Self::solved_state(), s) ==> r.moves@.len() <= s.moves@.len(),
    {
        Self::solve_optimal_into(state, Self::get_solved_state(), move_target, threads)
    }

    /// A shortest scramble that takes `from` to `to`.
    fn solve_optimal_into(
        from: Self::State,
        to: Self::State,
        move_target: usize,
        threads: usize,
    ) -> (r: Scramble<Self>)
        ensures
            Self::leads_to(from, to, r),
            forall|s: Scramble<Self>| #[trigger] Self::leads_to(from, to, s) ==> r.moves@.len() <= s.moves@.len(),
    ;
}

/// A puzzle with a fast solver.
pub trait QuicklySolvable: Solvable {
    fn solve_quick(state: Self::State) -> Scramble<Self>;

    fn solve_quick_into(from: Self::State, to: Self::State) -> Scramble<Self>;
}

/// A puzzle with official scrambles.
pub trait WCAPuzzle: Puzzle {
    fn official_scramble() -> Scramble<Self>;
}

} // verus!
