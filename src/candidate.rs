//! What both engines ask of a candidate solution: arithmetic on positions, and a
//! strict "better than" order on evaluations.
use vstd::prelude::*;

verus! {

/// Shared capabilities of a candidate solution.
///
/// `Pos` is a point of the search space: positions can be added, subtracted and
/// scaled by a `Scalar`. `Eval` is the quality of a position, greater being
/// better; `objective` is the evaluation function itself. `better` is a strict
/// order: two evaluations of which neither is better (equal ones, or a NaN
/// against anything) count as a tie.
pub trait Candidate: Sized {
    type Pos: Copy;

    type Eval: Copy;

    type Scalar: Copy;

    /// The evaluation of a position.
    spec fn objective(p: Self::Pos) -> Self::Eval;

    /// `a` is strictly better than `b`.
    spec fn better(a: Self::Eval, b: Self::Eval) -> bool;

    spec fn sum(a: Self::Pos, b: Self::Pos) -> Self::Pos;

    spec fn difference(a: Self::Pos, b: Self::Pos) -> Self::Pos;

    spec fn scaling(p: Self::Pos, k: Self::Scalar) -> Self::Pos;

    /// "Strictly better" is irreflexive: no evaluation is better than itself.
    proof fn lemma_better_irreflexive(e: Self::Eval)
        ensures
            !Self::better(e, e),
    ;

    /// Whether `a` is strictly better than `b`.
    fn exceeds(a: &Self::Eval, b: &Self::Eval) -> (r: bool)
        ensures
            r == Self::better(*a, *b),
    ;

    fn plus(a: Self::Pos, b: Self::Pos) -> (r: Self::Pos)
        ensures
            r == Self::sum(a, b),
    ;

    fn minus(a: Self::Pos, b: Self::Pos) -> (r: Self::Pos)
        ensures
            r == Self::difference(a, b),
    ;

    fn scale(p: Self::Pos, k: Self::Scalar) -> (r: Self::Pos)
        ensures
            r == Self::scaling(p, k),
    ;
}

} // verus!
