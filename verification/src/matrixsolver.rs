//! Solving a linear system with some of its unknowns left out.
//!
//! An unknown that is elided is taken out of the system before it is solved,
//! and reads as zero afterwards. What is here is the bookkeeping between the
//! unknowns of the full system and those of the reduced one.

use vstd::prelude::*;

verus! {

/// The number of unknowns below `upto` that are kept, that is, not among `elided`.
pub open spec fn kept_below(elided: Seq<usize>, upto: int) -> nat
    decreases upto,
{
    if upto <= 0 {
        0
    } else if elided.contains((upto - 1) as usize) {
        kept_below(elided, upto - 1)
    } else {
        kept_below(elided, upto - 1) + 1
    }
}

/// The number of kept unknowns below a position grows with the position.
pub proof fn lemma_kept_below_grows(elided: Seq<usize>, lower: int, upper: int)
    requires
        lower <= upper,
    ensures
        kept_below(elided, lower) <= kept_below(elided, upper),
        kept_below(elided, upper) <= kept_below(elided, lower) + (upper - lower),
    decreases upper - lower,
{
    if lower < upper {
        lemma_kept_below_grows(elided, lower, upper - 1);
    }
}

/// Whether `unknown` is among `elided`.
pub fn is_elided(elided: &Vec<usize>, unknown: usize) -> (found: bool)
    ensures
        found == elided@.contains(unknown),
{
    let mut position: usize = 0;
    while position < elided.len()
        invariant
            position <= elided@.len(),
            forall|k: int| 0 <= k < position ==> elided@[k] != unknown,
        decreases elided@.len() - position,
    {
        if elided[position] == unknown {
            return true;
        }
        position += 1;
    }
    false
}

/// The values of all `size` unknowns, given the solution of the reduced
/// system: an elided unknown is `zero`, and a kept one has the value that the
/// reduced solution holds for it, where the kept unknowns stand in their
/// order. Values of the reduced solution beyond the kept unknowns are ignored.
pub fn restore_elided<S: Copy>(reduced: &Vec<S>, elided: &Vec<usize>, size: usize, zero: S) -> (full:
    Vec<S>)
    requires
        kept_below(elided@, size as int) <= reduced@.len(),
    ensures
        full@.len() == size,
        forall|i: int|
            0 <= i < size ==> #[trigger] full@[i] == (if elided@.contains(i as usize) {
                zero
            } else {
                reduced@[kept_below(elided@, i) as int]
            }),
{
    let mut full: Vec<S> = Vec::new();
    let mut kept: usize = 0;
    let mut unknown: usize = 0;
    while unknown < size
        invariant
            unknown <= size,
            kept == kept_below(elided@, unknown as int),
            kept_below(elided@, size as int) <= reduced@.len(),
            full@.len() == unknown,
            forall|i: int|
                0 <= i < unknown ==> #[trigger] full@[i] == (if elided@.contains(i as usize) {
                    zero
                } else {
                    reduced@[kept_below(elided@, i) as int]
                }),
        decreases size - unknown,
    {
        if is_elided(elided, unknown) {
            full.push(zero);
        } else {
            proof {
                lemma_kept_below_grows(elided@, unknown as int + 1, size as int);
                assert(kept_below(elided@, unknown as int + 1) == kept + 1);
                assert(reduced.len() == reduced@.len());
            }
            full.push(reduced[kept]);
            kept += 1;
        }
        unknown += 1;
    }
    full
}

} // verus!
