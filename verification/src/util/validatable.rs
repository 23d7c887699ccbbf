//! Values that can say whether they are in a valid state.

use vstd::prelude::*;

verus! {

/// A value with a notion of validity that can be tested.
pub trait Validatable {
    /// Tests whether the value is valid.
    fn is_valid(&self) -> bool;
}

/// Whether testing `element` may answer `verdict`.
pub open spec fn may_answer<T: Validatable>(element: T, verdict: bool) -> bool {
    call_ensures(T::is_valid, (&element,), verdict)
}

impl<T: Validatable> Validatable for Vec<T> {
    /// A vector is valid when each of its elements is: the elements are
    /// tested in order, up to the first that is not valid.
    fn is_valid(&self) -> (valid: bool)
        ensures
            valid ==> forall|i: int| 0 <= i < self@.len() ==> may_answer(#[trigger] self@[i], true),
            !valid ==> exists|i: int| 0 <= i < self@.len() && may_answer(#[trigger] self@[i], false),
    {
        let mut position: usize = 0;
        while position < self.len()
            invariant
                position <= self@.len(),
                forall|i: int| 0 <= i < position ==> may_answer(#[trigger] self@[i], true),
            decreases self@.len() - position,
        {
            if !self[position].is_valid() {
                assert(may_answer(self@[position as int], false));
                return false;
            }
            position += 1;
        }
        true
    }
}

} // verus!
