//! The type with no values, which closes lists of alternatives and marks code that cannot be
//! reached.
use vstd::prelude::*;

verus! {

/// A type without values: its invariant can never hold, so no value of it is ever made, and
/// code that holds one cannot be reached.
pub struct Never {
    none: (),
}

impl Never {
    /// No value satisfies it.
    #[verifier::type_invariant]
    pub open spec fn inv(self) -> bool {
        false
    }

    /// Any value at all may stand where a `Never` is held, since none ever is.
    #[allow(unconditional_recursion)]
    pub fn absurd<T>(self) -> T
        decreases 0nat,
    {
        proof {
            use_type_invariant(&self);
        }
        self.absurd()
    }
}

} // verus!
