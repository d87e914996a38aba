//! The child unit: one stored value and one read operation.

use vstd::prelude::*;

verus! {

/// A child unit. Its whole state is the value it was constructed with.
#[derive(Clone, Copy, Debug, PartialEq, Eq)]
pub struct Subcontract {
    value: u32,
}

impl Subcontract {
    /// The value this unit holds.
    pub closed spec fn view(&self) -> u32 {
        self.value
    }

    /// Constructs a unit whose state is `init_value`.
    pub fn new(init_value: u32) -> (unit: Self)
        ensures
            unit@ == init_value,
    {
        Self { value: init_value }
    }

    /// Reads the stored value. The unit is left as it was.
    pub fn get(&self) -> (value: u32)
        ensures
            value == self@,
    {
        self.value
    }
}

} // verus!
