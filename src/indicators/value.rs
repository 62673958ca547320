use super::Indicator;
use crate::money::Monetary;
use vstd::prelude::*;

verus! {

/// The raw observation, passed through unchanged.
pub struct Value;

impl Value {
    pub fn initialize(_value: Monetary) -> (r: Value)
        ensures
            r == Value,
    {
        Value
    }
}

impl Indicator for Value {
    type Output = Monetary;

    open spec fn wf(&self) -> bool {
        true
    }

    open spec fn next(&self, value: Monetary, after: &Self, out: Monetary) -> bool {
        out == value
    }

    fn evaluate(&mut self, value: Monetary) -> (out: Monetary) {
        value
    }
}

} // verus!
