//! The parametric conversion formulas of MDF version 3.
use vstd::prelude::*;

verus! {

#[derive(Debug, Clone, Copy, PartialEq, Eq, Structural)]
pub enum Parameters {
    Linear,
    Poly,
    Exponetial,
    Log,
    Rational,
}

impl Parameters {
    /// Writes nothing: this structure is not serialised.
    pub fn write() {
    }

    /// Always the linear formula, with its ten bytes counted.
    pub fn read(_data: &[u8], _little_endian: bool) -> (r: (Parameters, usize))
        ensures
            r.0 == Parameters::Linear,
            r.1 == 10,
    {
        (Parameters::Linear, 10)
    }
}

} // verus!
