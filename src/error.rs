//! The error of the binary parsers: the input ended too soon.

use vstd::prelude::*;

verus! {

/// An error that carries no detail.
#[derive(Clone, Copy, Debug, PartialEq, Eq, Structural)]
pub struct Unspecified;

impl Unspecified {
    /// A description of the error.
    pub fn description(&self) -> (r: &'static str)
        ensures
            r@ == "corrode::error::Unspecified"@,
    {
        "corrode::error::Unspecified"
    }
}

} // verus!
