use vstd::prelude::*;

verus! {

/// A non-negative ratio stored exactly as a numerator/denominator pair.
/// The denominator may be zero; interpreting the ratio is the consumer's
/// concern, not this layer's.
#[derive(Clone, Copy, Debug, PartialEq, Eq, Structural)]
pub struct URational {
    pub numerator: u32,
    pub denominator: u32,
}

/// A signed ratio stored exactly as a numerator/denominator pair.
/// The denominator may be zero; interpreting the ratio is the consumer's
/// concern, not this layer's.
#[derive(Clone, Copy, Debug, PartialEq, Eq, Structural)]
pub struct IRational {
    pub numerator: i32,
    pub denominator: i32,
}

} // verus!
