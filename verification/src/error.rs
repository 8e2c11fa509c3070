use vstd::prelude::*;

verus! {

/// Why an evaluation could not produce a value.
#[derive(Clone, Copy, Debug, PartialEq, Eq, Structural)]
pub enum Error {
    /// A term sequence gave no first term where one is needed.
    EmptySequence,
    /// The number type reports a radix other than two or ten.
    UnsupportedRadix,
    /// The number type reports a digit count from which no scale factor or
    /// machine epsilon can be formed in 32 bits.
    PrecisionOutOfRange,
}

} // verus!
