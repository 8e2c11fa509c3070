use vstd::prelude::*;
use crate::error::Error;

verus! {

/// The precision-digit count that belongs to a radix and a digit count: the
/// digit count itself in base two, a fixed integer scaling of it in base ten,
/// and nothing for any other radix.
pub open spec fn precision_digits_of(radix: u32, digits: u32) -> Result<u32, Error> {
    if radix == 2 {
        Ok(digits)
    } else if radix == 10 {
        Ok((((digits as int + 1) / 1000) / 30) as u32)
    } else {
        Err(Error::UnsupportedRadix)
    }
}

/// What a number type says of its own representation.
pub trait Digits {
    spec fn radix_spec(&self) -> u32;

    spec fn digits_spec(&self) -> u32;

    /// The base of the representation.
    fn radix(&self) -> (r: u32)
        ensures
            r == self.radix_spec(),
    ;

    /// The number of digits the representation holds.
    fn digits(&self) -> (r: u32)
        ensures
            r == self.digits_spec(),
    ;

    /// The digit count as an exponent for convergence tolerances. Fails for
    /// every radix but two and ten.
    fn precision_digits(&self) -> (r: Result<u32, Error>)
        ensures
            r == precision_digits_of(self.radix_spec(), self.digits_spec()),
    {
        let radix: u32 = self.radix();
        let digits: u32 = self.digits();
        if radix == 2 {
            Ok(digits)
        } else if radix == 10 {
            let widened: u64 = digits as u64 + 1;
            Ok(((widened / 1000) / 30) as u32)
        } else {
            Err(Error::UnsupportedRadix)
        }
    }
}

} // verus!
