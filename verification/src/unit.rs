//! The code-unit abstraction: a fixed-width unit of a string's internal
//! encoding, comparable for equality. The search engine is written once over
//! this trait; the byte and 16-bit adapters below instantiate it for the two
//! platform encodings.

use vstd::prelude::*;

verus! {

/// A fixed-width code unit whose executable equality agrees with
/// mathematical equality.
pub trait CodeUnit: Copy {
    /// Compare two code units.
    fn eq_unit(self, other: Self) -> (r: bool)
        ensures
            r == (self == other),
    ;
}

impl CodeUnit for u8 {
    fn eq_unit(self, other: u8) -> (r: bool) {
        self == other
    }
}

impl CodeUnit for u16 {
    fn eq_unit(self, other: u16) -> (r: bool) {
        self == other
    }
}

} // verus!
