use vstd::prelude::*;

verus! {

/// The two kinds of failure that typed-array construction raises.
#[derive(Debug, Clone, Copy, PartialEq, Eq, Structural)]
pub enum ErrorKind {
    /// A value of the wrong type: no construction target, mixed content types,
    /// a detached buffer, or a value that cannot be converted.
    TypeError,
    /// A length or an offset that is negative, too large, misaligned or not exact.
    RangeError,
}

} // verus!
