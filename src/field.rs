use vstd::prelude::*;

verus! {

/// An element of the scalar field, held as an integer representative in four
/// little-endian 64-bit limbs. No modulus is fixed here: the library only
/// copies elements and writes the identities zero and one, and leaves
/// arithmetic and reduction to the field that the caller works in.
#[derive(Clone, Copy, Debug, PartialEq, Eq)]
pub struct Scalar {
    pub limbs: [u64; 4],
}

/// The additive identity.
pub open spec fn spec_zero() -> Scalar {
    Scalar { limbs: [0u64, 0u64, 0u64, 0u64] }
}

/// The multiplicative identity.
pub open spec fn spec_one() -> Scalar {
    Scalar { limbs: [1u64, 0u64, 0u64, 0u64] }
}

/// The element whose canonical representative is the small integer `v`.
pub open spec fn spec_from_u64(v: u64) -> Scalar {
    Scalar { limbs: [v, 0u64, 0u64, 0u64] }
}

impl Scalar {
    /// The additive identity.
    pub fn zero() -> (r: Scalar)
        ensures
            r == spec_zero(),
    {
        Scalar { limbs: [0, 0, 0, 0] }
    }

    /// The multiplicative identity.
    pub fn one() -> (r: Scalar)
        ensures
            r == spec_one(),
    {
        Scalar { limbs: [1, 0, 0, 0] }
    }

    /// The element represented by the small integer `v`.
    pub fn from_u64(v: u64) -> (r: Scalar)
        ensures
            r == spec_from_u64(v),
    {
        Scalar { limbs: [v, 0, 0, 0] }
    }
}

} // verus!
