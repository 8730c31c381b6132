use vstd::prelude::*;

verus! {

/// A real-valued quantity (a coordinate, a length, a measurement) carried
/// as the bit pattern of an IEEE-754 binary64 number.
///
/// The library only stores, moves and compares such values; arithmetic on
/// them happens in the callers that resolve geometry. Comparing two of
/// them with `==` follows IEEE-754: a NaN equals nothing, not even itself,
/// and `+0.0` equals `-0.0`.
#[derive(Debug, Clone, Copy)]
pub struct Real(pub u64);

/// The bits of a binary64 number without its sign bit.
pub open spec fn magnitude_bits(bits: u64) -> u64 {
    bits & 0x7fff_ffff_ffff_ffffu64
}

/// Whether a binary64 bit pattern encodes a NaN: every exponent bit set
/// and a nonzero fraction.
pub open spec fn is_nan_bits(bits: u64) -> bool {
    magnitude_bits(bits) > 0x7ff0_0000_0000_0000u64
}

/// IEEE-754 equality of two binary64 numbers given by their bits: neither
/// is a NaN, and they are the same pattern or both are zeros.
pub open spec fn ieee_equal(a: u64, b: u64) -> bool {
    &&& !is_nan_bits(a)
    &&& !is_nan_bits(b)
    &&& (a == b || (magnitude_bits(a) == 0 && magnitude_bits(b) == 0))
}

impl Real {
    /// Wraps a binary64 bit pattern.
    pub fn from_bits(bits: u64) -> (r: Real)
        ensures
            r.0 == bits,
    {
        Real(bits)
    }

    /// The binary64 bit pattern.
    pub fn to_bits(self) -> (r: u64)
        ensures
            r == self.0,
    {
        self.0
    }
}

impl PartialEq for Real {
    fn eq(&self, other: &Real) -> (r: bool) {
        let a = self.0;
        let b = other.0;
        let ma = a & 0x7fff_ffff_ffff_ffffu64;
        let mb = b & 0x7fff_ffff_ffff_ffffu64;
        ma <= 0x7ff0_0000_0000_0000u64 && mb <= 0x7ff0_0000_0000_0000u64 && (a == b || (ma == 0
            && mb == 0))
    }
}

impl vstd::std_specs::cmp::PartialEqSpecImpl for Real {
    open spec fn obeys_eq_spec() -> bool {
        true
    }

    open spec fn eq_spec(&self, other: &Real) -> bool {
        ieee_equal(self.0, other.0)
    }
}

} // verus!
