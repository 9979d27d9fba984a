use vstd::prelude::*;

verus! {

/// The bit pattern encodes a finite binary32 value: its exponent field is not
/// all ones, so it is neither an infinity nor a NaN.
pub open spec fn is_finite_bits(b: u32) -> bool {
    (b >> 23) & 0xFF != 0xFF
}

/// The bit pattern encodes a finite binary32 value strictly greater than
/// zero: finite, sign bit clear, and not the zero encoding.
pub open spec fn is_positive_finite_bits(b: u32) -> bool {
    is_finite_bits(b) && b >> 31 == 0 && b != 0
}

/// Whether the bit pattern encodes a finite binary32 value.
pub fn finite_bits(b: u32) -> (r: bool)
    ensures
        r == is_finite_bits(b),
{
    (b >> 23) & 0xFF != 0xFF
}

/// Whether the bit pattern encodes a finite binary32 value strictly greater
/// than zero.
pub fn positive_finite_bits(b: u32) -> (r: bool)
    ensures
        r == is_positive_finite_bits(b),
{
    (b >> 23) & 0xFF != 0xFF && b >> 31 == 0 && b != 0
}

/// Every bit pattern in the buffer encodes a finite binary32 value.
pub open spec fn all_finite_bits(s: Seq<u32>) -> bool {
    forall|i: int| 0 <= i < s.len() ==> is_finite_bits(#[trigger] s[i])
}

/// Whether every bit pattern in the buffer encodes a finite binary32 value.
pub fn all_finite(s: &Vec<u32>) -> (r: bool)
    ensures
        r == all_finite_bits(s@),
{
    let mut i: usize = 0;
    while i < s.len()
        invariant
            0 <= i <= s@.len(),
            forall|j: int| 0 <= j < i ==> is_finite_bits(#[trigger] s@[j]),
        decreases s@.len() - i,
    {
        if !finite_bits(s[i]) {
            return false;
        }
        i = i + 1;
    }
    true
}

} // verus!
