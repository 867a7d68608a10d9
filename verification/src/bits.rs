//! IEEE 754 single-precision bit patterns.
//!
//! The crate never computes with floating-point values; it carries each
//! scalar as the `u32` bit pattern of the corresponding `f32`. The one
//! numeric question the logic itself must answer — is a component a NaN —
//! is a question about the bit pattern alone, and is answered here.

use vstd::prelude::*;

verus! {

/// Bit pattern of 1.0 in single precision.
pub const ONE_BITS: u32 = 0x3f80_0000;

/// Bit pattern of a NaN: exponent bits all ones and a nonzero mantissa.
pub open spec fn is_nan_bits(b: u32) -> bool {
    b & 0x7f80_0000 == 0x7f80_0000 && b & 0x007f_ffff != 0
}

/// The pattern with a NaN replaced by positive zero, others kept.
pub open spec fn spec_sanitized(b: u32) -> u32 {
    if is_nan_bits(b) {
        0u32
    } else {
        b
    }
}

/// Replace the bit pattern of a NaN component by the all-zero pattern
/// (positive zero); leave every other pattern unchanged.
pub fn sanitize_component(b: u32) -> (r: u32)
    ensures
        r == spec_sanitized(b),
{
    if b & 0x7f80_0000 == 0x7f80_0000 && b & 0x007f_ffff != 0 {
        0u32
    } else {
        b
    }
}

/// Sanitize each component of a three-component vector.
pub fn sanitize_vec3(v: [u32; 3]) -> (r: [u32; 3])
    ensures
        r@ == v@.map_values(|b: u32| spec_sanitized(b)),
{
    let r = [sanitize_component(v[0]), sanitize_component(v[1]), sanitize_component(v[2])];
    proof {
        assert(r@ =~= v@.map_values(|b: u32| spec_sanitized(b)));
    }
    r
}

/// Sanitize each component of a four-component vector (a quaternion).
pub fn sanitize_quat(v: [u32; 4]) -> (r: [u32; 4])
    ensures
        r@ == v@.map_values(|b: u32| spec_sanitized(b)),
{
    let r = [
        sanitize_component(v[0]),
        sanitize_component(v[1]),
        sanitize_component(v[2]),
        sanitize_component(v[3]),
    ];
    proof {
        assert(r@ =~= v@.map_values(|b: u32| spec_sanitized(b)));
    }
    r
}

} // verus!
