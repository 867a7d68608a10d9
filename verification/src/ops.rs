//! Floating-point and packing work delegated to the embedding program.
//!
//! The crate carries single-precision values as `u32` bit patterns and never
//! computes with them. The handful of numeric operations the import pipeline
//! needs — parsing a decimal token, one division, quantization, the quad
//! concavity test — and the opaque mesh-packing routine are reached through
//! this trait. The embedding program implements it with real `f32`
//! arithmetic; the contracts of the pipeline treat every result as data, so
//! they hold whatever an implementation returns.

use crate::intermediate::VertexData;
use vstd::prelude::*;

verus! {

/// Numeric operations on single-precision bit patterns, plus the binary
/// mesh-packing routine, all supplied by the embedding program.
pub trait ScalarOps {
    /// The bit pattern of the `f32` a decimal token denotes, or the pattern
    /// of positive zero when the token does not parse as one.
    fn bits_of_token(&mut self, t: &[u8]) -> u32;

    /// The bit pattern of the `f32` a decimal token denotes, or nothing
    /// when the token does not parse as one.
    fn try_bits_of_token(&mut self, t: &[u8]) -> Option<u32>;

    /// The bit pattern of the quotient of the two values.
    fn div_bits(&mut self, a: u32, b: u32) -> u32;

    /// The value scaled by 65535 and cast to `u16`, saturating.
    fn quantize_u16(&mut self, b: u32) -> u16;

    /// The value scaled by 255 and cast to `u8`, saturating.
    fn quantize_u8(&mut self, b: u32) -> u8;

    /// The bit pattern of the nearest `f32` to the given integer.
    fn int_to_bits(&mut self, v: i32) -> u32;

    /// Whether the corner `a` of the planar quad `a b c d` is a reflex
    /// corner: the angle between `d - a` and `c - a` plus the angle between
    /// `b - a` and `c - a` exceeds pi. Each point is a position as three
    /// bit patterns.
    fn is_reflex(&mut self, a: [u32; 3], b: [u32; 3], c: [u32; 3], d: [u32; 3]) -> bool;

    /// The packed wire form of a vertex buffer plus its triangle list. The
    /// byte length of the result decides whether a mesh is sent inline or
    /// hosted.
    fn pack_mesh(&mut self, verts: &Vec<VertexData>, faces: &Vec<[u32; 3]>) -> Vec<u8>;
}

} // verus!
