//! Publish 3D asset files to a scene-synchronization protocol.
//!
//! The crate is organized around three stages: geometry importers turn a
//! file's content into an [`intermediate::IntermediateScene`], the converter
//! in [`convert`] turns an intermediate scene into an ordered registration
//! plan for a protocol server, and [`platter_state`] owns the registry of
//! published scenes, grouped by source tag. [`dir_watcher`] holds the policy
//! that reacts to filesystem change notifications.
//!
//! Floating-point scalars are carried as their IEEE 754 bit patterns in
//! `u32` values throughout; the few places that must actually compute with
//! them (token parsing, quantization, the quad concavity test) are reached
//! through the [`ops::ScalarOps`] trait that the embedding program
//! implements.

use vstd::prelude::*;

pub mod arguments;
pub mod bits;
pub mod convert;
pub mod dir_watcher;
pub mod ids;
pub mod import;
pub mod import_gltf;
pub mod import_obj;
pub mod intermediate;
pub mod text;
pub mod methods;
pub mod object;
pub mod ops;
pub mod platter_state;
pub mod playground_state;
pub mod scene;
pub mod scene_import;

verus! {

/// Copy elements of `src` into the front of `dst`, leaving the tail of
/// `dst` unchanged when `src` is shorter than `dst`.
pub fn fill_array<T: Copy, const N: usize>(src: &Vec<T>, dst: &mut [T; N])
    ensures
        forall|i: int|
            0 <= i < N ==> final(dst)@[i] == if i < src@.len() {
                src@[i]
            } else {
                old(dst)@[i]
            },
{
    let mut i: usize = 0;
    while i < N && i < src.len()
        invariant
            i <= N,
            i <= src@.len(),
            forall|j: int| 0 <= j < i ==> dst@[j] == src@[j],
            forall|j: int| i <= j < N ==> dst@[j] == old(dst)@[j],
        decreases N - i,
    {
        dst[i] = src[i];
        i = i + 1;
    }
}

} // verus!
