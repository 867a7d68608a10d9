//! Published objects and their transform state.
//!
//! An [`ObjectRoot`] is the result of converting one intermediate scene: a
//! tree of entity indices plus the ids of the assets that were published
//! for it, together with the transform of the root entity. The transform
//! components are single-precision bit patterns; recomputing the actual
//! 4x4 matrix is floating-point work, so each mutation returns a
//! [`TransformUpdate`] that the embedding program turns into
//! `Translation(position) * Rotation(rotation) * NonuniformScale(scale)`
//! — the rotation taken from the stored quaternion exactly as supplied,
//! without renormalization — and patches onto the root entity.

use vstd::prelude::*;

verus! {

/// A tree of entities: the first part is the container entity of this
/// level, the remaining parts are its hidden mesh-bearing entities.
#[derive(Debug)]
pub struct Object {
    pub parts: Vec<usize>,
    pub children: Vec<Object>,
}

/// An instruction to recompute the root entity's transform from these
/// components and republish it.
#[derive(Debug, Clone, Copy)]
pub struct TransformUpdate {
    /// Entity to patch: the first root part, when there is one.
    pub entity: Option<usize>,
    pub position: [u32; 3],
    pub rotation: [u32; 4],
    pub scale: [u32; 3],
}

/// The identity quaternion's bit patterns (w last, as `[x, y, z, w]`).
pub open spec fn identity_rotation() -> Seq<u32> {
    seq![0u32, 0u32, 0u32, crate::bits::ONE_BITS]
}

/// A published scene root: its transform components, the assets published
/// for it, and its entity tree.
#[derive(Debug)]
pub struct ObjectRoot {
    pub pos: [u32; 3],
    pub rot: [u32; 4],
    pub scale: [u32; 3],
    pub published: Vec<u128>,
    pub root: Object,
}

impl ObjectRoot {
    /// The update this root's current transform state calls for.
    pub open spec fn spec_update(self) -> TransformUpdate {
        TransformUpdate {
            entity: if self.root.parts@.len() > 0 {
                Some(self.root.parts@[0])
            } else {
                None
            },
            position: self.pos,
            rotation: self.rot,
            scale: self.scale,
        }
    }

    /// A fresh root at the identity transform.
    pub fn new(root: Object, assets: Vec<u128>) -> (r: ObjectRoot)
        ensures
            r.pos@ == seq![0u32, 0u32, 0u32],
            r.rot@ == identity_rotation(),
            r.scale@ == seq![crate::bits::ONE_BITS, crate::bits::ONE_BITS, crate::bits::ONE_BITS],
            r.published == assets,
            r.root == root,
    {
        let r = ObjectRoot {
            pos: [0u32, 0u32, 0u32],
            rot: [0u32, 0u32, 0u32, crate::bits::ONE_BITS],
            scale: [crate::bits::ONE_BITS, crate::bits::ONE_BITS, crate::bits::ONE_BITS],
            published: assets,
            root,
        };
        proof {
            assert(r.pos@ =~= seq![0u32, 0u32, 0u32]);
            assert(r.rot@ =~= identity_rotation());
            assert(r.scale@ =~= seq![
                crate::bits::ONE_BITS,
                crate::bits::ONE_BITS,
                crate::bits::ONE_BITS,
            ]);
        }
        r
    }

    /// Store a new position and call for a republish.
    pub fn set_position(&mut self, p: [u32; 3]) -> (u: TransformUpdate)
        ensures
            final(self).pos == p,
            final(self).rot == old(self).rot,
            final(self).scale == old(self).scale,
            final(self).published == old(self).published,
            final(self).root == old(self).root,
            u == final(self).spec_update(),
    {
        self.pos = p;
        self.update_transform()
    }

    /// Store a new rotation and call for a republish.
    pub fn set_rotation(&mut self, q: [u32; 4]) -> (u: TransformUpdate)
        ensures
            final(self).rot == q,
            final(self).pos == old(self).pos,
            final(self).scale == old(self).scale,
            final(self).published == old(self).published,
            final(self).root == old(self).root,
            u == final(self).spec_update(),
    {
        self.rot = q;
        self.update_transform()
    }

    /// Store a new scale and call for a republish.
    pub fn set_scale(&mut self, s: [u32; 3]) -> (u: TransformUpdate)
        ensures
            final(self).scale == s,
            final(self).pos == old(self).pos,
            final(self).rot == old(self).rot,
            final(self).published == old(self).published,
            final(self).root == old(self).root,
            u == final(self).spec_update(),
    {
        self.scale = s;
        self.update_transform()
    }

    /// The update for the current transform state.
    pub fn update_transform(&mut self) -> (u: TransformUpdate)
        ensures
            *final(self) == *old(self),
            u == old(self).spec_update(),
    {
        let entity: Option<usize> = if self.root.parts.len() > 0 {
            Some(self.root.parts[0])
        } else {
            None
        };
        TransformUpdate { entity, position: self.pos, rotation: self.rot, scale: self.scale }
    }

    /// Tear the root down: hand back every asset id published for it, so
    /// the caller can unpublish each one; the root keeps none.
    pub fn take_published(&mut self) -> (r: Vec<u128>)
        ensures
            r == old(self).published,
            final(self).published@.len() == 0,
            final(self).pos == old(self).pos,
            final(self).rot == old(self).rot,
            final(self).scale == old(self).scale,
            final(self).root == old(self).root,
    {
        let mut r: Vec<u128> = Vec::new();
        core::mem::swap(&mut r, &mut self.published);
        r
    }
}

} // verus!
