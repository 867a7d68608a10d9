//! A scene: a collection of renderable objects and its transform state.
//!
//! This is the registry-facing sibling of [`crate::object`]: a scene owns
//! the entity tree published for one file, the asset ids published with it,
//! and the three transform components of its root entity. Components are
//! single-precision bit patterns. Each mutation returns a
//! [`SceneTransformUpdate`]; the embedding program recomputes
//! `Isometry(position, rotation) * NonuniformScale(scale)` from it — here
//! the stored quaternion is normalized into a unit rotation first — and
//! patches the matrix onto the first root part.

use vstd::prelude::*;

verus! {

/// A level of the published entity tree. Some formats put every entity at
/// one level; others have a hierarchy of children.
#[derive(Debug)]
pub struct SceneObject {
    pub parts: Vec<usize>,
    pub children: Vec<SceneObject>,
}

/// An instruction to recompute the scene's transform, normalizing the
/// rotation quaternion, and republish it on the root entity.
#[derive(Debug, Clone, Copy)]
pub struct SceneTransformUpdate {
    /// Entity to patch: the first root part, when there is one.
    pub entity: Option<usize>,
    pub position: [u32; 3],
    pub rotation: [u32; 4],
    pub scale: [u32; 3],
}

/// A published scene.
#[derive(Debug)]
pub struct Scene {
    pub position: [u32; 3],
    pub rotation: [u32; 4],
    pub scale: [u32; 3],
    pub published: Vec<u128>,
    pub root: SceneObject,
}

impl Scene {
    /// The update this scene's current transform state calls for.
    pub open spec fn spec_update(self) -> SceneTransformUpdate {
        SceneTransformUpdate {
            entity: if self.root.parts@.len() > 0 {
                Some(self.root.parts@[0])
            } else {
                None
            },
            position: self.position,
            rotation: self.rotation,
            scale: self.scale,
        }
    }

    /// A fresh scene at the identity transform, owning the given assets.
    pub fn new(root: SceneObject, assets: Vec<u128>) -> (s: Scene)
        ensures
            s.position@ == seq![0u32, 0u32, 0u32],
            s.rotation@ == crate::object::identity_rotation(),
            s.scale@ == seq![crate::bits::ONE_BITS, crate::bits::ONE_BITS, crate::bits::ONE_BITS],
            s.published == assets,
            s.root == root,
    {
        let s = Scene {
            position: [0u32, 0u32, 0u32],
            rotation: [0u32, 0u32, 0u32, crate::bits::ONE_BITS],
            scale: [crate::bits::ONE_BITS, crate::bits::ONE_BITS, crate::bits::ONE_BITS],
            published: assets,
            root,
        };
        proof {
            assert(s.position@ =~= seq![0u32, 0u32, 0u32]);
            assert(s.rotation@ =~= crate::object::identity_rotation());
            assert(s.scale@ =~= seq![
                crate::bits::ONE_BITS,
                crate::bits::ONE_BITS,
                crate::bits::ONE_BITS,
            ]);
        }
        s
    }

    /// Store a new position and call for a republish.
    pub fn set_position(&mut self, p: [u32; 3]) -> (u: SceneTransformUpdate)
        ensures
            final(self).position == p,
            final(self).rotation == old(self).rotation,
            final(self).scale == old(self).scale,
            final(self).published == old(self).published,
            final(self).root == old(self).root,
            u == final(self).spec_update(),
    {
        self.position = p;
        self.update_transform()
    }

    /// Store a new rotation and call for a republish.
    pub fn set_rotation(&mut self, q: [u32; 4]) -> (u: SceneTransformUpdate)
        ensures
            final(self).rotation == q,
            final(self).position == old(self).position,
            final(self).scale == old(self).scale,
            final(self).published == old(self).published,
            final(self).root == old(self).root,
            u == final(self).spec_update(),
    {
        self.rotation = q;
        self.update_transform()
    }

    /// Store a new scale and call for a republish.
    pub fn set_scale(&mut self, s: [u32; 3]) -> (u: SceneTransformUpdate)
        ensures
            final(self).scale == s,
            final(self).position == old(self).position,
            final(self).rotation == old(self).rotation,
            final(self).published == old(self).published,
            final(self).root == old(self).root,
            u == final(self).spec_update(),
    {
        self.scale = s;
        self.update_transform()
    }

    /// The update for the current transform state.
    pub fn update_transform(&mut self) -> (u: SceneTransformUpdate)
        ensures
            *final(self) == *old(self),
            u == old(self).spec_update(),
    {
        let entity: Option<usize> = if self.root.parts.len() > 0 {
            Some(self.root.parts[0])
        } else {
            None
        };
        SceneTransformUpdate {
            entity,
            position: self.position,
            rotation: self.rotation,
            scale: self.scale,
        }
    }

    /// Tear the scene down: hand back every asset id published for it, so
    /// the caller can unpublish each one; the scene keeps none.
    pub fn take_published(&mut self) -> (r: Vec<u128>)
        ensures
            r == old(self).published,
            final(self).published@.len() == 0,
            final(self).position == old(self).position,
            final(self).rotation == old(self).rotation,
            final(self).scale == old(self).scale,
            final(self).root == old(self).root,
    {
        let mut r: Vec<u128> = Vec::new();
        core::mem::swap(&mut r, &mut self.published);
        r
    }
}

} // verus!
