//! Remote method handlers for the platter server.
//!
//! A remote invocation arrives with the entity it targets and the new
//! transform components as single-precision bit patterns. Resolution walks
//! invocation entity, reverse map, registry; a failure at any step becomes
//! an error result for the protocol layer to report, never a panic. Every
//! supplied component is sanitized first: a NaN turns into positive zero,
//! so hostile input cannot corrupt the published transform.

use crate::bits::{sanitize_quat, sanitize_vec3, spec_sanitized};
use crate::platter_state::{has_id, lookup_root, PlatterState};
use crate::scene::{Scene, SceneTransformUpdate};
use vstd::prelude::*;

verus! {

/// Why a remote invocation was rejected.
#[derive(Debug, Clone, Copy, PartialEq, Eq, Structural)]
pub enum MethodError {
    /// The invocation did not name an entity this method is bound to.
    MethodNotFound,
    /// The entity no longer resolves to a scene.
    InternalError,
}

/// Which transform component an invocation sets.
enum TransformChange {
    Position([u32; 3]),
    Rotation([u32; 4]),
    Scale([u32; 3]),
}

impl PlatterState {
    /// Apply one transform change to the scene rooted at `entity`.
    fn apply_change(&mut self, entity: Option<usize>, change: TransformChange) -> (r: Result<
        SceneTransformUpdate,
        MethodError,
    >)
        requires
            old(self).wf(),
        ensures
            final(self).wf(),
            final(self).init == old(self).init,
            final(self).next_item_id == old(self).next_item_id,
            final(self).source_map == old(self).source_map,
            final(self).root_to_item == old(self).root_to_item,
            entity is None ==> r == Err::<SceneTransformUpdate, MethodError>(
                MethodError::MethodNotFound,
            ) && *final(self) == *old(self),
            r is Err ==> *final(self) == *old(self),
            r is Ok <==> (entity matches Some(e) && match lookup_root(
                old(self).root_to_item@,
                e,
            ) {
                Some(id) => has_id(old(self).items@, id),
                None => false,
            }),
            r matches Ok(u) ==> exists|i: int|
                {
                    &&& 0 <= i < old(self).items@.len()
                    &&& final(self).items@ == old(self).items@.update(
                        i,
                        (
                            old(self).items@[i].0,
                            match change {
                                TransformChange::Position(p) => Scene {
                                    position: (#[trigger] final(self).items@[i]).1.position,
                                    ..old(self).items@[i].1
                                },
                                TransformChange::Rotation(q) => Scene {
                                    rotation: final(self).items@[i].1.rotation,
                                    ..old(self).items@[i].1
                                },
                                TransformChange::Scale(s) => Scene {
                                    scale: final(self).items@[i].1.scale,
                                    ..old(self).items@[i].1
                                },
                            },
                        ),
                    )
                    &&& match change {
                        TransformChange::Position(p) => final(self).items@[i].1.position@
                            == p@.map_values(|b: u32| spec_sanitized(b)),
                        TransformChange::Rotation(q) => final(self).items@[i].1.rotation@
                            == q@.map_values(|b: u32| spec_sanitized(b)),
                        TransformChange::Scale(s) => final(self).items@[i].1.scale@
                            == s@.map_values(|b: u32| spec_sanitized(b)),
                    }
                    &&& u == final(self).items@[i].1.spec_update()
                },
    {
        let ent = match entity {
            Some(e) => e,
            None => {
                return Err(MethodError::MethodNotFound);
            },
        };
        let id = match self.find_id(ent) {
            Some(id) => id,
            None => {
                return Err(MethodError::InternalError);
            },
        };
        let idx = match self.find_item(id) {
            Some(i) => i,
            None => {
                return Err(MethodError::InternalError);
            },
        };
        let ghost oi = self.items@;
        let mut sc = Scene {
            position: [0u32, 0u32, 0u32],
            rotation: [0u32, 0u32, 0u32, 0u32],
            scale: [0u32, 0u32, 0u32],
            published: Vec::new(),
            root: crate::scene::SceneObject { parts: Vec::new(), children: Vec::new() },
        };
        core::mem::swap(&mut sc, &mut self.items[idx].1);
        let u = match change {
            TransformChange::Position(p) => sc.set_position(sanitize_vec3(p)),
            TransformChange::Rotation(q) => sc.set_rotation(sanitize_quat(q)),
            TransformChange::Scale(s) => sc.set_scale(sanitize_vec3(s)),
        };
        core::mem::swap(&mut sc, &mut self.items[idx].1);
        proof {
            assert(self.items@ =~= oi.update(idx as int, self.items@[idx as int]));
            assert(self.items@[idx as int].0 == oi[idx as int].0);
            assert(self.items@[idx as int].1.published == oi[idx as int].1.published);
            // the registry invariant survives: ids and published assets are
            // those of the old registry
            assert forall|q: int|
                0 <= q < self.items@.len() implies (
            #[trigger] self.items@[q]).1.published@.no_duplicates() by {
                assert(self.items@[q].1.published == oi[q].1.published);
            }
            assert forall|q: int, w: int, a: int, b: int|
                0 <= q < self.items@.len() && 0 <= w < self.items@.len() && q != w && 0 <= a
                    < self.items@[q].1.published@.len() && 0 <= b
                    < self.items@[w].1.published@.len() implies #[trigger] self.items@[q].1.published@[a]
                != #[trigger] self.items@[w].1.published@[b] by {
                assert(self.items@[q].1.published == oi[q].1.published);
                assert(self.items@[w].1.published == oi[w].1.published);
            }
            assert forall|p: int, k: int|
                0 <= p < self.source_map@.len() && 0 <= k
                    < self.source_map@[p].scenes@.len() implies has_id(
                self.items@,
                #[trigger] self.source_map@[p].scenes@[k],
            ) by {
                let v = self.source_map@[p].scenes@[k];
                assert(has_id(oi, v));
                let w = choose|w: int| 0 <= w < oi.len() && (#[trigger] oi[w]).0 == v;
                assert(self.items@[w].0 == v);
            }
            assert(self.wf());
        }
        Ok(u)
    }

    /// Set the position of the scene rooted at the invocation's entity to
    /// the sanitized components.
    pub fn apply_set_position(&mut self, entity: Option<usize>, p: [u32; 3]) -> (r: Result<
        SceneTransformUpdate,
        MethodError,
    >)
        requires
            old(self).wf(),
        ensures
            final(self).wf(),
            entity is None ==> r == Err::<SceneTransformUpdate, MethodError>(
                MethodError::MethodNotFound,
            ),
            r is Err ==> *final(self) == *old(self),
            r is Ok <==> (entity matches Some(e) && match lookup_root(
                old(self).root_to_item@,
                e,
            ) {
                Some(id) => has_id(old(self).items@, id),
                None => false,
            }),
            r matches Ok(u) ==> u.position@ == p@.map_values(|b: u32| spec_sanitized(b))
                && exists|i: int|
                0 <= i < final(self).items@.len() && (#[trigger] final(self).items@[i]).1.position@
                    == p@.map_values(|b: u32| spec_sanitized(b)) && u == final(self).items@[i].1.spec_update(),
    {
        let r = self.apply_change(entity, TransformChange::Position(p));
        proof {
            if r is Ok {
                let i = choose|i: int|
                    {
                        &&& 0 <= i < old(self).items@.len()
                        &&& final(self).items@ == old(self).items@.update(
                            i,
                            (
                                old(self).items@[i].0,
                                Scene {
                                    position: (#[trigger] final(self).items@[i]).1.position,
                                    ..old(self).items@[i].1
                                },
                            ),
                        )
                        &&& final(self).items@[i].1.position@ == p@.map_values(
                            |b: u32| spec_sanitized(b),
                        )
                        &&& r->Ok_0 == final(self).items@[i].1.spec_update()
                    };
                assert(0 <= i < self.items@.len() && self.items@[i].1.position@ == p@.map_values(
                    |b: u32| spec_sanitized(b),
                ) && r->Ok_0 == self.items@[i].1.spec_update());
            }
        }
        r
    }

    /// Set the rotation of the scene rooted at the invocation's entity to
    /// the sanitized components.
    pub fn apply_set_rotation(&mut self, entity: Option<usize>, q: [u32; 4]) -> (r: Result<
        SceneTransformUpdate,
        MethodError,
    >)
        requires
            old(self).wf(),
        ensures
            final(self).wf(),
            entity is None ==> r == Err::<SceneTransformUpdate, MethodError>(
                MethodError::MethodNotFound,
            ),
            r is Err ==> *final(self) == *old(self),
            r is Ok <==> (entity matches Some(e) && match lookup_root(
                old(self).root_to_item@,
                e,
            ) {
                Some(id) => has_id(old(self).items@, id),
                None => false,
            }),
            r matches Ok(u) ==> u.rotation@ == q@.map_values(|b: u32| spec_sanitized(b))
                && exists|i: int|
                0 <= i < final(self).items@.len() && (#[trigger] final(self).items@[i]).1.rotation@
                    == q@.map_values(|b: u32| spec_sanitized(b)) && u == final(self).items@[i].1.spec_update(),
    {
        let r = self.apply_change(entity, TransformChange::Rotation(q));
        proof {
            if r is Ok {
                let i = choose|i: int|
                    {
                        &&& 0 <= i < old(self).items@.len()
                        &&& final(self).items@ == old(self).items@.update(
                            i,
                            (
                                old(self).items@[i].0,
                                Scene {
                                    rotation: (#[trigger] final(self).items@[i]).1.rotation,
                                    ..old(self).items@[i].1
                                },
                            ),
                        )
                        &&& final(self).items@[i].1.rotation@ == q@.map_values(
                            |b: u32| spec_sanitized(b),
                        )
                        &&& r->Ok_0 == final(self).items@[i].1.spec_update()
                    };
                assert(0 <= i < self.items@.len() && self.items@[i].1.rotation@ == q@.map_values(
                    |b: u32| spec_sanitized(b),
                ) && r->Ok_0 == self.items@[i].1.spec_update());
            }
        }
        r
    }

    /// Set the scale of the scene rooted at the invocation's entity to the
    /// sanitized components.
    pub fn apply_set_scale(&mut self, entity: Option<usize>, s: [u32; 3]) -> (r: Result<
        SceneTransformUpdate,
        MethodError,
    >)
        requires
            old(self).wf(),
        ensures
            final(self).wf(),
            entity is None ==> r == Err::<SceneTransformUpdate, MethodError>(
                MethodError::MethodNotFound,
            ),
            r is Err ==> *final(self) == *old(self),
            r is Ok <==> (entity matches Some(e) && match lookup_root(
                old(self).root_to_item@,
                e,
            ) {
                Some(id) => has_id(old(self).items@, id),
                None => false,
            }),
            r matches Ok(u) ==> u.scale@ == s@.map_values(|b: u32| spec_sanitized(b))
                && exists|i: int|
                0 <= i < final(self).items@.len() && (#[trigger] final(self).items@[i]).1.scale@
                    == s@.map_values(|b: u32| spec_sanitized(b)) && u == final(self).items@[i].1.spec_update(),
    {
        let r = self.apply_change(entity, TransformChange::Scale(s));
        proof {
            if r is Ok {
                let i = choose|i: int|
                    {
                        &&& 0 <= i < old(self).items@.len()
                        &&& final(self).items@ == old(self).items@.update(
                            i,
                            (
                                old(self).items@[i].0,
                                Scene {
                                    scale: (#[trigger] final(self).items@[i]).1.scale,
                                    ..old(self).items@[i].1
                                },
                            ),
                        )
                        &&& final(self).items@[i].1.scale@ == s@.map_values(
                            |b: u32| spec_sanitized(b),
                        )
                        &&& r->Ok_0 == final(self).items@[i].1.spec_update()
                    };
                assert(0 <= i < self.items@.len() && self.items@[i].1.scale@ == s@.map_values(
                    |b: u32| spec_sanitized(b),
                ) && r->Ok_0 == self.items@[i].1.spec_update());
            }
        }
        r
    }
}

} // verus!
