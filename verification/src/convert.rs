//! Convert an intermediate scene into an ordered registration plan.
//!
//! The protocol server and the HTTP asset store are external collaborators;
//! what the converter owns is the order and the content of the
//! registrations. It emits them as a [`ScenePlan`]: images first (each
//! hosted under a fresh asset id), then samplers, textures and materials,
//! then meshes — each packed buffer hosted when it exceeds the caller's
//! size limit and embedded inline otherwise — and finally one container
//! entity per node plus one hidden mesh-bearing entity per mesh index, in
//! depth-first order. Later steps refer to earlier ones by index. The
//! embedding program replays the plan against the real server.

use crate::ids;
use crate::intermediate::{
    IntermediateMat, IntermediateNode, IntermediateSampler, IntermediateScene, IntermediateTexture,
};
use crate::object::Object;
use crate::ops::ScalarOps;
use vstd::prelude::*;

verus! {

/// One image registration: the bytes, hosted under this asset id.
#[derive(Debug)]
pub struct ImagePlan {
    pub asset: u128,
    pub bytes: Vec<u8>,
}

/// Where a mesh's packed buffer goes.
#[derive(Debug)]
pub enum BufferPlacement {
    /// Sent inline with the registration.
    Inline(Vec<u8>),
    /// Hosted on the asset store under this id, referenced by URL.
    Hosted(u128, Vec<u8>),
}

/// One mesh registration: its packed buffer and its material index.
#[derive(Debug)]
pub struct MeshPlan {
    pub material: u32,
    pub buffer: BufferPlacement,
}

/// One entity registration. `parent` and `mesh` index earlier entity and
/// mesh registrations of the same plan.
#[derive(Debug)]
pub struct EntityPlan {
    pub name: Option<String>,
    pub parent: Option<usize>,
    pub mesh: Option<usize>,
    pub hidden: bool,
}

/// The full registration plan of one scene, in registration order.
#[derive(Debug)]
pub struct ScenePlan {
    pub images: Vec<ImagePlan>,
    pub samplers: Vec<IntermediateSampler>,
    pub textures: Vec<IntermediateTexture>,
    pub mats: Vec<IntermediateMat>,
    pub meshes: Vec<MeshPlan>,
    pub entities: Vec<EntityPlan>,
    pub published: Vec<u128>,
    pub root: Object,
}

/// How many entities a node tree registers: one per node and one per mesh
/// index attached to a node.
pub open spec fn node_entity_count(n: IntermediateNode) -> nat
    decreases n,
{
    1 + n.meshes@.len() + nodes_entity_count(n.children@)
}

/// How many entities a forest registers.
pub open spec fn nodes_entity_count(cs: Seq<IntermediateNode>) -> nat
    decreases cs,
{
    if cs.len() == 0 {
        0
    } else {
        node_entity_count(cs[0]) + nodes_entity_count(cs.drop_first())
    }
}

/// The entity registrations of one node placed at position `base` of the
/// plan: the container entity itself, one hidden entity per attached mesh
/// index, then the children's registrations.
pub open spec fn node_entities(n: IntermediateNode, parent: Option<usize>, base: int) -> Seq<
    EntityPlan,
>
    decreases n,
{
    seq![EntityPlan { name: Some(n.name), parent, mesh: None, hidden: false }] + Seq::new(
        n.meshes@.len(),
        |i: int|
            EntityPlan {
                name: None,
                parent: Some(base as usize),
                mesh: Some(n.meshes@[i] as usize),
                hidden: true,
            },
    ) + nodes_entities(n.children@, base, base + 1 + n.meshes@.len())
}

/// The entity registrations of a forest whose parent entity stands at
/// `parent_idx`, the first child's registrations starting at `base`.
pub open spec fn nodes_entities(cs: Seq<IntermediateNode>, parent_idx: int, base: int) -> Seq<
    EntityPlan,
>
    decreases cs,
{
    if cs.len() == 0 {
        Seq::empty()
    } else {
        node_entities(cs[0], Some(parent_idx as usize), base) + nodes_entities(
            cs.drop_first(),
            parent_idx,
            base + node_entity_count(cs[0]),
        )
    }
}

/// A node registers as many entities as [`node_entity_count`] says.
pub proof fn lemma_node_entities_len(n: IntermediateNode, parent: Option<usize>, base: int)
    ensures
        node_entities(n, parent, base).len() == node_entity_count(n),
    decreases n,
{
    lemma_nodes_entities_len(n.children@, base, base + 1 + n.meshes@.len());
}

/// A forest registers as many entities as [`nodes_entity_count`] says.
pub proof fn lemma_nodes_entities_len(cs: Seq<IntermediateNode>, parent_idx: int, base: int)
    ensures
        nodes_entities(cs, parent_idx, base).len() == nodes_entity_count(cs),
    decreases cs,
{
    if cs.len() != 0 {
        lemma_node_entities_len(cs[0], Some(parent_idx as usize), base);
        lemma_nodes_entities_len(cs.drop_first(), parent_idx, base + node_entity_count(cs[0]));
    }
}

/// Registering one more node at the end of a forest appends its
/// registrations after the forest's.
pub proof fn lemma_nodes_entities_snoc(cs: Seq<IntermediateNode>, parent_idx: int, base: int)
    requires
        cs.len() > 0,
    ensures
        nodes_entities(cs, parent_idx, base) =~= nodes_entities(cs.drop_last(), parent_idx, base)
            + node_entities(
            cs.last(),
            Some(parent_idx as usize),
            base + nodes_entity_count(cs.drop_last()),
        ),
        nodes_entity_count(cs) == nodes_entity_count(cs.drop_last()) + node_entity_count(
            cs.last(),
        ),
    decreases cs.len(),
{
    let p = Some(parent_idx as usize);
    if cs.len() == 1 {
        assert(cs.drop_last() =~= Seq::<IntermediateNode>::empty());
        assert(cs.drop_first() =~= Seq::<IntermediateNode>::empty());
        assert(cs[0] == cs.last());
        assert(nodes_entity_count(cs.drop_first()) == 0);
        assert(nodes_entity_count(cs.drop_last()) == 0);
        assert(nodes_entities(
            cs.drop_first(),
            parent_idx,
            base + node_entity_count(cs[0]),
        ) =~= Seq::<EntityPlan>::empty());
        assert(nodes_entities(cs.drop_last(), parent_idx, base) =~= Seq::<EntityPlan>::empty());
        assert(nodes_entities(cs, parent_idx, base) =~= nodes_entities(
            cs.drop_last(),
            parent_idx,
            base,
        ) + node_entities(cs.last(), p, base + nodes_entity_count(cs.drop_last())));
    } else {
        let c0 = node_entity_count(cs[0]) as int;
        let t = cs.drop_first();
        let d = cs.drop_last();
        lemma_nodes_entities_snoc(t, parent_idx, base + c0);
        assert(t.drop_last() =~= d.drop_first());
        assert(t.last() == cs.last());
        assert(d[0] == cs[0]);
        assert(d.len() > 0);
        // counts
        assert(nodes_entity_count(d) == node_entity_count(d[0]) + nodes_entity_count(
            d.drop_first(),
        ));
        assert(nodes_entity_count(t) == nodes_entity_count(t.drop_last()) + node_entity_count(
            t.last(),
        ));
        assert(nodes_entity_count(cs) == c0 + nodes_entity_count(t));
        // sequences
        let head = node_entities(cs[0], p, base);
        let mid = nodes_entities(t.drop_last(), parent_idx, base + c0);
        let tail = node_entities(cs.last(), p, base + c0 + nodes_entity_count(t.drop_last()));
        assert(nodes_entities(t, parent_idx, base + c0) =~= mid + tail);
        assert(nodes_entities(cs, parent_idx, base) =~= head + (mid + tail));
        assert(nodes_entities(d, parent_idx, base) =~= head + mid);
        assert(head + (mid + tail) =~= (head + mid) + tail);
        assert(base + c0 + nodes_entity_count(t.drop_last()) == base + nodes_entity_count(d));
    }
}

/// Register the entities of one node tree: the container entity, the
/// hidden mesh entities, then the children, depth first.
fn emit_node(n: IntermediateNode, parent: Option<usize>, out: &mut Vec<EntityPlan>) -> (o: Object)
    ensures
        final(out)@ == old(out)@ + node_entities(n, parent, old(out)@.len() as int),
        o.parts@.len() == 1 + n.meshes@.len(),
        forall|i: int| 0 <= i < o.parts@.len() ==> o.parts@[i] == old(out)@.len() + i,
        o.children@.len() == n.children@.len(),
    decreases n,
{
    let base = out.len();
    let IntermediateNode { name, meshes, children } = n;
    let mut children = children;
    let ghost cs = children@;
    let ghost head = EntityPlan { name: Some(n.name), parent, mesh: None, hidden: false };
    let ghost mesh_part = Seq::new(
        n.meshes@.len(),
        |i: int|
            EntityPlan {
                name: None,
                parent: Some(base as usize),
                mesh: Some(n.meshes@[i] as usize),
                hidden: true,
            },
    );
    out.push(EntityPlan { name: Some(name), parent, mesh: None, hidden: false });
    proof {
        assert(out@ =~= old(out)@ + seq![head]);
    }
    let mut parts: Vec<usize> = Vec::new();
    parts.push(base);
    let mut i: usize = 0;
    while i < meshes.len()
        invariant
            i <= meshes@.len(),
            meshes@ == n.meshes@,
            base == old(out)@.len(),
            out@ == old(out)@ + seq![head] + mesh_part.subrange(0, i as int),
            mesh_part == Seq::new(
                n.meshes@.len(),
                |q: int|
                    EntityPlan {
                        name: None,
                        parent: Some(base as usize),
                        mesh: Some(n.meshes@[q] as usize),
                        hidden: true,
                    },
            ),
            parts@.len() == i + 1,
            forall|q: int| 0 <= q < parts@.len() ==> parts@[q] == base + q,
        decreases meshes@.len() - i,
    {
        out.push(EntityPlan { name: None, parent: Some(base), mesh: Some(meshes[i] as usize), hidden: true });
        proof {
            assert(mesh_part.subrange(0, i + 1) =~= mesh_part.subrange(0, i as int).push(
                mesh_part[i as int],
            ));
            assert(out@ =~= old(out)@ + seq![head] + mesh_part.subrange(0, i + 1));
        }
        parts.push(out.len() - 1);
        i = i + 1;
    }
    proof {
        assert(mesh_part.subrange(0, mesh_part.len() as int) =~= mesh_part);
    }
    let ghost child_base = base + 1 + n.meshes@.len();
    let mut childs: Vec<Object> = Vec::new();
    let mut j: usize = 0;
    while j < children.len()
        invariant
            j <= children@.len(),
            children@.len() == cs.len(),
            cs == n.children@,
            base == old(out)@.len(),
            child_base == base + 1 + n.meshes@.len(),
            mesh_part.len() == n.meshes@.len(),
            forall|q: int| j <= q < cs.len() ==> children@[q] == cs[q],
            out@ == old(out)@ + seq![head] + mesh_part + nodes_entities(
                cs.subrange(0, j as int),
                base as int,
                child_base,
            ),
            childs@.len() == j,
        decreases children@.len() - j,
    {
        let mut dummy = IntermediateNode {
            name: "".to_owned(),
            meshes: Vec::new(),
            children: Vec::new(),
        };
        core::mem::swap(&mut dummy, &mut children[j]);
        proof {
            assert(dummy == cs[j as int]);
            assert(decreases_to!(n => dummy));
            lemma_nodes_entities_len(cs.subrange(0, j as int), base as int, child_base);
        }
        let ghost pos = out@.len() as int;
        let co = emit_node(dummy, Some(base), out);
        childs.push(co);
        proof {
            let pre = cs.subrange(0, j as int);
            let cur = cs.subrange(0, j + 1);
            assert(cur.drop_last() =~= pre);
            assert(cur.last() == cs[j as int]);
            lemma_nodes_entities_snoc(cur, base as int, child_base);
            lemma_nodes_entities_len(pre, base as int, child_base);
            assert(pos == child_base + nodes_entity_count(pre));
            assert(nodes_entities(cur, base as int, child_base) =~= nodes_entities(
                pre,
                base as int,
                child_base,
            ) + node_entities(cs[j as int], Some(base as usize), pos));
            assert(out@ =~= old(out)@ + seq![head] + mesh_part + nodes_entities(
                cur,
                base as int,
                child_base,
            ));
        }
        j = j + 1;
    }
    proof {
        assert(cs.subrange(0, cs.len() as int) =~= cs);
        assert(old(out)@ + seq![head] + mesh_part + nodes_entities(cs, base as int, child_base)
            =~= old(out)@ + (seq![head] + mesh_part + nodes_entities(cs, base as int, child_base)));
        assert(node_entities(n, parent, base as int) =~= seq![head] + mesh_part + nodes_entities(
            cs,
            base as int,
            child_base,
        ));
    }
    Object { parts, children: childs }
}

/// The asset ids of the plan's images, in order.
pub open spec fn image_assets(s: Seq<ImagePlan>) -> Seq<u128> {
    s.map_values(|p: ImagePlan| p.asset)
}

/// The asset ids of the plan's hosted mesh buffers, in order.
pub open spec fn hosted_assets(s: Seq<MeshPlan>) -> Seq<u128>
    decreases s.len(),
{
    if s.len() == 0 {
        Seq::empty()
    } else {
        hosted_assets(s.drop_last()) + (match s.last().buffer {
            BufferPlacement::Hosted(id, _) => seq![id],
            BufferPlacement::Inline(_) => Seq::empty(),
        })
    }
}

/// Convert an intermediate scene into its registration plan.
///
/// Every image is hosted under a fresh asset id. A mesh whose packed
/// buffer is larger than `size_large_limit` bytes is hosted as well; one
/// whose buffer is at or below the limit is embedded inline. The published
/// ids are exactly the image ids followed by the hosted mesh ids, in
/// registration order, so the caller can unpublish each of them when the
/// scene is torn down.
pub fn convert_intermediate<O: ScalarOps>(
    scene: IntermediateScene,
    size_large_limit: u64,
    ops: &mut O,
) -> (plan: ScenePlan)
    requires
        scene.wf(),
        scene.nodes is Some,
        // an intermediate scene arrives with nothing published yet — both
        // importers guarantee it — so no caller-recorded asset id can be
        // silently discarded here
        scene.published@.len() == 0,
    ensures
        plan.images@.len() == scene.images@.len(),
        forall|i: int|
            0 <= i < plan.images@.len() ==> (#[trigger] plan.images@[i]).bytes
                == scene.images@[i].bytes,
        plan.samplers == scene.samplers,
        plan.textures == scene.textures,
        plan.mats == scene.mats,
        plan.meshes@.len() == scene.meshes@.len(),
        forall|i: int|
            0 <= i < plan.meshes@.len() ==> (#[trigger] plan.meshes@[i]).material
                == scene.meshes@[i].material,
        forall|i: int|
            0 <= i < plan.meshes@.len() ==> match (#[trigger] plan.meshes@[i]).buffer {
                BufferPlacement::Inline(b) => b@.len() <= size_large_limit,
                BufferPlacement::Hosted(id, b) => b@.len() > size_large_limit,
            },
        plan.published@ == image_assets(plan.images@) + hosted_assets(plan.meshes@),
        plan.entities@ == node_entities(scene.nodes->0, None, 0),
        plan.root.parts@.len() >= 1,
        plan.root.parts@[0] == 0,
{
    let IntermediateScene { published: _, images, samplers, textures, mats, meshes, nodes } =
        scene;
    let mut images = images;
    let mut meshes = meshes;
    let ghost gi = images@;
    let ghost gm = meshes@;
    let mut published: Vec<u128> = Vec::new();
    let mut plan_images: Vec<ImagePlan> = Vec::new();
    let mut i: usize = 0;
    while i < images.len()
        invariant
            i <= images@.len(),
            images@.len() == gi.len(),
            forall|q: int| i <= q < gi.len() ==> images@[q] == gi[q],
            plan_images@.len() == i,
            forall|q: int| 0 <= q < i ==> (#[trigger] plan_images@[q]).bytes == gi[q].bytes,
            published@ == image_assets(plan_images@),
        decreases images@.len() - i,
    {
        let mut img = crate::intermediate::IntermediateImage { bytes: Vec::new() };
        core::mem::swap(&mut img, &mut images[i]);
        let id = ids::create_asset_id();
        published.push(id);
        let ghost before = plan_images@;
        plan_images.push(ImagePlan { asset: id, bytes: img.bytes });
        proof {
            assert(image_assets(plan_images@) =~= image_assets(before).push(id));
            assert(published@ =~= image_assets(plan_images@));
        }
        i = i + 1;
    }
    let mut plan_meshes: Vec<MeshPlan> = Vec::new();
    let mut k: usize = 0;
    while k < meshes.len()
        invariant
            k <= meshes@.len(),
            meshes@.len() == gm.len(),
            forall|q: int| k <= q < gm.len() ==> meshes@[q] == gm[q],
            plan_meshes@.len() == k,
            forall|q: int|
                0 <= q < k ==> (#[trigger] plan_meshes@[q]).material == gm[q].material,
            forall|q: int|
                0 <= q < k ==> match (#[trigger] plan_meshes@[q]).buffer {
                    BufferPlacement::Inline(b) => b@.len() <= size_large_limit,
                    BufferPlacement::Hosted(id, b) => b@.len() > size_large_limit,
                },
            published@ == image_assets(plan_images@) + hosted_assets(plan_meshes@),
            plan_images@.len() == gi.len(),
            forall|q: int| 0 <= q < gi.len() ==> (#[trigger] plan_images@[q]).bytes == gi[q].bytes,
        decreases meshes@.len() - k,
    {
        let mut m = crate::intermediate::IntermediateMesh {
            material: 0,
            verts: Vec::new(),
            indices: Vec::new(),
        };
        core::mem::swap(&mut m, &mut meshes[k]);
        let bytes = ops.pack_mesh(&m.verts, &m.indices);
        let ghost before = plan_meshes@;
        let large = (bytes.len() as u64) > size_large_limit;
        if large {
            let id = ids::create_asset_id();
            published.push(id);
            plan_meshes.push(MeshPlan { material: m.material, buffer: BufferPlacement::Hosted(id, bytes) });
            proof {
                assert(plan_meshes@.drop_last() =~= before);
                assert(hosted_assets(plan_meshes@) =~= hosted_assets(before).push(id));
                assert(published@ =~= image_assets(plan_images@) + hosted_assets(plan_meshes@));
            }
        } else {
            plan_meshes.push(MeshPlan { material: m.material, buffer: BufferPlacement::Inline(bytes) });
            proof {
                assert(plan_meshes@.drop_last() =~= before);
                assert(hosted_assets(plan_meshes@) =~= hosted_assets(before));
                assert(published@ =~= image_assets(plan_images@) + hosted_assets(plan_meshes@));
            }
        }
        k = k + 1;
    }
    let root_node = match nodes {
        Some(r) => r,
        None => vstd::pervasive::unreached(),
    };
    let mut entities: Vec<EntityPlan> = Vec::new();
    let obj = emit_node(root_node, None, &mut entities);
    proof {
        assert(Seq::<EntityPlan>::empty() + node_entities(scene.nodes->0, None, 0)
            =~= node_entities(scene.nodes->0, None, 0));
    }
    ScenePlan {
        images: plan_images,
        samplers,
        textures,
        mats,
        meshes: plan_meshes,
        entities,
        published,
        root: obj,
    }
}

} // verus!
