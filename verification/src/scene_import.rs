//! Import through the generic mesh-import library.
//!
//! The import library itself does the file reading and decoding; the
//! embedding program lowers its scene into the plain-value model below
//! (scalars as bit patterns, material properties as tagged values) and the
//! consumption logic here — the logic of this importer — builds the
//! intermediate scene from it: materials first, since meshes reference
//! them, then meshes, then the node tree. Entries that cannot be
//! represented (uncompressed textures, references out of range) are
//! skipped one by one, never a hard failure.

use crate::intermediate::{
    IntermediateImage, IntermediateMat, IntermediateMesh, IntermediateNode, IntermediateSampler,
    IntermediateScene, IntermediateTexture, MagFilter, MinFilter, SamplerMode, VertexData,
};
use crate::ops::ScalarOps;
use vstd::prelude::*;

verus! {

/// Why an import failed. Opening failures are found before decoding
/// begins; decode failures wrap the library's message.
#[derive(Debug)]
pub enum ImportError {
    UnableToOpenFile(String),
    UnableToImport(String),
}

/// One material property value, as the import library types them.
#[derive(Debug, Clone)]
pub enum MatPropValue {
    /// A text property.
    Text(String),
    /// An integer array property.
    Integers(Vec<i32>),
    /// A scalar array property, each a single-precision bit pattern.
    Scalars(Vec<u32>),
    /// An opaque buffer property.
    Buffer(Vec<u8>),
}

/// The properties of one texture slot of a material, keyed by property
/// name.
#[derive(Debug)]
pub struct MatPropSlot {
    pub props: Vec<(String, MatPropValue)>,
}

/// The value bound to `key`, at the first binding.
pub open spec fn slot_lookup(props: Seq<(String, MatPropValue)>, key: Seq<char>) -> Option<
    MatPropValue,
>
    decreases props.len(),
{
    if props.len() == 0 {
        None
    } else if props[0].0@ == key {
        Some(props[0].1)
    } else {
        slot_lookup(props.drop_first(), key)
    }
}

impl MatPropSlot {
    /// Look a property up by name.
    fn find_value(&self, key: &str) -> (r: Option<&MatPropValue>)
        ensures
            match r {
                Some(v) => slot_lookup(self.props@, key@) == Some(*v),
                None => slot_lookup(self.props@, key@) is None,
            },
    {
        let owned: String = key.to_owned();
        let mut i: usize = 0;
        proof {
            assert(self.props@.subrange(0, self.props@.len() as int) =~= self.props@);
        }
        while i < self.props.len()
            invariant
                i <= self.props@.len(),
                owned@ == key@,
                slot_lookup(self.props@, key@) == slot_lookup(
                    self.props@.subrange(i as int, self.props@.len() as int),
                    key@,
                ),
            decreases self.props@.len() - i,
        {
            let ghost rest = self.props@.subrange(i as int, self.props@.len() as int);
            proof {
                assert(rest[0] == self.props@[i as int]);
                assert(rest.drop_first() =~= self.props@.subrange(
                    i + 1,
                    self.props@.len() as int,
                ));
            }
            if self.props[i].0 == owned {
                return Some(&self.props[i].1);
            }
            i = i + 1;
        }
        proof {
            assert(self.props@.subrange(i as int, self.props@.len() as int).len() == 0);
        }
        None
    }

    /// A text property, when the key is bound to one.
    pub fn find_string(&self, key: &str) -> (r: Option<String>)
        ensures
            match r {
                Some(s) => slot_lookup(self.props@, key@) matches Some(MatPropValue::Text(x)) && s@
                    == x@,
                None => !(slot_lookup(self.props@, key@) matches Some(MatPropValue::Text(_))),
            },
    {
        match self.find_value(key) {
            Some(MatPropValue::Text(x)) => Some(x.as_str().to_owned()),
            _ => None,
        }
    }

    /// Whether the key is bound at all.
    pub fn find(&self, key: &str) -> (r: bool)
        ensures
            r == (slot_lookup(self.props@, key@) is Some),
    {
        match self.find_value(key) {
            Some(_) => true,
            None => false,
        }
    }

    /// A scalar property: the first entry of a scalar array, an integer
    /// converted to its nearest single-precision value, or a text property
    /// read as a decimal; an empty array or unreadable text is no value.
    pub fn find_float<O: ScalarOps>(&self, key: &str, ops: &mut O) -> (r: Option<u32>)
        ensures
            slot_lookup(self.props@, key@) matches Some(MatPropValue::Scalars(x)) ==> (x@.len() > 0
                ==> r == Some(x@[0])),
            slot_lookup(self.props@, key@) is None ==> r is None,
            (slot_lookup(self.props@, key@) matches Some(MatPropValue::Buffer(_))) ==> r is None,
    {
        match self.find_value(key) {
            Some(MatPropValue::Scalars(x)) => {
                if x.len() > 0 {
                    Some(x[0])
                } else {
                    None
                }
            },
            Some(MatPropValue::Integers(x)) => {
                if x.len() > 0 {
                    Some(ops.int_to_bits(x[0]))
                } else {
                    None
                }
            },
            Some(MatPropValue::Text(x)) => ops.try_bits_of_token(x.as_str().as_bytes()),
            _ => None,
        }
    }

    /// A color property: a scalar array filling the front of an opaque
    /// white color.
    pub fn find_color(&self, key: &str) -> (r: Option<[u32; 4]>)
        ensures
            match r {
                Some(c) => slot_lookup(self.props@, key@) matches Some(MatPropValue::Scalars(x))
                    && (forall|k: int|
                    0 <= k < 4 ==> c@[k] == if k < x@.len() {
                        x@[k]
                    } else {
                        crate::bits::ONE_BITS
                    }),
                None => !(slot_lookup(self.props@, key@) matches Some(MatPropValue::Scalars(_))),
            },
    {
        match self.find_value(key) {
            Some(MatPropValue::Scalars(x)) => {
                let mut ret: [u32; 4] = [
                    crate::bits::ONE_BITS,
                    crate::bits::ONE_BITS,
                    crate::bits::ONE_BITS,
                    crate::bits::ONE_BITS,
                ];
                crate::fill_array(x, &mut ret);
                Some(ret)
            },
            _ => None,
        }
    }
}

/// The entries the grouped slot of code `sem` holds: the first binding of
/// each property name carried under that code, in first-appearance order.
pub open spec fn group_slot(props: Seq<(u32, String, MatPropValue)>, sem: u32) -> Seq<
    (String, MatPropValue),
>
    decreases props.len(),
{
    if props.len() == 0 {
        Seq::empty()
    } else {
        let p = group_slot(props.drop_last(), sem);
        let last = props.last();
        if last.0 == sem && !(exists|i: int| 0 <= i < p.len() && (#[trigger] p[i]).0@ == last.1@) {
            p.push((last.1, last.2))
        } else {
            p
        }
    }
}

/// Whether any property carries this slot code.
pub open spec fn has_slot(props: Seq<(u32, String, MatPropValue)>, sem: u32) -> bool {
    exists|i: int| 0 <= i < props.len() && (#[trigger] props[i]).0 == sem
}

/// Whether the grouped slots carry this code.
pub open spec fn has_code(slots: Seq<(u32, MatPropSlot)>, sem: u32) -> bool {
    exists|q: int| 0 <= q < slots.len() && (#[trigger] slots[q]).0 == sem
}

/// A slot code no slot carries yet groups to the empty slot: every entry
/// of the prefix either carries another code or is already represented by
/// a slot.
proof fn lemma_group_slot_absent(
    props: Seq<(u32, String, MatPropValue)>,
    sem: u32,
    slots: Seq<(u32, MatPropSlot)>,
)
    requires
        forall|q: int| 0 <= q < slots.len() ==> (#[trigger] slots[q]).0 != sem,
        forall|k: int| 0 <= k < props.len() ==> has_code(slots, (#[trigger] props[k]).0),
    ensures
        group_slot(props, sem) == Seq::<(String, MatPropValue)>::empty(),
    decreases props.len(),
{
    if props.len() > 0 {
        assert forall|k: int| 0 <= k < props.drop_last().len() implies has_code(
            slots,
            (#[trigger] props.drop_last()[k]).0,
        ) by {
            assert(props.drop_last()[k] == props[k]);
        }
        lemma_group_slot_absent(props.drop_last(), sem, slots);
        assert(props.last() == props[props.len() - 1]);
        assert(props.last().0 != sem);
    }
}

/// The property slots of one material, keyed by texture-slot code; code
/// zero is the slot of the untextured properties.
#[derive(Debug)]
pub struct MatProps {
    pub props: Vec<(u32, MatPropSlot)>,
}

impl MatProps {
    /// Group a material's properties by texture-slot code, keeping the
    /// first binding of each name within a slot: every slot code of the
    /// input gets exactly one slot holding [`group_slot`] of the input.
    pub fn new(properties: Vec<(u32, String, MatPropValue)>) -> (r: MatProps)
        ensures
            forall|q: int|
                0 <= q < r.props@.len() ==> (#[trigger] r.props@[q]).1.props@ == group_slot(
                    properties@,
                    r.props@[q].0,
                ),
            forall|q1: int, q2: int|
                0 <= q1 < r.props@.len() && 0 <= q2 < r.props@.len() && q1 != q2 ==> (
                #[trigger] r.props@[q1]).0 != (#[trigger] r.props@[q2]).0,
            forall|q: int|
                0 <= q < r.props@.len() ==> has_slot(properties@, (#[trigger] r.props@[q]).0),
            forall|k: int|
                0 <= k < properties@.len() ==> has_code(r.props@, (#[trigger] properties@[k]).0),
    {
        let mut properties = properties;
        let ghost gp = properties@;
        let mut r = MatProps { props: Vec::new() };
        let mut i: usize = 0;
        proof {
            assert(gp.subrange(0, 0) =~= Seq::<(u32, String, MatPropValue)>::empty());
        }
        while i < properties.len()
            invariant
                i <= properties@.len(),
                properties@.len() == gp.len(),
                forall|q: int| i <= q < gp.len() ==> properties@[q] == gp[q],
                forall|q: int|
                    0 <= q < r.props@.len() ==> (#[trigger] r.props@[q]).1.props@ == group_slot(
                        gp.subrange(0, i as int),
                        r.props@[q].0,
                    ),
                forall|q1: int, q2: int|
                    0 <= q1 < r.props@.len() && 0 <= q2 < r.props@.len() && q1 != q2 ==> (
                    #[trigger] r.props@[q1]).0 != (#[trigger] r.props@[q2]).0,
                forall|q: int|
                    0 <= q < r.props@.len() ==> has_slot(
                        gp.subrange(0, i as int),
                        (#[trigger] r.props@[q]).0,
                    ),
                forall|k: int| 0 <= k < i ==> has_code(r.props@, (#[trigger] gp[k]).0),
            decreases properties@.len() - i,
        {
            let ghost pre = gp.subrange(0, i as int);
            let ghost cur = gp.subrange(0, i + 1);
            proof {
                assert(cur.drop_last() =~= pre);
                assert(cur.last() == gp[i as int]);
            }
            let mut prop: (u32, String, MatPropValue) = (
                0u32,
                String::new(),
                MatPropValue::Buffer(Vec::new()),
            );
            core::mem::swap(&mut prop, &mut properties[i]);
            proof {
                assert(prop == gp[i as int]);
            }
            let (semantic, key, data) = prop;
            let mut si: usize = 0;
            let mut slot: Option<usize> = None;
            while si < r.props.len() && slot.is_none()
                invariant
                    si <= r.props@.len(),
                    forall|j: int| 0 <= j < si ==> (#[trigger] r.props@[j]).0 != semantic,
                    slot matches Some(s) ==> s < r.props@.len() && r.props@[s as int].0 == semantic,
                decreases r.props@.len() - si + (if slot is None {
                    1int
                } else {
                    0int
                }),
            {
                if r.props[si].0 == semantic {
                    slot = Some(si);
                } else {
                    si = si + 1;
                }
            }
            match slot {
                Some(s) => {
                    let mut ki: usize = 0;
                    let mut known = false;
                    while ki < r.props[s].1.props.len() && !known
                        invariant
                            s < r.props@.len(),
                            r.props@[s as int].0 == semantic,
                            key@ == gp[i as int].1@,
                            ki <= r.props@[s as int].1.props@.len(),
                            forall|j: int|
                                0 <= j < ki ==> (#[trigger] r.props@[s as int].1.props@[j]).0@
                                    != key@,
                            known ==> exists|j: int|
                                0 <= j < r.props@[s as int].1.props@.len() && (
                                #[trigger] r.props@[s as int].1.props@[j]).0@ == key@,
                        decreases r.props@[s as int].1.props@.len() - ki + (if known {
                            0int
                        } else {
                            1int
                        }),
                    {
                        if r.props[s].1.props[ki].0 == key {
                            known = true;
                        } else {
                            ki = ki + 1;
                        }
                    }
                    let ghost before = r.props@;
                    if !known {
                        r.props[s].1.props.push((key, data));
                        proof {
                            assert(r.props@[s as int].1.props@ =~= group_slot(
                                cur,
                                before[s as int].0,
                            ));
                            assert(r.props@ =~= before.update(s as int, r.props@[s as int]));
                        }
                    } else {
                        proof {
                            assert(group_slot(cur, before[s as int].0) == group_slot(
                                pre,
                                before[s as int].0,
                            ));
                        }
                    }
                    proof {
                        assert forall|q: int|
                            0 <= q < r.props@.len() implies (#[trigger] r.props@[q]).1.props@
                            == group_slot(cur, r.props@[q].0) by {
                            if q != s {
                                assert(r.props@[q] == before[q]);
                                assert(before[q].0 != semantic);
                            }
                        }
                        assert forall|k: int| 0 <= k < i + 1 implies has_code(
                            r.props@,
                            (#[trigger] gp[k]).0,
                        ) by {
                            if k < i {
                                let q = choose|q: int|
                                    0 <= q < before.len() && (#[trigger] before[q]).0 == gp[k].0;
                                assert(r.props@[q].0 == before[q].0);
                            } else {
                                assert(r.props@[s as int].0 == gp[k].0);
                            }
                        }
                    }
                },
                None => {
                    proof {
                        // a code with no slot so far has an empty group
                        lemma_group_slot_absent(pre, semantic, r.props@);
                    }
                    let ghost before = r.props@;
                    let mut sp = MatPropSlot { props: Vec::new() };
                    sp.props.push((key, data));
                    r.props.push((semantic, sp));
                    proof {
                        assert(r.props@.last().1.props@ =~= group_slot(cur, semantic));
                        assert forall|q: int|
                            0 <= q < r.props@.len() implies (#[trigger] r.props@[q]).1.props@
                            == group_slot(cur, r.props@[q].0) by {
                            if q < r.props@.len() - 1 {
                                assert(r.props@[q] == before[q]);
                                assert(r.props@[q].0 != semantic);
                            }
                        }
                        assert forall|k: int| 0 <= k < i + 1 implies has_code(
                            r.props@,
                            (#[trigger] gp[k]).0,
                        ) by {
                            if k < i {
                                let q = choose|q: int|
                                    0 <= q < before.len() && (#[trigger] before[q]).0 == gp[k].0;
                                assert(r.props@[q].0 == before[q].0);
                            } else {
                                assert(r.props@[r.props@.len() - 1].0 == gp[k].0);
                            }
                        }
                    }
                },
            }
            i = i + 1;
        }
        proof {
            assert(gp.subrange(0, gp.len() as int) =~= gp);
        }
        r
    }

    /// The property slot of one texture-slot code.
    pub fn by_type(&self, t: u32) -> (r: Option<&MatPropSlot>)
        ensures
            match r {
                Some(s) => exists|i: int|
                    0 <= i < self.props@.len() && (#[trigger] self.props@[i]).0 == t
                        && self.props@[i].1 == *s,
                None => forall|i: int|
                    0 <= i < self.props@.len() ==> (#[trigger] self.props@[i]).0 != t,
            },
    {
        let mut i: usize = 0;
        while i < self.props.len()
            invariant
                i <= self.props@.len(),
                forall|j: int| 0 <= j < i ==> (#[trigger] self.props@[j]).0 != t,
            decreases self.props@.len() - i,
        {
            if self.props[i].0 == t {
                return Some(&self.props[i].1);
            }
            i = i + 1;
        }
        None
    }
}

/// One embedded texture of the import library's scene: its bytes, when it
/// is a compressed picture file (an uncompressed texel grid has a nonzero
/// height and is not supported).
#[derive(Debug)]
pub struct TextureData {
    pub height: u32,
    pub bytes: Option<Vec<u8>>,
}

/// One node of the import library's scene.
#[derive(Debug)]
pub struct NodeTree {
    pub name: String,
    pub meshes: Vec<u32>,
    pub children: Vec<NodeTree>,
}

/// One mesh of the import library's scene; attribute lists are positions
/// as bit-pattern triples, colors as bit-pattern quadruples.
#[derive(Debug)]
pub struct MeshData {
    pub material_index: u32,
    pub vertices: Vec<[u32; 3]>,
    pub normals: Vec<[u32; 3]>,
    pub tangents: Vec<[u32; 3]>,
    pub texture_coords: Option<Vec<[u32; 3]>>,
    pub colors: Option<Vec<[u32; 4]>>,
    pub faces: Vec<Vec<u32>>,
}

/// One material of the import library's scene: its properties and, per
/// texture-slot code, an optional embedded texture.
#[derive(Debug)]
pub struct MaterialData {
    pub properties: Vec<(u32, String, MatPropValue)>,
    pub textures: Vec<(u32, TextureData)>,
}

/// The import library's scene, as plain values.
#[derive(Debug)]
pub struct SceneData {
    pub materials: Vec<MaterialData>,
    pub meshes: Vec<MeshData>,
    pub root: Option<NodeTree>,
}

/// The mesh references a node keeps: those into a mesh array of length
/// `n`, in order.
pub open spec fn kept_mesh_refs(ms: Seq<u32>, n: int) -> Seq<u32>
    decreases ms.len(),
{
    if ms.len() == 0 {
        Seq::empty()
    } else if (ms.last() as int) < n {
        kept_mesh_refs(ms.drop_last(), n).push(ms.last())
    } else {
        kept_mesh_refs(ms.drop_last(), n)
    }
}

/// The intermediate node `r` mirrors the decoded node `t` against `n`
/// meshes: same name, the in-range mesh references in order, and children
/// mirroring `t`'s children one for one.
pub open spec fn node_matches(r: IntermediateNode, t: NodeTree, n: int) -> bool
    decreases t,
{
    &&& r.name@ == t.name@
    &&& r.meshes@ == kept_mesh_refs(t.meshes@, n)
    &&& r.children@.len() == t.children@.len()
    &&& forall|k: int|
        0 <= k < t.children@.len() ==> node_matches(#[trigger] r.children@[k], t.children@[k], n)
}

/// Copy a node tree of the import library into intermediate nodes, keeping
/// only mesh references into a mesh array of length `n_meshes`.
pub fn recurse_node(node: &NodeTree, n_meshes: usize) -> (r: IntermediateNode)
    ensures
        crate::intermediate::node_wf(r, n_meshes as nat),
        node_matches(r, *node, n_meshes as int),
    decreases *node,
{
    let mut meshes: Vec<u32> = Vec::new();
    let mut i: usize = 0;
    proof {
        assert(node.meshes@.subrange(0, 0) =~= Seq::<u32>::empty());
    }
    while i < node.meshes.len()
        invariant
            i <= node.meshes@.len(),
            forall|k: int| 0 <= k < meshes@.len() ==> ((#[trigger] meshes@[k]) as int) < n_meshes,
            meshes@ == kept_mesh_refs(node.meshes@.subrange(0, i as int), n_meshes as int),
        decreases node.meshes@.len() - i,
    {
        proof {
            assert(node.meshes@.subrange(0, i + 1).drop_last() =~= node.meshes@.subrange(
                0,
                i as int,
            ));
            assert(node.meshes@.subrange(0, i + 1).last() == node.meshes@[i as int]);
        }
        let m = node.meshes[i];
        if (m as usize) < n_meshes {
            meshes.push(m);
        }
        i = i + 1;
    }
    proof {
        assert(node.meshes@.subrange(0, node.meshes@.len() as int) =~= node.meshes@);
    }
    let mut children: Vec<IntermediateNode> = Vec::new();
    let mut j: usize = 0;
    while j < node.children.len()
        invariant
            j <= node.children@.len(),
            children@.len() == j,
            forall|k: int|
                0 <= k < children@.len() ==> crate::intermediate::node_wf(
                    #[trigger] children@[k],
                    n_meshes as nat,
                ),
            forall|k: int|
                0 <= k < children@.len() ==> node_matches(
                    #[trigger] children@[k],
                    node.children@[k],
                    n_meshes as int,
                ),
        decreases node.children@.len() - j,
    {
        let child = recurse_node(&node.children[j], n_meshes);
        children.push(child);
        j = j + 1;
    }
    let r = IntermediateNode { name: node.name.as_str().to_owned(), meshes, children };
    proof {
        assert(crate::intermediate::node_wf(r, n_meshes as nat));
        assert(node_matches(r, *node, n_meshes as int));
    }
    r
}

/// Map a sampler scalar (an integer stored in a scalar property, read back
/// by its bit pattern) to a magnification filter.
pub fn compute_mag_filter(v: u32) -> (r: MagFilter)
    ensures
        r == match v {
            9728u32 => MagFilter::Nearest,
            9729u32 => MagFilter::Linear,
            _ => MagFilter::Linear,
        },
{
    match v {
        9728u32 => MagFilter::Nearest,
        9729u32 => MagFilter::Linear,
        _ => MagFilter::Linear,
    }
}

/// Map a sampler scalar to a minification filter.
pub fn compute_min_filter(v: u32) -> (r: MinFilter)
    ensures
        r == match v {
            9728u32 => MinFilter::Nearest,
            9729u32 => MinFilter::Linear,
            _ => MinFilter::LinearMipmapLinear,
        },
{
    match v {
        9728u32 => MinFilter::Nearest,
        9729u32 => MinFilter::Linear,
        _ => MinFilter::LinearMipmapLinear,
    }
}

/// Map a sampler scalar to a wrapping mode.
pub fn compute_wrap(v: u32) -> (r: SamplerMode)
    ensures
        r == match v {
            0u32 => SamplerMode::Repeat,
            1u32 => SamplerMode::Clamp,
            2u32 => SamplerMode::MirrorRepeat,
            _ => SamplerMode::Clamp,
        },
{
    match v {
        0u32 => SamplerMode::Repeat,
        1u32 => SamplerMode::Clamp,
        2u32 => SamplerMode::MirrorRepeat,
        _ => SamplerMode::Clamp,
    }
}

/// A node forest well formed against some meshes is well formed against
/// more.
pub proof fn lemma_node_wf_mono(n: IntermediateNode, a: nat, b: nat)
    requires
        crate::intermediate::node_wf(n, a),
        a <= b,
    ensures
        crate::intermediate::node_wf(n, b),
    decreases n,
{
    assert forall|i: int|
        0 <= i < n.children@.len() implies crate::intermediate::node_wf(
        #[trigger] n.children@[i],
        b,
    ) by {
        lemma_node_wf_mono(n.children@[i], a, b);
    }
}

/// The texture-slot code of the untextured material properties.
pub const TEX_KIND_NONE: u32 = 0;

/// The texture-slot code of the diffuse texture.
pub const TEX_KIND_DIFFUSE: u32 = 1;

/// The texture-slot code of the base-color texture.
pub const TEX_KIND_BASE_COLOR: u32 = 12;

/// A face directive read into a triangle slot: its first three corners,
/// missing ones zero.
pub open spec fn spec_face3(f: Seq<u32>) -> Seq<u32> {
    Seq::new(3, |i: int| if i < f.len() { f[i] } else { 0u32 })
}

/// The triangles a decoded mesh keeps: each face read into a triangle
/// slot, dropped when any corner lies outside a vertex buffer of length
/// `n`.
pub open spec fn kept_faces(faces: Seq<Vec<u32>>, n: int) -> Seq<Seq<u32>>
    decreases faces.len(),
{
    if faces.len() == 0 {
        Seq::empty()
    } else {
        let f3 = spec_face3(faces.last()@);
        if (f3[0] as int) < n && (f3[1] as int) < n && (f3[2] as int) < n {
            kept_faces(faces.drop_last(), n).push(f3)
        } else {
            kept_faces(faces.drop_last(), n)
        }
    }
}

/// The intermediate mesh `m` mirrors the decoded mesh `d`: same material,
/// one vertex per decoded vertex with position, normal and tangent copied
/// positionally (absent attributes zero), and exactly the in-range faces.
/// Texture coordinates and colors pass through the quantization oracle, so
/// only their absent cases are pinned here.
pub open spec fn mesh_matches(m: IntermediateMesh, d: MeshData) -> bool {
    &&& m.material == d.material_index
    &&& m.verts@.len() == d.vertices@.len()
    &&& forall|k: int|
        0 <= k < d.vertices@.len() ==> (#[trigger] m.verts@[k]).position == d.vertices@[k]
    &&& forall|k: int|
        0 <= k < d.vertices@.len() ==> (#[trigger] m.verts@[k]).normal@ == (if k
            < d.normals@.len() {
            d.normals@[k]@
        } else {
            seq![0u32, 0u32, 0u32]
        })
    &&& forall|k: int|
        0 <= k < d.vertices@.len() ==> (#[trigger] m.verts@[k]).tangent@ == (if k
            < d.tangents@.len() {
            d.tangents@[k]@
        } else {
            seq![0u32, 0u32, 0u32]
        })
    &&& forall|k: int|
        0 <= k < d.vertices@.len() && (d.texture_coords is None || d.texture_coords->0@.len()
            <= k) ==> (#[trigger] m.verts@[k]).texture@ == seq![0u16, 0u16]
    &&& forall|k: int|
        0 <= k < d.vertices@.len() && (d.colors is None || d.colors->0@.len() <= k) ==> (
        #[trigger] m.verts@[k]).color@ == seq![255u8, 255u8, 255u8, 255u8]
    &&& m.indices@.map_values(|a: [u32; 3]| a@) == kept_faces(d.faces@, d.vertices@.len() as int)
}

/// The magnification filter a sampler scalar code selects.
pub open spec fn spec_mag(v: u32) -> MagFilter {
    match v {
        9728u32 => MagFilter::Nearest,
        9729u32 => MagFilter::Linear,
        _ => MagFilter::Linear,
    }
}

/// The minification filter a sampler scalar code selects.
pub open spec fn spec_min(v: u32) -> MinFilter {
    match v {
        9728u32 => MinFilter::Nearest,
        9729u32 => MinFilter::Linear,
        _ => MinFilter::LinearMipmapLinear,
    }
}

/// The wrapping mode a sampler scalar code selects.
pub open spec fn spec_wrap_mode(v: u32) -> SamplerMode {
    match v {
        0u32 => SamplerMode::Repeat,
        1u32 => SamplerMode::Clamp,
        2u32 => SamplerMode::MirrorRepeat,
        _ => SamplerMode::Clamp,
    }
}

/// The sampler a property slot builds, as far as the property values are
/// deterministic: a scalar-array property pins the filter through its
/// first entry, an absent property pins its absence; integer and text
/// properties go through the numeric oracle and are not pinned here.
pub open spec fn sampler_matches(sp: IntermediateSampler, slot: Seq<(String, MatPropValue)>) -> bool {
    &&& sp.name is None
    &&& (slot_lookup(slot, "$tex.mappingfiltermag"@) is None ==> sp.mag_filter is None)
    &&& (slot_lookup(slot, "$tex.mappingfiltermag"@) matches Some(MatPropValue::Scalars(x)) ==> (
    x@.len() > 0 ==> sp.mag_filter == Some(spec_mag(x@[0]))))
    &&& (slot_lookup(slot, "$tex.mappingfiltermin"@) is None ==> sp.min_filter is None)
    &&& (slot_lookup(slot, "$tex.mappingfiltermin"@) matches Some(MatPropValue::Scalars(x)) ==> (
    x@.len() > 0 ==> sp.min_filter == Some(spec_min(x@[0]))))
    &&& (slot_lookup(slot, "$tex.mapmodeu"@) is None ==> sp.wrap_s is None)
    &&& (slot_lookup(slot, "$tex.mapmodeu"@) matches Some(MatPropValue::Scalars(x)) ==> (x@.len()
        > 0 ==> sp.wrap_s == Some(spec_wrap_mode(x@[0]))))
    &&& (slot_lookup(slot, "$tex.mapmodev"@) is None ==> sp.wrap_t is None)
    &&& (slot_lookup(slot, "$tex.mapmodev"@) matches Some(MatPropValue::Scalars(x)) ==> (x@.len()
        > 0 ==> sp.wrap_t == Some(spec_wrap_mode(x@[0]))))
}

/// The material a property slot and a texture outcome build, as far as the
/// property values are deterministic.
pub open spec fn material_matches(m: IntermediateMat, slot: Seq<(String, MatPropValue)>) -> bool {
    &&& (slot_lookup(slot, "?mat.name"@) matches Some(MatPropValue::Text(x)) ==> m.name
        matches Some(nm) && nm@ == x@)
    &&& (!(slot_lookup(slot, "?mat.name"@) matches Some(MatPropValue::Text(_))) ==> m.name
        is None)
    &&& m.doublesided == (slot_lookup(slot, "$mat.twosided"@) is Some)
    &&& (slot_lookup(slot, "$clr.base"@) matches Some(MatPropValue::Scalars(x)) ==> (forall|k: int|
        0 <= k < 4 ==> m.base_color@[k] == if k < x@.len() {
            x@[k]
        } else {
            crate::bits::ONE_BITS
        }))
    &&& (!(slot_lookup(slot, "$clr.base"@) matches Some(MatPropValue::Scalars(_))) && !(
    slot_lookup(slot, "$clr.diffuse"@) matches Some(MatPropValue::Scalars(_))) ==> m.base_color@
        == seq![
        crate::bits::ONE_BITS,
        crate::bits::ONE_BITS,
        crate::bits::ONE_BITS,
        crate::bits::ONE_BITS,
    ])
    &&& (slot_lookup(slot, "$mat.metallicFactor"@) matches Some(MatPropValue::Scalars(x)) ==> (
    x@.len() > 0 ==> m.metallic == x@[0]))
    &&& (slot_lookup(slot, "$mat.metallicFactor"@) is None ==> m.metallic == 0)
    &&& (slot_lookup(slot, "$mat.roughnessFactor"@) matches Some(MatPropValue::Scalars(x)) ==> (
    x@.len() > 0 ==> m.roughness == x@[0]))
    &&& (slot_lookup(slot, "$mat.roughnessFactor"@) is None ==> m.roughness == 0x3f00_0000)
}

/// The deterministic correspondence of one built material to one decoded
/// material: the untextured property slot pins name, color, factors and
/// double-sidedness; without such a slot the defaults stand.
pub open spec fn built_material_matches(m: IntermediateMat, d: MaterialData) -> bool {
    &&& (has_slot(d.properties@, TEX_KIND_NONE) ==> material_matches(
        m,
        group_slot(d.properties@, TEX_KIND_NONE),
    ))
    &&& (!has_slot(d.properties@, TEX_KIND_NONE) ==> {
        &&& m.name is None
        &&& !m.doublesided
        &&& m.metallic == 0
        &&& m.roughness == 0x3f00_0000
        &&& m.base_color@ == seq![
            crate::bits::ONE_BITS,
            crate::bits::ONE_BITS,
            crate::bits::ONE_BITS,
            crate::bits::ONE_BITS,
        ]
    })
}

/// The fold of mesh consumption: the produced meshes are exactly the
/// decoded meshes whose material reference is in range, in order, each
/// mirroring its source.
pub open spec fn meshes_match(out: Seq<IntermediateMesh>, input: Seq<MeshData>, n_mats: int) -> bool
    decreases input.len(),
{
    if input.len() == 0 {
        out.len() == 0
    } else if (input.last().material_index as int) < n_mats {
        out.len() > 0 && mesh_matches(out.last(), input.last()) && meshes_match(
            out.drop_last(),
            input.drop_last(),
            n_mats,
        )
    } else {
        meshes_match(out, input.drop_last(), n_mats)
    }
}

impl IntermediateScene {
    /// Add the embedded texture's bytes as an image; an absent texture or
    /// an uncompressed texel grid adds nothing.
    pub fn build_image(&mut self, tex: Option<&TextureData>) -> (r: Option<u32>)
        requires
            old(self).wf(),
            old(self).images@.len() < 0xffff_ffff,
        ensures
            final(self).wf(),
            final(self).samplers == old(self).samplers,
            final(self).textures == old(self).textures,
            final(self).mats == old(self).mats,
            final(self).meshes == old(self).meshes,
            final(self).nodes == old(self).nodes,
            final(self).published == old(self).published,
            r is Some <==> (tex matches Some(t) && t.height == 0 && t.bytes is Some),
            match r {
                Some(id) => id == old(self).images@.len() && final(self).images@ == old(
                    self,
                ).images@.push(final(self).images@.last()) && final(self).images@.last().bytes@
                    == tex->0.bytes->0@,
                None => final(self).images == old(self).images,
            },
    {
        let tex = match tex {
            Some(t) => t,
            None => {
                return None;
            },
        };
        let id = self.images.len() as u32;
        if tex.height != 0 {
            // uncompressed textures are not supported
            return None;
        }
        match &tex.bytes {
            None => None,
            Some(bytes) => {
                self.images.push(
                    IntermediateImage { bytes: vstd::slice::slice_to_vec(bytes.as_slice()) },
                );
                Some(id)
            },
        }
    }

    /// Add a sampler built from a texture slot's filter and wrap
    /// properties; an absent slot adds nothing. The properties store the
    /// integer sampler codes through their bit patterns, which are read
    /// back directly.
    pub fn build_sampler<O: ScalarOps>(&mut self, props: Option<&MatPropSlot>, ops: &mut O) -> (r:
        Option<u32>)
        requires
            old(self).wf(),
            old(self).samplers@.len() < 0xffff_ffff,
        ensures
            final(self).wf(),
            final(self).images == old(self).images,
            final(self).textures == old(self).textures,
            final(self).mats == old(self).mats,
            final(self).meshes == old(self).meshes,
            final(self).nodes == old(self).nodes,
            final(self).published == old(self).published,
            r is Some <==> props is Some,
            match r {
                Some(id) => id == old(self).samplers@.len() && final(self).samplers@ == old(
                    self,
                ).samplers@.push(final(self).samplers@.last()) && sampler_matches(
                    final(self).samplers@.last(),
                    props->0.props@,
                ),
                None => final(self).samplers == old(self).samplers,
            },
    {
        let props = match props {
            Some(p) => p,
            None => {
                return None;
            },
        };
        let mag = match props.find_float("$tex.mappingfiltermag", ops) {
            Some(v) => Some(compute_mag_filter(v)),
            None => None,
        };
        let min = match props.find_float("$tex.mappingfiltermin", ops) {
            Some(v) => Some(compute_min_filter(v)),
            None => None,
        };
        let wrap_s = match props.find_float("$tex.mapmodeu", ops) {
            Some(v) => Some(compute_wrap(v)),
            None => None,
        };
        let wrap_t = match props.find_float("$tex.mapmodev", ops) {
            Some(v) => Some(compute_wrap(v)),
            None => None,
        };
        let id = self.samplers.len() as u32;
        self.samplers.push(
            IntermediateSampler { name: None, mag_filter: mag, min_filter: min, wrap_s, wrap_t },
        );
        Some(id)
    }

    /// Add a texture from an embedded image and the slot's sampler
    /// properties; without a usable image nothing is added.
    pub fn build_texture<O: ScalarOps>(
        &mut self,
        props: Option<&MatPropSlot>,
        tex: Option<&TextureData>,
        ops: &mut O,
    ) -> (r: Option<u32>)
        requires
            old(self).wf(),
            old(self).images@.len() < 0xffff_ffff,
            old(self).samplers@.len() < 0xffff_ffff,
            old(self).textures@.len() < 0xffff_ffff,
        ensures
            final(self).wf(),
            final(self).mats == old(self).mats,
            final(self).meshes == old(self).meshes,
            final(self).nodes == old(self).nodes,
            final(self).published == old(self).published,
            final(self).images@.len() <= old(self).images@.len() + 1,
            final(self).samplers@.len() <= old(self).samplers@.len() + 1,
            final(self).textures@.len() <= old(self).textures@.len() + 1,
            r is Some <==> (tex matches Some(t) && t.height == 0 && t.bytes is Some),
            match r {
                Some(id) => id == old(self).textures@.len() && final(self).textures@ == old(
                    self,
                ).textures@.push(
                    IntermediateTexture {
                        image: old(self).images@.len() as u32,
                        sampler: if props is Some {
                            Some(old(self).samplers@.len() as u32)
                        } else {
                            None
                        },
                    },
                ) && final(self).images@.last().bytes@ == tex->0.bytes->0@,
                None => final(self).textures == old(self).textures,
            },
    {
        let id = self.textures.len() as u32;
        let image = match self.build_image(tex) {
            Some(i) => i,
            None => {
                return None;
            },
        };
        let sampler = self.build_sampler(props, ops);
        self.textures.push(IntermediateTexture { image, sampler });
        proof {
            assert(final(self).wf());
            assert(final(self).textures@ =~= old(self).textures@.push(
                final(self).textures@.last(),
            ));
        }
        Some(id)
    }

    /// Add one material: its name, colors and factors from the untextured
    /// property slot, and its base-color texture from the base-color slot,
    /// falling back to the diffuse one.
    pub fn build_material<O: ScalarOps>(&mut self, mat: MaterialData, ops: &mut O)
        requires
            old(self).wf(),
            old(self).images@.len() < 0xffff_ffff,
            old(self).samplers@.len() < 0xffff_ffff,
            old(self).textures@.len() < 0xffff_ffff,
        ensures
            final(self).wf(),
            final(self).mats@ == old(self).mats@.push(final(self).mats@.last()),
            final(self).meshes == old(self).meshes,
            final(self).nodes == old(self).nodes,
            final(self).published == old(self).published,
            final(self).images@.len() <= old(self).images@.len() + 1,
            final(self).samplers@.len() <= old(self).samplers@.len() + 1,
            final(self).textures@.len() <= old(self).textures@.len() + 1,
            built_material_matches(final(self).mats@.last(), mat),
    {
        let MaterialData { properties, textures } = mat;
        let props = MatProps::new(properties);
        let ghost slot0 = group_slot(mat.properties@, TEX_KIND_NONE);
        let mut name: Option<String> = None;
        let mut base_color: [u32; 4] = [
            crate::bits::ONE_BITS,
            crate::bits::ONE_BITS,
            crate::bits::ONE_BITS,
            crate::bits::ONE_BITS,
        ];
        let mut metallic: u32 = 0;
        let mut roughness: u32 = 0x3f00_0000;  // one half
        let mut doublesided = false;
        let slot_opt = props.by_type(TEX_KIND_NONE);
        proof {
            match slot_opt {
                Some(s) => {
                    let i = choose|i: int|
                        0 <= i < props.props@.len() && (#[trigger] props.props@[i]).0
                            == TEX_KIND_NONE && props.props@[i].1 == *s;
                    assert(s.props@ == slot0);
                },
                None => {
                    if has_slot(mat.properties@, TEX_KIND_NONE) {
                        let k = choose|k: int|
                            0 <= k < mat.properties@.len() && (#[trigger] mat.properties@[k]).0
                                == TEX_KIND_NONE;
                        assert(has_code(props.props@, mat.properties@[k].0));
                        let q = choose|q: int|
                            0 <= q < props.props@.len() && (#[trigger] props.props@[q]).0
                                == TEX_KIND_NONE;
                        assert(false);
                    }
                },
            }
        }
        match slot_opt {
            Some(slot) => {
                name = slot.find_string("?mat.name");
                match slot.find_color("$clr.base") {
                    Some(c) => {
                        base_color = c;
                    },
                    None => {
                        match slot.find_color("$clr.diffuse") {
                            Some(c) => {
                                base_color = c;
                            },
                            None => {},
                        }
                    },
                }
                match slot.find_float("$mat.metallicFactor", ops) {
                    Some(v) => {
                        metallic = v;
                    },
                    None => {},
                }
                match slot.find_float("$mat.roughnessFactor", ops) {
                    Some(v) => {
                        roughness = v;
                    },
                    None => {},
                }
                doublesided = slot.find("$mat.twosided");
            },
            None => {},
        }
        // the base-color texture, with the diffuse one as fallback
        let mut tex_data: Option<&TextureData> = None;
        let mut ti: usize = 0;
        while ti < textures.len()
            decreases textures@.len() - ti,
        {
            if textures[ti].0 == TEX_KIND_BASE_COLOR {
                tex_data = Some(&textures[ti].1);
            }
            ti = ti + 1;
        }
        if tex_data.is_none() {
            let mut tj: usize = 0;
            while tj < textures.len()
                decreases textures@.len() - tj,
            {
                if textures[tj].0 == TEX_KIND_DIFFUSE && tex_data.is_none() {
                    tex_data = Some(&textures[tj].1);
                }
                tj = tj + 1;
            }
        }
        let tex_props = match props.by_type(TEX_KIND_BASE_COLOR) {
            Some(p) => Some(p),
            None => props.by_type(TEX_KIND_DIFFUSE),
        };
        let base_color_texture = self.build_texture(tex_props, tex_data, ops);
        let m = IntermediateMat { name, base_color, metallic, roughness, doublesided, base_color_texture };
        proof {
            if has_slot(mat.properties@, TEX_KIND_NONE) {
                if !(slot_lookup(slot0, "$clr.base"@) matches Some(MatPropValue::Scalars(_))) && !(
                slot_lookup(slot0, "$clr.diffuse"@) matches Some(MatPropValue::Scalars(_))) {
                    assert(m.base_color@ =~= seq![
                        crate::bits::ONE_BITS,
                        crate::bits::ONE_BITS,
                        crate::bits::ONE_BITS,
                        crate::bits::ONE_BITS,
                    ]);
                }
                assert(material_matches(m, slot0));
            } else {
                assert(m.base_color@ =~= seq![
                    crate::bits::ONE_BITS,
                    crate::bits::ONE_BITS,
                    crate::bits::ONE_BITS,
                    crate::bits::ONE_BITS,
                ]);
            }
        }
        self.mats.push(m);
        proof {
            assert(final(self).wf());
            assert(final(self).mats@ =~= old(self).mats@.push(final(self).mats@.last()));
        }
    }

    /// Add one mesh: attribute lists fill the vertex buffer positionally,
    /// texture coordinates and colors quantized; triangles whose corners
    /// lie outside the vertex buffer are dropped.
    pub fn consume_mesh<O: ScalarOps>(&mut self, mesh: MeshData, ops: &mut O)
        requires
            old(self).wf(),
            (mesh.material_index as int) < old(self).mats@.len(),
        ensures
            final(self).wf(),
            final(self).meshes@ == old(self).meshes@.push(final(self).meshes@.last()),
            mesh_matches(final(self).meshes@.last(), mesh),
            final(self).mats == old(self).mats,
            final(self).nodes == old(self).nodes,
            final(self).published == old(self).published,
            final(self).images == old(self).images,
            final(self).samplers == old(self).samplers,
            final(self).textures == old(self).textures,
    {
        let MeshData { material_index, vertices, normals, tangents, texture_coords, colors, faces } =
            mesh;
        let mut verts: Vec<VertexData> = Vec::new();
        let mut i: usize = 0;
        while i < vertices.len()
            invariant
                verts@.len() == i,
                i <= vertices@.len(),
                forall|k: int|
                    0 <= k < i ==> (#[trigger] verts@[k]).position == vertices@[k],
                forall|k: int|
                    0 <= k < i ==> (#[trigger] verts@[k]).normal@ == (if k < normals@.len() {
                        normals@[k]@
                    } else {
                        seq![0u32, 0u32, 0u32]
                    }),
                forall|k: int|
                    0 <= k < i ==> (#[trigger] verts@[k]).tangent@ == (if k < tangents@.len() {
                        tangents@[k]@
                    } else {
                        seq![0u32, 0u32, 0u32]
                    }),
                forall|k: int|
                    0 <= k < i && (texture_coords is None || texture_coords->0@.len() <= k) ==> (
                    #[trigger] verts@[k]).texture@ == seq![0u16, 0u16],
                forall|k: int|
                    0 <= k < i && (colors is None || colors->0@.len() <= k) ==> (
                    #[trigger] verts@[k]).color@ == seq![255u8, 255u8, 255u8, 255u8],
            decreases vertices@.len() - i,
        {
            let mut v = VertexData::zeroed();
            v.position = vertices[i];
            if i < normals.len() {
                v.normal = normals[i];
            }
            if i < tangents.len() {
                v.tangent = tangents[i];
            }
            match &texture_coords {
                Some(list) => {
                    if i < list.len() {
                        v.texture = [ops.quantize_u16(list[i][0]), ops.quantize_u16(list[i][1])];
                    }
                },
                None => {},
            }
            match &colors {
                Some(list) => {
                    if i < list.len() {
                        v.color = [
                            ops.quantize_u8(list[i][0]),
                            ops.quantize_u8(list[i][1]),
                            ops.quantize_u8(list[i][2]),
                            ops.quantize_u8(list[i][3]),
                        ];
                    }
                },
                None => {},
            }
            proof {
                if i >= normals@.len() {
                    assert(v.normal@ =~= seq![0u32, 0u32, 0u32]);
                }
                if i >= tangents@.len() {
                    assert(v.tangent@ =~= seq![0u32, 0u32, 0u32]);
                }
                if texture_coords is None || texture_coords->0@.len() <= i {
                    assert(v.texture@ =~= seq![0u16, 0u16]);
                }
                if colors is None || colors->0@.len() <= i {
                    assert(v.color@ =~= seq![255u8, 255u8, 255u8, 255u8]);
                }
            }
            verts.push(v);
            i = i + 1;
        }
        let mut new_faces: Vec<[u32; 3]> = Vec::new();
        let mut k: usize = 0;
        proof {
            assert(faces@.subrange(0, 0) =~= Seq::<Vec<u32>>::empty());
        }
        while k < faces.len()
            invariant
                k <= faces@.len(),
                verts@.len() == vertices@.len(),
                forall|q: int, w: int|
                    #![trigger new_faces@[q]@[w]]
                    0 <= q < new_faces@.len() && 0 <= w < 3 ==> (new_faces@[q]@[w] as int)
                        < verts@.len(),
                new_faces@.map_values(|a: [u32; 3]| a@) == kept_faces(
                    faces@.subrange(0, k as int),
                    verts@.len() as int,
                ),
            decreases faces@.len() - k,
        {
            let ghost pre = faces@.subrange(0, k as int);
            let ghost cur = faces@.subrange(0, k + 1);
            proof {
                assert(cur.drop_last() =~= pre);
                assert(cur.last() == faces@[k as int]);
            }
            let mut nf: [u32; 3] = [0u32, 0u32, 0u32];
            crate::fill_array(&faces[k], &mut nf);
            proof {
                assert(nf@ =~= spec_face3(faces@[k as int]@));
            }
            let ok = (nf[0] as usize) < verts.len() && (nf[1] as usize) < verts.len() && (nf[2]
                as usize) < verts.len();
            if ok {
                proof {
                    assert forall|w: int| 0 <= w < 3 implies ((#[trigger] nf@[w]) as int)
                        < verts@.len() by {
                        assert(nf@[0] == nf[0] && nf@[1] == nf[1] && nf@[2] == nf[2]);
                    }
                }
                new_faces.push(nf);
                proof {
                    assert(new_faces@.map_values(|a: [u32; 3]| a@) =~= kept_faces(
                        cur,
                        verts@.len() as int,
                    ));
                }
            } else {
                proof {
                    assert(nf@[0] == nf[0] && nf@[1] == nf[1] && nf@[2] == nf[2]);
                    assert(new_faces@.map_values(|a: [u32; 3]| a@) =~= kept_faces(
                        cur,
                        verts@.len() as int,
                    ));
                }
            }
            k = k + 1;
        }
        proof {
            assert(faces@.subrange(0, faces@.len() as int) =~= faces@);
        }
        let m = IntermediateMesh { material: material_index, verts, indices: new_faces };
        proof {
            assert(m.wf());
            assert(mesh_matches(m, mesh));
            match self.nodes {
                Some(ref n) => {
                    lemma_node_wf_mono(*n, self.meshes@.len() as nat, (self.meshes@.len() + 1) as nat);
                },
                None => {},
            }
        }
        self.meshes.push(m);
        proof {
            assert(final(self).wf());
        }
    }

    /// Add every material of the decoded scene, in order.
    pub fn consume_materials<O: ScalarOps>(&mut self, materials: Vec<MaterialData>, ops: &mut O)
        requires
            old(self).wf(),
            old(self).images@.len() + materials@.len() < 0xffff_ffff,
            old(self).samplers@.len() + materials@.len() < 0xffff_ffff,
            old(self).textures@.len() + materials@.len() < 0xffff_ffff,
        ensures
            final(self).wf(),
            final(self).mats@.len() == old(self).mats@.len() + materials@.len(),
            forall|k: int|
                0 <= k < materials@.len() ==> built_material_matches(
                    #[trigger] final(self).mats@[old(self).mats@.len() + k],
                    materials@[k],
                ),
            final(self).meshes == old(self).meshes,
            final(self).nodes == old(self).nodes,
            final(self).published == old(self).published,
    {
        let mut materials = materials;
        let ghost gm = materials@;
        let ghost n = materials@.len();
        let mut i: usize = 0;
        while i < materials.len()
            invariant
                i <= materials@.len(),
                materials@.len() == n,
                gm.len() == n,
                forall|q: int| i <= q < n ==> materials@[q] == gm[q],
                self.wf(),
                self.mats@.len() == old(self).mats@.len() + i,
                forall|k: int|
                    0 <= k < i ==> built_material_matches(
                        #[trigger] self.mats@[old(self).mats@.len() + k],
                        gm[k],
                    ),
                self.images@.len() <= old(self).images@.len() + i,
                self.samplers@.len() <= old(self).samplers@.len() + i,
                self.textures@.len() <= old(self).textures@.len() + i,
                old(self).images@.len() + n < 0xffff_ffff,
                old(self).samplers@.len() + n < 0xffff_ffff,
                old(self).textures@.len() + n < 0xffff_ffff,
                self.meshes == old(self).meshes,
                self.nodes == old(self).nodes,
                self.published == old(self).published,
            decreases materials@.len() - i,
        {
            let mut mat = MaterialData { properties: Vec::new(), textures: Vec::new() };
            core::mem::swap(&mut mat, &mut materials[i]);
            proof {
                assert(mat == gm[i as int]);
            }
            self.build_material(mat, ops);
            i = i + 1;
        }
    }

    /// Add every mesh of the decoded scene whose material reference is in
    /// range; a mesh with a dangling material reference is skipped.
    pub fn consume_meshs<O: ScalarOps>(&mut self, meshes: Vec<MeshData>, ops: &mut O)
        requires
            old(self).wf(),
        ensures
            final(self).wf(),
            final(self).mats == old(self).mats,
            final(self).nodes == old(self).nodes,
            final(self).published == old(self).published,
            final(self).meshes@.len() >= old(self).meshes@.len(),
            meshes_match(
                final(self).meshes@.skip(old(self).meshes@.len() as int),
                meshes@,
                old(self).mats@.len() as int,
            ),
    {
        let mut meshes = meshes;
        let ghost gm = meshes@;
        let ghost base = old(self).meshes@.len() as int;
        let mut i: usize = 0;
        proof {
            assert(gm.subrange(0, 0) =~= Seq::<MeshData>::empty());
            assert(self.meshes@.skip(base) =~= Seq::<IntermediateMesh>::empty());
        }
        while i < meshes.len()
            invariant
                i <= meshes@.len(),
                meshes@.len() == gm.len(),
                forall|q: int| i <= q < gm.len() ==> meshes@[q] == gm[q],
                self.wf(),
                self.mats == old(self).mats,
                self.nodes == old(self).nodes,
                self.published == old(self).published,
                base == old(self).meshes@.len() as int,
                self.meshes@.len() >= base,
                meshes_match(
                    self.meshes@.skip(base),
                    gm.subrange(0, i as int),
                    old(self).mats@.len() as int,
                ),
            decreases meshes@.len() - i,
        {
            let ghost pre = gm.subrange(0, i as int);
            let ghost cur = gm.subrange(0, i + 1);
            proof {
                assert(cur.drop_last() =~= pre);
                assert(cur.last() == gm[i as int]);
            }
            let mut mesh = MeshData {
                material_index: 0,
                vertices: Vec::new(),
                normals: Vec::new(),
                tangents: Vec::new(),
                texture_coords: None,
                colors: None,
                faces: Vec::new(),
            };
            core::mem::swap(&mut mesh, &mut meshes[i]);
            proof {
                assert(mesh == gm[i as int]);
            }
            if (mesh.material_index as usize) < self.mats.len() {
                let ghost before = self.meshes@;
                self.consume_mesh(mesh, ops);
                proof {
                    assert(self.meshes@.skip(base).drop_last() =~= before.skip(base));
                    assert(self.meshes@.skip(base).last() == self.meshes@.last());
                    assert(meshes_match(
                        self.meshes@.skip(base),
                        cur,
                        old(self).mats@.len() as int,
                    ));
                }
            } else {
                proof {
                    assert(meshes_match(
                        self.meshes@.skip(base),
                        cur,
                        old(self).mats@.len() as int,
                    ));
                }
            }
            i = i + 1;
        }
        proof {
            assert(gm.subrange(0, gm.len() as int) =~= gm);
        }
    }

    /// Consume a whole decoded scene: materials first, since meshes
    /// reference them, then meshes, then the node tree.
    pub fn consume<O: ScalarOps>(&mut self, scene: SceneData, ops: &mut O)
        requires
            old(self).wf(),
            old(self).images@.len() + scene.materials@.len() < 0xffff_ffff,
            old(self).samplers@.len() + scene.materials@.len() < 0xffff_ffff,
            old(self).textures@.len() + scene.materials@.len() < 0xffff_ffff,
            scene.root is Some,
        ensures
            final(self).wf(),
            final(self).mats@.len() == old(self).mats@.len() + scene.materials@.len(),
            forall|k: int|
                0 <= k < scene.materials@.len() ==> built_material_matches(
                    #[trigger] final(self).mats@[old(self).mats@.len() + k],
                    scene.materials@[k],
                ),
            meshes_match(
                final(self).meshes@.skip(old(self).meshes@.len() as int),
                scene.meshes@,
                old(self).mats@.len() as int + scene.materials@.len() as int,
            ),
            final(self).nodes matches Some(rn) && node_matches(
                rn,
                scene.root->0,
                final(self).meshes@.len() as int,
            ),
    {
        let SceneData { materials, meshes, root } = scene;
        self.consume_materials(materials, ops);
        self.consume_meshs(meshes, ops);
        match root {
            Some(r) => {
                let node = recurse_node(&r, self.meshes.len());
                self.nodes = Some(node);
                proof {
                    assert(final(self).wf());
                }
            },
            None => {
                proof {
                    assert(false);
                }
            },
        }
    }
}

/// Import a decoded scene of the generic mesh-import library. A scene
/// without a root node is invalid input.
pub fn import_file<O: ScalarOps>(scene: SceneData, ops: &mut O) -> (r: Result<
    IntermediateScene,
    ImportError,
>)
    requires
        scene.materials@.len() < 0xffff_fffe,
    ensures
        scene.root is None <==> r is Err,
        r matches Ok(s) ==> {
            &&& s.wf()
            &&& s.mats@.len() == scene.materials@.len()
            &&& forall|k: int|
                0 <= k < scene.materials@.len() ==> built_material_matches(
                    #[trigger] s.mats@[k],
                    scene.materials@[k],
                )
            &&& meshes_match(s.meshes@, scene.meshes@, scene.materials@.len() as int)
            &&& s.nodes matches Some(rn) && node_matches(rn, scene.root->0, s.meshes@.len() as int)
        },
{
    if scene.root.is_none() {
        return Err(ImportError::UnableToImport("the scene has no root node".to_owned()));
    }
    let mut intermediate = IntermediateScene::empty();
    intermediate.consume(scene, ops);
    proof {
        assert(intermediate.meshes@.skip(0) =~= intermediate.meshes@);
        assert forall|k: int| 0 <= k < scene.materials@.len() implies built_material_matches(
            #[trigger] intermediate.mats@[k],
            scene.materials@[k],
        ) by {
            assert(built_material_matches(intermediate.mats@[0 + k], scene.materials@[k]));
        }
    }
    Ok(intermediate)
}

} // verus!
