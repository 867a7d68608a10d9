//! The intermediate scene: the format-agnostic result of parsing one file,
//! prior to any protocol registration.
//!
//! Every index stored in one of these records refers into one of the sibling
//! arrays of the same scene; [`IntermediateScene::wf`] states that each such
//! reference is in range, importers only produce well-formed scenes, and the
//! converter requires one.

use vstd::prelude::*;

verus! {

/// Magnification filter of a texture sampler.
#[derive(Debug, Clone, Copy, PartialEq, Eq, Structural)]
pub enum MagFilter {
    Nearest,
    Linear,
}

/// Minification filter of a texture sampler.
#[derive(Debug, Clone, Copy, PartialEq, Eq, Structural)]
pub enum MinFilter {
    Nearest,
    Linear,
    LinearMipmapLinear,
}

/// Wrapping mode of a texture sampler.
#[derive(Debug, Clone, Copy, PartialEq, Eq, Structural)]
pub enum SamplerMode {
    Clamp,
    MirrorRepeat,
    Repeat,
}

/// One vertex with the full attribute set. Positions, normals and tangents
/// are single-precision bit patterns; texture coordinates and colors are
/// quantized for wire-size economy.
#[derive(Debug, Clone, Copy)]
pub struct VertexData {
    pub position: [u32; 3],
    pub normal: [u32; 3],
    pub tangent: [u32; 3],
    pub texture: [u16; 2],
    pub color: [u8; 4],
}

impl VertexData {
    /// The default vertex: everything zero but for an opaque white color.
    pub fn zeroed() -> (v: VertexData)
        ensures
            v == (VertexData {
                position: [0u32, 0u32, 0u32],
                normal: [0u32, 0u32, 0u32],
                tangent: [0u32, 0u32, 0u32],
                texture: [0u16, 0u16],
                color: [255u8, 255u8, 255u8, 255u8],
            }),
    {
        VertexData {
            position: [0u32, 0u32, 0u32],
            normal: [0u32, 0u32, 0u32],
            tangent: [0u32, 0u32, 0u32],
            texture: [0u16, 0u16],
            color: [255u8, 255u8, 255u8, 255u8],
        }
    }
}

/// One mesh: a vertex buffer, triangle indices into it, and the index of
/// the material the mesh is rendered with.
#[derive(Debug)]
pub struct IntermediateMesh {
    pub material: u32,
    pub verts: Vec<VertexData>,
    pub indices: Vec<[u32; 3]>,
}

impl IntermediateMesh {
    /// Every triangle refers to vertices of this mesh.
    pub open spec fn wf(self) -> bool {
        forall|i: int, k: int|
            0 <= i < self.indices@.len() && 0 <= k < 3 ==> (self.indices@[i]@[k] as int)
                < self.verts@.len()
    }
}

/// One image, as the raw bytes of an encoded picture file.
#[derive(Debug)]
pub struct IntermediateImage {
    pub bytes: Vec<u8>,
}

/// One texture: an image index and an optional sampler index.
#[derive(Debug, Clone, Copy, PartialEq, Eq, Structural)]
pub struct IntermediateTexture {
    pub image: u32,
    pub sampler: Option<u32>,
}

/// One material. Color and the two scalar factors are single-precision bit
/// patterns.
#[derive(Debug, Clone)]
pub struct IntermediateMat {
    pub name: Option<String>,
    pub base_color: [u32; 4],
    pub metallic: u32,
    pub roughness: u32,
    pub doublesided: bool,
    pub base_color_texture: Option<u32>,
}

/// One node of the scene hierarchy: mesh indices attached at this level and
/// child nodes below it.
#[derive(Debug)]
pub struct IntermediateNode {
    pub name: String,
    pub meshes: Vec<u32>,
    pub children: Vec<IntermediateNode>,
}

/// One texture sampler.
#[derive(Debug, Clone)]
pub struct IntermediateSampler {
    pub name: Option<String>,
    pub mag_filter: Option<MagFilter>,
    pub min_filter: Option<MinFilter>,
    pub wrap_s: Option<SamplerMode>,
    pub wrap_t: Option<SamplerMode>,
}

/// The parse result of one file.
#[derive(Debug)]
pub struct IntermediateScene {
    pub published: Vec<u128>,
    pub images: Vec<IntermediateImage>,
    pub samplers: Vec<IntermediateSampler>,
    pub textures: Vec<IntermediateTexture>,
    pub mats: Vec<IntermediateMat>,
    pub meshes: Vec<IntermediateMesh>,
    pub nodes: Option<IntermediateNode>,
}

/// Every mesh index reachable from `n` refers into a mesh array of length
/// `n_meshes`.
pub open spec fn node_wf(n: IntermediateNode, n_meshes: nat) -> bool
    decreases n,
{
    &&& forall|i: int| 0 <= i < n.meshes@.len() ==> (n.meshes@[i] as nat) < n_meshes
    &&& forall|i: int| 0 <= i < n.children@.len() ==> node_wf(n.children@[i], n_meshes)
}

impl IntermediateScene {
    /// Every stored index is in range: textures refer to existing images and
    /// samplers, materials to existing textures, meshes to existing
    /// materials and their triangles to existing vertices, and nodes to
    /// existing meshes.
    pub open spec fn wf(self) -> bool {
        &&& forall|i: int|
            0 <= i < self.textures@.len() ==> (self.textures@[i].image as int)
                < self.images@.len()
        &&& forall|i: int|
            0 <= i < self.textures@.len() ==> match #[trigger] self.textures@[i].sampler {
                Some(s) => (s as int) < self.samplers@.len(),
                None => true,
            }
        &&& forall|i: int|
            0 <= i < self.mats@.len() ==> match #[trigger] self.mats@[i].base_color_texture {
                Some(t) => (t as int) < self.textures@.len(),
                None => true,
            }
        &&& forall|i: int|
            0 <= i < self.meshes@.len() ==> (self.meshes@[i].material as int) < self.mats@.len()
        &&& forall|i: int| 0 <= i < self.meshes@.len() ==> self.meshes@[i].wf()
        &&& match self.nodes {
            Some(n) => node_wf(n, self.meshes@.len() as nat),
            None => true,
        }
    }

    /// An empty scene, well formed and with no root node.
    pub fn empty() -> (s: IntermediateScene)
        ensures
            s.wf(),
            s.published@.len() == 0,
            s.images@.len() == 0,
            s.samplers@.len() == 0,
            s.textures@.len() == 0,
            s.mats@.len() == 0,
            s.meshes@.len() == 0,
            s.nodes is None,
    {
        IntermediateScene {
            published: Vec::new(),
            images: Vec::new(),
            samplers: Vec::new(),
            textures: Vec::new(),
            mats: Vec::new(),
            meshes: Vec::new(),
            nodes: None,
        }
    }
}

} // verus!
