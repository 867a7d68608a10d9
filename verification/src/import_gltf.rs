//! Import a glTF container.
//!
//! The container crate does the file reading and decoding; the embedding
//! program lowers what it returns into the plain-value document model
//! below, and the conversion here — the logic of the importer — turns that
//! document into an ordered registration plan: buffers (each hosted under
//! a fresh asset id), buffer views, images, samplers, textures, materials,
//! geometries, and finally one entity per node with its flattened
//! transform, parents always registered before their children. Every
//! GPU-facing enumeration is translated by an explicit total mapping;
//! unmappable combinations are skipped, never a hard failure.

use crate::ids;
use crate::intermediate::{MagFilter, MinFilter, SamplerMode};
use vstd::prelude::*;

verus! {

/// A minification filter as the container format names them.
#[derive(Debug, Clone, Copy, PartialEq, Eq, Structural)]
pub enum GlMinFilter {
    Nearest,
    Linear,
    NearestMipmapNearest,
    LinearMipmapNearest,
    NearestMipmapLinear,
    LinearMipmapLinear,
}

impl GlMinFilter {
    /// The protocol-model minification filter this value maps to.
    pub fn into_noodles(self) -> (r: MinFilter)
        ensures
            r == match self {
                GlMinFilter::Nearest => MinFilter::Nearest,
                GlMinFilter::Linear => MinFilter::Linear,
                _ => MinFilter::LinearMipmapLinear,
            },
    {
        match self {
            GlMinFilter::Nearest => MinFilter::Nearest,
            GlMinFilter::Linear => MinFilter::Linear,
            _ => MinFilter::LinearMipmapLinear,
        }
    }
}

/// A magnification filter as the container format names them.
#[derive(Debug, Clone, Copy, PartialEq, Eq, Structural)]
pub enum GlMagFilter {
    Nearest,
    Linear,
}

impl GlMagFilter {
    /// The protocol-model magnification filter this value maps to.
    pub fn into_noodles(self) -> (r: MagFilter)
        ensures
            r == match self {
                GlMagFilter::Nearest => MagFilter::Nearest,
                GlMagFilter::Linear => MagFilter::Linear,
            },
    {
        match self {
            GlMagFilter::Nearest => MagFilter::Nearest,
            GlMagFilter::Linear => MagFilter::Linear,
        }
    }
}

/// A wrapping mode as the container format names them.
#[derive(Debug, Clone, Copy, PartialEq, Eq, Structural)]
pub enum GlWrappingMode {
    ClampToEdge,
    MirroredRepeat,
    Repeat,
}

impl GlWrappingMode {
    /// The protocol-model sampler mode this value maps to.
    pub fn into_noodles(self) -> (r: SamplerMode)
        ensures
            r == match self {
                GlWrappingMode::ClampToEdge => SamplerMode::Clamp,
                GlWrappingMode::MirroredRepeat => SamplerMode::MirrorRepeat,
                GlWrappingMode::Repeat => SamplerMode::Repeat,
            },
    {
        match self {
            GlWrappingMode::ClampToEdge => SamplerMode::Clamp,
            GlWrappingMode::MirroredRepeat => SamplerMode::MirrorRepeat,
            GlWrappingMode::Repeat => SamplerMode::Repeat,
        }
    }
}

/// An attribute semantic of the protocol model.
#[derive(Debug, Clone, Copy, PartialEq, Eq, Structural)]
pub enum AttributeSemantic {
    Position,
    Normal,
    Tangent,
    Color,
    Texture,
}

/// A vertex attribute semantic as the container format names them.
#[derive(Debug, Clone, PartialEq, Eq, Structural)]
pub enum GlSemantic {
    Positions,
    Normals,
    Tangents,
    Colors(u32),
    TexCoords(u32),
    Joints(u32),
    Weights(u32),
}

/// What a container semantic maps to: a protocol semantic and its channel,
/// or nothing for the semantics the protocol model does not carry.
pub open spec fn spec_semantic(s: GlSemantic) -> Option<(AttributeSemantic, Option<u32>)> {
    match s {
        GlSemantic::Positions => Some((AttributeSemantic::Position, None)),
        GlSemantic::Normals => Some((AttributeSemantic::Normal, None)),
        GlSemantic::Tangents => Some((AttributeSemantic::Tangent, None)),
        GlSemantic::Colors(x) => Some((AttributeSemantic::Color, Some(x))),
        GlSemantic::TexCoords(x) => Some((AttributeSemantic::Texture, Some(x))),
        _ => None,
    }
}

impl GlSemantic {
    /// The protocol-model semantic and channel this value maps to.
    pub fn into_noodles(&self) -> (r: Option<(AttributeSemantic, Option<u32>)>)
        ensures
            r == spec_semantic(*self),
    {
        match self {
            GlSemantic::Positions => Some((AttributeSemantic::Position, None)),
            GlSemantic::Normals => Some((AttributeSemantic::Normal, None)),
            GlSemantic::Tangents => Some((AttributeSemantic::Tangent, None)),
            GlSemantic::Colors(x) => Some((AttributeSemantic::Color, Some(*x))),
            GlSemantic::TexCoords(x) => Some((AttributeSemantic::Texture, Some(*x))),
            _ => None,
        }
    }
}

/// A primitive topology of the protocol model.
#[derive(Debug, Clone, Copy, PartialEq, Eq, Structural)]
pub enum PrimitiveType {
    Points,
    Lines,
    LineStrip,
    Triangles,
    TriangleStrip,
}

/// A primitive topology as the container format names them.
#[derive(Debug, Clone, Copy, PartialEq, Eq, Structural)]
pub enum GlMode {
    Points,
    Lines,
    LineLoop,
    LineStrip,
    Triangles,
    TriangleStrip,
    TriangleFan,
}

/// What a container topology maps to; loops and fans have no protocol
/// equivalent.
pub open spec fn spec_mode(m: GlMode) -> Option<PrimitiveType> {
    match m {
        GlMode::Points => Some(PrimitiveType::Points),
        GlMode::Lines => Some(PrimitiveType::Lines),
        GlMode::LineLoop => None,
        GlMode::LineStrip => Some(PrimitiveType::LineStrip),
        GlMode::Triangles => Some(PrimitiveType::Triangles),
        GlMode::TriangleStrip => Some(PrimitiveType::TriangleStrip),
        GlMode::TriangleFan => None,
    }
}

impl GlMode {
    /// The protocol-model topology this value maps to.
    pub fn into_noodles(self) -> (r: Option<PrimitiveType>)
        ensures
            r == spec_mode(self),
    {
        match self {
            GlMode::Points => Some(PrimitiveType::Points),
            GlMode::Lines => Some(PrimitiveType::Lines),
            GlMode::LineLoop => None,
            GlMode::LineStrip => Some(PrimitiveType::LineStrip),
            GlMode::Triangles => Some(PrimitiveType::Triangles),
            GlMode::TriangleStrip => Some(PrimitiveType::TriangleStrip),
            GlMode::TriangleFan => None,
        }
    }
}

/// An attribute format of the protocol model.
#[derive(Debug, Clone, Copy, PartialEq, Eq, Structural)]
pub enum Format {
    U8,
    U8Vec4,
    U16,
    U16Vec2,
    U32,
    Vec2,
    Vec3,
    Vec4,
    Mat3,
    Mat4,
}

/// An accessor component type as the container format names them.
#[derive(Debug, Clone, Copy, PartialEq, Eq, Structural)]
pub enum GlDataType {
    I8,
    U8,
    I16,
    U16,
    U32,
    F32,
}

/// An accessor dimensionality as the container format names them.
#[derive(Debug, Clone, Copy, PartialEq, Eq, Structural)]
pub enum GlDimensions {
    Scalar,
    Vec2,
    Vec3,
    Vec4,
    Mat2,
    Mat3,
    Mat4,
}

/// A buffer view reference of an accessor.
#[derive(Debug, Clone, Copy, PartialEq, Eq, Structural)]
pub struct ViewRef {
    /// Index of the buffer view.
    pub index: u32,
    /// Stride between elements, when the view is interleaved.
    pub stride: Option<u32>,
}

/// One accessor: where its data lies and how it is typed.
#[derive(Debug, Clone, Copy, PartialEq, Eq, Structural)]
pub struct AccessorData {
    pub data_type: GlDataType,
    pub dimensions: GlDimensions,
    pub count: u32,
    pub offset: u32,
    pub view: Option<ViewRef>,
    pub normalized: bool,
}

/// What an accessor's component type and dimensionality map to; every
/// other combination is unmappable.
pub open spec fn spec_format(a: AccessorData) -> Option<Format> {
    match (a.data_type, a.dimensions) {
        (GlDataType::U8, GlDimensions::Scalar) => Some(Format::U8),
        (GlDataType::U8, GlDimensions::Vec4) => Some(Format::U8Vec4),
        (GlDataType::U16, GlDimensions::Scalar) => Some(Format::U16),
        (GlDataType::U16, GlDimensions::Vec2) => Some(Format::U16Vec2),
        (GlDataType::U32, GlDimensions::Scalar) => Some(Format::U32),
        (GlDataType::F32, GlDimensions::Vec2) => Some(Format::Vec2),
        (GlDataType::F32, GlDimensions::Vec3) => Some(Format::Vec3),
        (GlDataType::F32, GlDimensions::Vec4) => Some(Format::Vec4),
        (GlDataType::F32, GlDimensions::Mat3) => Some(Format::Mat3),
        (GlDataType::F32, GlDimensions::Mat4) => Some(Format::Mat4),
        _ => None,
    }
}

impl AccessorData {
    /// The protocol-model attribute format this accessor maps to.
    pub fn into_noodles(&self) -> (r: Option<Format>)
        ensures
            r == spec_format(*self),
    {
        match (self.data_type, self.dimensions) {
            (GlDataType::U8, GlDimensions::Scalar) => Some(Format::U8),
            (GlDataType::U8, GlDimensions::Vec4) => Some(Format::U8Vec4),
            (GlDataType::U16, GlDimensions::Scalar) => Some(Format::U16),
            (GlDataType::U16, GlDimensions::Vec2) => Some(Format::U16Vec2),
            (GlDataType::U32, GlDimensions::Scalar) => Some(Format::U32),
            (GlDataType::F32, GlDimensions::Vec2) => Some(Format::Vec2),
            (GlDataType::F32, GlDimensions::Vec3) => Some(Format::Vec3),
            (GlDataType::F32, GlDimensions::Vec4) => Some(Format::Vec4),
            (GlDataType::F32, GlDimensions::Mat3) => Some(Format::Mat3),
            (GlDataType::F32, GlDimensions::Mat4) => Some(Format::Mat4),
            (_, _) => None,
        }
    }
}

/// One registered geometry attribute.
#[derive(Debug, Clone, Copy, PartialEq, Eq, Structural)]
pub struct GeometryAttributePlan {
    pub view: u32,
    pub semantic: AttributeSemantic,
    pub channel: Option<u32>,
    pub offset: u32,
    pub stride: Option<u32>,
    pub format: Format,
    pub normalized: bool,
}

/// One registered index buffer.
#[derive(Debug, Clone, Copy, PartialEq, Eq, Structural)]
pub struct GeometryIndexPlan {
    pub view: u32,
    pub count: u32,
    pub offset: u32,
    pub stride: Option<u32>,
    pub format: Format,
}

/// One registered geometry patch.
#[derive(Debug)]
pub struct GeometryPatchPlan {
    pub attributes: Vec<GeometryAttributePlan>,
    pub vertex_count: u32,
    pub indices: Option<GeometryIndexPlan>,
    pub patch_type: PrimitiveType,
    pub material: u32,
}

/// One primitive of a mesh: its attributes, optional indices, topology and
/// optional material index.
#[derive(Debug)]
pub struct PrimData {
    pub attributes: Vec<(GlSemantic, AccessorData)>,
    pub indices: Option<AccessorData>,
    pub mode: GlMode,
    pub material: Option<u32>,
}

/// What one attribute of a primitive contributes to the patch: nothing
/// when its semantic or its format is unmappable or it has no view, and
/// the registered attribute otherwise.
pub open spec fn spec_attr_plan(sem: GlSemantic, acc: AccessorData) -> Option<
    GeometryAttributePlan,
> {
    match (spec_semantic(sem), spec_format(acc), acc.view) {
        (Some((n_sem, n_slot)), Some(fmt), Some(v)) => Some(
            GeometryAttributePlan {
                view: v.index,
                semantic: n_sem,
                channel: n_slot,
                offset: acc.offset,
                stride: v.stride,
                format: fmt,
                normalized: acc.normalized,
            },
        ),
        _ => None,
    }
}

/// The attribute plans of a primitive's attributes, in order, unmappable
/// ones skipped.
pub open spec fn spec_attr_plans(ats: Seq<(GlSemantic, AccessorData)>) -> Seq<
    GeometryAttributePlan,
>
    decreases ats.len(),
{
    if ats.len() == 0 {
        Seq::empty()
    } else {
        spec_attr_plans(ats.drop_last()) + (match spec_attr_plan(ats.last().0, ats.last().1) {
            Some(p) => seq![p],
            None => Seq::empty(),
        })
    }
}

/// The vertex count of the last position attribute, when one is present.
pub open spec fn spec_pos_count(ats: Seq<(GlSemantic, AccessorData)>) -> Option<u32>
    decreases ats.len(),
{
    if ats.len() == 0 {
        None
    } else if ats.last().0 is Positions {
        Some(ats.last().1.count)
    } else {
        spec_pos_count(ats.drop_last())
    }
}

/// What a primitive's indices contribute: nothing when the primitive is
/// unindexed, its accessor has no view, or its format is unmappable.
pub open spec fn spec_index_plan(ind: Option<AccessorData>) -> Option<GeometryIndexPlan> {
    match ind {
        None => None,
        Some(acc) => match (acc.view, spec_format(acc)) {
            (Some(v), Some(fmt)) => Some(
                GeometryIndexPlan {
                    view: v.index,
                    count: acc.count,
                    offset: acc.offset,
                    stride: v.stride,
                    format: fmt,
                },
            ),
            _ => None,
        },
    }
}

/// Convert one primitive to a geometry patch registration under the given
/// material. Only an unmappable topology refuses the whole primitive;
/// unmappable attributes and indices are skipped one by one, and the
/// vertex count is taken from the last position attribute.
pub fn convert_geometry_patch(prim: &PrimData, mat: u32) -> (r: Option<GeometryPatchPlan>)
    ensures
        r is None <==> spec_mode(prim.mode) is None,
        r matches Some(p) ==> {
            &&& p.attributes@ == spec_attr_plans(prim.attributes@)
            &&& p.vertex_count == spec_pos_count(prim.attributes@).unwrap_or(0)
            &&& p.indices == spec_index_plan(prim.indices)
            &&& Some(p.patch_type) == spec_mode(prim.mode)
            &&& p.material == mat
        },
{
    let patch_type = match prim.mode.into_noodles() {
        Some(t) => t,
        None => {
            return None;
        },
    };
    let mut attrib: Vec<GeometryAttributePlan> = Vec::new();
    let mut pos_count: Option<u32> = None;
    let mut i: usize = 0;
    while i < prim.attributes.len()
        invariant
            i <= prim.attributes@.len(),
            attrib@ == spec_attr_plans(prim.attributes@.subrange(0, i as int)),
            pos_count == spec_pos_count(prim.attributes@.subrange(0, i as int)),
        decreases prim.attributes@.len() - i,
    {
        let ghost pre = prim.attributes@.subrange(0, i as int);
        let ghost cur = prim.attributes@.subrange(0, i + 1);
        proof {
            assert(cur.drop_last() =~= pre);
            assert(cur.last() == prim.attributes@[i as int]);
        }
        let (sem, acc) = (&prim.attributes[i].0, &prim.attributes[i].1);
        if matches!(sem, GlSemantic::Positions) {
            pos_count = Some(acc.count);
        }
        match sem.into_noodles() {
            None => {},
            Some((n_sem, n_slot)) => {
                match acc.into_noodles() {
                    None => {},
                    Some(fmt) => {
                        match &acc.view {
                            None => {},
                            Some(v) => {
                                attrib.push(
                                    GeometryAttributePlan {
                                        view: v.index,
                                        semantic: n_sem,
                                        channel: n_slot,
                                        offset: acc.offset,
                                        stride: v.stride,
                                        format: fmt,
                                        normalized: acc.normalized,
                                    },
                                );
                                proof {
                                    assert(attrib@ =~= spec_attr_plans(pre) + seq![
                                        spec_attr_plan(cur.last().0, cur.last().1)->0,
                                    ]);
                                }
                            },
                        }
                    },
                }
            },
        }
        proof {
            if spec_attr_plan(cur.last().0, cur.last().1) is None {
                assert(attrib@ =~= spec_attr_plans(pre) + Seq::<GeometryAttributePlan>::empty());
            }
        }
        i = i + 1;
    }
    proof {
        assert(prim.attributes@.subrange(0, prim.attributes@.len() as int) =~= prim.attributes@);
    }
    let n_index: Option<GeometryIndexPlan> = match &prim.indices {
        None => None,
        Some(acc) => {
            match &acc.view {
                None => None,
                Some(v) => {
                    match acc.into_noodles() {
                        None => None,
                        Some(fmt) => Some(
                            GeometryIndexPlan {
                                view: v.index,
                                count: acc.count,
                                offset: acc.offset,
                                stride: v.stride,
                                format: fmt,
                            },
                        ),
                    }
                },
            }
        },
    };
    let vertex_count = match pos_count {
        Some(c) => c,
        None => 0,
    };
    Some(GeometryPatchPlan { attributes: attrib, vertex_count, indices: n_index, patch_type, material: mat })
}

/// One buffer view of the document.
#[derive(Debug, Clone, Copy, PartialEq, Eq, Structural)]
pub struct GlView {
    pub buffer: u32,
    pub offset: u64,
}

/// Where an image's bytes come from.
#[derive(Debug, Clone)]
pub enum GlImageSource {
    /// A buffer view of the same document.
    View(u32),
    /// An external location.
    Uri(String),
}

/// One image of the document.
#[derive(Debug, Clone)]
pub struct GlImage {
    pub name: Option<String>,
    pub source: GlImageSource,
}

/// One sampler of the document.
#[derive(Debug, Clone)]
pub struct GlSampler {
    pub name: Option<String>,
    pub mag: Option<GlMagFilter>,
    pub min: Option<GlMinFilter>,
    pub wrap_s: GlWrappingMode,
    pub wrap_t: GlWrappingMode,
}

/// One texture of the document.
#[derive(Debug, Clone)]
pub struct GlTexture {
    pub name: Option<String>,
    pub source: u32,
    pub sampler: Option<u32>,
}

/// A texture reference with its coordinate slot.
#[derive(Debug, Clone, Copy, PartialEq, Eq, Structural)]
pub struct TexInfo {
    pub texture: u32,
    pub tex_coord: u32,
}

/// How a material blends.
#[derive(Debug, Clone, Copy, PartialEq, Eq, Structural)]
pub enum GlAlphaMode {
    Opaque,
    Mask,
    Blend,
}

/// One material of the document; scalar factors are single-precision bit
/// patterns.
#[derive(Debug, Clone)]
pub struct GlMaterial {
    pub name: Option<String>,
    pub base_color_factor: [u32; 4],
    pub base_color_texture: Option<TexInfo>,
    pub metallic: u32,
    pub roughness: u32,
    pub metallic_roughness_texture: Option<TexInfo>,
    pub normal_texture: Option<u32>,
    pub occlusion_texture: Option<u32>,
    pub emissive_texture: Option<TexInfo>,
    pub emissive_factor: [u32; 3],
    pub alpha_mode: GlAlphaMode,
    pub alpha_cutoff: Option<u32>,
    pub double_sided: bool,
}

/// One mesh of the document.
#[derive(Debug)]
pub struct GlMesh {
    pub name: Option<String>,
    pub primitives: Vec<PrimData>,
}

/// One node of the document: its transform as a row-major 4x4 matrix of
/// bit patterns, an optional mesh, and child node indices.
#[derive(Debug)]
pub struct NodeData {
    pub name: Option<String>,
    pub transform: [[u32; 4]; 4],
    pub mesh: Option<u32>,
    pub children: Vec<u32>,
}

/// A texture reference registration.
#[derive(Debug, Clone, Copy, PartialEq, Eq, Structural)]
pub struct TexRefPlan {
    pub texture: u32,
    pub slot: Option<u32>,
}

/// Build a texture reference from a texture reference of the document,
/// carrying its coordinate slot.
pub fn fetch_texture_by_info(info: &TexInfo) -> (r: TexRefPlan)
    ensures
        r == (TexRefPlan { texture: info.texture, slot: Some(info.tex_coord) }),
{
    TexRefPlan { texture: info.texture, slot: Some(info.tex_coord) }
}

/// Build a texture reference from a normal-texture reference; it carries
/// no coordinate slot.
pub fn fetch_normal_texture(texture: u32) -> (r: TexRefPlan)
    ensures
        r == (TexRefPlan { texture, slot: None }),
{
    TexRefPlan { texture, slot: None }
}

/// Build a texture reference from an occlusion-texture reference; it
/// carries no coordinate slot.
pub fn fetch_occ_texture(texture: u32) -> (r: TexRefPlan)
    ensures
        r == (TexRefPlan { texture, slot: None }),
{
    TexRefPlan { texture, slot: None }
}

/// One registered material.
#[derive(Debug, Clone)]
pub struct GlMaterialPlan {
    pub name: Option<String>,
    pub base_color: [u32; 4],
    pub base_color_texture: Option<TexRefPlan>,
    pub metallic: u32,
    pub roughness: u32,
    pub metal_rough_texture: Option<TexRefPlan>,
    pub normal_texture: Option<TexRefPlan>,
    pub occlusion_texture: Option<TexRefPlan>,
    pub emissive_texture: Option<TexRefPlan>,
    pub emissive_factor: [u32; 3],
    pub use_alpha: Option<bool>,
    pub alpha_cutoff: Option<u32>,
    pub double_sided: bool,
}

/// Whether a registered material mirrors a document material field by
/// field: masked and blended materials use alpha, and the cutoff is kept
/// exactly for masked ones.
pub open spec fn spec_material(m: GlMaterial, p: GlMaterialPlan) -> bool {
    &&& p.name == m.name
    &&& p.base_color == m.base_color_factor
    &&& p.base_color_texture == match m.base_color_texture {
        Some(t) => Some(TexRefPlan { texture: t.texture, slot: Some(t.tex_coord) }),
        None => None::<TexRefPlan>,
    }
    &&& p.metallic == m.metallic
    &&& p.roughness == m.roughness
    &&& p.metal_rough_texture == match m.metallic_roughness_texture {
        Some(t) => Some(TexRefPlan { texture: t.texture, slot: Some(t.tex_coord) }),
        None => None::<TexRefPlan>,
    }
    &&& p.normal_texture == match m.normal_texture {
        Some(t) => Some(TexRefPlan { texture: t, slot: None }),
        None => None::<TexRefPlan>,
    }
    &&& p.occlusion_texture == match m.occlusion_texture {
        Some(t) => Some(TexRefPlan { texture: t, slot: None }),
        None => None::<TexRefPlan>,
    }
    &&& p.emissive_texture == match m.emissive_texture {
        Some(t) => Some(TexRefPlan { texture: t.texture, slot: Some(t.tex_coord) }),
        None => None::<TexRefPlan>,
    }
    &&& p.emissive_factor == m.emissive_factor
    &&& p.use_alpha == match m.alpha_mode {
        GlAlphaMode::Opaque => None::<bool>,
        GlAlphaMode::Mask => Some(true),
        GlAlphaMode::Blend => Some(true),
    }
    &&& p.alpha_cutoff == match (m.alpha_cutoff, m.alpha_mode) {
        (None, _) => None::<u32>,
        (Some(_), GlAlphaMode::Opaque) => None::<u32>,
        (Some(x), GlAlphaMode::Mask) => Some(x),
        (Some(_), GlAlphaMode::Blend) => None::<u32>,
    }
    &&& p.double_sided == m.double_sided
}

/// Register one document material.
fn convert_material(m: &GlMaterial) -> (p: GlMaterialPlan)
    ensures
        spec_material(*m, p),
{
    GlMaterialPlan {
        name: m.name.clone(),
        base_color: m.base_color_factor,
        base_color_texture: match &m.base_color_texture {
            Some(t) => Some(fetch_texture_by_info(t)),
            None => None,
        },
        metallic: m.metallic,
        roughness: m.roughness,
        metal_rough_texture: match &m.metallic_roughness_texture {
            Some(t) => Some(fetch_texture_by_info(t)),
            None => None,
        },
        normal_texture: match &m.normal_texture {
            Some(t) => Some(fetch_normal_texture(*t)),
            None => None,
        },
        occlusion_texture: match &m.occlusion_texture {
            Some(t) => Some(fetch_occ_texture(*t)),
            None => None,
        },
        emissive_texture: match &m.emissive_texture {
            Some(t) => Some(fetch_texture_by_info(t)),
            None => None,
        },
        emissive_factor: m.emissive_factor,
        use_alpha: match m.alpha_mode {
            GlAlphaMode::Opaque => None,
            GlAlphaMode::Mask => Some(true),
            GlAlphaMode::Blend => Some(true),
        },
        alpha_cutoff: match (&m.alpha_cutoff, m.alpha_mode) {
            (None, _) => None,
            (Some(_), GlAlphaMode::Opaque) => None,
            (Some(x), GlAlphaMode::Mask) => Some(*x),
            (Some(_), GlAlphaMode::Blend) => None,
        },
        double_sided: m.double_sided,
    }
}

/// A default material for primitives that name none: white, fully
/// metallic, fully rough.
pub fn make_default_material() -> (p: GlMaterialPlan)
    ensures
        p.base_color@ == seq![
            crate::bits::ONE_BITS,
            crate::bits::ONE_BITS,
            crate::bits::ONE_BITS,
            crate::bits::ONE_BITS,
        ],
        p.metallic == crate::bits::ONE_BITS,
        p.roughness == crate::bits::ONE_BITS,
        p.base_color_texture is None,
{
    let p = GlMaterialPlan {
        name: Some("Default".to_owned()),
        base_color: [
            crate::bits::ONE_BITS,
            crate::bits::ONE_BITS,
            crate::bits::ONE_BITS,
            crate::bits::ONE_BITS,
        ],
        base_color_texture: None,
        metallic: crate::bits::ONE_BITS,
        roughness: crate::bits::ONE_BITS,
        metal_rough_texture: None,
        normal_texture: None,
        occlusion_texture: None,
        emissive_texture: None,
        emissive_factor: [0u32, 0u32, 0u32],
        use_alpha: None,
        alpha_cutoff: None,
        double_sided: false,
    };
    proof {
        assert(p.base_color@ =~= seq![
            crate::bits::ONE_BITS,
            crate::bits::ONE_BITS,
            crate::bits::ONE_BITS,
            crate::bits::ONE_BITS,
        ]);
    }
    p
}

/// The row-major flattening of a 4x4 matrix: source rows interleaved in
/// index order.
pub open spec fn spec_flatten(t: [[u32; 4]; 4]) -> Seq<u32> {
    Seq::new(16, |i: int| t@[i / 4]@[i % 4])
}

/// Flatten a node transform to the sixteen-scalar wire layout.
pub fn flatten_matrix(t: &[[u32; 4]; 4]) -> (r: [u32; 16])
    ensures
        r@ == spec_flatten(*t),
{
    let r = [
        t[0][0],
        t[0][1],
        t[0][2],
        t[0][3],
        t[1][0],
        t[1][1],
        t[1][2],
        t[1][3],
        t[2][0],
        t[2][1],
        t[2][2],
        t[2][3],
        t[3][0],
        t[3][1],
        t[3][2],
        t[3][3],
    ];
    proof {
        assert(r@ =~= spec_flatten(*t));
    }
    r
}

/// One registered entity of the node tree.
#[derive(Debug)]
pub struct GlEntityPlan {
    pub name: Option<String>,
    pub parent: Option<u32>,
    pub transform: [u32; 16],
    pub mesh: Option<u32>,
}

/// How many nodes have no entity yet.
pub open spec fn count_none(memo: Seq<Option<u32>>) -> nat
    decreases memo.len(),
{
    if memo.len() == 0 {
        0
    } else {
        count_none(memo.drop_last()) + (if memo.last() is None {
            1nat
        } else {
            0nat
        })
    }
}

/// Giving a node its entity lowers the count of unvisited nodes by one.
proof fn lemma_count_none_update(memo: Seq<Option<u32>>, i: int, e: u32)
    requires
        0 <= i < memo.len(),
        memo[i] is None,
    ensures
        count_none(memo.update(i, Some(e))) + 1 == count_none(memo),
    decreases memo.len(),
{
    if i == memo.len() - 1 {
        assert(memo.update(i, Some(e)).drop_last() =~= memo.drop_last());
    } else {
        assert(memo.update(i, Some(e)).drop_last() =~= memo.drop_last().update(i, Some(e)));
        lemma_count_none_update(memo.drop_last(), i, e);
    }
}

/// A node without an entity keeps the count of unvisited nodes positive.
proof fn lemma_count_none_pos(memo: Seq<Option<u32>>, i: int)
    requires
        0 <= i < memo.len(),
        memo[i] is None,
    ensures
        count_none(memo) >= 1,
    decreases memo.len(),
{
    if i < memo.len() - 1 {
        lemma_count_none_pos(memo.drop_last(), i);
    }
}

/// Register the entities of the node forest, depth first from each node in
/// index order: every node registers exactly one entity, parents always
/// before their children, and every parent edge of the plan is an edge of
/// the forest. Returns the entities and, for each node, the index of its
/// entity.
pub fn convert_nodes(nodes: &Vec<NodeData>, n_geoms: usize) -> (r: (
    Vec<GlEntityPlan>,
    Vec<Option<u32>>,
))
    requires
        nodes@.len() <= 0xffff_ffff,
        forall|m: int, k: int|
            0 <= m < nodes@.len() && 0 <= k < nodes@[m].children@.len() ==> ((
            #[trigger] nodes@[m].children@[k]) as int) < nodes@.len(),
        forall|m: int|
            0 <= m < nodes@.len() ==> match (#[trigger] nodes@[m]).mesh {
                Some(g) => (g as int) < n_geoms,
                None => true,
            },
    ensures
        r.1@.len() == nodes@.len(),
        r.0@.len() <= nodes@.len(),
        forall|m: int| 0 <= m < r.1@.len() ==> (#[trigger] r.1@[m]) is Some,
        forall|k: int|
            0 <= k < r.0@.len() ==> match (#[trigger] r.0@[k]).parent {
                Some(p) => (p as int) < k,
                None => true,
            },
        forall|k: int|
            0 <= k < r.0@.len() ==> match (#[trigger] r.0@[k]).mesh {
                Some(g) => (g as int) < n_geoms,
                None => true,
            },
        forall|m: int|
            0 <= m < r.1@.len() ==> match (#[trigger] r.1@[m]) {
                Some(e) => (e as int) < r.0@.len() && opt_str_eq(
                    r.0@[e as int].name,
                    nodes@[m].name,
                ) && r.0@[e as int].transform@ == spec_flatten(nodes@[m].transform) && r.0@[
                e as int].mesh == nodes@[m].mesh,
                None => true,
            },
        forall|e: int|
            0 <= e < r.0@.len() && (#[trigger] r.0@[e]).parent is Some ==> exists|pm: int, k: int|
                #![trigger nodes@[pm].children@[k]]
                0 <= pm < nodes@.len() && r.1@[pm] == Some(r.0@[e].parent->0) && 0 <= k
                    < nodes@[pm].children@.len() && r.1@[nodes@[pm].children@[k] as int] == Some(
                    e as u32,
                ),
{
    let n = nodes.len();
    let mut entities: Vec<GlEntityPlan> = Vec::new();
    let mut memo: Vec<Option<u32>> = Vec::new();
    let mut q: usize = 0;
    while q < n
        invariant
            q <= n,
            n == nodes@.len(),
            memo@.len() == q,
            count_none(memo@) == q,
            forall|m: int| 0 <= m < q ==> (#[trigger] memo@[m]) is None,
        decreases n - q,
    {
        let ghost before = memo@;
        memo.push(None);
        proof {
            assert(memo@.drop_last() =~= before);
        }
        q = q + 1;
    }
    // seed the work list with every node, in reverse so lower indices are
    // visited first
    let mut stack: Vec<(u32, Option<u32>)> = Vec::new();
    let mut s: usize = n;
    while s > 0
        invariant
            s <= n,
            n == nodes@.len(),
            n <= 0xffff_ffff,
            stack@.len() == n - s,
            forall|k: int|
                0 <= k < stack@.len() ==> ((#[trigger] stack@[k]).0 as int) == n - 1 - k,
            forall|k: int| 0 <= k < stack@.len() ==> (#[trigger] stack@[k]).1 is None,
        decreases s,
    {
        s = s - 1;
        stack.push((s as u32, None));
    }
    proof {
        // every node starts out waiting on the stack
        assert forall|m: int| 0 <= m < n implies (#[trigger] memo@[m]) is Some || (exists|k: int|
            0 <= k < stack@.len() && ((#[trigger] stack@[k]).0 as int) == m) by {
            assert(stack@[n - 1 - m].0 as int == m);
        }
    }
    while stack.len() > 0
        invariant
            n == nodes@.len(),
            n <= 0xffff_ffff,
            memo@.len() == n,
            entities@.len() <= n,
            entities@.len() + count_none(memo@) == n,
            forall|m: int, k: int|
                0 <= m < nodes@.len() && 0 <= k < nodes@[m].children@.len() ==> ((
                #[trigger] nodes@[m].children@[k]) as int) < nodes@.len(),
            forall|m: int|
                0 <= m < nodes@.len() ==> match (#[trigger] nodes@[m]).mesh {
                    Some(g) => (g as int) < n_geoms,
                    None => true,
                },
            forall|k: int| 0 <= k < stack@.len() ==> ((#[trigger] stack@[k]).0 as int) < n,
            // a stack entry's parent is an already assigned entity of a node
            // that lists the entry's node among its children
            forall|k: int|
                0 <= k < stack@.len() ==> match (#[trigger] stack@[k]).1 {
                    Some(p) => (p as int) < entities@.len() && (exists|pm: int, w: int|
                        0 <= pm < nodes@.len() && memo@[pm] == Some(p) && 0 <= w
                            < nodes@[pm].children@.len() && nodes@[pm].children@[w] == stack@[k].0),
                    None => true,
                },
            // every node is visited or still waiting on the stack
            forall|m: int|
                0 <= m < n ==> (#[trigger] memo@[m]) is Some || exists|k: int|
                    0 <= k < stack@.len() && ((#[trigger] stack@[k]).0 as int) == m,
            forall|k: int|
                0 <= k < entities@.len() ==> match (#[trigger] entities@[k]).parent {
                    Some(p) => (p as int) < k,
                    None => true,
                },
            forall|k: int|
                0 <= k < entities@.len() ==> match (#[trigger] entities@[k]).mesh {
                    Some(g) => (g as int) < n_geoms,
                    None => true,
                },
            forall|m: int|
                0 <= m < memo@.len() ==> match (#[trigger] memo@[m]) {
                    Some(e) => (e as int) < entities@.len() && opt_str_eq(
                        entities@[e as int].name,
                        nodes@[m].name,
                    ) && entities@[e as int].transform@ == spec_flatten(nodes@[m].transform)
                        && entities@[e as int].mesh == nodes@[m].mesh,
                    None => true,
                },
            forall|e: int|
                0 <= e < entities@.len() && (#[trigger] entities@[e]).parent is Some ==> exists|
                    pm: int,
                    k: int,
                |
                    #![trigger nodes@[pm].children@[k]]
                    0 <= pm < nodes@.len() && memo@[pm] == Some(entities@[e].parent->0) && 0 <= k
                        < nodes@[pm].children@.len() && memo@[nodes@[pm].children@[k] as int]
                        == Some(e as u32),
        decreases count_none(memo@), stack@.len(),
    {
        let ghost old_stack = stack@;
        let top = stack.pop();
        let (m, parent) = match top {
            Some(t) => t,
            None => {
                // the loop condition guarantees a nonempty stack
                proof {
                    assert(false);
                }
                vstd::pervasive::unreached()
            },
        };
        let mi = m as usize;
        if memo[mi].is_none() && entities.len() < n {
            let e = entities.len() as u32;
            let ghost memo0 = memo@;
            proof {
                lemma_count_none_update(memo0, mi as int, e);
            }
            memo[mi] = Some(e);
            proof {
                assert forall|m2: int| 0 <= m2 < n implies (#[trigger] memo@[m2]) is Some || (
                exists|k: int|
                    0 <= k < stack@.len() && ((#[trigger] stack@[k]).0 as int) == m2) by {
                    if memo@[m2] is None {
                        let k = choose|k: int|
                            0 <= k < old_stack.len() && ((#[trigger] old_stack[k]).0 as int) == m2;
                        if k < old_stack.len() - 1 {
                            assert(stack@[k].0 as int == m2);
                        }
                    }
                }
            }
            let plan = GlEntityPlan {
                name: clone_opt_string(&nodes[mi].name),
                parent,
                transform: flatten_matrix(&nodes[mi].transform),
                mesh: nodes[mi].mesh,
            };
            entities.push(plan);
            let mut k: usize = nodes[mi].children.len();
            while k > 0
                invariant
                    k <= nodes@[mi as int].children@.len(),
                    mi < nodes@.len(),
                    n == nodes@.len(),
                    memo@.len() == n,
                    memo@[mi as int] == Some(e),
                    (e as int) < entities@.len(),
                    forall|m2: int, k2: int|
                        0 <= m2 < nodes@.len() && 0 <= k2 < nodes@[m2].children@.len() ==> ((
                        #[trigger] nodes@[m2].children@[k2]) as int) < nodes@.len(),
                    forall|j: int| 0 <= j < stack@.len() ==> ((#[trigger] stack@[j]).0 as int) < n,
                    forall|j: int|
                        0 <= j < stack@.len() ==> match (#[trigger] stack@[j]).1 {
                            Some(p) => (p as int) < entities@.len() && (exists|pm: int, w: int|
                                0 <= pm < nodes@.len() && memo@[pm] == Some(p) && 0 <= w
                                    < nodes@[pm].children@.len() && nodes@[pm].children@[w]
                                    == stack@[j].0),
                            None => true,
                        },
                    forall|m2: int|
                        0 <= m2 < n ==> (#[trigger] memo@[m2]) is Some || exists|j: int|
                            0 <= j < stack@.len() && ((#[trigger] stack@[j]).0 as int) == m2,
                    entities@.len() + count_none(memo@) == n,
                decreases k,
            {
                let ghost pre_stack = stack@;
                k = k - 1;
                stack.push((nodes[mi].children[k], Some(e)));
                proof {
                    assert(stack@.last().1 == Some(e));
                    assert(memo@[mi as int] == Some(e));
                    assert forall|m2: int| 0 <= m2 < n implies (#[trigger] memo@[m2]) is Some || (
                    exists|j: int|
                        0 <= j < stack@.len() && ((#[trigger] stack@[j]).0 as int) == m2) by {
                        if memo@[m2] is None {
                            let j = choose|j: int|
                                0 <= j < pre_stack.len() && ((#[trigger] pre_stack[j]).0 as int)
                                    == m2;
                            assert(stack@[j].0 as int == m2);
                        }
                    }
                }
            }
        } else {
            proof {
                if memo@[mi as int] is None {
                    lemma_count_none_pos(memo@, mi as int);
                    assert(false);
                }
                assert forall|m2: int| 0 <= m2 < n implies (#[trigger] memo@[m2]) is Some || (
                exists|k: int|
                    0 <= k < stack@.len() && ((#[trigger] stack@[k]).0 as int) == m2) by {
                    if memo@[m2] is None {
                        let k = choose|k: int|
                            0 <= k < old_stack.len() && ((#[trigger] old_stack[k]).0 as int) == m2;
                        if k < old_stack.len() - 1 {
                            assert(stack@[k].0 as int == m2);
                        } else {
                            assert(m2 == m as int);
                            assert(false);
                        }
                    }
                }
            }
        }
    }
    proof {
        assert forall|m: int| 0 <= m < memo@.len() implies (#[trigger] memo@[m]) is Some by {
            if memo@[m] is None {
                assert(exists|k: int|
                    0 <= k < stack@.len() && ((#[trigger] stack@[k]).0 as int) == m);
            }
        }
    }
    (entities, memo)
}

/// Option-of-string equality at the view level.
pub open spec fn opt_str_eq(a: Option<String>, b: Option<String>) -> bool {
    match (a, b) {
        (Some(x), Some(y)) => x@ == y@,
        (None, None) => true,
        _ => false,
    }
}

/// Copy an optional name.
fn clone_opt_string(s: &Option<String>) -> (r: Option<String>)
    ensures
        opt_str_eq(r, *s),
{
    match s {
        Some(x) => Some(x.as_str().to_owned()),
        None => None,
    }
}

/// Every texture reference of a material lies inside a texture array of
/// length `n`.
pub open spec fn material_refs_ok(m: GlMaterial, n: int) -> bool {
    &&& (m.base_color_texture matches Some(t) ==> (t.texture as int) < n)
    &&& (m.metallic_roughness_texture matches Some(t) ==> (t.texture as int) < n)
    &&& (m.normal_texture matches Some(t) ==> (t as int) < n)
    &&& (m.occlusion_texture matches Some(t) ==> (t as int) < n)
    &&& (m.emissive_texture matches Some(t) ==> (t.texture as int) < n)
}

/// The whole decoded document, as plain values.
#[derive(Debug)]
pub struct GltfDoc {
    pub buffers: Vec<Vec<u8>>,
    pub views: Vec<GlView>,
    pub images: Vec<GlImage>,
    pub samplers: Vec<GlSampler>,
    pub textures: Vec<GlTexture>,
    pub materials: Vec<GlMaterial>,
    pub meshes: Vec<GlMesh>,
    pub nodes: Vec<NodeData>,
}

impl GltfDoc {
    /// Every cross reference of the document is in range and every view
    /// starts inside its buffer: views refer to buffers, textures to images
    /// and samplers, material texture references to textures, primitives to
    /// materials, and nodes to meshes and nodes.
    pub open spec fn wf(self) -> bool {
        &&& self.buffers@.len() <= 0xffff_ffff
        &&& self.nodes@.len() <= 0xffff_ffff
        &&& self.materials@.len() < 0xffff_fffe
        &&& forall|i: int|
            0 <= i < self.views@.len() ==> ((#[trigger] self.views@[i]).buffer as int)
                < self.buffers@.len() && self.views@[i].offset
                <= self.buffers@[self.views@[i].buffer as int]@.len()
        &&& forall|i: int|
            0 <= i < self.textures@.len() ==> ((#[trigger] self.textures@[i]).source as int)
                < self.images@.len()
        &&& forall|i: int| 0 <= i < self.materials@.len() ==> material_refs_ok(
            #[trigger] self.materials@[i],
            self.textures@.len() as int,
        )
        &&& forall|g: int, p: int|
            0 <= g < self.meshes@.len() && 0 <= p < self.meshes@[g].primitives@.len() ==> match (
            #[trigger] self.meshes@[g].primitives@[p]).material {
                Some(x) => (x as int) < self.materials@.len(),
                None => true,
            }
        &&& forall|i: int, k: int|
            0 <= i < self.nodes@.len() && 0 <= k < self.nodes@[i].children@.len() ==> ((
            #[trigger] self.nodes@[i].children@[k]) as int) < self.nodes@.len()
        &&& forall|i: int|
            0 <= i < self.nodes@.len() ==> match (#[trigger] self.nodes@[i]).mesh {
                Some(g) => (g as int) < self.meshes@.len(),
                None => true,
            }
    }
}

/// One registered buffer: its bytes hosted under this asset id, registered
/// from the URL with its byte size.
#[derive(Debug)]
pub struct BufferPlan {
    pub asset: u128,
    pub bytes: Vec<u8>,
}

/// One registered buffer view.
#[derive(Debug, Clone, Copy, PartialEq, Eq, Structural)]
pub struct ViewPlan {
    pub buffer: u32,
    pub offset: u64,
    pub length: u64,
}

/// One registered image.
#[derive(Debug)]
pub struct GlImagePlan {
    pub name: Option<String>,
    pub source: GlImageSource,
}

/// One registered sampler.
#[derive(Debug)]
pub struct GlSamplerPlan {
    pub name: Option<String>,
    pub mag_filter: Option<MagFilter>,
    pub min_filter: Option<MinFilter>,
    pub wrap_s: Option<SamplerMode>,
    pub wrap_t: Option<SamplerMode>,
}

/// One registered texture.
#[derive(Debug)]
pub struct GlTexturePlan {
    pub name: Option<String>,
    pub image: u32,
    pub sampler: Option<u32>,
}

/// One registered geometry.
#[derive(Debug)]
pub struct GeometryPlan {
    pub name: Option<String>,
    pub patches: Vec<GeometryPatchPlan>,
}

/// Whether any primitive of the document names no material.
pub open spec fn has_default_prim(ms: Seq<GlMesh>) -> bool {
    exists|g: int, p: int|
        0 <= g < ms.len() && 0 <= p < ms[g].primitives@.len() && (
        #[trigger] ms[g].primitives@[p]).material is None
}

/// The view of a registered geometry patch, for comparing against the
/// primitive it came from.
pub open spec fn patch_view(p: GeometryPatchPlan) -> (
    Seq<GeometryAttributePlan>,
    u32,
    Option<GeometryIndexPlan>,
    PrimitiveType,
    u32,
) {
    (p.attributes@, p.vertex_count, p.indices, p.patch_type, p.material)
}

/// What one primitive registers, with `default_mat` the index of the
/// shared default material: nothing when its topology is unmappable.
pub open spec fn spec_prim_patch(p: PrimData, default_mat: u32) -> Option<
    (Seq<GeometryAttributePlan>, u32, Option<GeometryIndexPlan>, PrimitiveType, u32),
> {
    match spec_mode(p.mode) {
        None => None,
        Some(pt) => Some(
            (
                spec_attr_plans(p.attributes@),
                spec_pos_count(p.attributes@).unwrap_or(0),
                spec_index_plan(p.indices),
                pt,
                match p.material {
                    Some(x) => x,
                    None => default_mat,
                },
            ),
        ),
    }
}

/// The patches one mesh registers, in primitive order, unmappable
/// primitives skipped.
pub open spec fn spec_patches(prims: Seq<PrimData>, default_mat: u32) -> Seq<
    (Seq<GeometryAttributePlan>, u32, Option<GeometryIndexPlan>, PrimitiveType, u32),
>
    decreases prims.len(),
{
    if prims.len() == 0 {
        Seq::empty()
    } else {
        spec_patches(prims.drop_last(), default_mat) + (match spec_prim_patch(
            prims.last(),
            default_mat,
        ) {
            Some(t) => seq![t],
            None => Seq::empty(),
        })
    }
}

/// The registration plan of one document, in registration order.
#[derive(Debug)]
pub struct GltfPlan {
    pub buffers: Vec<BufferPlan>,
    pub views: Vec<ViewPlan>,
    pub images: Vec<GlImagePlan>,
    pub samplers: Vec<GlSamplerPlan>,
    pub textures: Vec<GlTexturePlan>,
    pub materials: Vec<GlMaterialPlan>,
    pub geometries: Vec<GeometryPlan>,
    pub entities: Vec<GlEntityPlan>,
    pub node_entity: Vec<Option<u32>>,
    pub published: Vec<u128>,
}

/// Import a decoded glTF document: build the full registration plan.
///
/// Buffers come first, each hosted under a fresh asset id that is also
/// recorded as published; views refer to buffers with their remaining
/// length from the view's offset; images, samplers, textures and materials
/// follow, mapped field by field; geometries convert each primitive,
/// sharing one lazily created default material for primitives that name
/// none; and the node forest registers one entity per node, parents before
/// children.
pub fn import_file(doc: GltfDoc) -> (plan: GltfPlan)
    requires
        doc.wf(),
    ensures
        plan.buffers@.len() == doc.buffers@.len(),
        forall|i: int|
            0 <= i < plan.buffers@.len() ==> (#[trigger] plan.buffers@[i]).bytes
                == doc.buffers@[i],
        plan.published@.len() == doc.buffers@.len(),
        forall|i: int|
            0 <= i < plan.buffers@.len() ==> plan.published@[i] == (
            #[trigger] plan.buffers@[i]).asset,
        plan.views@.len() == doc.views@.len(),
        forall|i: int|
            0 <= i < plan.views@.len() ==> (#[trigger] plan.views@[i]) == (ViewPlan {
                buffer: doc.views@[i].buffer,
                offset: doc.views@[i].offset,
                length: (doc.buffers@[doc.views@[i].buffer as int]@.len()
                    - doc.views@[i].offset) as u64,
            }),
        plan.samplers@.len() == doc.samplers@.len(),
        forall|i: int|
            0 <= i < plan.samplers@.len() ==> {
                let s = doc.samplers@[i];
                let p = #[trigger] plan.samplers@[i];
                &&& p.mag_filter == match s.mag {
                    Some(f) => Some(
                        match f {
                            GlMagFilter::Nearest => MagFilter::Nearest,
                            GlMagFilter::Linear => MagFilter::Linear,
                        },
                    ),
                    None => None::<MagFilter>,
                }
                &&& p.wrap_s == Some(
                    match s.wrap_s {
                        GlWrappingMode::ClampToEdge => SamplerMode::Clamp,
                        GlWrappingMode::MirroredRepeat => SamplerMode::MirrorRepeat,
                        GlWrappingMode::Repeat => SamplerMode::Repeat,
                    },
                )
                &&& p.wrap_t == Some(
                    match s.wrap_t {
                        GlWrappingMode::ClampToEdge => SamplerMode::Clamp,
                        GlWrappingMode::MirroredRepeat => SamplerMode::MirrorRepeat,
                        GlWrappingMode::Repeat => SamplerMode::Repeat,
                    },
                )
            },
        plan.textures@.len() == doc.textures@.len(),
        forall|i: int|
            0 <= i < plan.textures@.len() ==> (#[trigger] plan.textures@[i]).image
                == doc.textures@[i].source && plan.textures@[i].sampler == (match doc.textures@[
            i].sampler {
                Some(s) => if (s as int) < doc.samplers@.len() {
                    Some(s)
                } else {
                    None::<u32>
                },
                None => None::<u32>,
            }),
        plan.materials@.len() == doc.materials@.len() + (if has_default_prim(doc.meshes@) {
            1int
        } else {
            0int
        }),
        forall|i: int|
            0 <= i < doc.materials@.len() ==> spec_material(
                doc.materials@[i],
                #[trigger] plan.materials@[i],
            ),
        plan.geometries@.len() == doc.meshes@.len(),
        forall|g: int|
            0 <= g < plan.geometries@.len() ==> (#[trigger] plan.geometries@[g]).patches@.map_values(
                |p: GeometryPatchPlan| patch_view(p),
            ) == spec_patches(doc.meshes@[g].primitives@, doc.materials@.len() as u32),
        plan.node_entity@.len() == doc.nodes@.len(),
        plan.entities@.len() <= doc.nodes@.len(),
        forall|m: int| 0 <= m < plan.node_entity@.len() ==> (#[trigger] plan.node_entity@[m]) is Some,
        forall|k: int|
            0 <= k < plan.entities@.len() ==> match (#[trigger] plan.entities@[k]).parent {
                Some(p) => (p as int) < k,
                None => true,
            },
        forall|m: int|
            0 <= m < plan.node_entity@.len() ==> match (#[trigger] plan.node_entity@[m]) {
                Some(e) => (e as int) < plan.entities@.len() && plan.entities@[
                e as int].transform@ == spec_flatten(doc.nodes@[m].transform)
                    && plan.entities@[e as int].mesh == doc.nodes@[m].mesh,
                None => true,
            },
        forall|e: int|
            0 <= e < plan.entities@.len() && (#[trigger] plan.entities@[e]).parent is Some
                ==> exists|pm: int, k: int|
                #![trigger doc.nodes@[pm].children@[k]]
                0 <= pm < doc.nodes@.len() && plan.node_entity@[pm] == Some(
                    plan.entities@[e].parent->0,
                ) && 0 <= k < doc.nodes@[pm].children@.len() && plan.node_entity@[doc.nodes@[
                pm].children@[k] as int] == Some(e as u32),
{
    let GltfDoc { buffers, views, images, samplers, textures, materials, meshes, nodes } = doc;
    let mut buffers = buffers;
    let mut images = images;
    let mut meshes = meshes;
    let ghost gb = buffers@;
    let mut published: Vec<u128> = Vec::new();
    let mut plan_buffers: Vec<BufferPlan> = Vec::new();
    let mut i: usize = 0;
    while i < buffers.len()
        invariant
            i <= buffers@.len(),
            buffers@.len() == gb.len(),
            forall|q: int| i <= q < gb.len() ==> buffers@[q] == gb[q],
            plan_buffers@.len() == i,
            published@.len() == i,
            forall|q: int| 0 <= q < i ==> (#[trigger] plan_buffers@[q]).bytes == gb[q],
            forall|q: int|
                0 <= q < i ==> published@[q] == (#[trigger] plan_buffers@[q]).asset,
        decreases buffers@.len() - i,
    {
        let mut b: Vec<u8> = Vec::new();
        core::mem::swap(&mut b, &mut buffers[i]);
        let id = ids::create_asset_id();
        published.push(id);
        plan_buffers.push(BufferPlan { asset: id, bytes: b });
        i = i + 1;
    }
    let mut plan_views: Vec<ViewPlan> = Vec::new();
    let mut v: usize = 0;
    while v < views.len()
        invariant
            v <= views@.len(),
            plan_buffers@.len() == gb.len(),
            forall|q: int| 0 <= q < gb.len() ==> (#[trigger] plan_buffers@[q]).bytes == gb[q],
            forall|q: int|
                0 <= q < views@.len() ==> ((#[trigger] views@[q]).buffer as int) < gb.len()
                    && views@[q].offset <= gb[views@[q].buffer as int]@.len(),
            plan_views@.len() == v,
            forall|q: int|
                0 <= q < v ==> (#[trigger] plan_views@[q]) == (ViewPlan {
                    buffer: views@[q].buffer,
                    offset: views@[q].offset,
                    length: (gb[views@[q].buffer as int]@.len() - views@[q].offset) as u64,
                }),
        decreases views@.len() - v,
    {
        let view = views[v];
        let src_size = plan_buffers[view.buffer as usize].bytes.len() as u64;
        let fixed_size = src_size - view.offset;
        plan_views.push(ViewPlan { buffer: view.buffer, offset: view.offset, length: fixed_size });
        v = v + 1;
    }
    let mut plan_images: Vec<GlImagePlan> = Vec::new();
    let mut m: usize = 0;
    while m < images.len()
        invariant
            m <= images@.len(),
            plan_images@.len() == m,
        decreases images@.len() - m,
    {
        let mut img = GlImage { name: None, source: GlImageSource::View(0) };
        core::mem::swap(&mut img, &mut images[m]);
        plan_images.push(GlImagePlan { name: img.name, source: img.source });
        m = m + 1;
    }
    let mut plan_samplers: Vec<GlSamplerPlan> = Vec::new();
    let mut sidx: usize = 0;
    while sidx < samplers.len()
        invariant
            sidx <= samplers@.len(),
            plan_samplers@.len() == sidx,
            forall|q: int|
                0 <= q < sidx ==> {
                    let s = samplers@[q];
                    let p = #[trigger] plan_samplers@[q];
                    &&& p.mag_filter == match s.mag {
                        Some(f) => Some(
                            match f {
                                GlMagFilter::Nearest => MagFilter::Nearest,
                                GlMagFilter::Linear => MagFilter::Linear,
                            },
                        ),
                        None => None::<MagFilter>,
                    }
                    &&& p.wrap_s == Some(
                        match s.wrap_s {
                            GlWrappingMode::ClampToEdge => SamplerMode::Clamp,
                            GlWrappingMode::MirroredRepeat => SamplerMode::MirrorRepeat,
                            GlWrappingMode::Repeat => SamplerMode::Repeat,
                        },
                    )
                    &&& p.wrap_t == Some(
                        match s.wrap_t {
                            GlWrappingMode::ClampToEdge => SamplerMode::Clamp,
                            GlWrappingMode::MirroredRepeat => SamplerMode::MirrorRepeat,
                            GlWrappingMode::Repeat => SamplerMode::Repeat,
                        },
                    )
                },
        decreases samplers@.len() - sidx,
    {
        let s = &samplers[sidx];
        let mag = match s.mag {
            Some(f) => Some(f.into_noodles()),
            None => None,
        };
        let min = match s.min {
            Some(f) => Some(f.into_noodles()),
            None => None,
        };
        plan_samplers.push(
            GlSamplerPlan {
                name: clone_opt_string(&s.name),
                mag_filter: mag,
                min_filter: min,
                wrap_s: Some(s.wrap_s.into_noodles()),
                wrap_t: Some(s.wrap_t.into_noodles()),
            },
        );
        sidx = sidx + 1;
    }
    let mut plan_textures: Vec<GlTexturePlan> = Vec::new();
    let mut t: usize = 0;
    while t < textures.len()
        invariant
            t <= textures@.len(),
            plan_samplers@.len() == samplers@.len(),
            plan_textures@.len() == t,
            forall|q: int|
                0 <= q < t ==> (#[trigger] plan_textures@[q]).image == textures@[q].source
                    && plan_textures@[q].sampler == (match textures@[q].sampler {
                    Some(s) => if (s as int) < samplers@.len() {
                        Some(s)
                    } else {
                        None::<u32>
                    },
                    None => None::<u32>,
                }),
        decreases textures@.len() - t,
    {
        let tex = &textures[t];
        let sampler = match tex.sampler {
            Some(s) => if (s as usize) < plan_samplers.len() {
                Some(s)
            } else {
                None
            },
            None => None,
        };
        plan_textures.push(
            GlTexturePlan { name: clone_opt_string(&tex.name), image: tex.source, sampler },
        );
        t = t + 1;
    }
    let mut plan_materials: Vec<GlMaterialPlan> = Vec::new();
    let mut mt: usize = 0;
    while mt < materials.len()
        invariant
            mt <= materials@.len(),
            plan_materials@.len() == mt,
            forall|q: int|
                0 <= q < mt ==> spec_material(materials@[q], #[trigger] plan_materials@[q]),
        decreases materials@.len() - mt,
    {
        plan_materials.push(convert_material(&materials[mt]));
        mt = mt + 1;
    }
    // geometries; a default material is created at most once, for the first
    // primitive that names none
    let ghost n_doc_materials = materials@.len() as int;
    let ghost gms = doc.meshes@;
    let mut default_mat: Option<u32> = None;
    let mut plan_geoms: Vec<GeometryPlan> = Vec::new();
    let mut g: usize = 0;
    proof {
        assert(gms.subrange(0, 0) =~= Seq::<GlMesh>::empty());
    }
    while g < meshes.len()
        invariant
            g <= meshes@.len(),
            meshes@.len() == gms.len(),
            forall|q: int| g <= q < gms.len() ==> meshes@[q] == gms[q],
            plan_geoms@.len() == g,
            default_mat is None ==> plan_materials@.len() == n_doc_materials,
            default_mat matches Some(d) ==> plan_materials@.len() == n_doc_materials + 1 && d
                == n_doc_materials as u32,
            (default_mat is Some) == has_default_prim(gms.subrange(0, g as int)),
            n_doc_materials == materials@.len(),
            n_doc_materials < 0xffff_fffe,
            forall|q: int|
                0 <= q < n_doc_materials ==> spec_material(
                    materials@[q],
                    #[trigger] plan_materials@[q],
                ),
            forall|q: int|
                0 <= q < g ==> (#[trigger] plan_geoms@[q]).patches@.map_values(
                    |p: GeometryPatchPlan| patch_view(p),
                ) == spec_patches(gms[q].primitives@, n_doc_materials as u32),
        decreases meshes@.len() - g,
    {
        let mut mesh = GlMesh { name: None, primitives: Vec::new() };
        core::mem::swap(&mut mesh, &mut meshes[g]);
        proof {
            assert(mesh == gms[g as int]);
        }
        let mut patches: Vec<GeometryPatchPlan> = Vec::new();
        let mut pr: usize = 0;
        proof {
            assert(mesh.primitives@.subrange(0, 0) =~= Seq::<PrimData>::empty());
            assert(patches@.map_values(|p: GeometryPatchPlan| patch_view(p)) =~= spec_patches(
                mesh.primitives@.subrange(0, 0),
                n_doc_materials as u32,
            ));
        }
        while pr < mesh.primitives.len()
            invariant
                pr <= mesh.primitives@.len(),
                g < gms.len(),
                mesh.primitives@ == gms[g as int].primitives@,
                default_mat is None ==> plan_materials@.len() == n_doc_materials,
                default_mat matches Some(d) ==> plan_materials@.len() == n_doc_materials + 1 && d
                    == n_doc_materials as u32,
                (default_mat is Some) == (has_default_prim(gms.subrange(0, g as int)) || exists|
                    p2: int,
                |
                    0 <= p2 < pr && (#[trigger] mesh.primitives@[p2]).material is None),
                n_doc_materials == materials@.len(),
                n_doc_materials < 0xffff_fffe,
                forall|q: int|
                    0 <= q < n_doc_materials ==> spec_material(
                        materials@[q],
                        #[trigger] plan_materials@[q],
                    ),
                patches@.map_values(|p: GeometryPatchPlan| patch_view(p)) == spec_patches(
                    mesh.primitives@.subrange(0, pr as int),
                    n_doc_materials as u32,
                ),
            decreases mesh.primitives@.len() - pr,
        {
            let ghost ppre = mesh.primitives@.subrange(0, pr as int);
            let ghost pcur = mesh.primitives@.subrange(0, pr + 1);
            proof {
                assert(pcur.drop_last() =~= ppre);
                assert(pcur.last() == mesh.primitives@[pr as int]);
            }
            let prim = &mesh.primitives[pr];
            let mat: u32 = match prim.material {
                Some(x) => x,
                None => {
                    match default_mat {
                        Some(d) => d,
                        None => {
                            let d = plan_materials.len() as u32;
                            plan_materials.push(make_default_material());
                            default_mat = Some(d);
                            d
                        },
                    }
                },
            };
            proof {
                if prim.material is None {
                    assert(mesh.primitives@[pr as int].material is None);
                }
                assert(mat == match prim.material {
                    Some(x) => x,
                    None => n_doc_materials as u32,
                });
            }
            match convert_geometry_patch(prim, mat) {
                Some(p) => {
                    proof {
                        assert(patch_view(p) == spec_prim_patch(
                            pcur.last(),
                            n_doc_materials as u32,
                        )->0);
                    }
                    patches.push(p);
                    proof {
                        assert(patches@.map_values(|p2: GeometryPatchPlan| patch_view(p2))
                            =~= spec_patches(pcur, n_doc_materials as u32));
                    }
                },
                None => {
                    proof {
                        assert(patches@.map_values(|p2: GeometryPatchPlan| patch_view(p2))
                            =~= spec_patches(pcur, n_doc_materials as u32));
                    }
                },
            }
            pr = pr + 1;
        }
        proof {
            assert(mesh.primitives@.subrange(0, mesh.primitives@.len() as int)
                =~= mesh.primitives@);
            assert(gms.subrange(0, g + 1).drop_last() =~= gms.subrange(0, g as int));
            assert(gms.subrange(0, g + 1).last() == gms[g as int]);
            // the default-creation condition folds one mesh further
            if has_default_prim(gms.subrange(0, g + 1)) {
                let (g2, p2) = choose|g2: int, p2: int|
                    0 <= g2 < gms.subrange(0, g + 1).len() && 0 <= p2 < gms.subrange(0, g + 1)[
                    g2].primitives@.len() && (#[trigger] gms.subrange(0, g + 1)[g2].primitives@[
                    p2]).material is None;
                if g2 < g {
                    assert(gms.subrange(0, g as int)[g2] == gms.subrange(0, g + 1)[g2]);
                    assert(has_default_prim(gms.subrange(0, g as int)));
                } else {
                    assert(gms.subrange(0, g + 1)[g2] == gms[g as int]);
                }
            }
            if default_mat is Some {
                if !has_default_prim(gms.subrange(0, g as int)) {
                    let p2 = choose|p2: int|
                        0 <= p2 < mesh.primitives@.len() && (
                        #[trigger] mesh.primitives@[p2]).material is None;
                    assert(gms.subrange(0, g + 1)[g as int] == gms[g as int]);
                    assert(has_default_prim(gms.subrange(0, g + 1)));
                } else {
                    let (g2, p2) = choose|g2: int, p2: int|
                        0 <= g2 < gms.subrange(0, g as int).len() && 0 <= p2 < gms.subrange(
                            0,
                            g as int,
                        )[g2].primitives@.len() && (#[trigger] gms.subrange(0, g as int)[
                        g2].primitives@[p2]).material is None;
                    assert(gms.subrange(0, g + 1)[g2] == gms.subrange(0, g as int)[g2]);
                    assert(has_default_prim(gms.subrange(0, g + 1)));
                }
            }
        }
        plan_geoms.push(GeometryPlan { name: mesh.name, patches });
        g = g + 1;
    }
    proof {
        assert(gms.subrange(0, gms.len() as int) =~= gms);
    }
    proof {
        assert(plan_geoms@.len() == doc.meshes@.len());
    }
    let (entities, node_entity) = convert_nodes(&nodes, plan_geoms.len());
    GltfPlan {
        buffers: plan_buffers,
        views: plan_views,
        images: plan_images,
        samplers: plan_samplers,
        textures: plan_textures,
        materials: plan_materials,
        geometries: plan_geoms,
        entities,
        node_entity,
        published,
    }
}

} // verus!
