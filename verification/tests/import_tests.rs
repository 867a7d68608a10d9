//! Tests of the text utilities and the two importers.

use platter::import::{select_format, FileFormat};
use platter::import_gltf::{
    convert_geometry_patch, AccessorData, AttributeSemantic, Format, GlDataType, GlDimensions,
    GlImage, GlImageSource, GlMagFilter, GlMesh, GlMinFilter, GlMode, GlSampler, GlSemantic,
    GlAlphaMode, GlMaterial, GlTexture, GlView, GlWrappingMode, GltfDoc, NodeData, PrimData,
    PrimitiveType, ViewRef,
};
use platter::intermediate::{MagFilter, MinFilter, SamplerMode};
use platter::scene_import::{
    MatPropValue, MatProps, MaterialData, MeshData, NodeTree, SceneData, TEX_KIND_DIFFUSE,
    TEX_KIND_NONE,
};
use platter::import_obj::FaceDef;
use platter::intermediate::{IntermediateScene, VertexData};
use platter::ops::ScalarOps;
use platter::text::{parse_i32, split_fields, tokenize};

/// The numeric oracle: real single-precision arithmetic on bit patterns.
struct RealOps;

impl ScalarOps for RealOps {
    fn bits_of_token(&mut self, t: &[u8]) -> u32 {
        match std::str::from_utf8(t) {
            Ok(s) => s.parse::<f32>().unwrap_or_default().to_bits(),
            Err(_) => 0f32.to_bits(),
        }
    }

    fn try_bits_of_token(&mut self, t: &[u8]) -> Option<u32> {
        match std::str::from_utf8(t) {
            Ok(s) => s.parse::<f32>().ok().map(|f| f.to_bits()),
            Err(_) => None,
        }
    }

    fn div_bits(&mut self, a: u32, b: u32) -> u32 {
        (f32::from_bits(a) / f32::from_bits(b)).to_bits()
    }

    fn quantize_u16(&mut self, b: u32) -> u16 {
        (f32::from_bits(b) * (65536.0 - 1.0)) as u16
    }

    fn quantize_u8(&mut self, b: u32) -> u8 {
        (f32::from_bits(b) * (u8::MAX as f32)) as u8
    }

    fn int_to_bits(&mut self, v: i32) -> u32 {
        (v as f32).to_bits()
    }

    fn is_reflex(&mut self, a: [u32; 3], b: [u32; 3], c: [u32; 3], d: [u32; 3]) -> bool {
        let p = |v: [u32; 3]| {
            [f32::from_bits(v[0]), f32::from_bits(v[1]), f32::from_bits(v[2])]
        };
        let (a, b, c, d) = (p(a), p(b), p(c), p(d));
        let sub = |x: [f32; 3], y: [f32; 3]| [x[0] - y[0], x[1] - y[1], x[2] - y[2]];
        let norm = |x: [f32; 3]| {
            let n = (x[0] * x[0] + x[1] * x[1] + x[2] * x[2]).sqrt();
            [x[0] / n, x[1] / n, x[2] / n]
        };
        let dot = |x: [f32; 3], y: [f32; 3]| x[0] * y[0] + x[1] * y[1] + x[2] * y[2];
        let left = norm(sub(d, a));
        let diag = norm(sub(c, a));
        let right = norm(sub(b, a));
        let angle = dot(left, diag).acos() + dot(right, diag).acos();
        angle > std::f32::consts::PI
    }

    fn pack_mesh(&mut self, verts: &Vec<VertexData>, faces: &Vec<[u32; 3]>) -> Vec<u8> {
        let mut out = Vec::new();
        for v in verts {
            for w in v.position.iter().chain(v.normal.iter()).chain(v.tangent.iter()) {
                out.extend_from_slice(&w.to_le_bytes());
            }
            for t in v.texture.iter() {
                out.extend_from_slice(&t.to_le_bytes());
            }
            out.extend_from_slice(&v.color);
        }
        for f in faces {
            for ix in f.iter() {
                out.extend_from_slice(&ix.to_le_bytes());
            }
        }
        out
    }
}

fn bits(f: f32) -> u32 {
    f.to_bits()
}

#[test]
fn tokenize_splits_on_whitespace() {
    let toks = tokenize(b"v  1.0\t2.0 \r");
    let views: Vec<&[u8]> = toks.iter().map(|t| t.as_slice()).collect();
    assert_eq!(views, vec![b"v".as_slice(), b"1.0".as_slice(), b"2.0".as_slice()]);
    assert_eq!(tokenize(b"   ").len(), 0);
}

#[test]
fn split_fields_keeps_empties() {
    let fs = split_fields(b"1//3", b'/');
    let views: Vec<&[u8]> = fs.iter().map(|t| t.as_slice()).collect();
    assert_eq!(views, vec![b"1".as_slice(), b"".as_slice(), b"3".as_slice()]);
    assert_eq!(split_fields(b"", b'/').len(), 1);
}

#[test]
fn parse_i32_matches_std() {
    for case in ["0", "17", "-42", "+5", "2147483647", "-2147483648", "2147483648", "", "-", "x1", "1x"] {
        assert_eq!(parse_i32(case.as_bytes()), case.parse::<i32>().ok(), "case {case}");
    }
}

#[test]
fn face_def_reads_corner_triples() {
    assert_eq!(FaceDef::new(b"1/2/3"), FaceDef { v: Some(1), t: Some(2), n: Some(3) });
    assert_eq!(FaceDef::new(b"1//3"), FaceDef { v: Some(1), t: None, n: Some(3) });
    assert_eq!(FaceDef::new(b"7"), FaceDef { v: Some(7), t: None, n: None });
    assert_eq!(FaceDef::new(b"x/2/3"), FaceDef { v: None, t: None, n: None });
}

#[test]
fn negative_indices_resolve_from_the_end() {
    // a corner of -1/-1/-1 names the last defined vertex, texture
    // coordinate and normal, whatever the list lengths are
    let f = FaceDef::new(b"-1/-1/-1").sanitize(5, 4, 3);
    assert_eq!(f, FaceDef { v: Some(4), t: Some(3), n: Some(2) });
    let one_based = FaceDef::new(b"2/1/3").sanitize(5, 4, 3);
    assert_eq!(one_based, FaceDef { v: Some(1), t: Some(0), n: Some(2) });
}

#[test]
fn obj_import_resolves_negative_indices() {
    let mut ops = RealOps;
    let text = b"v 1 0 0\nv 0 2 0\nv 0 0 3\nf -3 -2 -1\n";
    let scene: IntermediateScene = platter::import_obj::import_file(text, &mut ops);
    assert_eq!(scene.meshes.len(), 1);
    let mesh = &scene.meshes[0];
    assert_eq!(mesh.verts.len(), 3);
    assert_eq!(mesh.verts[0].position, [bits(1.0), bits(0.0), bits(0.0)]);
    assert_eq!(mesh.verts[1].position, [bits(0.0), bits(2.0), bits(0.0)]);
    assert_eq!(mesh.verts[2].position, [bits(0.0), bits(0.0), bits(3.0)]);
    assert_eq!(mesh.indices, vec![[0, 1, 2]]);
}

#[test]
fn obj_quad_splits_through_reflex_corner() {
    // a planar non-convex quad: the fourth corner points inward, so the
    // two triangles must share the diagonal through it
    let mut ops = RealOps;
    let text = b"v 0 0 0\nv 2 0 0\nv 2 2 0\nv 1.5 0.5 0\nf 1 2 3 4\n";
    let scene = platter::import_obj::import_file(text, &mut ops);
    assert_eq!(scene.meshes.len(), 1);
    let mesh = &scene.meshes[0];
    assert_eq!(mesh.indices, vec![[3, 0, 1], [3, 1, 2]]);
}

#[test]
fn obj_convex_quad_splits_from_first_corner() {
    let mut ops = RealOps;
    let text = b"v 0 0 0\nv 1 0 0\nv 1 1 0\nv 0 1 0\nf 1 2 3 4\n";
    let scene = platter::import_obj::import_file(text, &mut ops);
    assert_eq!(scene.meshes[0].indices, vec![[0, 1, 2], [0, 2, 3]]);
}

#[test]
fn obj_objects_group_and_dedup() {
    let mut ops = RealOps;
    let text = b"# sample\nv 0 0 0\nv 1 0 0\nv 0 1 0\nv 1 1 0\no cube\nf 1 2 3\nf 2 3 4\no other\nf 1 2 4\n";
    let scene = platter::import_obj::import_file(text, &mut ops);
    assert_eq!(scene.meshes.len(), 2);
    assert_eq!(scene.mats.len(), 2);
    // shared corners are deduplicated within an object
    assert_eq!(scene.meshes[0].verts.len(), 4);
    assert_eq!(scene.meshes[0].indices.len(), 2);
    assert_eq!(scene.meshes[1].verts.len(), 3);
    let root = scene.nodes.as_ref().unwrap();
    assert_eq!(root.children.len(), 2);
    assert_eq!(root.children[0].name, "cube");
    assert_eq!(root.children[1].name, "other");
    assert_eq!(root.children[0].meshes, vec![0]);
    assert_eq!(root.children[1].meshes, vec![1]);
}

#[test]
fn obj_homogeneous_vertices_divide_by_w() {
    let mut ops = RealOps;
    let text = b"v 2 4 6 2\nv 1 1 1\nv 0 0 0\nf 1 2 3\n";
    let scene = platter::import_obj::import_file(text, &mut ops);
    let p = scene.meshes[0].verts[0].position;
    assert_eq!(p, [bits(1.0), bits(2.0), bits(3.0)]);
}

#[test]
fn obj_unnamed_geometry_is_unknown() {
    let mut ops = RealOps;
    let text = b"v 0 0 0\nv 1 0 0\nv 0 1 0\nf 1 2 3\n";
    let scene = platter::import_obj::import_file(text, &mut ops);
    let root = scene.nodes.as_ref().unwrap();
    assert_eq!(root.children.len(), 1);
    assert_eq!(root.children[0].name, "Unknown");
}

#[test]
fn extension_selects_importer() {
    assert_eq!(select_format("model.obj").unwrap(), FileFormat::Obj);
    assert_eq!(select_format("/a/b/scene.gltf").unwrap(), FileFormat::Gltf);
    assert_eq!(select_format("scene.glb").unwrap(), FileFormat::Gltf);
    assert!(select_format("model.stl").is_err());
    assert!(select_format("no_extension").is_err());
    assert!(select_format("dir.obj/file").is_err());
    assert!(select_format(".obj").is_err());
}

#[test]
fn gltf_enum_mappings_are_total() {
    assert_eq!(GlMinFilter::Nearest.into_noodles(), MinFilter::Nearest);
    assert_eq!(GlMinFilter::NearestMipmapLinear.into_noodles(), MinFilter::LinearMipmapLinear);
    assert_eq!(GlMagFilter::Linear.into_noodles(), MagFilter::Linear);
    assert_eq!(GlWrappingMode::ClampToEdge.into_noodles(), SamplerMode::Clamp);
    assert_eq!(GlMode::TriangleFan.into_noodles(), None);
    assert_eq!(GlMode::Triangles.into_noodles(), Some(PrimitiveType::Triangles));
    let acc = AccessorData {
        data_type: GlDataType::F32,
        dimensions: GlDimensions::Vec3,
        count: 7,
        offset: 0,
        view: None,
        normalized: false,
    };
    assert_eq!(acc.into_noodles(), Some(Format::Vec3));
    let bad = AccessorData { data_type: GlDataType::I8, ..acc };
    assert_eq!(bad.into_noodles(), None);
}

#[test]
fn gltf_patch_skips_unmappable_attributes() {
    let pos = AccessorData {
        data_type: GlDataType::F32,
        dimensions: GlDimensions::Vec3,
        count: 9,
        offset: 4,
        view: Some(ViewRef { index: 2, stride: Some(12) }),
        normalized: false,
    };
    let weights = AccessorData { data_type: GlDataType::I16, ..pos };
    let prim = PrimData {
        attributes: vec![(GlSemantic::Positions, pos), (GlSemantic::Weights(0), weights)],
        indices: None,
        mode: GlMode::Triangles,
        material: None,
    };
    let patch = convert_geometry_patch(&prim, 3).unwrap();
    assert_eq!(patch.vertex_count, 9);
    assert_eq!(patch.attributes.len(), 1);
    assert_eq!(patch.attributes[0].view, 2);
    assert_eq!(patch.attributes[0].semantic, AttributeSemantic::Position);
    assert_eq!(patch.material, 3);
    assert!(patch.indices.is_none());
    let fan = PrimData { attributes: vec![], indices: None, mode: GlMode::TriangleFan, material: None };
    assert!(convert_geometry_patch(&fan, 0).is_none());
}

#[test]
fn gltf_document_plan_orders_registrations() {
    let doc = GltfDoc {
        buffers: vec![vec![0u8; 32]],
        views: vec![GlView { buffer: 0, offset: 8 }],
        images: vec![GlImage { name: None, source: GlImageSource::View(0) }],
        samplers: vec![GlSampler {
            name: None,
            mag: Some(GlMagFilter::Nearest),
            min: None,
            wrap_s: GlWrappingMode::Repeat,
            wrap_t: GlWrappingMode::ClampToEdge,
        }],
        textures: vec![GlTexture { name: None, source: 0, sampler: Some(0) }],
        materials: vec![],
        meshes: vec![GlMesh { name: None, primitives: vec![PrimData {
            attributes: vec![],
            indices: None,
            mode: GlMode::Triangles,
            material: None,
        }] }],
        nodes: vec![
            NodeData {
                name: Some("root".to_owned()),
                transform: [[1f32.to_bits(), 0, 0, 0], [0, 1f32.to_bits(), 0, 0],
                            [0, 0, 1f32.to_bits(), 0], [0, 0, 0, 1f32.to_bits()]],
                mesh: None,
                children: vec![1],
            },
            NodeData {
                name: Some("child".to_owned()),
                transform: [[0; 4]; 4],
                mesh: Some(0),
                children: vec![],
            },
        ],
    };
    let plan = platter::import_gltf::import_file(doc);
    assert_eq!(plan.buffers.len(), 1);
    assert_eq!(plan.published.len(), 1);
    assert_eq!(plan.published[0], plan.buffers[0].asset);
    assert_eq!(plan.views[0].length, 24);
    // a default material was created for the material-less primitive
    assert_eq!(plan.materials.len(), 1);
    assert_eq!(plan.geometries.len(), 1);
    assert_eq!(plan.geometries[0].patches.len(), 1);
    assert_eq!(plan.entities.len(), 2);
    // the child entity follows its parent and carries the mesh
    let child_e = plan.node_entity[1].unwrap() as usize;
    let root_e = plan.node_entity[0].unwrap() as usize;
    assert!(root_e < child_e);
    assert_eq!(plan.entities[child_e].parent, Some(root_e as u32));
    assert_eq!(plan.entities[child_e].mesh, Some(0));
    assert_eq!(plan.entities[root_e].transform[0], 1f32.to_bits());
}

#[test]
fn mat_props_lookup() {
    let props = MatProps::new(vec![
        (TEX_KIND_NONE, "?mat.name".to_owned(), MatPropValue::Text("wood".to_owned())),
        (TEX_KIND_NONE, "$clr.base".to_owned(), MatPropValue::Scalars(vec![bits(0.5), bits(0.25)])),
        (TEX_KIND_NONE, "$mat.metallicFactor".to_owned(), MatPropValue::Integers(vec![1])),
        (TEX_KIND_NONE, "?mat.name".to_owned(), MatPropValue::Text("ignored".to_owned())),
    ]);
    let slot = props.by_type(TEX_KIND_NONE).unwrap();
    assert_eq!(slot.find_string("?mat.name"), Some("wood".to_owned()));
    assert!(slot.find("$clr.base"));
    assert!(!slot.find("$mat.twosided"));
    let mut ops = RealOps;
    assert_eq!(slot.find_float("$mat.metallicFactor", &mut ops), Some(bits(1.0)));
    let c = slot.find_color("$clr.base").unwrap();
    assert_eq!(c, [bits(0.5), bits(0.25), bits(1.0), bits(1.0)]);
    assert!(props.by_type(TEX_KIND_DIFFUSE).is_none());
}

#[test]
fn scene_consume_builds_wf_scene() {
    let mut ops = RealOps;
    let scene = SceneData {
        materials: vec![MaterialData {
            properties: vec![
                (TEX_KIND_NONE, "?mat.name".to_owned(), MatPropValue::Text("m".to_owned())),
                (TEX_KIND_NONE, "$mat.twosided".to_owned(), MatPropValue::Integers(vec![1])),
            ],
            textures: vec![],
        }],
        meshes: vec![MeshData {
            material_index: 0,
            vertices: vec![[bits(0.0); 3], [bits(1.0); 3], [bits(2.0); 3]],
            normals: vec![[bits(1.0), 0, 0]; 3],
            tangents: vec![],
            texture_coords: Some(vec![[bits(0.5), bits(0.5), 0]; 3]),
            colors: None,
            faces: vec![vec![0, 1, 2], vec![0, 1, 9]],
        }],
        root: Some(NodeTree { name: "r".to_owned(), meshes: vec![0], children: vec![] }),
    };
    let s = platter::scene_import::import_file(scene, &mut ops).unwrap();
    assert_eq!(s.mats.len(), 1);
    assert_eq!(s.mats[0].name, Some("m".to_owned()));
    assert!(s.mats[0].doublesided);
    assert_eq!(s.meshes.len(), 1);
    // the face with an out-of-range corner was dropped
    assert_eq!(s.meshes[0].indices, vec![[0, 1, 2]]);
    assert_eq!(s.meshes[0].verts[0].texture, [32767, 32767]);
    let none_root = SceneData { materials: vec![], meshes: vec![], root: None };
    assert!(platter::scene_import::import_file(none_root, &mut ops).is_err());
}

#[test]
fn nan_components_sanitize_to_zero() {
    let p = platter::bits::sanitize_vec3([f32::NAN.to_bits(), bits(1.0), bits(2.0)]);
    assert_eq!(p, [0, bits(1.0), bits(2.0)]);
    assert_eq!(platter::bits::sanitize_component(bits(-7.5)), bits(-7.5));
    assert_eq!(platter::bits::sanitize_component((-f32::NAN).to_bits()), 0);
}

#[test]
fn quad_rotation_follows_the_first_reflex_answer() {
    let cache: Vec<u32> = vec![10, 11, 12, 13];
    // the scan over real geometry rotates to the reflex corner
    let mut ops = RealOps;
    let verts: Vec<VertexData> = [[0.0f32, 0.0], [2.0, 0.0], [2.0, 2.0], [1.5, 0.5]]
        .iter()
        .map(|p| {
            let mut v = VertexData::zeroed();
            v.position = [p[0].to_bits(), p[1].to_bits(), 0f32.to_bits()];
            v
        })
        .collect();
    let quad: Vec<u32> = vec![0, 1, 2, 3];
    assert_eq!(platter::import_obj::get_concave_vertex(&quad, &verts, &mut ops), [3, 0, 1, 2]);
    // no reflex corner: the cycle stays as it is
    assert_eq!(platter::import_obj::rotate_to_reflex(&cache, [false; 4]), [10, 11, 12, 13]);
    // the first reflex answer picks the start corner
    assert_eq!(
        platter::import_obj::rotate_to_reflex(&cache, [false, false, true, false]),
        [12, 13, 10, 11]
    );
    assert_eq!(
        platter::import_obj::rotate_to_reflex(&cache, [true, false, true, false]),
        [10, 11, 12, 13]
    );
    // the two triangles fan from the selected corner and share its diagonal
    let (f1, f2) = platter::import_obj::split_quad(&cache, [false, false, false, true]);
    assert_eq!(f1, [13, 10, 11]);
    assert_eq!(f2, [13, 11, 12]);
}

#[test]
fn gltf_import_without_materialless_primitives_adds_no_default() {
    let doc = GltfDoc {
        buffers: vec![],
        views: vec![],
        images: vec![],
        samplers: vec![],
        textures: vec![],
        materials: vec![GlMaterial {
            name: Some("only".to_owned()),
            base_color_factor: [1f32.to_bits(); 4],
            base_color_texture: None,
            metallic: 0,
            roughness: 0,
            metallic_roughness_texture: None,
            normal_texture: None,
            occlusion_texture: None,
            emissive_texture: None,
            emissive_factor: [0; 3],
            alpha_mode: GlAlphaMode::Opaque,
            alpha_cutoff: None,
            double_sided: false,
        }],
        meshes: vec![GlMesh {
            name: None,
            primitives: vec![PrimData {
                attributes: vec![],
                indices: None,
                mode: GlMode::Triangles,
                material: Some(0),
            }],
        }],
        nodes: vec![],
    };
    let plan = platter::import_gltf::import_file(doc);
    assert_eq!(plan.materials.len(), 1);
    assert_eq!(plan.geometries[0].patches[0].material, 0);
}
