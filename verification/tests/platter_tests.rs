//! Tests of the registry state machine, the remote transform methods, and
//! the converter's size threshold.

use platter::arguments::{Arguments, Directory, Source};
use platter::object::{Object, ObjectRoot};
use platter::playground_state::{PlaygroundAction, PlaygroundState, ServerCommand};
use platter::convert::{convert_intermediate, BufferPlacement};
use platter::ids::Tag;
use platter::intermediate::{IntermediateScene, VertexData};
use platter::ops::ScalarOps;
use platter::platter_state::{
    handle_command, PlatterAction, PlatterCommand, PlatterInit, PlatterState,
};
use platter::scene::{Scene, SceneObject, SceneTransformUpdate};

/// The numeric oracle: real single-precision arithmetic on bit patterns.
struct RealOps;

impl ScalarOps for RealOps {
    fn bits_of_token(&mut self, t: &[u8]) -> u32 {
        match std::str::from_utf8(t) {
            Ok(s) => s.parse::<f32>().unwrap_or_default().to_bits(),
            Err(_) => 0f32.to_bits(),
        }
    }

    fn try_bits_of_token(&mut self, t: &[u8]) -> Option<u32> {
        match std::str::from_utf8(t) {
            Ok(s) => s.parse::<f32>().ok().map(|f| f.to_bits()),
            Err(_) => None,
        }
    }

    fn div_bits(&mut self, a: u32, b: u32) -> u32 {
        (f32::from_bits(a) / f32::from_bits(b)).to_bits()
    }

    fn quantize_u16(&mut self, b: u32) -> u16 {
        (f32::from_bits(b) * (65536.0 - 1.0)) as u16
    }

    fn quantize_u8(&mut self, b: u32) -> u8 {
        (f32::from_bits(b) * (u8::MAX as f32)) as u8
    }

    fn int_to_bits(&mut self, v: i32) -> u32 {
        (v as f32).to_bits()
    }

    fn is_reflex(&mut self, _a: [u32; 3], _b: [u32; 3], _c: [u32; 3], _d: [u32; 3]) -> bool {
        false
    }

    fn pack_mesh(&mut self, verts: &Vec<VertexData>, faces: &Vec<[u32; 3]>) -> Vec<u8> {
        // 44 bytes per vertex, 12 per triangle
        let mut out = Vec::new();
        for v in verts {
            for w in v.position.iter().chain(v.normal.iter()).chain(v.tangent.iter()) {
                out.extend_from_slice(&w.to_le_bytes());
            }
            for t in v.texture.iter() {
                out.extend_from_slice(&t.to_le_bytes());
            }
            out.extend_from_slice(&v.color);
        }
        for f in faces {
            for ix in f.iter() {
                out.extend_from_slice(&ix.to_le_bytes());
            }
        }
        out
    }
}

fn bits(f: f32) -> u32 {
    f.to_bits()
}

fn init() -> PlatterInit {
    PlatterInit { size_large_limit: 4096, resize: bits(1.0), offset: [0, 0, 0] }
}

fn scene_with(entity: usize, assets: Vec<u128>) -> Scene {
    Scene::new(SceneObject { parts: vec![entity], children: Vec::new() }, assets)
}

fn registered_tag(ps: &mut PlatterState, exclusive: bool) -> Tag {
    let dir = Directory {
        dir: "/watch".to_owned(),
        load_existing: false,
        latest_only: exclusive,
        organize_by_dir: false,
    };
    let acts = handle_command(ps, PlatterCommand::WatchDirectory(dir));
    match &acts[0] {
        PlatterAction::SpawnWatcher(_, t) => *t,
        other => panic!("expected a watcher spawn, got {other:?}"),
    }
}

#[test]
fn load_file_asks_for_an_import() {
    let mut ps = PlatterState::new(init());
    let acts = handle_command(&mut ps, PlatterCommand::LoadFile("/x/cube.obj".to_owned(), None));
    assert_eq!(acts.len(), 1);
    match &acts[0] {
        PlatterAction::Import(p, t) => {
            assert_eq!(p, "/x/cube.obj");
            assert!(t.is_none());
        }
        other => panic!("expected an import, got {other:?}"),
    }
}

#[test]
fn clear_tag_unpublishes_each_asset_once() {
    let mut ps = PlatterState::new(init());
    let tag = registered_tag(&mut ps, false);
    let (id1, un1) = ps.add_object(scene_with(10, vec![100, 101]), Some(tag));
    let (id2, un2) = ps.add_object(scene_with(11, vec![102]), Some(tag));
    assert_eq!(un1.len(), 0);
    assert_eq!(un2.len(), 0);
    assert_ne!(id1, id2);
    let acts = handle_command(&mut ps, PlatterCommand::ClearTag(tag));
    let mut unpublished: Vec<u128> = acts
        .iter()
        .map(|a| match a {
            PlatterAction::Unpublish(x) => *x,
            other => panic!("expected an unpublish, got {other:?}"),
        })
        .collect();
    unpublished.sort();
    assert_eq!(unpublished, vec![100, 101, 102]);
    // the tag's scene set is gone: clearing again does nothing
    assert_eq!(handle_command(&mut ps, PlatterCommand::ClearTag(tag)).len(), 0);
    // the scenes are gone from the registry
    assert!(ps.find_id(10).is_none());
    assert!(ps.find_id(11).is_none());
}

#[test]
fn exclusive_tag_replaces_previous_scenes() {
    let mut ps = PlatterState::new(init());
    let tag = registered_tag(&mut ps, true);
    let (id1, un1) = ps.add_object(scene_with(10, vec![100, 101]), Some(tag));
    assert_eq!(un1.len(), 0);
    let (id2, un2) = ps.add_object(scene_with(11, vec![102]), Some(tag));
    // loading under an exclusive tag removed the earlier scene first
    let mut un2 = un2;
    un2.sort();
    assert_eq!(un2, vec![100, 101]);
    assert!(ps.find_id(10).is_none());
    assert_eq!(ps.find_id(11), Some(id2));
    assert_ne!(id1, id2);
}

#[test]
fn untagged_scenes_survive_clears() {
    let mut ps = PlatterState::new(init());
    let tag = registered_tag(&mut ps, false);
    let (_id, _) = ps.add_object(scene_with(10, vec![100]), None);
    let acts = handle_command(&mut ps, PlatterCommand::ClearTag(tag));
    assert_eq!(acts.len(), 0);
    assert!(ps.find_id(10).is_some());
}

#[test]
fn unknown_tag_is_not_recorded() {
    let mut ps = PlatterState::new(init());
    let stray = Tag::new();
    let (_id, un) = ps.add_object(scene_with(10, vec![100]), Some(stray));
    assert_eq!(un.len(), 0);
    // the stray tag was never registered, so clearing it does nothing
    assert_eq!(handle_command(&mut ps, PlatterCommand::ClearTag(stray)).len(), 0);
    assert!(ps.find_id(10).is_some());
}

#[test]
fn transform_methods_sanitize_nan() {
    let mut ps = PlatterState::new(init());
    let (id, _) = ps.add_object(scene_with(7, Vec::new()), None);
    assert_eq!(ps.find_id(7), Some(id));
    let u = ps
        .apply_set_position(Some(7), [f32::NAN.to_bits(), bits(1.0), bits(2.0)])
        .unwrap();
    assert_eq!(u.position, [0, bits(1.0), bits(2.0)]);
    assert_eq!(u.entity, Some(7));
    // resolution failures are reported, never a panic
    assert!(ps.apply_set_position(None, [0, 0, 0]).is_err());
    assert!(ps.apply_set_position(Some(99), [0, 0, 0]).is_err());
}

fn matrix_of(u: &SceneTransformUpdate) -> nalgebra::Matrix4<f32> {
    let p = nalgebra::Translation3::new(
        f32::from_bits(u.position[0]),
        f32::from_bits(u.position[1]),
        f32::from_bits(u.position[2]),
    );
    let q = nalgebra::Quaternion::new(
        f32::from_bits(u.rotation[3]),
        f32::from_bits(u.rotation[0]),
        f32::from_bits(u.rotation[1]),
        f32::from_bits(u.rotation[2]),
    );
    let rot = nalgebra::UnitQuaternion::from_quaternion(q);
    let iso = nalgebra::Isometry3::from_parts(p, rot);
    let scale = nalgebra::Scale3::new(
        f32::from_bits(u.scale[0]),
        f32::from_bits(u.scale[1]),
        f32::from_bits(u.scale[2]),
    );
    iso.to_homogeneous() * scale.to_homogeneous()
}

fn assert_matrix_eq(tf: &nalgebra::Matrix4<f32>, cols: [[f32; 4]; 4]) {
    let expect = nalgebra::Matrix4::from_columns(&[
        cols[0].into(),
        cols[1].into(),
        cols[2].into(),
        cols[3].into(),
    ]);
    for i in 0..4 {
        for j in 0..4 {
            let a = tf[(i, j)];
            let b = expect[(i, j)];
            assert!(
                (a - b).abs() <= 0.001 * b.abs().max(1.0),
                "matrix mismatch at ({i},{j}): {a} vs {b}"
            );
        }
    }
}

#[test]
fn test_scene_transforms() {
    let mut s = Scene::new(SceneObject { parts: Vec::new(), children: Vec::new() }, Vec::new());

    s.set_position([bits(1.0), bits(2.0), bits(3.0)]);
    let tf = matrix_of(&s.update_transform());
    assert_matrix_eq(&tf, [
        [1.0, 0.0, 0.0, 0.0],
        [0.0, 1.0, 0.0, 0.0],
        [0.0, 0.0, 1.0, 0.0],
        [1.0, 2.0, 3.0, 1.0],
    ]);

    s.set_position([bits(0.0), bits(0.0), bits(0.0)]);
    let tf = matrix_of(&s.update_transform());
    assert_matrix_eq(&tf, [
        [1.0, 0.0, 0.0, 0.0],
        [0.0, 1.0, 0.0, 0.0],
        [0.0, 0.0, 1.0, 0.0],
        [0.0, 0.0, 0.0, 1.0],
    ]);

    // wire order is x, y, z, w
    s.set_rotation([bits(0.7071), bits(0.0), bits(0.0), bits(0.7071)]);
    let tf = matrix_of(&s.update_transform());
    assert_matrix_eq(&tf, [
        [1.0, 0.0, 0.0, 0.0],
        [0.0, 0.0, 1.0, 0.0],
        [0.0, -1.0, 0.0, 0.0],
        [0.0, 0.0, 0.0, 1.0],
    ]);

    s.set_rotation([bits(0.0), bits(0.0), bits(0.0), bits(1.0)]);
    let tf = matrix_of(&s.update_transform());
    assert_matrix_eq(&tf, [
        [1.0, 0.0, 0.0, 0.0],
        [0.0, 1.0, 0.0, 0.0],
        [0.0, 0.0, 1.0, 0.0],
        [0.0, 0.0, 0.0, 1.0],
    ]);

    s.set_scale([bits(2.0), bits(3.0), bits(4.0)]);
    let tf = matrix_of(&s.update_transform());
    assert_matrix_eq(&tf, [
        [2.0, 0.0, 0.0, 0.0],
        [0.0, 3.0, 0.0, 0.0],
        [0.0, 0.0, 4.0, 0.0],
        [0.0, 0.0, 0.0, 1.0],
    ]);

    s.set_scale([bits(1.0), bits(1.0), bits(1.0)]);
    let tf = matrix_of(&s.update_transform());
    assert_matrix_eq(&tf, [
        [1.0, 0.0, 0.0, 0.0],
        [0.0, 1.0, 0.0, 0.0],
        [0.0, 0.0, 1.0, 0.0],
        [0.0, 0.0, 0.0, 1.0],
    ]);

    s.set_scale([bits(2.0), bits(2.0), bits(2.0)]);
    s.set_position([bits(3.0), bits(3.0), bits(3.0)]);
    let tf = matrix_of(&s.update_transform());
    assert_matrix_eq(&tf, [
        [2.0, 0.0, 0.0, 0.0],
        [0.0, 2.0, 0.0, 0.0],
        [0.0, 0.0, 2.0, 0.0],
        [3.0, 3.0, 3.0, 1.0],
    ]);
    let moved = tf.transform_point(&nalgebra::Point3::new(4.0, 4.0, 4.0));
    for (got, want) in [moved.x, moved.y, moved.z].iter().zip([11.0f32, 11.0, 11.0]) {
        assert!((got - want).abs() <= 0.001);
    }

    s.set_scale([bits(2.0), bits(1.0), bits(0.5)]);
    let (sin, cos) = (30.0_f32.to_radians() / 2.0_f32).sin_cos();
    s.set_rotation([bits(sin), bits(0.0), bits(0.0), bits(cos)]);
    s.set_position([bits(10.0), bits(20.0), bits(30.0)]);
    let tf = matrix_of(&s.update_transform());
    assert_matrix_eq(&tf, [
        [2.0, 0.0, 0.0, 0.0],
        [0.0, 0.866, 0.5, 0.0],
        [0.0, -0.25, 0.433, 0.0],
        [10.0, 20.0, 30.0, 1.0],
    ]);
}

fn one_mesh_scene(n_verts: usize, n_faces: usize) -> IntermediateScene {
    let mut scene = IntermediateScene::empty();
    scene.mats.push(platter::intermediate::IntermediateMat {
        name: None,
        base_color: [bits(1.0); 4],
        metallic: 0,
        roughness: bits(1.0),
        doublesided: false,
        base_color_texture: None,
    });
    let verts = vec![VertexData::zeroed(); n_verts];
    let indices = vec![[0u32, 0, 0]; n_faces];
    scene.meshes.push(platter::intermediate::IntermediateMesh {
        material: 0,
        verts,
        indices,
    });
    scene.nodes = Some(platter::intermediate::IntermediateNode {
        name: "root".to_owned(),
        meshes: vec![0],
        children: Vec::new(),
    });
    scene
}

#[test]
fn buffers_at_the_threshold_stay_inline() {
    // three vertices and one triangle pack to 3 * 44 + 12 = 144 bytes
    let mut ops = RealOps;
    let plan = convert_intermediate(one_mesh_scene(3, 1), 144, &mut ops);
    assert_eq!(plan.meshes.len(), 1);
    match &plan.meshes[0].buffer {
        BufferPlacement::Inline(b) => assert_eq!(b.len(), 144),
        BufferPlacement::Hosted(..) => panic!("a buffer at the threshold must stay inline"),
    }
    assert_eq!(plan.published.len(), 0);
}

#[test]
fn buffers_over_the_threshold_are_hosted() {
    let mut ops = RealOps;
    let plan = convert_intermediate(one_mesh_scene(3, 1), 143, &mut ops);
    match &plan.meshes[0].buffer {
        BufferPlacement::Hosted(id, b) => {
            assert_eq!(b.len(), 144);
            assert_eq!(plan.published, vec![*id]);
        }
        BufferPlacement::Inline(_) => panic!("a buffer over the threshold must be hosted"),
    }
}

#[test]
fn converter_emits_container_and_hidden_entities() {
    let mut ops = RealOps;
    let plan = convert_intermediate(one_mesh_scene(3, 1), 4096, &mut ops);
    assert_eq!(plan.entities.len(), 2);
    assert_eq!(plan.entities[0].name, Some("root".to_owned()));
    assert!(!plan.entities[0].hidden);
    assert_eq!(plan.entities[0].parent, None);
    assert!(plan.entities[1].hidden);
    assert_eq!(plan.entities[1].parent, Some(0));
    assert_eq!(plan.entities[1].mesh, Some(0));
    assert_eq!(plan.root.parts, vec![0, 1]);
}

#[test]
fn object_root_transform_state() {
    let mut o = ObjectRoot::new(Object { parts: vec![5], children: Vec::new() }, vec![77]);
    let u = o.set_position([bits(3.0); 3]);
    assert_eq!(u.entity, Some(5));
    assert_eq!(u.position, [bits(3.0); 3]);
    let u = o.set_scale([bits(2.0); 3]);
    assert_eq!(u.position, [bits(3.0); 3]);
    assert_eq!(u.scale, [bits(2.0); 3]);
    // the rotation is still the identity quaternion, w last
    assert_eq!(u.rotation, [0, 0, 0, bits(1.0)]);
    assert_eq!(o.take_published(), vec![77]);
    assert_eq!(o.published.len(), 0);
}

#[test]
fn playground_clears_before_loading_under_latest_only() {
    let args = Arguments {
        source: Source::Watch(Directory {
            dir: "/w".to_owned(),
            load_existing: false,
            latest_only: true,
            organize_by_dir: false,
        }),
        address: None,
        port: None,
        size_large_limit: 4096,
        rescale: None,
        offset: None,
    };
    let mut ps = PlaygroundState::new(args);
    ps.add_object(ObjectRoot::new(Object { parts: vec![0], children: Vec::new() }, Vec::new()));
    assert_eq!(ps.items.len(), 1);
    let acts = ps.handle_command(ServerCommand::LoadFile("/w/a.obj".to_owned()));
    assert_eq!(acts.len(), 1);
    match &acts[0] {
        PlaygroundAction::Import(p) => assert_eq!(p, "/w/a.obj"),
    }
    // under a latest-only source the old objects are discarded first
    assert_eq!(ps.items.len(), 0);
}
