use citra_engine::error::CitraError;
use citra_engine::math::Float3;
use citra_engine::scene::graph::{GameObject, SceneGraph};
use citra_engine::scene::mesh::Mesh;
use citra_engine::scene::node_path::NodePath;
use citra_engine::scene::render::RenderData;
use citra_engine::scene::Scene;

fn zero() -> Float3 {
    Float3::zero()
}

fn empty(name: &str, enabled: bool) -> GameObject {
    GameObject::new_empty(name.to_string(), enabled, zero(), zero(), Float3::one(), vec![])
}

/// root -> a -> (b, c); root -> d
fn sample() -> (SceneGraph, [usize; 5]) {
    let mut g = SceneGraph::new();
    let root = g.add(empty("root", true));
    let a = g.add(empty("a", true));
    let b = g.add(empty("b", true));
    let c = g.add(GameObject::new_cube("c".to_string(), true, zero(), zero(), Float3::one(), vec![], 0));
    let d = g.add(empty("d", false));
    g.add_child(root, a);
    g.add_child(a, b);
    g.add_child(a, c);
    g.add_child(root, d);
    g.register_all_children_for_obj(root);
    (g, [root, a, b, c, d])
}

#[test]
fn children_and_parents() {
    let (g, [root, a, b, c, d]) = sample();
    assert_eq!(g.num_objects(), 5);
    assert_eq!(g.children(root), vec![a, d]);
    assert_eq!(g.children(a), vec![b, c]);
    assert_eq!(g.parent(c), Some(a));
    assert_eq!(g.parent(root), None);
}

#[test]
fn fetch_follows_names() {
    let (g, [root, _a, _b, c, _d]) = sample();
    assert_eq!(g.fetch_obj(root, NodePath::from("/a/c".to_string())).unwrap(), c);
    assert_eq!(g.fetch_obj(root, NodePath::new()).unwrap(), root);
    match g.fetch_obj(root, NodePath::from("/a/x/c".to_string())) {
        Err(CitraError::InvalidNodePath(m)) => assert_eq!(m, "Node in path not found: x"),
        _ => panic!("expected a missing node"),
    }
}

#[test]
fn build_then_fetch_round_trip() {
    let (g, [root, _a, b, _c, _d]) = sample();
    let path = g.build_node_path(b);
    assert_eq!(path.to_string(), "/root/a/b");
    let below_root = path.remove_first();
    assert_eq!(g.fetch_obj(root, below_root).unwrap(), b);
}

#[test]
fn replacing_a_child_of_the_same_name() {
    let (mut g, [root, a, _b, _c, d]) = sample();
    let a2 = g.add(empty("a", true));
    g.add_child(root, a2);
    assert_eq!(g.children(root), vec![a2, d]);
    assert_eq!(g.fetch_obj(root, NodePath::from("/a".to_string())).unwrap(), a2);
    assert_ne!(a, a2);
}

#[test]
fn enabled_in_hierarchy() {
    let (mut g, [root, a, b, _c, d]) = sample();
    assert!(g.is_enabled_in_hierarchy(b));
    assert!(!g.is_enabled_in_hierarchy(d));
    g.disable(a);
    assert!(!g.is_enabled(a));
    assert!(!g.is_enabled_in_hierarchy(b));
    assert!(g.is_enabled_in_hierarchy(root));
    g.enable(a);
    assert!(g.is_enabled_in_hierarchy(b));
}

#[test]
fn tick_and_render_orders() {
    let (mut g, [root, a, b, c, d]) = sample();
    assert_eq!(g.tick_order(root), vec![root, a, b, c, d]);
    assert_eq!(g.render_order(root), vec![root, a, b, c]);
    g.disable(a);
    assert_eq!(g.render_order(root), vec![root]);
    assert!(!g.is_visible(c));
    assert!(g.is_visible(root));
}

#[test]
fn dirty_marks_cover_the_subtree() {
    let (mut g, [root, a, b, c, d]) = sample();
    for id in [root, a, b, c, d] {
        g.clean_render(id);
        assert!(!g.get(id).is_render_dirty);
    }
    // Refreshing the hierarchy cache leaves the compute flag raised.
    g.clean_compute(b);
    assert!(g.get(b).is_compute_dirty);
    g.mark_render_dirty(a);
    assert!(g.get(a).is_render_dirty && g.get(b).is_render_dirty && g.get(c).is_render_dirty);
    assert!(!g.get(root).is_render_dirty && !g.get(d).is_render_dirty);
    assert!(!g.clean_render(d));
    assert!(g.clean_render(b));
    assert!(!g.get(b).is_render_dirty);
}

#[test]
fn parents_are_linked_by_registration() {
    let mut g = SceneGraph::new();
    let root = g.add(empty("root", true));
    let a = g.add(empty("a", false));
    let b = g.add(empty("b", true));
    g.add_child(root, a);
    g.add_child(a, b);
    assert_eq!(g.parent(b), None);
    assert!(g.is_enabled_in_hierarchy(b));
    g.register_all_children_for_obj(root);
    assert_eq!(g.parent(b), Some(a));
    assert!(!g.is_enabled_in_hierarchy(b));
}

#[test]
fn scene_fetch_and_cameras() {
    let mut scene = Scene::default();
    let cam = scene.graph.add(GameObject::new_camera(
        "camera".to_string(),
        true,
        zero(),
        zero(),
        vec![],
        0x3f32_b8c3,
        0x3c23_d70a,
        0x447a_0000,
    ));
    scene.graph.add_child(scene.root, cam);
    scene.graph.register_all_children_for_obj(scene.root);
    assert_eq!(scene.fetch(NodePath::from("/camera".to_string())).unwrap(), cam);
    scene.starting_top_camera_path = Some(NodePath::from("/camera".to_string()));
    assert_eq!(scene.starting_cameras().unwrap(), (Some(cam), None));
    scene.starting_bottom_camera_path = Some(NodePath::from("/nope".to_string()));
    assert!(scene.starting_cameras().is_err());
    assert!(scene.graph.get(cam).render_data.is_camera());
    assert_eq!(scene.add_model("/models/m".to_string()), 0);
}

#[test]
fn copying_a_subtree() {
    let (g, [_root, a, _b, _c, _d]) = sample();
    let mut copy = SceneGraph::new();
    let top = copy.copy_subtree(&g, a);
    assert_eq!(top, 0);
    assert_eq!(copy.num_objects(), 3);
    assert_eq!(copy.get(0).name, "a");
    assert_eq!(copy.children(0), vec![1, 2]);
    assert_eq!(copy.get(1).name, "b");
    assert_eq!(copy.get(2).name, "c");
    assert!(matches!(copy.get(2).render_data, RenderData::Cube { material: 0 }));
    assert_eq!(copy.parent(1), None);
}

#[test]
fn duplicating_a_scene_links_parents() {
    let mut scene = Scene::default();
    let a = scene.graph.add(empty("a", true));
    let b = scene.graph.add(empty("b", false));
    scene.graph.add_child(scene.root, a);
    scene.graph.add_child(a, b);
    scene.models.push("/models/m".to_string());
    scene.starting_top_camera_path = Some(NodePath::from("/a".to_string()));
    let copy = scene.duplicate();
    assert_eq!(copy.root, 0);
    assert_eq!(copy.graph.num_objects(), 3);
    assert_eq!(copy.graph.parent(1), Some(0));
    assert_eq!(copy.graph.parent(2), Some(1));
    assert_eq!(copy.graph.get(2).name, "b");
    assert!(!copy.graph.get(2).enabled);
    assert_eq!(copy.models, vec!["/models/m".to_string()]);
    assert_eq!(copy.starting_top_camera_path.unwrap().to_string(), "/a");
    // The original keeps its own links.
    assert_eq!(scene.graph.parent(b), None);
}

#[test]
fn shared_children_are_copied_once_per_parent() {
    let mut g = SceneGraph::new();
    let root = g.add(empty("root", true));
    let x = g.add(empty("x", true));
    let y = g.add(empty("y", true));
    let shared = g.add(empty("s", true));
    g.add_child(root, x);
    g.add_child(root, y);
    g.add_child(x, shared);
    g.add_child(y, shared);
    let mut copy = SceneGraph::new();
    copy.copy_subtree(&g, root);
    assert_eq!(copy.num_objects(), 5);
    assert_eq!(copy.children(0), vec![1, 3]);
    assert_eq!(copy.children(1), vec![2]);
    assert_eq!(copy.children(3), vec![4]);
    assert_eq!(copy.get(2).name, "s");
    assert_eq!(copy.get(4).name, "s");
}

#[test]
fn materials_bound_to_draw_an_object() {
    assert_eq!(RenderData::Empty.material_binds(0), Vec::<usize>::new());
    assert_eq!(RenderData::Cube { material: 4 }.material_binds(0), vec![4]);
    let mesh = RenderData::Mesh { materials: vec![2, 0, 1], mesh: Mesh { model: 0, mesh: 0 } };
    assert_eq!(mesh.material_binds(2), vec![2, 0]);
    assert_eq!(mesh.material_binds(3), vec![2, 0, 1]);
    assert_eq!(
        RenderData::Camera { fov: 0, near: 0, far: 0 }.material_binds(0),
        Vec::<usize>::new()
    );
}
