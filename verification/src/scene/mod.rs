use vstd::prelude::*;

use crate::error::{is_missing_node, CitraError};
use crate::math::Float3;
use crate::scene::graph::{GameObject, SceneGraph};
use crate::scene::graph::{lemma_copies_relinked, lemma_parent_in_subtree_same_kids};
use crate::scene::light::{duplicate_path, same_path, same_slot, Light, LightEnv};
use crate::scene::material::Material;
use crate::scene::node_path::NodePath;

pub mod graph;
pub mod light;
pub mod material;
pub mod mesh;
pub mod node_path;
pub mod render;

verus! {

/// The value an object's `enabled` flag takes when a scene file leaves it out.
pub fn default_true() -> (b: bool)
    ensures
        b,
{
    true
}

/// A scene: the models and materials it loads, the paths of its starting
/// cameras, its object graph with the handle of the root, and its lights.
#[derive(Debug)]
pub struct Scene {
    pub models: Vec<String>,
    pub materials: Vec<Material>,
    pub starting_top_camera_path: Option<NodePath>,
    pub starting_bottom_camera_path: Option<NodePath>,
    pub graph: SceneGraph,
    pub root: usize,
    pub light_env: LightEnv,
}

/// A versioned scene description: the current version, or one that is not supported.
#[derive(Debug)]
pub enum SceneVersion {
    Latest(Scene),
    NotSupported,
}

/// The object that a light's remembered path leads to from `root`, where it
/// has a path: `Ok(None)` without one.
pub open spec fn light_target(g: SceneGraph, root: int, l: Option<Light>) -> Result<Option<int>, Seq<char>> {
    match l {
        Some(light) => match light.starting_follow_transform {
            Some(p) => match g.resolve(root, p.segments()) {
                Ok(c) => Ok(Some(c)),
                Err(seg) => Err(seg),
            },
            None => Ok(None),
        },
        None => Ok(None),
    }
}

/// `f` is the light `o` after resolving its target `t`: where the path led
/// to an object, the same light following that object; otherwise unchanged.
pub open spec fn light_resolved(o: Option<Light>, f: Option<Light>, t: Result<Option<int>, Seq<char>>) -> bool {
    match t {
        Ok(Some(c)) => {
            &&& o is Some
            &&& f is Some
            &&& f->0.light_type == o->0.light_type
            &&& f->0.color == o->0.color
            &&& f->0.follow_transform == Some(c as usize)
            &&& o->0.starting_follow_transform is Some
            &&& f->0.starting_follow_transform is Some
            &&& f->0.starting_follow_transform->0.segments() == o->0.starting_follow_transform->0.segments()
        },
        _ => f == o,
    }
}

/// Where a starting camera path leads from `root`: `Ok(None)` without a path.
pub open spec fn camera_target(g: SceneGraph, root: int, p: Option<NodePath>) -> Result<Option<int>, Seq<char>> {
    match p {
        Some(path) => match g.resolve(root, path.segments()) {
            Ok(c) => Ok(Some(c)),
            Err(seg) => Err(seg),
        },
        None => Ok(None),
    }
}

/// An optional handle as an optional integer.
pub open spec fn opt_ids(o: Option<usize>) -> Option<int> {
    match o {
        Some(c) => Some(c as int),
        None => None,
    }
}

impl Scene {
    /// The graph is well formed and the root is one of its objects.
    pub open spec fn wf(&self) -> bool {
        self.graph.wf() && self.root < self.graph.len()
    }

    /// The scene is empty: no models, no materials, no cameras, no lights,
    /// and a graph holding only an enabled root named `"root"` with no render
    /// data.
    pub open spec fn is_empty_scene(&self) -> bool {
        &&& self.wf()
        &&& self.models@.len() == 0
        &&& self.materials@.len() == 0
        &&& self.starting_top_camera_path is None
        &&& self.starting_bottom_camera_path is None
        &&& self.graph.len() == 1
        &&& self.root == 0
        &&& self.graph.name_of(0) == "root"@
        &&& self.graph.objects()[0].enabled
        &&& self.graph.nkids(0) == 0
        &&& self.graph.objects()[0].parent_of() is None
        &&& self.graph.objects()[0].render_data.view() is Empty
        &&& forall|i: int| 0 <= i < 8 ==> #[trigger] self.light_env.lights@[i] is None
    }

    /// An empty scene whose root sits at the origin with zero scale.
    pub fn default() -> (out: Self)
        ensures
            out.is_empty_scene(),
    {
        let mut graph = SceneGraph::new();
        let root_obj = GameObject::new_empty(
            String::from_str("root"),
            true,
            Float3::zero(),
            Float3::zero(),
            Float3::zero(),
            Vec::new(),
        );
        let root = graph.add(root_obj);
        Scene {
            models: Vec::new(),
            materials: Vec::new(),
            starting_top_camera_path: None,
            starting_bottom_camera_path: None,
            graph,
            root,
            light_env: LightEnv::default(),
        }
    }

    /// The scene of a versioned description; a version that is not supported is an error.
    pub fn try_from(value: SceneVersion) -> (res: Result<Scene, CitraError>)
        ensures
            match value {
                SceneVersion::Latest(s) => res == Ok::<Scene, CitraError>(s),
                SceneVersion::NotSupported => res == Err::<Scene, CitraError>(CitraError::SceneVersionNotSupported),
            },
    {
        match value {
            SceneVersion::Latest(s) => Ok(s),
            SceneVersion::NotSupported => Err(CitraError::SceneVersionNotSupported),
        }
    }

    /// The object that `path` leads to from the root.
    pub fn fetch(&self, path: NodePath) -> (res: Result<usize, CitraError>)
        requires
            self.wf(),
        ensures
            match res {
                Ok(c) => self.graph.resolve(self.root as int, path.segments()) == Ok::<int, Seq<char>>(c as int),
                Err(_) => match self.graph.resolve(self.root as int, path.segments()) {
                    Ok(_) => false,
                    Err(seg) => is_missing_node(res, seg),
                },
            },
    {
        self.graph.fetch_obj(self.root, path)
    }

    /// Appends a material and returns its index.
    pub fn add_material(&mut self, material: Material) -> (idx: usize)
        requires
            old(self).materials@.len() < usize::MAX,
        ensures
            final(self).materials@ == old(self).materials@.push(material),
            idx == old(self).materials@.len(),
            final(self).models == old(self).models,
            final(self).graph == old(self).graph,
            final(self).root == old(self).root,
    {
        self.materials.push(material);
        self.materials.len() - 1
    }

    /// Appends a model and returns its index.
    pub fn add_model(&mut self, model: String) -> (idx: usize)
        requires
            old(self).models@.len() < usize::MAX,
        ensures
            final(self).models@ == old(self).models@.push(model),
            idx == old(self).models@.len(),
            final(self).materials == old(self).materials,
            final(self).graph == old(self).graph,
            final(self).root == old(self).root,
    {
        self.models.push(model);
        self.models.len() - 1
    }

    /// Points every light that remembers a path at the object the path leads
    /// to from the root, light by light; stops at the first path that leads
    /// nowhere and reports it.
    pub fn resolve_lights(&mut self) -> (res: Result<(), CitraError>)
        requires
            old(self).wf(),
        ensures
            final(self).graph == old(self).graph,
            final(self).root == old(self).root,
            final(self).models == old(self).models,
            final(self).materials == old(self).materials,
            final(self).starting_top_camera_path == old(self).starting_top_camera_path,
            final(self).starting_bottom_camera_path == old(self).starting_bottom_camera_path,
            final(self).light_env.light_luts == old(self).light_env.light_luts,
            final(self).light_env.light_material == old(self).light_env.light_material,
            res is Ok <==> forall|i: int| 0 <= i < 8 ==> #[trigger] light_target(old(self).graph, old(self).root as int, old(self).light_env.lights@[i]) is Ok,
            res is Ok ==> forall|i: int| 0 <= i < 8 ==> light_resolved(
                old(self).light_env.lights@[i],
                final(self).light_env.lights@[i],
                #[trigger] light_target(old(self).graph, old(self).root as int, old(self).light_env.lights@[i]),
            ),
            res is Err ==> exists|i: int| 0 <= i < 8 && (forall|j: int| 0 <= j < i ==> #[trigger] light_target(old(self).graph, old(self).root as int, old(self).light_env.lights@[j]) is Ok)
                && (forall|j: int| 0 <= j < i ==> light_resolved(
                    old(self).light_env.lights@[j],
                    final(self).light_env.lights@[j],
                    #[trigger] light_target(old(self).graph, old(self).root as int, old(self).light_env.lights@[j]),
                ))
                && (forall|j: int| i <= j < 8 ==> #[trigger] final(self).light_env.lights@[j] == old(self).light_env.lights@[j])
                && match #[trigger] light_target(old(self).graph, old(self).root as int, old(self).light_env.lights@[i]) {
                    Err(seg) => is_missing_node(res, seg),
                    Ok(_) => false,
                },
    {
        let ghost g = self.graph;
        let ghost r = self.root as int;
        let ghost start = self.light_env.lights@;
        for i in 0..8usize
            invariant
                self.wf(),
                self.graph == g,
                self.root == r,
                g == old(self).graph,
                r == old(self).root,
                start == old(self).light_env.lights@,
                self.light_env.lights@.len() == 8,
                forall|j: int| 0 <= j < i ==> #[trigger] light_target(g, r, start[j]) is Ok,
                forall|j: int| 0 <= j < i ==> light_resolved(start[j], self.light_env.lights@[j], #[trigger] light_target(g, r, start[j])),
                self.models == old(self).models,
                self.materials == old(self).materials,
                self.starting_top_camera_path == old(self).starting_top_camera_path,
                self.starting_bottom_camera_path == old(self).starting_bottom_camera_path,
                self.light_env.light_luts == old(self).light_env.light_luts,
                self.light_env.light_material == old(self).light_env.light_material,
                forall|j: int| i <= j < 8 ==> #[trigger] self.light_env.lights@[j] == start[j],
        {
            let updated: Option<Light> = match &self.light_env.lights[i] {
                Some(l) => match &l.starting_follow_transform {
                    Some(p) => match self.graph.fetch_obj(self.root, p.duplicate()) {
                        Ok(c) => Some(Light {
                            light_type: l.light_type,
                            starting_follow_transform: Some(p.duplicate()),
                            color: l.color,
                            follow_transform: Some(c),
                        }),
                        Err(e) => {
                            proof {
                                assert(light_target(g, r, start[i as int]) is Err);
                                assert(forall|j: int| 0 <= j < i ==> #[trigger] light_target(g, r, start[j]) is Ok);
                            }
                            return Err(e);
                        },
                    },
                    None => None,
                },
                None => None,
            };
            match updated {
                Some(l) => {
                    self.light_env.lights[i] = Some(l);
                },
                None => {},
            }
        }
        Ok(())
    }

    /// The objects that the starting camera paths lead to from the root,
    /// top camera first; a path that leads nowhere is an error.
    pub fn starting_cameras(&self) -> (res: Result<(Option<usize>, Option<usize>), CitraError>)
        requires
            self.wf(),
        ensures
            match res {
                Ok((t, b)) => camera_target(self.graph, self.root as int, self.starting_top_camera_path) == Ok::<Option<int>, Seq<char>>(opt_ids(t))
                    && camera_target(self.graph, self.root as int, self.starting_bottom_camera_path) == Ok::<Option<int>, Seq<char>>(opt_ids(b)),
                Err(_) => match camera_target(self.graph, self.root as int, self.starting_top_camera_path) {
                    Err(seg) => is_missing_node(res, seg),
                    Ok(_) => match camera_target(self.graph, self.root as int, self.starting_bottom_camera_path) {
                        Err(seg) => is_missing_node(res, seg),
                        Ok(_) => false,
                    },
                },
            },
    {
        let top = match &self.starting_top_camera_path {
            Some(p) => match self.fetch(p.duplicate()) {
                Ok(c) => Some(c),
                Err(e) => return Err(e),
            },
            None => None,
        };
        let bottom = match &self.starting_bottom_camera_path {
            Some(p) => match self.fetch(p.duplicate()) {
                Ok(c) => Some(c),
                Err(e) => return Err(e),
            },
            None => None,
        };
        Ok((top, bottom))
    }
}


/// Copies of the strings.
fn duplicate_strings(v: &Vec<String>) -> (out: Vec<String>)
    ensures
        out@.len() == v@.len(),
        forall|i: int| 0 <= i < v@.len() ==> (#[trigger] out@[i])@ == v@[i]@,
{
    let mut out: Vec<String> = Vec::new();
    let n = v.len();
    for i in 0..n
        invariant
            n == v@.len(),
            out@.len() == i,
            forall|j: int| 0 <= j < i ==> (#[trigger] out@[j])@ == v@[j]@,
    {
        out.push(v[i].clone());
    }
    out
}

/// Copies of the materials.
fn duplicate_materials(v: &Vec<Material>) -> (out: Vec<Material>)
    ensures
        out@.len() == v@.len(),
        forall|i: int|
            0 <= i < v@.len() ==> (#[trigger] out@[i]).shader_file == v@[i].shader_file
                && out@[i].inputs@ == v@[i].inputs@,
{
    let mut out: Vec<Material> = Vec::new();
    let n = v.len();
    for i in 0..n
        invariant
            n == v@.len(),
            out@.len() == i,
            forall|j: int|
                0 <= j < i ==> (#[trigger] out@[j]).shader_file == v@[j].shader_file
                    && out@[j].inputs@ == v@[j].inputs@,
    {
        out.push(v[i].duplicate());
    }
    out
}

impl Scene {
    /// A copy of the scene in a graph of its own: the root's subtree is
    /// copied, the copy of the root is handle 0, and every copied child links
    /// back to its parent. Lights keep the handles they follow.
    pub fn duplicate(&self) -> (out: Scene)
        requires
            self.wf(),
            self.graph.preorder(self.root as int).len() <= usize::MAX,
        ensures
            out.wf(),
            out.root == 0,
            out.graph.len() == self.graph.preorder(self.root as int).len(),
            out.graph.copies(&self.graph, self.root as int, 0),
            forall|m: int|
                0 <= m < out.graph.len() ==> match (#[trigger] out.graph.objects()[m]).parent_of() {
                    Some(k) => out.graph.parent_in_subtree(0, k as int, m),
                    None => !out.graph.has_parent_in_subtree(0, m),
                },
            out.models@.len() == self.models@.len(),
            forall|i: int| 0 <= i < self.models@.len() ==> (#[trigger] out.models@[i])@ == self.models@[i]@,
            out.materials@.len() == self.materials@.len(),
            forall|i: int|
                0 <= i < self.materials@.len() ==> (#[trigger] out.materials@[i]).shader_file
                    == self.materials@[i].shader_file && out.materials@[i].inputs@
                    == self.materials@[i].inputs@,
            same_path(out.starting_top_camera_path, self.starting_top_camera_path),
            same_path(out.starting_bottom_camera_path, self.starting_bottom_camera_path),
            forall|i: int| 0 <= i < 8 ==> same_slot(#[trigger] out.light_env.lights@[i], self.light_env.lights@[i]),
            out.light_env.light_luts == self.light_env.light_luts,
            out.light_env.light_material == self.light_env.light_material,
    {
        let mut graph = SceneGraph::new();
        let root = graph.copy_subtree(&self.graph, self.root);
        let ghost g0 = graph;
        graph.register_all_children_for_obj(root);
        proof {
            lemma_copies_relinked(&g0, &graph, &self.graph, self.root as int, 0);
            assert forall|m: int| 0 <= m < graph.len() implies match (#[trigger] graph.objects()[m]).parent_of() {
                Some(k) => graph.parent_in_subtree(0, k as int, m),
                None => !graph.has_parent_in_subtree(0, m),
            } by {
                if g0.has_parent_in_subtree(0, m) {
                    let k = graph.objects()[m].parent_of()->0;
                    lemma_parent_in_subtree_same_kids(&g0, &graph, 0, k as int, m);
                } else {
                    assert(graph.objects()[m].parent_of() is None);
                    if graph.has_parent_in_subtree(0, m) {
                        let k = choose|k: int| #[trigger] graph.parent_in_subtree(0, k, m);
                        lemma_parent_in_subtree_same_kids(&g0, &graph, 0, k, m);
                        assert(g0.parent_in_subtree(0, k, m));
                    }
                }
            }
        }
        Scene {
            models: duplicate_strings(&self.models),
            materials: duplicate_materials(&self.materials),
            starting_top_camera_path: duplicate_path(&self.starting_top_camera_path),
            starting_bottom_camera_path: duplicate_path(&self.starting_bottom_camera_path),
            graph,
            root,
            light_env: self.light_env.duplicate(),
        }
    }
}

} // verus!
