use vstd::prelude::*;

use crate::error::CitraError;
use crate::math::Float3;
use crate::scene::node_path::NodePath;
use crate::script::str_equal;
use crate::scene::mesh::Mesh;
use crate::scene::render::RenderData;
use crate::script::ScriptVariant;

verus! {

/// One object of the scene graph.
///
/// Its links (parent and children) and its cached state are kept by the
/// [`SceneGraph`] that holds it; an object that was just made is on its own.
#[derive(Debug)]
pub struct GameObject {
    pub name: String,
    pub enabled: bool,
    pub render_data: RenderData,
    pub position: Float3,
    pub rotation: Float3,
    pub scale: Float3,
    pub scripts: Vec<ScriptVariant>,
    pub visible: bool,
    pub enabled_in_hierarchy: bool,
    pub is_compute_dirty: bool,
    pub is_render_dirty: bool,
    pub parent: Option<usize>,
    pub children: Vec<usize>,
}

impl GameObject {
    /// The object that this object last recorded as its parent.
    pub open spec fn parent_of(&self) -> Option<usize> {
        self.parent
    }

    /// The handles of the children, in the order they were added.
    pub open spec fn children_of(&self) -> Seq<usize> {
        self.children@
    }

    /// The cached "enabled in the hierarchy" state.
    pub open spec fn hierarchy_cache(&self) -> bool {
        self.enabled_in_hierarchy
    }

    /// The cached visibility.
    pub open spec fn visible_cache(&self) -> bool {
        self.visible
    }

    /// Whether the cached "enabled in the hierarchy" state must be recomputed.
    pub open spec fn compute_dirty(&self) -> bool {
        self.is_compute_dirty
    }

    /// Whether the cached visibility (and the transform) must be recomputed.
    pub open spec fn render_dirty(&self) -> bool {
        self.is_render_dirty
    }

    /// A new object that has no parent and no children, with both caches dirty.
    pub fn new(
        name: String,
        enabled: bool,
        position: Float3,
        rotation: Float3,
        scale: Float3,
        scripts: Vec<ScriptVariant>,
        render_data: RenderData,
    ) -> (out: Self)
        ensures
            out.name == name,
            out.enabled == enabled,
            out.position == position,
            out.rotation == rotation,
            out.scale == scale,
            out.scripts == scripts,
            out.render_data == render_data,
            out.parent_of() is None,
            out.children_of() == Seq::<usize>::empty(),
            out.compute_dirty(),
            out.render_dirty(),
            out.visible_cache(),
            out.hierarchy_cache(),
    {
        GameObject {
            name,
            enabled,
            render_data,
            position,
            rotation,
            scale,
            scripts,
            visible: true,
            enabled_in_hierarchy: true,
            is_compute_dirty: true,
            is_render_dirty: true,
            parent: None,
            children: Vec::new(),
        }
    }

    /// A new object that shows nothing.
    pub fn new_empty(
        name: String,
        enabled: bool,
        position: Float3,
        rotation: Float3,
        scale: Float3,
        scripts: Vec<ScriptVariant>,
    ) -> (out: Self)
        ensures
            out.name == name,
            out.enabled == enabled,
            out.position == position,
            out.rotation == rotation,
            out.scale == scale,
            out.scripts == scripts,
            out.render_data.view() is Empty,
            out.parent_of() is None,
            out.children_of() == Seq::<usize>::empty(),
            out.compute_dirty(),
            out.render_dirty(),
    {
        Self::new(name, enabled, position, rotation, scale, scripts, RenderData::Empty)
    }

    /// A new object that shows the unit cube with `material`.
    pub fn new_cube(
        name: String,
        enabled: bool,
        position: Float3,
        rotation: Float3,
        scale: Float3,
        scripts: Vec<ScriptVariant>,
        material: usize,
    ) -> (out: Self)
        ensures
            out.name == name,
            out.enabled == enabled,
            out.position == position,
            out.rotation == rotation,
            out.scale == scale,
            out.scripts == scripts,
            out.render_data.view() == (crate::scene::render::RenderDataView::Cube { material }),
            out.parent_of() is None,
            out.children_of() == Seq::<usize>::empty(),
            out.compute_dirty(),
            out.render_dirty(),
    {
        Self::new(name, enabled, position, rotation, scale, scripts, RenderData::Cube { material })
    }

    /// A new object that shows `mesh`, one material per primitive.
    pub fn new_mesh(
        name: String,
        enabled: bool,
        position: Float3,
        rotation: Float3,
        scale: Float3,
        scripts: Vec<ScriptVariant>,
        materials: Vec<usize>,
        mesh: Mesh,
    ) -> (out: Self)
        ensures
            out.name == name,
            out.enabled == enabled,
            out.position == position,
            out.rotation == rotation,
            out.scale == scale,
            out.scripts == scripts,
            out.render_data.view() == (crate::scene::render::RenderDataView::Mesh { materials: materials@, mesh }),
            out.parent_of() is None,
            out.children_of() == Seq::<usize>::empty(),
            out.compute_dirty(),
            out.render_dirty(),
    {
        Self::new(name, enabled, position, rotation, scale, scripts, RenderData::Mesh { materials, mesh })
    }

    /// A new camera with unit scale; `fov`, `near` and `far` are single-precision bit patterns.
    pub fn new_camera(
        name: String,
        enabled: bool,
        position: Float3,
        rotation: Float3,
        scripts: Vec<ScriptVariant>,
        fov: u32,
        near: u32,
        far: u32,
    ) -> (out: Self)
        ensures
            out.name == name,
            out.enabled == enabled,
            out.position == position,
            out.rotation == rotation,
            out.scale == (Float3 { x: crate::math::FLOAT_ONE_BITS, y: crate::math::FLOAT_ONE_BITS, z: crate::math::FLOAT_ONE_BITS }),
            out.scripts == scripts,
            out.render_data.view() == (crate::scene::render::RenderDataView::Camera { fov, near, far }),
            out.parent_of() is None,
            out.children_of() == Seq::<usize>::empty(),
            out.compute_dirty(),
            out.render_dirty(),
    {
        Self::new(name, enabled, position, rotation, Float3::one(), scripts, RenderData::Camera { fov, near, far })
    }
}

/// The object `o` with its cached "enabled in the hierarchy" state set to `b`.
pub open spec fn with_hierarchy_cache(o: GameObject, b: bool) -> GameObject {
    let r = GameObject { enabled_in_hierarchy: b, ..o };
    r
}

/// The object `o` with the dirty flags chosen by `compute` and `render` raised.
pub open spec fn with_dirty(o: GameObject, compute: bool, render: bool) -> GameObject {
    let r = GameObject {
        is_compute_dirty: if compute { true } else { o.is_compute_dirty },
        is_render_dirty: if render { true } else { o.is_render_dirty },
        ..o
    };
    r
}

/// The object `o` after its visibility was recomputed as `v`.
pub open spec fn with_visibility(o: GameObject, v: bool) -> GameObject {
    let r = GameObject { visible: v, is_render_dirty: false, ..o };
    r
}

/// The object `o` with its `enabled` flag set to `b`.
pub open spec fn with_enabled(o: GameObject, b: bool) -> GameObject {
    let r = GameObject { enabled: b, ..o };
    r
}

/// The object `o` with its parent link set to `p`.
pub open spec fn with_parent(o: GameObject, p: Option<usize>) -> GameObject {
    let r = GameObject { parent: p, ..o };
    r
}

/// The two objects agree on everything but their parent links.
pub open spec fn same_but_parent(o1: GameObject, o2: GameObject) -> bool {
    &&& o1.name == o2.name
    &&& o1.enabled == o2.enabled
    &&& o1.render_data == o2.render_data
    &&& o1.position == o2.position
    &&& o1.rotation == o2.rotation
    &&& o1.scale == o2.scale
    &&& o1.scripts == o2.scripts
    &&& o1.visible == o2.visible
    &&& o1.enabled_in_hierarchy == o2.enabled_in_hierarchy
    &&& o1.is_compute_dirty == o2.is_compute_dirty
    &&& o1.is_render_dirty == o2.is_render_dirty
    &&& o1.children == o2.children
}

/// The two objects agree on everything but their children.
pub open spec fn same_but_children(o1: GameObject, o2: GameObject) -> bool {
    &&& o1.name == o2.name
    &&& o1.enabled == o2.enabled
    &&& o1.render_data == o2.render_data
    &&& o1.position == o2.position
    &&& o1.rotation == o2.rotation
    &&& o1.scale == o2.scale
    &&& o1.scripts == o2.scripts
    &&& o1.visible == o2.visible
    &&& o1.enabled_in_hierarchy == o2.enabled_in_hierarchy
    &&& o1.is_compute_dirty == o2.is_compute_dirty
    &&& o1.is_render_dirty == o2.is_render_dirty
    &&& o1.parent == o2.parent
}

/// The objects of a scene, each known by its handle (its position in the graph).
///
/// Children always come after their parent and a parent link always points
/// to an earlier object, so following either never loops. Children of one
/// object have distinct names.
#[derive(Debug)]
pub struct SceneGraph {
    objects: Vec<GameObject>,
}

impl SceneGraph {
    /// The objects, by handle.
    pub closed spec fn objects(&self) -> Seq<GameObject> {
        self.objects@
    }

    pub open spec fn len(&self) -> int {
        self.objects().len() as int
    }

    pub open spec fn valid_id(&self, n: int) -> bool {
        0 <= n < self.len()
    }

    pub open spec fn kids(&self, n: int) -> Seq<usize> {
        self.objects()[n].children_of()
    }

    pub open spec fn nkids(&self, n: int) -> int {
        self.kids(n).len() as int
    }

    pub open spec fn kid(&self, n: int, i: int) -> int {
        self.kids(n)[i] as int
    }

    pub open spec fn name_of(&self, n: int) -> Seq<char> {
        self.objects()[n].name@
    }

    /// The links and names of object `n` are consistent with the graph.
    pub open spec fn node_wf(&self, n: int) -> bool {
        &&& forall|i: int| 0 <= i < self.nkids(n) ==> n < #[trigger] self.kid(n, i) < self.len()
        &&& self.objects()[n].parent_of() matches Some(p) ==> p < n
        &&& forall|i: int, j: int|
            0 <= i < j < self.nkids(n) ==> self.name_of(#[trigger] self.kid(n, i)) != self.name_of(
                #[trigger] self.kid(n, j),
            )
        &&& self.objects()[n].compute_dirty()
    }

    /// The graph is well formed.
    pub open spec fn wf(&self) -> bool {
        forall|n: int| 0 <= n < self.len() ==> #[trigger] self.node_wf(n)
    }

    /// The objects of the subtree under `n`, `n` first, each object followed
    /// by the subtrees of its children in order.
    pub open spec fn preorder(&self, n: int) -> Seq<int>
        decreases self.len() - n, 1int, 0int,
    {
        if 0 <= n < self.len() {
            seq![n] + self.preorder_prefix(n, self.nkids(n))
        } else {
            Seq::empty()
        }
    }

    /// The subtrees of the first `i` children of `n`, in order.
    pub open spec fn preorder_prefix(&self, n: int, i: int) -> Seq<int>
        decreases self.len() - n, 0int, i,
    {
        if 0 <= n < self.len() && 0 < i <= self.nkids(n) && n < self.kid(n, i - 1) <= self.len() {
            self.preorder_prefix(n, i - 1) + self.preorder(self.kid(n, i - 1))
        } else {
            Seq::empty()
        }
    }

    /// `m` lies in the subtree under `n`.
    pub open spec fn in_subtree(&self, n: int, m: int) -> bool {
        self.preorder(n).contains(m)
    }

    /// Whether `n` is enabled in the hierarchy: it is enabled, and so is its
    /// parent in the hierarchy, where it has one.
    pub open spec fn hierarchy_enabled(&self, n: int) -> bool
        decreases n,
    {
        if 0 <= n < self.len() {
            let o = self.objects()[n];
            if !o.compute_dirty() {
                o.hierarchy_cache()
            } else if !o.enabled {
                false
            } else {
                match o.parent_of() {
                    Some(p) => if p < n {
                        self.hierarchy_enabled(p as int)
                    } else {
                        true
                    },
                    None => true,
                }
            }
        } else {
            false
        }
    }

    /// Whether `n` is visible: its cached visibility, or, where that is
    /// dirty, whether it is enabled in the hierarchy.
    pub open spec fn visible(&self, n: int) -> bool {
        if self.objects()[n].render_dirty() {
            self.hierarchy_enabled(n)
        } else {
            self.objects()[n].visible_cache()
        }
    }

    /// The objects whose cached hierarchy state a query at `n` recomputes:
    /// `n`, and, while the object is enabled, its parent's chain.
    pub open spec fn compute_chain(&self, n: int, m: int) -> bool
        decreases n,
    {
        0 <= n < self.len() && (n == m || (self.objects()[n].enabled && match self.objects()[n].parent_of() {
            Some(p) => p < n && self.compute_chain(p as int, m),
            None => false,
        }))
    }

    /// Both graphs have the same handles and children.
    pub open spec fn same_kids(&self, other: &SceneGraph) -> bool {
        &&& self.len() == other.len()
        &&& forall|n: int|
            #![trigger self.objects()[n]]
            #![trigger other.objects()[n]]
            0 <= n < self.len() ==> self.objects()[n].children_of() == other.objects()[n].children_of()
    }

    /// Both graphs have the same handles, links and names.
    pub open spec fn same_shape(&self, other: &SceneGraph) -> bool {
        &&& self.len() == other.len()
        &&& forall|n: int|
            #![trigger self.objects()[n]]
            #![trigger other.objects()[n]]
            0 <= n < self.len() ==> {
            &&& self.objects()[n].children_of() == other.objects()[n].children_of()
            &&& self.objects()[n].parent_of() == other.objects()[n].parent_of()
            &&& self.objects()[n].name == other.objects()[n].name
            &&& self.objects()[n].compute_dirty() == other.objects()[n].compute_dirty()
        }
    }

    /// Both graphs hold objects with the same enabled flags, render data,
    /// transforms and scripts.
    pub open spec fn same_content(&self, other: &SceneGraph) -> bool {
        &&& self.len() == other.len()
        &&& forall|n: int|
            #![trigger self.objects()[n]]
            #![trigger other.objects()[n]]
            0 <= n < self.len() ==> {
            &&& self.objects()[n].enabled == other.objects()[n].enabled
            &&& self.objects()[n].render_data == other.objects()[n].render_data
            &&& self.objects()[n].position == other.objects()[n].position
            &&& self.objects()[n].rotation == other.objects()[n].rotation
            &&& self.objects()[n].scale == other.objects()[n].scale
            &&& self.objects()[n].scripts == other.objects()[n].scripts
        }
    }

    /// An empty graph.
    pub fn new() -> (out: Self)
        ensures
            out.wf(),
            out.len() == 0,
    {
        SceneGraph { objects: Vec::new() }
    }

    /// The number of objects.
    pub fn num_objects(&self) -> (n: usize)
        ensures
            n == self.len(),
    {
        self.objects.len()
    }

    /// The object with handle `id`.
    pub fn get(&self, id: usize) -> (o: &GameObject)
        requires
            id < self.len(),
        ensures
            *o == self.objects()[id as int],
    {
        &self.objects[id]
    }

    /// The children of `id`, in order.
    pub fn children(&self, id: usize) -> (out: Vec<usize>)
        requires
            id < self.len(),
        ensures
            out@ == self.kids(id as int),
    {
        let src = &self.objects[id].children;
        let n = src.len();
        let mut out: Vec<usize> = Vec::new();
        for i in 0..n
            invariant
                n == src@.len(),
                out@ == src@.take(i as int),
        {
            out.push(src[i]);
            proof {
                assert(out@ =~= src@.take(i + 1));
            }
        }
        proof {
            assert(src@.take(n as int) =~= src@);
        }
        out
    }

    /// The object that `id` last recorded as its parent.
    pub fn parent(&self, id: usize) -> (out: Option<usize>)
        requires
            id < self.len(),
        ensures
            out == self.objects()[id as int].parent_of(),
    {
        self.objects[id].parent
    }

    /// Puts a new object into the graph, on its own, and returns its handle.
    pub fn add(&mut self, obj: GameObject) -> (id: usize)
        requires
            old(self).wf(),
            obj.parent_of() is None,
            obj.children_of().len() == 0,
            obj.compute_dirty(),
            old(self).len() < usize::MAX,
        ensures
            final(self).wf(),
            id == old(self).len(),
            final(self).objects() == old(self).objects().push(obj),
    {
        self.objects.push(obj);
        let id = self.objects.len() - 1;
        proof {
            assert forall|n: int| 0 <= n < self.len() implies #[trigger] self.node_wf(n) by {
                if n < id {
                    assert(old(self).node_wf(n));
                    assert(self.objects()[n] == old(self).objects()[n]);
                    assert(forall|i: int| 0 <= i < self.nkids(n) ==> self.kid(n, i) == old(self).kid(n, i));
                }
            }
        }
        id
    }
}


/// Graphs with the same links have the same subtrees.
pub proof fn lemma_preorder_same_shape(g1: &SceneGraph, g2: &SceneGraph, n: int)
    requires
        g1.same_kids(g2),
    ensures
        g1.preorder(n) == g2.preorder(n),
    decreases g1.len() - n, 1int, 0int,
{
    if 0 <= n < g1.len() {
        assert(g1.objects()[n].children_of() == g2.objects()[n].children_of());
        lemma_preorder_prefix_same_shape(g1, g2, n, g1.nkids(n));
    }
}

/// Graphs with the same links have the same subtree prefixes.
pub proof fn lemma_preorder_prefix_same_shape(g1: &SceneGraph, g2: &SceneGraph, n: int, i: int)
    requires
        g1.same_kids(g2),
    ensures
        g1.preorder_prefix(n, i) == g2.preorder_prefix(n, i),
    decreases g1.len() - n, 0int, i,
{
    if 0 <= n < g1.len() && 0 < i <= g1.nkids(n) && n < g1.kid(n, i - 1) <= g1.len() {
        assert(g1.objects()[n].children_of() == g2.objects()[n].children_of());
        lemma_preorder_prefix_same_shape(g1, g2, n, i - 1);
        lemma_preorder_same_shape(g1, g2, g1.kid(n, i - 1));
    } else if 0 <= n < g1.len() {
        assert(g1.objects()[n].children_of() == g2.objects()[n].children_of());
    }
}

/// Every object in a subtree is a valid handle, no smaller than the subtree's top.
pub proof fn lemma_preorder_bounds(g: &SceneGraph, n: int)
    requires
        g.wf(),
    ensures
        forall|k: int| 0 <= k < g.preorder(n).len() ==> n <= #[trigger] g.preorder(n)[k] < g.len(),
    decreases g.len() - n, 1int, 0int,
{
    if 0 <= n < g.len() {
        lemma_preorder_prefix_bounds(g, n, g.nkids(n));
        let p = g.preorder_prefix(n, g.nkids(n));
        assert(g.preorder(n) == seq![n] + p);
        assert forall|k: int| 0 <= k < g.preorder(n).len() implies n <= #[trigger] g.preorder(n)[k] < g.len() by {
            if k > 0 {
                assert(g.preorder(n)[k] == p[k - 1]);
            }
        }
    }
}

/// Every object in the subtrees of the first `i` children of `n` lies after `n`.
pub proof fn lemma_preorder_prefix_bounds(g: &SceneGraph, n: int, i: int)
    requires
        g.wf(),
    ensures
        forall|k: int| 0 <= k < g.preorder_prefix(n, i).len() ==> n < #[trigger] g.preorder_prefix(n, i)[k] < g.len(),
    decreases g.len() - n, 0int, i,
{
    if 0 <= n < g.len() && 0 < i <= g.nkids(n) && n < g.kid(n, i - 1) <= g.len() {
        lemma_preorder_prefix_bounds(g, n, i - 1);
        lemma_preorder_bounds(g, g.kid(n, i - 1));
        let a = g.preorder_prefix(n, i - 1);
        let b = g.preorder(g.kid(n, i - 1));
        assert forall|k: int| 0 <= k < (a + b).len() implies n < #[trigger] (a + b)[k] < g.len() by {
            if k >= a.len() {
                assert((a + b)[k] == b[k - a.len()]);
            }
        }
    }
}

/// With a well-formed graph, the prefix for one more child adds that child's subtree.
pub proof fn lemma_preorder_prefix_step(g: &SceneGraph, n: int, i: int)
    requires
        g.wf(),
        0 <= n < g.len(),
        0 <= i < g.nkids(n),
    ensures
        g.preorder_prefix(n, i + 1) == g.preorder_prefix(n, i) + g.preorder(g.kid(n, i)),
{
    assert(g.node_wf(n));
    assert(n < g.kid(n, i) < g.len());
}

/// Membership in a subtree, unfolded one level.
pub proof fn lemma_in_subtree_unfold(g: &SceneGraph, n: int, m: int)
    requires
        g.wf(),
        0 <= n < g.len(),
    ensures
        g.in_subtree(n, m) == (m == n || g.preorder_prefix(n, g.nkids(n)).contains(m)),
{
    let p = g.preorder_prefix(n, g.nkids(n));
    assert(g.preorder(n) == seq![n] + p);
    if g.preorder(n).contains(m) && m != n {
        let k = choose|k: int| 0 <= k < g.preorder(n).len() && g.preorder(n)[k] == m;
        assert(p[k - 1] == m);
    }
    if p.contains(m) {
        let k = choose|k: int| 0 <= k < p.len() && p[k] == m;
        assert(g.preorder(n)[k + 1] == m);
    }
    assert(g.preorder(n)[0] == n);
}

/// A graph with the same shape as a well-formed one is well formed.
pub proof fn lemma_same_shape_wf(g1: &SceneGraph, g2: &SceneGraph)
    requires
        g1.wf(),
        g1.same_shape(g2),
    ensures
        g2.wf(),
{
    assert forall|n: int| 0 <= n < g2.len() implies #[trigger] g2.node_wf(n) by {
        assert(g1.node_wf(n));
        assert(g1.objects()[n].children_of() == g2.objects()[n].children_of());
        assert forall|i: int| 0 <= i < g2.nkids(n) implies g2.name_of(#[trigger] g2.kid(n, i)) == g1.name_of(g1.kid(n, i)) by {
            let k = g1.kid(n, i);
            assert(0 <= k < g1.len());
            assert(g1.objects()[k].name == g2.objects()[k].name);
        }
    }
}

impl SceneGraph {
    /// Raises the chosen dirty flags on every object of the subtree under `n`.
    #[verifier::rlimit(40)]
    fn mark_subtree(&mut self, n: usize, compute: bool, render: bool)
        requires
            old(self).wf(),
            n < old(self).len(),
        ensures
            final(self).same_shape(old(self)),
            final(self).wf(),
            forall|m: int| 0 <= m < old(self).len() ==> #[trigger] final(self).objects()[m] == if old(self).in_subtree(n as int, m) {
                with_dirty(old(self).objects()[m], compute, render)
            } else {
                old(self).objects()[m]
            },
        decreases old(self).len() - n,
    {
        if compute {
            self.objects[n].is_compute_dirty = true;
        }
        if render {
            self.objects[n].is_render_dirty = true;
        }
        proof {
            assert(old(self).node_wf(n as int));
            assert(self.same_shape(old(self)));
            lemma_same_shape_wf(old(self), self);
        }
        let nk = self.objects[n].children.len();
        for i in 0..nk
            invariant
                old(self).wf(),
                self.wf(),
                n < old(self).len(),
                nk == old(self).nkids(n as int),
                self.same_shape(old(self)),
                forall|m: int| 0 <= m < old(self).len() ==> #[trigger] self.objects()[m] == if m == n || old(self).preorder_prefix(n as int, i as int).contains(m) {
                    with_dirty(old(self).objects()[m], compute, render)
                } else {
                    old(self).objects()[m]
                },
        {
            let kid = self.objects[n].children[i];
            proof {
                assert(old(self).node_wf(n as int));
                assert(kid == old(self).kid(n as int, i as int));
            }
            let ghost before = *self;
            self.mark_subtree(kid, compute, render);
            proof {
                lemma_preorder_same_shape(&before, old(self), kid as int);
                lemma_preorder_prefix_step(old(self), n as int, i as int);
                assert forall|m: int| 0 <= m < old(self).len() implies #[trigger] self.objects()[m] == if m == n || old(self).preorder_prefix(n as int, i + 1).contains(m) {
                    with_dirty(old(self).objects()[m], compute, render)
                } else {
                    old(self).objects()[m]
                } by {
                    let a = old(self).preorder_prefix(n as int, i as int);
                    let b = old(self).preorder(kid as int);
                    if b.contains(m) {
                        let k = choose|k: int| 0 <= k < b.len() && b[k] == m;
                        assert((a + b)[a.len() + k] == m);
                    }
                    if a.contains(m) {
                        let k = choose|k: int| 0 <= k < a.len() && a[k] == m;
                        assert((a + b)[k] == m);
                    }
                    if (a + b).contains(m) {
                        let k = choose|k: int| 0 <= k < (a + b).len() && (a + b)[k] == m;
                        if k < a.len() {
                            assert(a[k] == m);
                        } else {
                            assert(b[k - a.len()] == m);
                        }
                    }
                }
            }
        }
        proof {
            assert forall|m: int| 0 <= m < old(self).len() implies #[trigger] self.objects()[m] == if old(self).in_subtree(n as int, m) {
                with_dirty(old(self).objects()[m], compute, render)
            } else {
                old(self).objects()[m]
            } by {
                lemma_in_subtree_unfold(old(self), n as int, m);
            }
        }
    }

    /// Raises both dirty flags on every object of the subtree under `id`.
    pub fn mark_dirty(&mut self, id: usize)
        requires
            old(self).wf(),
            id < old(self).len(),
        ensures
            final(self).same_shape(old(self)),
            final(self).wf(),
            forall|m: int| 0 <= m < old(self).len() ==> #[trigger] final(self).objects()[m] == if old(self).in_subtree(id as int, m) {
                with_dirty(old(self).objects()[m], true, true)
            } else {
                old(self).objects()[m]
            },
    {
        self.mark_subtree(id, true, true);
    }

    /// Raises the compute-dirty flag on every object of the subtree under `id`.
    pub fn mark_compute_dirty(&mut self, id: usize)
        requires
            old(self).wf(),
            id < old(self).len(),
        ensures
            final(self).same_shape(old(self)),
            final(self).wf(),
            forall|m: int| 0 <= m < old(self).len() ==> #[trigger] final(self).objects()[m] == if old(self).in_subtree(id as int, m) {
                with_dirty(old(self).objects()[m], true, false)
            } else {
                old(self).objects()[m]
            },
    {
        self.mark_subtree(id, true, false);
    }

    /// Raises the render-dirty flag on every object of the subtree under `id`.
    pub fn mark_render_dirty(&mut self, id: usize)
        requires
            old(self).wf(),
            id < old(self).len(),
        ensures
            final(self).same_shape(old(self)),
            final(self).wf(),
            forall|m: int| 0 <= m < old(self).len() ==> #[trigger] final(self).objects()[m] == if old(self).in_subtree(id as int, m) {
                with_dirty(old(self).objects()[m], false, true)
            } else {
                old(self).objects()[m]
            },
    {
        self.mark_subtree(id, false, true);
    }
}


/// A compute chain never climbs above its start.
pub proof fn lemma_compute_chain_below(g: &SceneGraph, n: int, m: int)
    requires
        g.compute_chain(n, m),
    ensures
        m <= n,
    decreases n,
{
    if n != m {
        match g.objects()[n].parent_of() {
            Some(p) => lemma_compute_chain_below(g, p as int, m),
            None => {},
        }
    }
}

/// Whether an object is enabled in the hierarchy depends only on the links
/// and the `enabled` flags of a well-formed graph.
pub proof fn lemma_hierarchy_stable(g1: &SceneGraph, g2: &SceneGraph, n: int)
    requires
        g1.wf(),
        g1.same_shape(g2),
        forall|m: int| 0 <= m < g1.len() ==> (#[trigger] g1.objects()[m]).enabled == g2.objects()[m].enabled,
    ensures
        g1.hierarchy_enabled(n) == g2.hierarchy_enabled(n),
    decreases n,
{
    if 0 <= n < g1.len() {
        assert(g1.node_wf(n));
        assert(g2.objects()[n].compute_dirty());
        assert(g1.objects()[n].enabled == g2.objects()[n].enabled);
        match g1.objects()[n].parent_of() {
            Some(p) => lemma_hierarchy_stable(g1, g2, p as int),
            None => {},
        }
    }
}

/// In a well-formed graph an object is enabled in the hierarchy exactly when
/// it is enabled and its parent, where it has one, is enabled in the hierarchy.
pub proof fn lemma_hierarchy_enabled_unfold(g: &SceneGraph, n: int)
    requires
        g.wf(),
        g.valid_id(n),
    ensures
        g.hierarchy_enabled(n) == (g.objects()[n].enabled && match g.objects()[n].parent_of() {
            Some(p) => g.hierarchy_enabled(p as int),
            None => true,
        }),
{
    assert(g.node_wf(n));
}

impl SceneGraph {
    /// Recomputes the cached "enabled in the hierarchy" state of `id`, and of
    /// its parents' chain as far as the computation climbs.
    pub fn clean_compute(&mut self, id: usize)
        requires
            old(self).wf(),
            id < old(self).len(),
        ensures
            final(self).wf(),
            final(self).same_shape(old(self)),
            forall|m: int| 0 <= m < old(self).len() ==> #[trigger] final(self).objects()[m] == if old(self).compute_chain(id as int, m) {
                with_hierarchy_cache(old(self).objects()[m], old(self).hierarchy_enabled(m))
            } else {
                old(self).objects()[m]
            },
        decreases id, 0int,
    {
        proof {
            assert(old(self).node_wf(id as int));
        }
        if self.objects[id].is_compute_dirty {
            let v = if !self.objects[id].enabled {
                false
            } else {
                match self.objects[id].parent {
                    Some(p) => self.is_enabled_in_hierarchy(p),
                    None => true,
                }
            };
            let ghost mid = *self;
            proof {
                if old(self).objects()[id as int].enabled {
                    match old(self).objects()[id as int].parent_of() {
                        Some(p) => {
                            assert forall|m: int| 0 <= m < old(self).len() implies #[trigger] mid.objects()[m].enabled == old(self).objects()[m].enabled by {
                                if old(self).compute_chain(p as int, m) {
                                    assert(mid.objects()[m] == with_hierarchy_cache(old(self).objects()[m], old(self).hierarchy_enabled(m)));
                                }
                            }
                            assert(!old(self).compute_chain(p as int, id as int)) by {
                                if old(self).compute_chain(p as int, id as int) {
                                    lemma_compute_chain_below(old(self), p as int, id as int);
                                }
                            }
                        },
                        None => {},
                    }
                }
            }
            self.objects[id].enabled_in_hierarchy = v;
            proof {
                assert(mid.objects()[id as int] == old(self).objects()[id as int]);
                assert(self.same_shape(old(self)));
                lemma_same_shape_wf(old(self), self);
                assert forall|m: int| 0 <= m < old(self).len() implies #[trigger] self.objects()[m] == if old(self).compute_chain(id as int, m) {
                    with_hierarchy_cache(old(self).objects()[m], old(self).hierarchy_enabled(m))
                } else {
                    old(self).objects()[m]
                } by {
                    if m != id {
                        assert(self.objects()[m] == mid.objects()[m]);
                    }
                }
            }
        }
    }

    /// Whether `id` is enabled in the hierarchy; refreshes the cached state on the way.
    pub fn is_enabled_in_hierarchy(&mut self, id: usize) -> (b: bool)
        requires
            old(self).wf(),
            id < old(self).len(),
        ensures
            b == old(self).hierarchy_enabled(id as int),
            final(self).wf(),
            final(self).same_shape(old(self)),
            forall|m: int| 0 <= m < old(self).len() ==> #[trigger] final(self).objects()[m] == if old(self).compute_chain(id as int, m) {
                with_hierarchy_cache(old(self).objects()[m], old(self).hierarchy_enabled(m))
            } else {
                old(self).objects()[m]
            },
        decreases id, 1int,
    {
        self.clean_compute(id);
        proof {
            assert(old(self).compute_chain(id as int, id as int));
        }
        self.objects[id].enabled_in_hierarchy
    }

    /// Whether `id` itself is enabled.
    pub fn is_enabled(&self, id: usize) -> (b: bool)
        requires
            id < self.len(),
        ensures
            b == self.objects()[id as int].enabled,
    {
        self.objects[id].enabled
    }
}


impl SceneGraph {
    /// Recomputes the cached visibility of `id` where it is dirty; returns
    /// whether the object's transform must be rebuilt (it was dirty and is visible).
    pub fn clean_render(&mut self, id: usize) -> (rebuild: bool)
        requires
            old(self).wf(),
            id < old(self).len(),
        ensures
            rebuild == (old(self).objects()[id as int].render_dirty() && old(self).hierarchy_enabled(id as int)),
            final(self).wf(),
            final(self).same_shape(old(self)),
            forall|m: int| 0 <= m < old(self).len() ==> #[trigger] final(self).objects()[m] == if !old(self).objects()[id as int].render_dirty() {
                old(self).objects()[m]
            } else if m == id {
                with_visibility(with_hierarchy_cache(old(self).objects()[m], old(self).hierarchy_enabled(m)), old(self).hierarchy_enabled(m))
            } else if old(self).compute_chain(id as int, m) {
                with_hierarchy_cache(old(self).objects()[m], old(self).hierarchy_enabled(m))
            } else {
                old(self).objects()[m]
            },
            forall|m: int| 0 <= m < old(self).len() ==> #[trigger] final(self).hierarchy_enabled(m) == old(self).hierarchy_enabled(m),
            forall|m: int| 0 <= m < old(self).len() ==> #[trigger] final(self).visible(m) == old(self).visible(m),
    {
        if self.objects[id].is_render_dirty {
            let v = self.is_enabled_in_hierarchy(id);
            self.objects[id].visible = v;
            self.objects[id].is_render_dirty = false;
            proof {
                assert(old(self).compute_chain(id as int, id as int));
                assert(self.same_shape(old(self)));
                lemma_same_shape_wf(old(self), self);
                assert forall|m: int| 0 <= m < old(self).len() implies #[trigger] self.objects()[m].enabled == old(self).objects()[m].enabled by {}
                assert forall|m: int| 0 <= m < old(self).len() implies #[trigger] self.hierarchy_enabled(m) == old(self).hierarchy_enabled(m) by {
                    lemma_hierarchy_stable(old(self), self, m);
                }
            }
            v
        } else {
            false
        }
    }

    /// Whether `id` is visible; refreshes the cached visibility on the way.
    pub fn is_visible(&mut self, id: usize) -> (b: bool)
        requires
            old(self).wf(),
            id < old(self).len(),
        ensures
            b == old(self).visible(id as int),
            final(self).wf(),
            final(self).same_shape(old(self)),
            final(self).same_content(old(self)),
            forall|m: int| 0 <= m < old(self).len() ==> #[trigger] final(self).objects()[m] == if !old(self).objects()[id as int].render_dirty() {
                old(self).objects()[m]
            } else if m == id {
                with_visibility(with_hierarchy_cache(old(self).objects()[m], old(self).hierarchy_enabled(m)), old(self).hierarchy_enabled(m))
            } else if old(self).compute_chain(id as int, m) {
                with_hierarchy_cache(old(self).objects()[m], old(self).hierarchy_enabled(m))
            } else {
                old(self).objects()[m]
            },
            forall|m: int| 0 <= m < old(self).len() ==> #[trigger] final(self).hierarchy_enabled(m) == old(self).hierarchy_enabled(m),
            forall|m: int| 0 <= m < old(self).len() ==> #[trigger] final(self).visible(m) == old(self).visible(m),
    {
        self.clean_render(id);
        self.objects[id].visible
    }

    /// Enables `id`; where it was disabled, raises both dirty flags on its subtree.
    pub fn enable(&mut self, id: usize)
        requires
            old(self).wf(),
            id < old(self).len(),
        ensures
            final(self).wf(),
            final(self).same_shape(old(self)),
            final(self).objects()[id as int].enabled,
            forall|m: int| 0 <= m < old(self).len() ==> #[trigger] final(self).objects()[m] == if old(self).objects()[id as int].enabled {
                old(self).objects()[m]
            } else if old(self).in_subtree(id as int, m) {
                with_dirty(if m == id { with_enabled(old(self).objects()[m], true) } else { old(self).objects()[m] }, true, true)
            } else {
                old(self).objects()[m]
            },
    {
        if !self.objects[id].enabled {
            self.set_enabled_and_mark(id, true);
        }
    }

    /// Disables `id`; where it was enabled, raises both dirty flags on its subtree.
    pub fn disable(&mut self, id: usize)
        requires
            old(self).wf(),
            id < old(self).len(),
        ensures
            final(self).wf(),
            final(self).same_shape(old(self)),
            !final(self).objects()[id as int].enabled,
            forall|m: int| 0 <= m < old(self).len() ==> #[trigger] final(self).objects()[m] == if !old(self).objects()[id as int].enabled {
                old(self).objects()[m]
            } else if old(self).in_subtree(id as int, m) {
                with_dirty(if m == id { with_enabled(old(self).objects()[m], false) } else { old(self).objects()[m] }, true, true)
            } else {
                old(self).objects()[m]
            },
    {
        if self.objects[id].enabled {
            self.set_enabled_and_mark(id, false);
        }
    }

    fn set_enabled_and_mark(&mut self, id: usize, b: bool)
        requires
            old(self).wf(),
            id < old(self).len(),
        ensures
            final(self).wf(),
            final(self).same_shape(old(self)),
            final(self).objects()[id as int].enabled == b,
            forall|m: int| 0 <= m < old(self).len() ==> #[trigger] final(self).objects()[m] == if old(self).in_subtree(id as int, m) {
                with_dirty(if m == id { with_enabled(old(self).objects()[m], b) } else { old(self).objects()[m] }, true, true)
            } else {
                old(self).objects()[m]
            },
    {
        self.objects[id].enabled = b;
        let ghost mid = *self;
        proof {
            assert(self.same_shape(old(self)));
            lemma_same_shape_wf(old(self), self);
            lemma_preorder_same_shape(self, old(self), id as int);
            lemma_in_subtree_unfold(old(self), id as int, id as int);
        }
        self.mark_dirty(id);
        proof {
            assert forall|m: int| 0 <= m < old(self).len() implies #[trigger] self.objects()[m] == if old(self).in_subtree(id as int, m) {
                with_dirty(if m == id { with_enabled(old(self).objects()[m], b) } else { old(self).objects()[m] }, true, true)
            } else {
                old(self).objects()[m]
            } by {
                assert(mid.objects()[m] == if m == id { with_enabled(old(self).objects()[m], b) } else { old(self).objects()[m] });
            }
        }
    }
}


/// Handles as mathematical integers.
pub open spec fn ids(v: Seq<usize>) -> Seq<int> {
    v.map_values(|x: usize| x as int)
}

impl SceneGraph {
    /// The child of `n` named `name`, if it has one.
    pub open spec fn child_named(&self, n: int, name: Seq<char>) -> Option<int> {
        if exists|i: int| 0 <= i < self.nkids(n) && self.name_of(#[trigger] self.kid(n, i)) == name {
            Some(self.kid(n, choose|i: int| 0 <= i < self.nkids(n) && self.name_of(#[trigger] self.kid(n, i)) == name))
        } else {
            None
        }
    }

    /// The object reached from `n` by following `segs` down through children
    /// names, or the first segment that names no child.
    pub open spec fn resolve(&self, n: int, segs: Seq<Seq<char>>) -> Result<int, Seq<char>>
        decreases segs.len(),
    {
        if segs.len() == 0 {
            Ok(n)
        } else {
            match self.child_named(n, segs[0]) {
                Some(c) => self.resolve(c, segs.drop_first()),
                None => Err(segs[0]),
            }
        }
    }

    /// The names on the way from the top of `n`'s parent chain down to `n`.
    pub open spec fn ancestry(&self, n: int) -> Seq<Seq<char>>
        decreases n,
    {
        if 0 <= n < self.len() {
            match self.objects()[n].parent_of() {
                Some(p) => if p < n {
                    self.ancestry(p as int).push(self.name_of(n))
                } else {
                    seq![self.name_of(n)]
                },
                None => seq![self.name_of(n)],
            }
        } else {
            Seq::empty()
        }
    }

    /// The objects of the subtree under `n` that are drawn: `n` when it is
    /// visible, then the drawn objects of its children's subtrees in order.
    pub open spec fn visible_preorder(&self, n: int) -> Seq<int>
        decreases self.len() - n, 1int, 0int,
    {
        if 0 <= n < self.len() && self.visible(n) {
            seq![n] + self.visible_prefix(n, self.nkids(n))
        } else {
            Seq::empty()
        }
    }

    /// The drawn objects of the subtrees of the first `i` children of `n`.
    pub open spec fn visible_prefix(&self, n: int, i: int) -> Seq<int>
        decreases self.len() - n, 0int, i,
    {
        if 0 <= n < self.len() && 0 < i <= self.nkids(n) && n < self.kid(n, i - 1) <= self.len() {
            self.visible_prefix(n, i - 1) + self.visible_preorder(self.kid(n, i - 1))
        } else {
            Seq::empty()
        }
    }

    /// The position among the children of `n` of the child named `name`.
    fn find_child(&self, n: usize, name: &str) -> (res: Option<usize>)
        requires
            self.wf(),
            n < self.len(),
        ensures
            match res {
                Some(i) => i < self.nkids(n as int) && self.name_of(self.kid(n as int, i as int)) == name@
                    && self.child_named(n as int, name@) == Some(self.kid(n as int, i as int)),
                None => self.child_named(n as int, name@) is None,
            },
    {
        proof {
            assert(self.node_wf(n as int));
        }
        let kids = &self.objects[n].children;
        let nk = kids.len();
        for i in 0..nk
            invariant
                self.wf(),
                n < self.len(),
                kids@ == self.kids(n as int),
                nk == kids@.len(),
                forall|j: int| 0 <= j < i ==> self.name_of(#[trigger] self.kid(n as int, j)) != name@,
        {
            let k = kids[i];
            proof {
                assert(self.node_wf(n as int));
                assert(n < self.kid(n as int, i as int) < self.len());
            }
            if str_equal(self.objects[k].name.as_str(), name) {
                proof {
                    assert(self.name_of(self.kid(n as int, i as int)) == name@);
                    let j = choose|j: int| 0 <= j < self.nkids(n as int) && self.name_of(#[trigger] self.kid(n as int, j)) == name@;
                    if j != i {
                        if j < i {
                            assert(self.name_of(self.kid(n as int, j)) != self.name_of(self.kid(n as int, i as int)));
                        } else {
                            assert(self.name_of(self.kid(n as int, i as int)) != self.name_of(self.kid(n as int, j)));
                        }
                    }
                }
                return Some(i);
            }
        }
        None
    }

    /// The object reached from `id` by following `path` through children names.
    pub fn fetch_obj(&self, id: usize, path: NodePath) -> (res: Result<usize, CitraError>)
        requires
            self.wf(),
            id < self.len(),
        ensures
            match res {
                Ok(c) => self.resolve(id as int, path.segments()) == Ok::<int, Seq<char>>(c as int),
                Err(e) => match self.resolve(id as int, path.segments()) {
                    Ok(_) => false,
                    Err(seg) => match e {
                        CitraError::InvalidNodePath(msg) => msg@ == "Node in path not found: "@ + seg,
                        _ => false,
                    },
                },
            },
    {
        let n = path.path.len();
        let mut cur = id;
        let ghost segs = path.segments();
        proof {
            assert(segs.skip(0) =~= segs);
        }
        for k in 0..n
            invariant
                self.wf(),
                cur < self.len(),
                n == path.path@.len(),
                segs == path.segments(),
                self.resolve(id as int, segs) == self.resolve(cur as int, segs.skip(k as int)),
        {
            let seg = path.path[k].as_str();
            proof {
                let rest = segs.skip(k as int);
                assert(rest[0] == seg@);
                assert(rest.drop_first() =~= segs.skip(k + 1));
            }
            match self.find_child(cur, seg) {
                Some(i) => {
                    proof {
                        assert(self.node_wf(cur as int));
                    }
                    cur = self.objects[cur].children[i];
                },
                None => {
                    let mut msg = String::from_str("Node in path not found: ");
                    msg.append(seg);
                    return Err(CitraError::InvalidNodePath(msg));
                },
            }
        }
        proof {
            assert(segs.skip(n as int) =~= Seq::<Seq<char>>::empty());
        }
        Ok(cur)
    }

    /// The path of names from the top of `id`'s parent chain down to `id`.
    pub fn build_node_path(&self, id: usize) -> (out: NodePath)
        requires
            self.wf(),
            id < self.len(),
        ensures
            out.segments() == self.ancestry(id as int),
        decreases id,
    {
        let mut out = NodePath::new();
        proof {
            assert(self.node_wf(id as int));
        }
        match self.objects[id].parent {
            Some(p) => {
                let up = self.build_node_path(p);
                out.extend(&up);
            },
            None => {},
        }
        out.push(self.objects[id].name.as_str());
        proof {
            assert(out.segments() =~= self.ancestry(id as int));
        }
        out
    }
}


/// Graphs with the same links and the same visibility draw the same objects.
pub proof fn lemma_visible_preorder_stable(g1: &SceneGraph, g2: &SceneGraph, n: int)
    requires
        g1.same_shape(g2),
        forall|m: int| 0 <= m < g1.len() ==> #[trigger] g1.visible(m) == g2.visible(m),
    ensures
        g1.visible_preorder(n) == g2.visible_preorder(n),
    decreases g1.len() - n, 1int, 0int,
{
    if 0 <= n < g1.len() {
        assert(g1.objects()[n].children_of() == g2.objects()[n].children_of());
        lemma_visible_prefix_stable(g1, g2, n, g1.nkids(n));
    }
}

/// Graphs with the same links and the same visibility draw the same objects.
pub proof fn lemma_visible_prefix_stable(g1: &SceneGraph, g2: &SceneGraph, n: int, i: int)
    requires
        g1.same_shape(g2),
        forall|m: int| 0 <= m < g1.len() ==> #[trigger] g1.visible(m) == g2.visible(m),
    ensures
        g1.visible_prefix(n, i) == g2.visible_prefix(n, i),
    decreases g1.len() - n, 0int, i,
{
    if 0 <= n < g1.len() {
        assert(g1.objects()[n].children_of() == g2.objects()[n].children_of());
        if 0 < i <= g1.nkids(n) && n < g1.kid(n, i - 1) <= g1.len() {
            lemma_visible_prefix_stable(g1, g2, n, i - 1);
            lemma_visible_preorder_stable(g1, g2, g1.kid(n, i - 1));
        }
    }
}

impl SceneGraph {
    /// Makes `child` a child of `parent`, in place of a child of the same name
    /// where `parent` has one. The child's parent link is left as it was.
    ///
    /// Objects live in an arena in which every child comes after its parent;
    /// this ordering is what keeps the graph a tree (no object can become its
    /// own ancestor). So the child must have been added after the parent, as
    /// it is whenever a tree is built from the top down.
    pub fn add_child(&mut self, parent: usize, child: usize)
        requires
            old(self).wf(),
            parent < child < old(self).len(),
        ensures
            final(self).wf(),
            final(self).len() == old(self).len(),
            forall|m: int| 0 <= m < old(self).len() && m != parent ==> #[trigger] final(self).objects()[m] == old(self).objects()[m],
            same_but_children(final(self).objects()[parent as int], old(self).objects()[parent as int]),
            final(self).resolve(parent as int, seq![old(self).name_of(child as int)]) == Ok::<int, Seq<char>>(child as int),
            final(self).kids(parent as int) == match old(self).child_named(parent as int, old(self).name_of(child as int)) {
                Some(c) => old(self).kids(parent as int).update(old(self).kids(parent as int).index_of(c as usize), child),
                None => old(self).kids(parent as int).push(child),
            },
    {
        proof {
            assert(old(self).node_wf(parent as int));
        }
        let found = self.find_child(parent, self.objects[child].name.as_str());
        match found {
            Some(i) => {
                proof {
                    let c = old(self).kid(parent as int, i as int);
                    assert(old(self).kids(parent as int)[i as int] == c as usize);
                    assert(old(self).kids(parent as int).index_of(c as usize) == i) by {
                        let j = old(self).kids(parent as int).index_of(c as usize);
                        assert(old(self).kids(parent as int)[j] == c as usize);
                        if j != i {
                            if j < i {
                                assert(old(self).name_of(old(self).kid(parent as int, j)) != old(self).name_of(old(self).kid(parent as int, i as int)));
                            } else {
                                assert(old(self).name_of(old(self).kid(parent as int, i as int)) != old(self).name_of(old(self).kid(parent as int, j)));
                            }
                        }
                    }
                }
                self.objects[parent].children.set(i, child);
                proof {
                    assert forall|m: int| 0 <= m < self.len() implies {
                        &&& #[trigger] self.objects()[m].name == old(self).objects()[m].name
                        &&& self.objects()[m].parent_of() == old(self).objects()[m].parent_of()
                        &&& self.objects()[m].compute_dirty() == old(self).objects()[m].compute_dirty()
                        &&& (m != parent ==> self.objects()[m].children_of() == old(self).objects()[m].children_of())
                    } by {}
                    assert forall|n: int| 0 <= n < self.len() implies #[trigger] self.node_wf(n) by {
                        assert(old(self).node_wf(n));
                        if n != parent {
                            assert(self.kids(n) == old(self).kids(n));
                            assert forall|a: int| 0 <= a < self.nkids(n) implies self.name_of(#[trigger] self.kid(n, a)) == old(self).name_of(old(self).kid(n, a)) by {
                                assert(n < old(self).kid(n, a) < old(self).len());
                                assert(self.objects()[self.kid(n, a)].name == old(self).objects()[self.kid(n, a)].name);
                            }
                        }
                        if n == parent {
                            assert(self.kids(n) == old(self).kids(n).update(i as int, child));
                            assert forall|a: int| 0 <= a < self.nkids(n) implies n < #[trigger] self.kid(n, a) < self.len() by {
                                if a != i {
                                    assert(self.kid(n, a) == old(self).kid(n, a));
                                }
                            }
                            assert forall|a: int, b: int| 0 <= a < b < self.nkids(n) implies self.name_of(#[trigger] self.kid(n, a)) != self.name_of(#[trigger] self.kid(n, b)) by {
                                if a != i && b != i {
                                    assert(old(self).name_of(old(self).kid(n, a)) != old(self).name_of(old(self).kid(n, b)));
                                } else if a == i {
                                    assert(old(self).name_of(old(self).kid(n, i as int)) != old(self).name_of(old(self).kid(n, b)));
                                } else {
                                    assert(old(self).name_of(old(self).kid(n, a)) != old(self).name_of(old(self).kid(n, i as int)));
                                }
                            }
                        }
                    }
                    self.lemma_child_named_kid(parent as int, i as int);
                    assert(self.kid(parent as int, i as int) == child);
                    assert(seq![old(self).name_of(child as int)].drop_first() =~= Seq::<Seq<char>>::empty());
                    assert(self.name_of(child as int) == old(self).name_of(child as int));
                    assert(self.resolve(child as int, Seq::<Seq<char>>::empty()) == Ok::<int, Seq<char>>(child as int));
                }
            },
            None => {
                self.objects[parent].children.push(child);
                proof {
                    assert forall|m: int| 0 <= m < self.len() implies {
                        &&& #[trigger] self.objects()[m].name == old(self).objects()[m].name
                        &&& self.objects()[m].parent_of() == old(self).objects()[m].parent_of()
                        &&& self.objects()[m].compute_dirty() == old(self).objects()[m].compute_dirty()
                        &&& (m != parent ==> self.objects()[m].children_of() == old(self).objects()[m].children_of())
                    } by {}
                    assert forall|n: int| 0 <= n < self.len() implies #[trigger] self.node_wf(n) by {
                        assert(old(self).node_wf(n));
                        if n != parent {
                            assert(self.kids(n) == old(self).kids(n));
                            assert forall|a: int| 0 <= a < self.nkids(n) implies self.name_of(#[trigger] self.kid(n, a)) == old(self).name_of(old(self).kid(n, a)) by {
                                assert(n < old(self).kid(n, a) < old(self).len());
                                assert(self.objects()[self.kid(n, a)].name == old(self).objects()[self.kid(n, a)].name);
                            }
                        }
                        if n == parent {
                            let k = old(self).nkids(n);
                            assert(self.kids(n) == old(self).kids(n).push(child));
                            assert forall|a: int| 0 <= a < self.nkids(n) implies n < #[trigger] self.kid(n, a) < self.len() by {
                                if a < k {
                                    assert(self.kid(n, a) == old(self).kid(n, a));
                                }
                            }
                            assert forall|a: int, b: int| 0 <= a < b < self.nkids(n) implies self.name_of(#[trigger] self.kid(n, a)) != self.name_of(#[trigger] self.kid(n, b)) by {
                                if b < k {
                                    assert(old(self).name_of(old(self).kid(n, a)) != old(self).name_of(old(self).kid(n, b)));
                                } else {
                                    assert(self.kid(n, b) == child);
                                    assert(old(self).name_of(old(self).kid(n, a)) != old(self).name_of(child as int));
                                }
                            }
                        }
                    }
                    self.lemma_child_named_kid(parent as int, old(self).nkids(parent as int));
                    assert(seq![old(self).name_of(child as int)].drop_first() =~= Seq::<Seq<char>>::empty());
                    assert(self.name_of(child as int) == old(self).name_of(child as int));
                    assert(self.resolve(child as int, Seq::<Seq<char>>::empty()) == Ok::<int, Seq<char>>(child as int));
                }
            },
        }
    }

    /// A child of a well-formed graph is found by its name.
    pub proof fn lemma_child_named_kid(&self, p: int, k: int)
        requires
            self.wf(),
            0 <= p < self.len(),
            0 <= k < self.nkids(p),
        ensures
            self.child_named(p, self.name_of(self.kid(p, k))) == Some(self.kid(p, k)),
    {
        assert(self.node_wf(p));
        let name = self.name_of(self.kid(p, k));
        assert(exists|i: int| 0 <= i < self.nkids(p) && self.name_of(#[trigger] self.kid(p, i)) == name);
        let j = choose|i: int| 0 <= i < self.nkids(p) && self.name_of(#[trigger] self.kid(p, i)) == name;
        if j != k {
            if j < k {
                assert(self.name_of(self.kid(p, j)) != self.name_of(self.kid(p, k)));
            } else {
                assert(self.name_of(self.kid(p, k)) != self.name_of(self.kid(p, j)));
            }
        }
    }

    /// Every object of the subtree under `id`, `id` first, each object
    /// followed by the subtrees of its children in order: the order in which
    /// a tick visits the objects.
    pub fn tick_order(&self, id: usize) -> (out: Vec<usize>)
        requires
            self.wf(),
            id < self.len(),
        ensures
            ids(out@) == self.preorder(id as int),
    {
        let mut out: Vec<usize> = Vec::new();
        self.collect_preorder(id, &mut out);
        proof {
            assert(ids(out@) =~= Seq::<int>::empty() + self.preorder(id as int));
        }
        out
    }

    fn collect_preorder(&self, n: usize, out: &mut Vec<usize>)
        requires
            self.wf(),
            n < self.len(),
        ensures
            ids(final(out)@) == ids(old(out)@) + self.preorder(n as int),
        decreases self.len() - n,
    {
        let ghost start = ids(out@);
        out.push(n);
        proof {
            assert(self.node_wf(n as int));
            assert(ids(out@) =~= start + seq![n as int]);
        }
        let nk = self.objects[n].children.len();
        for i in 0..nk
            invariant
                self.wf(),
                n < self.len(),
                nk == self.nkids(n as int),
                ids(out@) == start + seq![n as int] + self.preorder_prefix(n as int, i as int),
        {
            proof {
                assert(self.node_wf(n as int));
            }
            let kid = self.objects[n].children[i];
            proof {
                assert(kid == self.kid(n as int, i as int));
                assert(n < kid < self.len());
            }
            self.collect_preorder(kid, out);
            proof {
                lemma_preorder_prefix_step(self, n as int, i as int);
                assert(ids(out@) =~= start + seq![n as int] + self.preorder_prefix(n as int, i + 1));
            }
        }
        proof {
            assert(ids(out@) =~= start + self.preorder(n as int));
        }
    }

    /// The objects of the subtree under `id` that are drawn, in drawing order:
    /// an object is drawn when visible, and the subtree of an invisible
    /// object is skipped. Refreshes cached visibility on the way.
    pub fn render_order(&mut self, id: usize) -> (out: Vec<usize>)
        requires
            old(self).wf(),
            id < old(self).len(),
        ensures
            ids(out@) == old(self).visible_preorder(id as int),
            final(self).wf(),
            final(self).same_shape(old(self)),
            final(self).same_content(old(self)),
            forall|m: int| 0 <= m < old(self).len() ==> #[trigger] final(self).visible(m) == old(self).visible(m),
            forall|m: int| 0 <= m < old(self).len() ==> #[trigger] final(self).hierarchy_enabled(m) == old(self).hierarchy_enabled(m),
    {
        let mut out: Vec<usize> = Vec::new();
        self.collect_visible(id, &mut out);
        proof {
            assert(ids(out@) =~= Seq::<int>::empty() + old(self).visible_preorder(id as int));
        }
        out
    }

    fn collect_visible(&mut self, n: usize, out: &mut Vec<usize>)
        requires
            old(self).wf(),
            n < old(self).len(),
        ensures
            ids(final(out)@) == ids(old(out)@) + old(self).visible_preorder(n as int),
            final(self).wf(),
            final(self).same_shape(old(self)),
            final(self).same_content(old(self)),
            forall|m: int| 0 <= m < old(self).len() ==> #[trigger] final(self).visible(m) == old(self).visible(m),
            forall|m: int| 0 <= m < old(self).len() ==> #[trigger] final(self).hierarchy_enabled(m) == old(self).hierarchy_enabled(m),
        decreases old(self).len() - n,
    {
        let ghost start = ids(out@);
        if self.is_visible(n) {
            out.push(n);
            proof {
                assert(old(self).node_wf(n as int));
                assert(ids(out@) =~= start + seq![n as int]);
                assert(self.objects()[n as int].children_of() == old(self).objects()[n as int].children_of());
                assert(self.visible_prefix(n as int, 0) == old(self).visible_prefix(n as int, 0));
            }
            let nk = self.objects[n].children.len();
            for i in 0..nk
                invariant
                    old(self).wf(),
                    self.wf(),
                    n < old(self).len(),
                    nk == old(self).nkids(n as int),
                    self.same_shape(old(self)),
                    self.same_content(old(self)),
                    forall|m: int| 0 <= m < old(self).len() ==> #[trigger] self.visible(m) == old(self).visible(m),
                    forall|m: int| 0 <= m < old(self).len() ==> #[trigger] self.hierarchy_enabled(m) == old(self).hierarchy_enabled(m),
                    ids(out@) == start + seq![n as int] + old(self).visible_prefix(n as int, i as int),
            {
                proof {
                    assert(old(self).node_wf(n as int));
                    assert(self.objects()[n as int].children_of() == old(self).objects()[n as int].children_of());
                }
                let kid = self.objects[n].children[i];
                proof {
                    assert(kid == old(self).kid(n as int, i as int));
                    assert(n < kid < old(self).len());
                    assert(self.len() == old(self).len());
                }
                let ghost before = *self;
                self.collect_visible(kid, out);
                proof {
                    lemma_visible_preorder_stable(&before, old(self), kid as int);
                    assert(n < old(self).kid(n as int, i as int) < old(self).len());
                    assert(old(self).visible_prefix(n as int, i + 1) == old(self).visible_prefix(n as int, i as int) + old(self).visible_preorder(kid as int));
                    assert(ids(out@) =~= start + seq![n as int] + old(self).visible_prefix(n as int, i + 1));
                }
            }
            proof {
                assert(ids(out@) =~= start + old(self).visible_preorder(n as int));
            }
        } else {
            proof {
                assert(ids(out@) =~= start + old(self).visible_preorder(n as int));
            }
        }
    }
}


impl SceneGraph {
    /// `m` is among the children of `k`.
    pub open spec fn is_kid(&self, k: int, m: int) -> bool {
        exists|i: int| 0 <= i < self.nkids(k) && #[trigger] self.kid(k, i) == m
    }

    /// `k` lies in the subtree under `n` and has `m` among its children.
    pub open spec fn parent_in_subtree(&self, n: int, k: int, m: int) -> bool {
        self.in_subtree(n, k) && 0 <= k < self.len() && self.is_kid(k, m)
    }

    /// `m` is a child of some object in the subtree under `n`.
    pub open spec fn has_parent_in_subtree(&self, n: int, m: int) -> bool {
        exists|k: int| #[trigger] self.parent_in_subtree(n, k, m)
    }

    /// `m` is one of the first `i` children of `n`, or a child of an object
    /// in their subtrees.
    pub open spec fn covered(&self, n: int, i: int, m: int) -> bool {
        ||| exists|j: int| 0 <= j < i && #[trigger] self.kid(n, j) == m
        ||| exists|k: int| #[trigger] self.preorder_prefix(n, i).contains(k) && 0 <= k < self.len() && self.is_kid(k, m)
    }

    /// Points the parent link of every child of every object of the subtree
    /// under `id` at that object.
    pub fn register_all_children_for_obj(&mut self, id: usize)
        requires
            old(self).wf(),
            id < old(self).len(),
        ensures
            final(self).wf(),
            final(self).same_kids(old(self)),
            forall|m: int| 0 <= m < old(self).len() ==> same_but_parent(#[trigger] final(self).objects()[m], old(self).objects()[m]),
            forall|m: int| 0 <= m < old(self).len() && old(self).has_parent_in_subtree(id as int, m) ==> (
                #[trigger] final(self).objects()[m].parent_of() matches Some(k) && old(self).parent_in_subtree(id as int, k as int, m)),
            forall|m: int| 0 <= m < old(self).len() && !old(self).has_parent_in_subtree(id as int, m) ==>
                #[trigger] final(self).objects()[m].parent_of() == old(self).objects()[m].parent_of(),
        decreases old(self).len() - id,
    {
        proof {
            assert(old(self).node_wf(id as int));
            lemma_preorder_prefix_bounds(old(self), id as int, old(self).nkids(id as int));
        }
        let nk = self.objects[id].children.len();
        for i in 0..nk
            invariant
                old(self).wf(),
                self.wf(),
                id < old(self).len(),
                nk == old(self).nkids(id as int),
                self.same_kids(old(self)),
                forall|m: int| 0 <= m < old(self).len() ==> same_but_parent(#[trigger] self.objects()[m], old(self).objects()[m]),
                forall|m: int| 0 <= m < old(self).len() && old(self).covered(id as int, i as int, m) ==> (
                    #[trigger] self.objects()[m].parent_of() matches Some(k) && old(self).parent_in_subtree(id as int, k as int, m)),
                forall|m: int| 0 <= m < old(self).len() && !old(self).covered(id as int, i as int, m) ==>
                    #[trigger] self.objects()[m].parent_of() == old(self).objects()[m].parent_of(),
        {
            proof {
                assert(old(self).node_wf(id as int));
                assert(self.objects()[id as int].children_of() == old(self).objects()[id as int].children_of());
            }
            let kid = self.objects[id].children[i];
            proof {
                assert(kid == old(self).kid(id as int, i as int));
                assert(id < kid < old(self).len());
            }
            let ghost g0 = *self;
            self.objects[kid].parent = Some(id);
            proof {
                assert forall|n: int| 0 <= n < self.len() implies #[trigger] self.node_wf(n) by {
                    assert(g0.node_wf(n));
                    assert(self.kids(n) == g0.kids(n));
                    assert forall|a: int| 0 <= a < self.nkids(n) implies self.name_of(#[trigger] self.kid(n, a)) == g0.name_of(g0.kid(n, a)) by {
                        assert(n < g0.kid(n, a) < g0.len());
                        assert(self.objects()[self.kid(n, a)].name == g0.objects()[self.kid(n, a)].name);
                    }
                }
                assert(self.same_kids(old(self)));
            }
            let ghost g1 = *self;
            self.register_all_children_for_obj(kid);
            proof {
                let o = old(self);
                lemma_preorder_same_shape(&g1, o, kid as int);
                lemma_preorder_prefix_step(o, id as int, i as int);
                let pre_i = o.preorder_prefix(id as int, i as int);
                let sub = o.preorder(kid as int);
                assert(o.preorder_prefix(id as int, i + 1) == pre_i + sub);
                assert forall|k: int| #[trigger] (pre_i + sub).contains(k) == (pre_i.contains(k) || sub.contains(k)) by {
                    if pre_i.contains(k) {
                        let q = choose|q: int| 0 <= q < pre_i.len() && pre_i[q] == k;
                        assert((pre_i + sub)[q] == k);
                    } else if sub.contains(k) {
                        let q = choose|q: int| 0 <= q < sub.len() && sub[q] == k;
                        assert((pre_i + sub)[pre_i.len() + q] == k);
                    }
                    if (pre_i + sub).contains(k) {
                        let q = choose|q: int| 0 <= q < (pre_i + sub).len() && (pre_i + sub)[q] == k;
                        if q < pre_i.len() {
                            assert(pre_i[q] == k);
                        } else {
                            assert(sub[q - pre_i.len()] == k);
                        }
                    }
                }
                lemma_prefix_monotone(o, id as int, i + 1, o.nkids(id as int));
                assert forall|k: int| sub.contains(k) implies #[trigger] o.in_subtree(id as int, k) by {
                    lemma_in_subtree_unfold(o, id as int, k);
                    assert((pre_i + sub).contains(k));
                }
                assert forall|k: int, m: int| #[trigger] g1.parent_in_subtree(kid as int, k, m) == o.parent_in_subtree(kid as int, k, m) by {
                    if 0 <= k < o.len() {
                        assert(g1.objects()[k].children_of() == o.objects()[k].children_of());
                        if g1.is_kid(k, m) {
                            let q = choose|q: int| 0 <= q < g1.nkids(k) && #[trigger] g1.kid(k, q) == m;
                            assert(o.kid(k, q) == m);
                        }
                        if o.is_kid(k, m) {
                            let q = choose|q: int| 0 <= q < o.nkids(k) && #[trigger] o.kid(k, q) == m;
                            assert(g1.kid(k, q) == m);
                        }
                    }
                }
                assert forall|m: int| 0 <= m < o.len() implies same_but_parent(#[trigger] self.objects()[m], o.objects()[m]) by {
                    assert(same_but_parent(self.objects()[m], g1.objects()[m]));
                    assert(same_but_parent(g0.objects()[m], o.objects()[m]));
                }
                assert(o.kid(id as int, i as int) == kid);
                assert forall|m: int| 0 <= m < o.len() && o.covered(id as int, i + 1, m) implies (
                    #[trigger] self.objects()[m].parent_of() matches Some(k) && o.parent_in_subtree(id as int, k as int, m)) by {
                    if g1.has_parent_in_subtree(kid as int, m) {
                        let k = choose|k: int| #[trigger] g1.parent_in_subtree(kid as int, k, m);
                        assert(o.parent_in_subtree(kid as int, k, m));
                        let fk = self.objects()[m].parent_of()->0 as int;
                        assert(g1.parent_in_subtree(kid as int, fk, m));
                        assert(o.parent_in_subtree(kid as int, fk, m));
                        assert(o.in_subtree(id as int, fk));
                    } else if m == kid {
                        assert(g1.objects()[m].parent_of() == Some(id));
                        assert(o.kid(id as int, i as int) == m);
                        lemma_in_subtree_unfold(o, id as int, id as int);
                        assert(o.parent_in_subtree(id as int, id as int, m));
                    } else {
                        assert(o.covered(id as int, i as int, m)) by {
                            if exists|j: int| 0 <= j < i + 1 && #[trigger] o.kid(id as int, j) == m {
                                let j = choose|j: int| 0 <= j < i + 1 && #[trigger] o.kid(id as int, j) == m;
                                assert(j != i);
                            } else {
                                let k = choose|k: int| #[trigger] o.preorder_prefix(id as int, i + 1).contains(k) && 0 <= k < o.len() && o.is_kid(k, m);
                                if sub.contains(k) {
                                    lemma_in_subtree_unfold(o, kid as int, k);
                                    assert(o.parent_in_subtree(kid as int, k, m));
                                    assert(g1.parent_in_subtree(kid as int, k, m));
                                } else {
                                    assert(pre_i.contains(k));
                                }
                            }
                        }
                        assert(self.objects()[m].parent_of() == g1.objects()[m].parent_of());
                        assert(g1.objects()[m].parent_of() == g0.objects()[m].parent_of());
                    }
                }
                assert forall|m: int| 0 <= m < o.len() && !o.covered(id as int, i + 1, m) implies
                    #[trigger] self.objects()[m].parent_of() == o.objects()[m].parent_of() by {
                    if g1.has_parent_in_subtree(kid as int, m) {
                        let k = choose|k: int| #[trigger] g1.parent_in_subtree(kid as int, k, m);
                        assert(o.parent_in_subtree(kid as int, k, m));
                        assert((pre_i + sub).contains(k));
                        assert(o.covered(id as int, i + 1, m));
                    }
                    if m == kid {
                        assert(o.kid(id as int, i as int) == m);
                        assert(o.covered(id as int, i + 1, m));
                    }
                    if o.covered(id as int, i as int, m) {
                        if exists|j: int| 0 <= j < i && #[trigger] o.kid(id as int, j) == m {
                            let j = choose|j: int| 0 <= j < i && #[trigger] o.kid(id as int, j) == m;
                            assert(o.kid(id as int, j) == m);
                        } else {
                            let k = choose|k: int| #[trigger] o.preorder_prefix(id as int, i as int).contains(k) && 0 <= k < o.len() && o.is_kid(k, m);
                            assert((pre_i + sub).contains(k));
                        }
                        assert(o.covered(id as int, i + 1, m));
                    }
                    assert(self.objects()[m].parent_of() == g1.objects()[m].parent_of());
                    assert(g1.objects()[m].parent_of() == g0.objects()[m].parent_of());
                }
            }
        }
        proof {
            let o = old(self);
            lemma_preorder_prefix_bounds(o, id as int, nk as int);
            assert forall|m: int| 0 <= m < o.len() implies #[trigger] o.has_parent_in_subtree(id as int, m) == o.covered(id as int, nk as int, m) by {
                if o.has_parent_in_subtree(id as int, m) {
                    let k = choose|k: int| #[trigger] o.parent_in_subtree(id as int, k, m);
                    lemma_in_subtree_unfold(o, id as int, k);
                    if k == id {
                        let q = choose|q: int| 0 <= q < o.nkids(id as int) && #[trigger] o.kid(id as int, q) == m;
                        assert(o.kid(id as int, q) == m);
                    }
                }
                if o.covered(id as int, nk as int, m) {
                    if exists|j: int| 0 <= j < nk && #[trigger] o.kid(id as int, j) == m {
                        let j = choose|j: int| 0 <= j < nk && #[trigger] o.kid(id as int, j) == m;
                        lemma_in_subtree_unfold(o, id as int, id as int);
                        assert(o.parent_in_subtree(id as int, id as int, m));
                    } else {
                        let k = choose|k: int| #[trigger] o.preorder_prefix(id as int, nk as int).contains(k) && 0 <= k < o.len() && o.is_kid(k, m);
                        lemma_in_subtree_unfold(o, id as int, k);
                        assert(o.parent_in_subtree(id as int, k, m));
                    }
                }
            }
        }
    }
}

/// The subtrees of the first `i` children of `n` appear among those of the first `j >= i`.
pub proof fn lemma_prefix_monotone(g: &SceneGraph, n: int, i: int, j: int)
    requires
        g.wf(),
        0 <= n < g.len(),
        0 <= i <= j <= g.nkids(n),
    ensures
        forall|k: int| g.preorder_prefix(n, i).contains(k) ==> #[trigger] g.preorder_prefix(n, j).contains(k),
    decreases j - i,
{
    if i < j {
        lemma_prefix_monotone(g, n, i, j - 1);
        lemma_preorder_prefix_step(g, n, j - 1);
        let a = g.preorder_prefix(n, j - 1);
        let b = g.preorder(g.kid(n, j - 1));
        assert forall|k: int| g.preorder_prefix(n, i).contains(k) implies #[trigger] g.preorder_prefix(n, j).contains(k) by {
            assert(a.contains(k));
            let q = choose|q: int| 0 <= q < a.len() && a[q] == k;
            assert((a + b)[q] == k);
        }
    }
}


impl SceneGraph {
    /// Following parent links up from `n` reaches `top`, which has no parent,
    /// and each object on the way is a child of the next one up.
    pub open spec fn linked_up(&self, n: int, top: int) -> bool
        decreases n,
    {
        0 <= n < self.len() && match self.objects()[n].parent_of() {
            None => n == top,
            Some(p) => p < n && self.is_kid(p as int, n) && self.linked_up(p as int, top),
        }
    }
}

/// Following one more name after a path resolves from where the path led.
pub proof fn lemma_resolve_push(g: &SceneGraph, r: int, segs: Seq<Seq<char>>, x: Seq<char>)
    ensures
        g.resolve(r, segs.push(x)) == match g.resolve(r, segs) {
            Ok(c) => match g.child_named(c, x) {
                Some(d) => Ok(d),
                None => Err(x),
            },
            Err(e) => Err(e),
        },
    decreases segs.len(),
{
    if segs.len() == 0 {
        assert(segs.push(x) =~= seq![x]);
        assert(seq![x].drop_first() =~= Seq::<Seq<char>>::empty());
        match g.child_named(r, x) {
            Some(d) => {
                assert(g.resolve(d, Seq::<Seq<char>>::empty()) == Ok::<int, Seq<char>>(d));
            },
            None => {},
        }
    } else {
        assert(segs.push(x)[0] == segs[0]);
        assert(segs.push(x).drop_first() =~= segs.drop_first().push(x));
        match g.child_named(r, segs[0]) {
            Some(c) => lemma_resolve_push(g, c, segs.drop_first(), x),
            None => {},
        }
    }
}

/// The ancestry of an object ends with its own name.
pub proof fn lemma_ancestry_len(g: &SceneGraph, n: int)
    requires
        0 <= n < g.len(),
    ensures
        g.ancestry(n).len() >= 1,
    decreases n,
{
    match g.objects()[n].parent_of() {
        Some(p) => if p < n {
            lemma_ancestry_len(g, p as int);
        },
        None => {},
    }
}

/// Fetching, from the top of an object's parent chain, the path that the
/// object builds of itself (without the top's own name) leads back to the
/// object, where each link of the chain is also a child link.
pub proof fn lemma_fetch_build_roundtrip(g: &SceneGraph, n: int, top: int)
    requires
        g.wf(),
        g.linked_up(n, top),
    ensures
        g.resolve(top, g.ancestry(n).drop_first()) == Ok::<int, Seq<char>>(n),
    decreases n,
{
    match g.objects()[n].parent_of() {
        None => {
            assert(g.ancestry(n).drop_first() =~= Seq::<Seq<char>>::empty());
        },
        Some(p) => {
            let p = p as int;
            lemma_fetch_build_roundtrip(g, p, top);
            lemma_ancestry_len(g, p);
            let a = g.ancestry(p);
            assert(g.ancestry(n) == a.push(g.name_of(n)));
            assert(a.push(g.name_of(n)).drop_first() =~= a.drop_first().push(g.name_of(n)));
            lemma_resolve_push(g, top, a.drop_first(), g.name_of(n));
            let i = choose|i: int| 0 <= i < g.nkids(p) && #[trigger] g.kid(p, i) == n;
            g.lemma_child_named_kid(p, i);
        },
    }
}


/// Two script lists hold the same scripts with the same arguments.
pub open spec fn same_scripts(a: Seq<ScriptVariant>, b: Seq<ScriptVariant>) -> bool {
    &&& a.len() == b.len()
    &&& forall|i: int|
        0 <= i < a.len() ==> (#[trigger] a[i]).script_name() == b[i].script_name() && a[i].args().keys()
            == b[i].args().keys() && a[i].args().values() == b[i].args().values()
}

/// `c` holds the data and the cached state of `o`.
pub open spec fn copy_of(c: GameObject, o: GameObject) -> bool {
    &&& c.name@ == o.name@
    &&& c.enabled == o.enabled
    &&& c.render_data.view() == o.render_data.view()
    &&& c.position == o.position && c.rotation == o.rotation && c.scale == o.scale
    &&& same_scripts(c.scripts@, o.scripts@)
    &&& c.visible == o.visible && c.enabled_in_hierarchy == o.enabled_in_hierarchy
    &&& c.is_compute_dirty == o.is_compute_dirty && c.is_render_dirty == o.is_render_dirty
}

/// A copy of each script, with its arguments.
fn duplicate_scripts(v: &Vec<ScriptVariant>) -> (out: Vec<ScriptVariant>)
    ensures
        same_scripts(out@, v@),
{
    let mut out: Vec<ScriptVariant> = Vec::new();
    let n = v.len();
    for i in 0..n
        invariant
            n == v@.len(),
            out@.len() == i,
            forall|j: int|
                0 <= j < i ==> (#[trigger] out@[j]).script_name() == v@[j].script_name()
                    && out@[j].args().keys() == v@[j].args().keys() && out@[j].args().values()
                    == v@[j].args().values(),
    {
        out.push(v[i].duplicate());
    }
    out
}

/// A copy of the object's data and cached state, with no parent and no
/// children.
fn copy_object(o: &GameObject) -> (c: GameObject)
    ensures
        copy_of(c, *o),
        c.children_of().len() == 0,
        c.parent_of() is None,
{
    GameObject {
        name: o.name.clone(),
        enabled: o.enabled,
        render_data: o.render_data.duplicate(),
        position: o.position,
        rotation: o.rotation,
        scale: o.scale,
        scripts: duplicate_scripts(&o.scripts),
        visible: o.visible,
        enabled_in_hierarchy: o.enabled_in_hierarchy,
        is_compute_dirty: o.is_compute_dirty,
        is_render_dirty: o.is_render_dirty,
        parent: None,
        children: Vec::new(),
    }
}

impl SceneGraph {
    /// Object `c` of this graph and the objects under it copy object `o` of
    /// `src` and the objects under it: each copy holds the data of its
    /// original and has the copies of its original's children as children,
    /// in the same order.
    pub open spec fn copies(&self, src: &SceneGraph, o: int, c: int) -> bool
        decreases src.len() - o,
    {
        &&& 0 <= o < src.len()
        &&& 0 <= c < self.len()
        &&& copy_of(self.objects()[c], src.objects()[o])
        &&& self.nkids(c) == src.nkids(o)
        &&& forall|i: int|
            0 <= i < src.nkids(o) ==> (o < #[trigger] src.kid(o, i) < src.len() && c < self.kid(
                c,
                i,
            ) && self.copies(src, src.kid(o, i), self.kid(c, i)))
    }
}

/// A copy stays a copy where the objects from it on are unchanged and
/// objects are only added after them.
pub proof fn lemma_copies_frame(g1: &SceneGraph, g2: &SceneGraph, src: &SceneGraph, o: int, c: int)
    requires
        g1.copies(src, o, c),
        g2.len() >= g1.len(),
        forall|m: int| c <= m < g1.len() ==> #[trigger] g2.objects()[m] == g1.objects()[m],
    ensures
        g2.copies(src, o, c),
    decreases src.len() - o,
{
    assert(g2.objects()[c] == g1.objects()[c]);
    assert forall|i: int| 0 <= i < src.nkids(o) implies (o < #[trigger] src.kid(o, i) < src.len()
        && c < g2.kid(c, i) && g2.copies(src, src.kid(o, i), g2.kid(c, i))) by {
        assert(g1.copies(src, src.kid(o, i), g1.kid(c, i)));
        lemma_copies_frame(g1, g2, src, src.kid(o, i), g1.kid(c, i));
    }
}

/// A copy stays a copy when only parent links change.
pub proof fn lemma_copies_relinked(g1: &SceneGraph, g2: &SceneGraph, src: &SceneGraph, o: int, c: int)
    requires
        g1.copies(src, o, c),
        g2.len() == g1.len(),
        forall|m: int| 0 <= m < g1.len() ==> same_but_parent(#[trigger] g2.objects()[m], g1.objects()[m]),
    ensures
        g2.copies(src, o, c),
    decreases src.len() - o,
{
    assert(same_but_parent(g2.objects()[c], g1.objects()[c]));
    assert forall|i: int| 0 <= i < src.nkids(o) implies (o < #[trigger] src.kid(o, i) < src.len()
        && c < g2.kid(c, i) && g2.copies(src, src.kid(o, i), g2.kid(c, i))) by {
        assert(g1.copies(src, src.kid(o, i), g1.kid(c, i)));
        lemma_copies_relinked(g1, g2, src, src.kid(o, i), g1.kid(c, i));
    }
}

/// Graphs with the same children agree on which object is a parent in a
/// subtree.
pub proof fn lemma_parent_in_subtree_same_kids(g1: &SceneGraph, g2: &SceneGraph, n: int, k: int, m: int)
    requires
        g1.same_kids(g2),
    ensures
        g1.parent_in_subtree(n, k, m) == g2.parent_in_subtree(n, k, m),
{
    lemma_preorder_same_shape(g1, g2, n);
    if 0 <= k < g1.len() {
        assert(g1.kids(k) == g2.kids(k));
        if g1.is_kid(k, m) {
            let i = choose|i: int| 0 <= i < g1.nkids(k) && #[trigger] g1.kid(k, i) == m;
            assert(g2.kid(k, i) == m);
        }
        if g2.is_kid(k, m) {
            let i = choose|i: int| 0 <= i < g2.nkids(k) && #[trigger] g2.kid(k, i) == m;
            assert(g1.kid(k, i) == m);
        }
    }
}

/// The subtrees of more children hold at least as many objects.
pub proof fn lemma_prefix_len_monotone(g: &SceneGraph, n: int, i: int, j: int)
    requires
        g.wf(),
        0 <= n < g.len(),
        0 <= i <= j <= g.nkids(n),
    ensures
        g.preorder_prefix(n, i).len() <= g.preorder_prefix(n, j).len(),
    decreases j - i,
{
    if i < j {
        lemma_prefix_len_monotone(g, n, i, j - 1);
        assert(g.node_wf(n));
        assert(n < g.kid(n, j - 1) < g.len());
        assert(g.preorder_prefix(n, j) == g.preorder_prefix(n, j - 1) + g.preorder(g.kid(n, j - 1)));
    }
}

impl SceneGraph {
    /// Appends a copy of the subtree under `id` of `src` to this graph and
    /// returns the handle of the copy of `id`. The copies have no parent
    /// links; an object shared by two parents in `src` is copied once for
    /// each.
    pub fn copy_subtree(&mut self, src: &SceneGraph, id: usize) -> (new_id: usize)
        requires
            old(self).wf(),
            src.wf(),
            id < src.len(),
            old(self).len() + src.preorder(id as int).len() <= usize::MAX,
        ensures
            final(self).wf(),
            new_id == old(self).len(),
            final(self).len() == old(self).len() + src.preorder(id as int).len(),
            forall|m: int| 0 <= m < old(self).len() ==> #[trigger] final(self).objects()[m] == old(self).objects()[m],
            final(self).copies(src, id as int, new_id as int),
            forall|m: int| old(self).len() <= m < final(self).len() ==> (#[trigger] final(self).objects()[m]).parent_of() is None,
        decreases src.len() - id,
    {
        proof {
            assert(src.node_wf(id as int));
        }
        let c = copy_object(&src.objects[id]);
        let new_id = self.objects.len();
        self.objects.push(c);
        let ghost start = *old(self);
        proof {
            assert forall|m: int| 0 <= m < self.len() implies #[trigger] self.node_wf(m) by {
                if m < start.len() {
                    assert(start.node_wf(m));
                    assert(self.objects()[m] == start.objects()[m]);
                    assert forall|i: int| 0 <= i < self.nkids(m) implies m < #[trigger] self.kid(m, i) < self.len() by {
                        assert(start.kid(m, i) == self.kid(m, i));
                    }
                    assert forall|i: int, j: int| 0 <= i < j < self.nkids(m) implies self.name_of(#[trigger] self.kid(m, i)) != self.name_of(#[trigger] self.kid(m, j)) by {
                        assert(start.kid(m, i) == self.kid(m, i));
                        assert(start.kid(m, j) == self.kid(m, j));
                        assert(self.objects()[self.kid(m, i)] == start.objects()[start.kid(m, i)]);
                        assert(self.objects()[self.kid(m, j)] == start.objects()[start.kid(m, j)]);
                    }
                }
            }
            assert(src.preorder_prefix(id as int, 0) =~= Seq::<int>::empty());
            assert(src.preorder(id as int) == seq![id as int] + src.preorder_prefix(id as int, src.nkids(id as int)));
        }
        let n = src.objects[id].children.len();
        for i in 0..n
            invariant
                src.wf(),
                id < src.len(),
                n == src.nkids(id as int),
                self.wf(),
                new_id == start.len(),
                self.len() == start.len() + 1 + src.preorder_prefix(id as int, i as int).len(),
                start.len() + src.preorder(id as int).len() <= usize::MAX,
                src.preorder(id as int) == seq![id as int] + src.preorder_prefix(id as int, n as int),
                forall|m: int| 0 <= m < start.len() ==> #[trigger] self.objects()[m] == start.objects()[m],
                copy_of(self.objects()[new_id as int], src.objects()[id as int]),
                forall|m: int| start.len() <= m < self.len() ==> (#[trigger] self.objects()[m]).parent_of() is None,
                self.nkids(new_id as int) == i,
                forall|j: int|
                    0 <= j < i ==> new_id < #[trigger] self.kid(new_id as int, j) && self.copies(
                        src,
                        src.kid(id as int, j),
                        self.kid(new_id as int, j),
                    ),
        {
            proof {
                assert(src.node_wf(id as int));
                lemma_prefix_len_monotone(src, id as int, i + 1, n as int);
                assert(src.preorder_prefix(id as int, i + 1) == src.preorder_prefix(id as int, i as int)
                    + src.preorder(src.kid(id as int, i as int)));
            }
            let k = src.objects[id].children[i];
            let ghost before = *self;
            let nk = self.copy_subtree(src, k);
            let ghost mid = *self;
            proof {
                assert forall|j: int| 0 <= j < i implies new_id < #[trigger] mid.kid(new_id as int, j)
                    && mid.copies(src, src.kid(id as int, j), mid.kid(new_id as int, j)) by {
                    assert(mid.objects()[new_id as int] == before.objects()[new_id as int]);
                    let cj = before.kid(new_id as int, j);
                    assert(before.copies(src, src.kid(id as int, j), cj));
                    lemma_copies_frame(&before, &mid, src, src.kid(id as int, j), cj);
                }
            }
            self.objects[new_id].children.push(nk);
            proof {
                assert(self.kids(new_id as int) == mid.kids(new_id as int).push(nk));
                assert forall|m: int| 0 <= m < self.len() && m != new_id implies #[trigger] self.objects()[m] == mid.objects()[m] by {}
                assert forall|j: int| 0 <= j <= i implies new_id < #[trigger] self.kid(new_id as int, j)
                    && self.copies(src, src.kid(id as int, j), self.kid(new_id as int, j)) by {
                    let cj = self.kid(new_id as int, j);
                    if j < i {
                        assert(cj == mid.kid(new_id as int, j));
                    } else {
                        assert(cj == nk);
                    }
                    assert(mid.copies(src, src.kid(id as int, j), cj));
                    lemma_copies_frame(&mid, self, src, src.kid(id as int, j), cj);
                }
                assert(self.node_wf(new_id as int)) by {
                    assert forall|a: int, b: int| 0 <= a < b < self.nkids(new_id as int) implies self.name_of(#[trigger] self.kid(new_id as int, a)) != self.name_of(#[trigger] self.kid(new_id as int, b)) by {
                        assert(self.copies(src, src.kid(id as int, a), self.kid(new_id as int, a)));
                        assert(self.copies(src, src.kid(id as int, b), self.kid(new_id as int, b)));
                        assert(src.name_of(src.kid(id as int, a)) != src.name_of(src.kid(id as int, b)));
                    }
                }
                assert forall|m: int| 0 <= m < self.len() implies #[trigger] self.node_wf(m) by {
                    if m != new_id {
                        assert(mid.node_wf(m));
                        assert forall|x: int| 0 <= x < self.nkids(m) implies m < #[trigger] self.kid(m, x) < self.len() by {
                            assert(mid.kid(m, x) == self.kid(m, x));
                        }
                        assert forall|x: int, y: int| 0 <= x < y < self.nkids(m) implies self.name_of(#[trigger] self.kid(m, x)) != self.name_of(#[trigger] self.kid(m, y)) by {
                            assert(mid.kid(m, x) == self.kid(m, x));
                            assert(mid.kid(m, y) == self.kid(m, y));
                            assert(self.name_of(self.kid(m, x)) == mid.name_of(mid.kid(m, x)));
                            assert(self.name_of(self.kid(m, y)) == mid.name_of(mid.kid(m, y)));
                        }
                    }
                }
            }
        }
        new_id
    }
}

} // verus!
