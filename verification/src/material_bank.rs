//! The bookkeeping of loaded shaders, textures and materials, and the steps of
//! loading a material. The platform loads shaders and textures when a step
//! asks for it and reports whether that worked.
use vstd::prelude::*;

use crate::script::str_equal;

verus! {

/// A store of assets that loads them on request and can drop them all.
pub trait Bank {
    type InputType;

    fn load(&mut self, input: Self::InputType);

    fn load_to_reserve(&mut self, input: Self::InputType);

    fn unload_all(&mut self);
}

/// The characters of each string.
pub open spec fn names_view(v: Seq<String>) -> Seq<Seq<char>> {
    v.map_values(|s: String| s@)
}

/// The first position of `name` in `names`.
pub open spec fn first_index(names: Seq<Seq<char>>, name: Seq<char>) -> Option<int> {
    if exists|i: int| 0 <= i < names.len() && names[i] == name {
        Some(
            choose|i: int|
                0 <= i < names.len() && names[i] == name && forall|j: int|
                    0 <= j < i ==> names[j] != name,
        )
    } else {
        None
    }
}

/// Finds the first string equal to `name`.
pub fn find_name(v: &Vec<String>, name: &str) -> (r: Option<usize>)
    ensures
        match r {
            Some(i) => i < v@.len() && v@[i as int]@ == name@ && forall|j: int|
                0 <= j < i ==> v@[j]@ != name@,
            None => forall|j: int| 0 <= j < v@.len() ==> v@[j]@ != name@,
        },
        match r {
            Some(i) => find_first(v@, name@) == Some(i as int),
            None => find_first(v@, name@) is None,
        },
{
    let n = v.len();
    for k in 0..n
        invariant
            n == v@.len(),
            forall|j: int| 0 <= j < k ==> v@[j]@ != name@,
    {
        if str_equal(v[k].as_str(), name) {
            proof {
                lemma_first_index_at(names_view(v@), name@, k as int);
            }
            return Some(k);
        }
    }
    proof {
        let names = names_view(v@);
        assert forall|j: int| 0 <= j < names.len() implies names[j] != name@ by {
            assert(names[j] == v@[j]@);
        }
    }
    None
}

/// The first position of `name` is `i` when `i` holds it and no earlier
/// position does.
pub proof fn lemma_first_index_at(names: Seq<Seq<char>>, name: Seq<char>, i: int)
    requires
        0 <= i < names.len(),
        names[i] == name,
        forall|j: int| 0 <= j < i ==> names[j] != name,
    ensures
        first_index(names, name) == Some(i),
{
    let c = choose|c: int|
        0 <= c < names.len() && names[c] == name && forall|j: int| 0 <= j < c ==> names[j] != name;
    assert(0 <= c < names.len() && names[c] == name && forall|j: int|
        0 <= j < c ==> names[j] != name);
    if c < i {
        assert(names[c] != name);
    }
    if c > i {
        assert(names[i] != name);
    }
}

/// A loaded material: the index of its shader, `None` for the shader that
/// marks a missing one, and the indices of its textures in binding order.
#[derive(Debug)]
pub struct MaterialEntry {
    pub shader: Option<usize>,
    pub textures: Vec<usize>,
}

/// The material refers to one of `shaders` shaders and `textures` textures.
pub open spec fn entry_valid(e: MaterialEntry, shaders: nat, textures: nat) -> bool {
    &&& (e.shader matches Some(s) ==> s < shaders)
    &&& forall|t: int| 0 <= t < e.textures@.len() ==> #[trigger] e.textures@[t] < textures
}

/// The names of the loaded shaders and textures and the loaded materials.
#[derive(Debug)]
pub struct MaterialRegistry {
    pub shader_names: Vec<String>,
    pub texture_names: Vec<String>,
    pub materials: Vec<MaterialEntry>,
}

/// The most textures a material can bind.
pub const MAX_TEXTURES: usize = 4;

impl MaterialRegistry {
    /// Every material refers to loaded shaders and textures.
    pub open spec fn wf(&self) -> bool {
        forall|m: int|
            0 <= m < self.materials@.len() ==> entry_valid(
                #[trigger] self.materials@[m],
                self.shader_names@.len(),
                self.texture_names@.len(),
            )
    }

    /// An empty registry.
    pub fn new() -> (r: MaterialRegistry)
        ensures
            r.wf(),
            r.shader_names@.len() == 0 && r.texture_names@.len() == 0 && r.materials@.len() == 0,
    {
        MaterialRegistry { shader_names: Vec::new(), texture_names: Vec::new(), materials: Vec::new() }
    }

    /// Drops every shader and material; the textures stay.
    pub fn unload_all(&mut self)
        ensures
            final(self).wf(),
            final(self).shader_names@.len() == 0,
            final(self).materials@.len() == 0,
            final(self).texture_names@ == old(self).texture_names@,
    {
        self.shader_names = Vec::new();
        self.materials = Vec::new();
    }

    /// The shaders and textures of material `idx`, in binding order: its
    /// shader, or the missing shader, then each texture on the next unit.
    pub fn bind_plan(&self, idx: usize) -> (plan: (Option<usize>, Vec<usize>))
        requires
            idx < self.materials@.len(),
            self.materials@[idx as int].textures@.len() <= MAX_TEXTURES,
        ensures
            plan.0 == self.materials@[idx as int].shader,
            plan.1@ == self.materials@[idx as int].textures@,
    {
        let m = &self.materials[idx];
        let mut textures: Vec<usize> = Vec::new();
        let n = m.textures.len();
        for k in 0..n
            invariant
                n == m.textures@.len(),
                textures@ == m.textures@.take(k as int),
        {
            textures.push(m.textures[k]);
            assert(textures@ =~= m.textures@.take(k + 1));
        }
        assert(m.textures@.take(n as int) =~= m.textures@);
        (m.shader, textures)
    }
}

/// What loading a material asks of the platform next.
#[derive(Debug)]
pub enum LoadRequest {
    /// Load the material's shader, then report it with `shader_result`.
    Shader,
    /// Load the texture at this path, then report it with `texture_result`.
    Texture(String),
    /// Nothing more: call `finish`.
    Done,
}

/// A material being loaded: its shader so far, the textures bound so far, its
/// texture paths and the position of the next one.
#[derive(Debug)]
pub struct MaterialLoad {
    pub shader: Option<usize>,
    pub textures: Vec<usize>,
    pub paths: Vec<String>,
    pub next: usize,
}

/// Where `name` occurs in `names`, it occurs first at some position.
proof fn lemma_first_exists(names: Seq<Seq<char>>, name: Seq<char>, i: int)
    requires
        0 <= i < names.len(),
        names[i] == name,
    ensures
        exists|k: int|
            0 <= k < names.len() && names[k] == name && forall|j: int| 0 <= j < k ==> names[j] != name,
    decreases i,
{
    if exists|j: int| 0 <= j < i && names[j] == name {
        let j = choose|j: int| 0 <= j < i && names[j] == name;
        lemma_first_exists(names, name, j);
    } else {
        assert(0 <= i < names.len() && names[i] == name && forall|j: int| 0 <= j < i ==> names[j] != name);
    }
}

/// The first position of a name holds that name.
pub proof fn lemma_first_index_found(names: Seq<Seq<char>>, name: Seq<char>)
    ensures
        first_index(names, name) matches Some(k) ==> 0 <= k < names.len() && names[k] == name,
{
    if exists|i: int| 0 <= i < names.len() && names[i] == name {
        let i = choose|i: int| 0 <= i < names.len() && names[i] == name;
        lemma_first_exists(names, name, i);
    }
}

/// From path `next` on, binds each texture that is already loaded and stops
/// at the first path whose texture is not: the textures bound by then and
/// the position reached.
pub open spec fn advance(
    paths: Seq<Seq<char>>,
    names: Seq<Seq<char>>,
    textures: Seq<usize>,
    next: int,
) -> (Seq<usize>, int)
    decreases paths.len() - next,
{
    if 0 <= next < paths.len() && first_index(names, paths[next]) is Some {
        advance(paths, names, textures.push(first_index(names, paths[next])->0 as usize), next + 1)
    } else {
        (textures, next)
    }
}

/// `s` and `req` are where binding goes on from `textures` and `next`, with
/// the loaded textures named `names`: every already loaded texture is bound,
/// and the first texture still to load is asked for, or nothing once every
/// path is bound.
pub open spec fn requested(
    s: &MaterialLoad,
    req: LoadRequest,
    names: Seq<Seq<char>>,
    textures: Seq<usize>,
    next: int,
) -> bool {
    let a = advance(names_view(s.paths@), names, textures, next);
    &&& s.textures@ == a.0
    &&& s.next == a.1
    &&& if a.1 < s.paths@.len() {
        req matches LoadRequest::Texture(p) && p@ == s.paths@[a.1]@
    } else {
        req is Done
    }
}

/// Binding keeps one texture per bound path, refers only to loaded
/// textures, and stops at a path whose texture is not loaded.
pub proof fn lemma_advance(paths: Seq<Seq<char>>, names: Seq<Seq<char>>, textures: Seq<usize>, next: int)
    requires
        0 <= next <= paths.len(),
        textures.len() == next,
        forall|t: int| 0 <= t < textures.len() ==> #[trigger] textures[t] < names.len(),
    ensures
        next <= advance(paths, names, textures, next).1 <= paths.len(),
        advance(paths, names, textures, next).0.len() == advance(paths, names, textures, next).1,
        forall|t: int|
            0 <= t < advance(paths, names, textures, next).0.len() ==> #[trigger] advance(
                paths,
                names,
                textures,
                next,
            ).0[t] < names.len(),
    decreases paths.len() - next,
{
    if 0 <= next < paths.len() && first_index(names, paths[next]) is Some {
        let k = first_index(names, paths[next])->0;
        lemma_first_index_found(names, paths[next]);
        let t2 = textures.push(k as usize);
        assert forall|t: int| 0 <= t < t2.len() implies #[trigger] t2[t] < names.len() by {
            if t < textures.len() {
                assert(t2[t] == textures[t]);
            }
        }
        lemma_advance(paths, names, t2, next + 1);
    }
}

/// A texture that is already loaded is bound, not loaded again: where every
/// path from `next` on names a loaded texture, binding reaches the end of
/// the paths and binds to each path the first loaded texture of its name.
pub proof fn lemma_loaded_textures_are_reused(
    paths: Seq<Seq<char>>,
    names: Seq<Seq<char>>,
    textures: Seq<usize>,
    next: int,
)
    requires
        0 <= next <= paths.len(),
        forall|i: int| next <= i < paths.len() ==> #[trigger] first_index(names, paths[i]) is Some,
    ensures
        advance(paths, names, textures, next).1 == paths.len(),
        advance(paths, names, textures, next).0 == textures + Seq::new(
            (paths.len() - next) as nat,
            |i: int| first_index(names, paths[next + i])->0 as usize,
        ),
    decreases paths.len() - next,
{
    let rest = Seq::new(
        (paths.len() - next) as nat,
        |i: int| first_index(names, paths[next + i])->0 as usize,
    );
    if next < paths.len() {
        let k = first_index(names, paths[next])->0 as usize;
        let t2 = textures.push(k);
        lemma_loaded_textures_are_reused(paths, names, t2, next + 1);
        let rest2 = Seq::new(
            (paths.len() - (next + 1)) as nat,
            |i: int| first_index(names, paths[next + 1 + i])->0 as usize,
        );
        assert forall|i: int| 0 <= i < rest2.len() implies rest2[i] == rest[i + 1] by {
            assert(next + 1 + i == next + (i + 1));
        }
        assert(rest[0] == k);
        assert(t2 + rest2 =~= textures + rest);
    } else {
        assert(textures + rest =~= textures);
    }
}

/// Only a texture that is not loaded is asked for: where binding stops
/// before the end of the paths, no loaded texture has the name of the path
/// it stopped at.
pub proof fn lemma_requested_texture_is_not_loaded(
    paths: Seq<Seq<char>>,
    names: Seq<Seq<char>>,
    textures: Seq<usize>,
    next: int,
)
    requires
        0 <= next <= paths.len(),
    ensures
        advance(paths, names, textures, next).1 < paths.len() ==> first_index(
            names,
            paths[advance(paths, names, textures, next).1],
        ) is None,
    decreases paths.len() - next,
{
    if 0 <= next < paths.len() && first_index(names, paths[next]) is Some {
        lemma_requested_texture_is_not_loaded(
            paths,
            names,
            textures.push(first_index(names, paths[next])->0 as usize),
            next + 1,
        );
    }
}

/// `after` is `before` with the material of `load` stored after the others:
/// the names are kept and so is every earlier material.
pub open spec fn stores_material(before: &MaterialRegistry, load: &MaterialLoad, after: &MaterialRegistry) -> bool {
    &&& after.shader_names@ == before.shader_names@
    &&& after.texture_names@ == before.texture_names@
    &&& after.materials@.len() == before.materials@.len() + 1
    &&& after.materials@.last().shader == load.shader
    &&& after.materials@.last().textures@ == load.textures@
    &&& forall|m: int|
        0 <= m < before.materials@.len() ==> after.materials@[m] == before.materials@[m]
}

/// Loaded materials sit in load order: over loads that each store one
/// material (`before[i]` to `after[i]`), with nothing in between changing
/// the materials, the `k`-th load's material is at index `k` past those
/// there at the start, and the earlier ones stay.
pub proof fn lemma_materials_in_load_order(
    before: Seq<MaterialRegistry>,
    after: Seq<MaterialRegistry>,
    loads: Seq<MaterialLoad>,
)
    requires
        loads.len() > 0,
        before.len() == loads.len(),
        after.len() == loads.len(),
        forall|i: int| 0 <= i < loads.len() ==> stores_material(&before[i], &loads[i], &after[i]),
        forall|i: int| 0 <= i < loads.len() - 1 ==> #[trigger] before[i + 1].materials@ == after[i].materials@,
    ensures
        after.last().materials@.len() == before[0].materials@.len() + loads.len(),
        forall|k: int| 0 <= k < loads.len() ==> {
            &&& (#[trigger] after.last().materials@[before[0].materials@.len() + k]).shader == loads[k].shader
            &&& after.last().materials@[before[0].materials@.len() + k].textures@ == loads[k].textures@
        },
        forall|m: int|
            0 <= m < before[0].materials@.len() ==> #[trigger] after.last().materials@[m] == before[0].materials@[m],
    decreases loads.len(),
{
    let n = loads.len();
    assert(stores_material(&before[n - 1], &loads[n - 1], &after[n - 1]));
    if n > 1 {
        lemma_materials_in_load_order(before.drop_last(), after.drop_last(), loads.drop_last());
        assert(before.drop_last()[0] == before[0]);
        assert(after.drop_last().last() == after[n - 2]);
        let i = n - 2;
        assert(before[i + 1].materials@ == after[i].materials@);
        let base = before[0].materials@.len();
        assert forall|k: int| 0 <= k < n implies {
            &&& (#[trigger] after.last().materials@[base + k]).shader == loads[k].shader
            &&& after.last().materials@[base + k].textures@ == loads[k].textures@
        } by {
            if k < n - 1 {
                assert(loads.drop_last()[k] == loads[k]);
                assert(after.last().materials@[base + k] == after[n - 2].materials@[base + k]);
            }
        }
        assert forall|m: int| 0 <= m < base implies #[trigger] after.last().materials@[m] == before[0].materials@[m] by {
            assert(after.last().materials@[m] == after[n - 2].materials@[m]);
        }
    }
}

impl MaterialLoad {
    /// The load refers to loaded shaders and textures, and has one texture
    /// per path before `next`.
    pub open spec fn wf(&self, reg: &MaterialRegistry) -> bool {
        &&& self.shader matches Some(s) ==> s < reg.shader_names@.len()
        &&& forall|t: int|
            0 <= t < self.textures@.len() ==> #[trigger] self.textures@[t]
                < reg.texture_names@.len()
        &&& self.next <= self.paths@.len()
        &&& self.shader is Some ==> self.textures@.len() == self.next
        &&& self.shader is Some ==> forall|k: int|
            0 <= k < self.next ==> #[trigger] names_view(reg.texture_names@)[self.textures@[k] as int]
                == self.paths@[k]@
    }

    /// A load with a shader that has reached the end of its paths binds one
    /// texture per path, in order, each the texture loaded under that path.
    pub proof fn lemma_finished_load_binds_every_path(&self, reg: &MaterialRegistry)
        requires
            self.wf(reg),
            self.shader is Some,
            self.next == self.paths@.len(),
        ensures
            self.textures@.len() == self.paths@.len(),
            forall|k: int|
                0 <= k < self.paths@.len() ==> #[trigger] reg.texture_names@[self.textures@[k] as int]@
                    == self.paths@[k]@,
    {
        assert forall|k: int| 0 <= k < self.paths@.len() implies #[trigger] reg.texture_names@[self.textures@[k] as int]@
            == self.paths@[k]@ by {
            assert(names_view(reg.texture_names@)[self.textures@[k] as int] == self.paths@[k]@);
        }
    }

    /// Starts loading a material whose shader is stored at `shader_path` and
    /// whose texture inputs have the paths `paths`. A loaded shader of that
    /// name is reused, and so is every texture already loaded from the first
    /// path on; otherwise the shader must be loaded first.
    pub fn start(reg: &MaterialRegistry, shader_path: &str, paths: Vec<String>) -> (out: (
        MaterialLoad,
        LoadRequest,
    ))
        ensures
            out.0.wf(reg),
            out.0.paths@ == paths@,
            match find_first(reg.shader_names@, shader_path@) {
                Some(i) => out.0.shader == Some(i as usize) && requested(
                    &out.0,
                    out.1,
                    names_view(reg.texture_names@),
                    Seq::empty(),
                    0,
                ),
                None => out.0.shader is None && out.1 is Shader && out.0.next == 0
                    && out.0.textures@.len() == 0,
            },
    {
        let shader = find_name(&reg.shader_names, shader_path);
        let mut load = MaterialLoad { shader, textures: Vec::new(), paths, next: 0 };
        match shader {
            None => (load, LoadRequest::Shader),
            Some(_) => {
                proof {
                    assert(load.textures@ =~= Seq::<usize>::empty());
                }
                let req = load.request(reg);
                (load, req)
            },
        }
    }

    /// The next request of a material that still has a shader: every texture
    /// already loaded is bound in turn, and the first one still to load is
    /// asked for; nothing is asked once every path is bound, or when the
    /// material has no shader.
    pub fn request(&mut self, reg: &MaterialRegistry) -> (req: LoadRequest)
        requires
            old(self).wf(reg),
        ensures
            final(self).wf(reg),
            final(self).paths@ == old(self).paths@,
            final(self).shader == old(self).shader,
            old(self).shader is None ==> req is Done && final(self).textures@ == old(
                self,
            ).textures@ && final(self).next == old(self).next,
            old(self).shader is Some ==> requested(
                &*final(self),
                req,
                names_view(reg.texture_names@),
                old(self).textures@,
                old(self).next as int,
            ),
    {
        if self.shader.is_none() {
            return LoadRequest::Done;
        }
        let ghost names = names_view(reg.texture_names@);
        let ghost p = names_view(self.paths@);
        let ghost t0 = self.textures@;
        let ghost n0 = self.next as int;
        while self.next < self.paths.len()
            invariant
                self.shader is Some,
                self.shader == old(self).shader,
                self.paths@ == old(self).paths@,
                self.wf(reg),
                p == names_view(self.paths@),
                names == names_view(reg.texture_names@),
                t0 == old(self).textures@,
                n0 == old(self).next,
                advance(p, names, t0, n0) == advance(p, names, self.textures@, self.next as int),
            decreases self.paths@.len() - self.next,
        {
            let i = self.next;
            assert(p[i as int] == self.paths@[i as int]@);
            match find_name(&reg.texture_names, self.paths[i].as_str()) {
                Some(k) => {
                    self.textures.push(k);
                    self.next = i + 1;
                },
                None => {
                    let path = self.paths[i].clone();
                    proof {
                        assert(first_index(names, p[i as int]) is None);
                        assert(advance(p, names, self.textures@, i as int) == (self.textures@, i as int));
                    }
                    return LoadRequest::Texture(path);
                },
            }
        }
        LoadRequest::Done
    }

    /// Reports the shader load that `start` asked for: a loaded shader is
    /// stored under `name` and binding goes on as `request` does; without one
    /// the material uses the missing shader.
    pub fn shader_result(&mut self, reg: &mut MaterialRegistry, loaded: Option<String>) -> (req:
        LoadRequest)
        requires
            old(self).wf(&*old(reg)),
            old(reg).wf(),
            old(self).shader is None,
            old(self).next == 0,
            old(self).textures@.len() == 0,
        ensures
            final(reg).wf(),
            final(self).wf(&*final(reg)),
            final(reg).texture_names@ == old(reg).texture_names@,
            final(reg).materials@ == old(reg).materials@,
            final(self).paths@ == old(self).paths@,
            match loaded {
                Some(name) => names_view(final(reg).shader_names@) == names_view(
                    old(reg).shader_names@,
                ).push(name@) && final(self).shader == Some(
                    old(reg).shader_names@.len() as usize,
                ) && requested(
                    &*final(self),
                    req,
                    names_view(final(reg).texture_names@),
                    Seq::empty(),
                    0,
                ),
                None => final(reg).shader_names@ == old(reg).shader_names@ && req is Done
                    && final(self).shader is None && final(self).textures@ == old(self).textures@
                    && final(self).next == old(self).next,
            },
    {
        match loaded {
            Some(name) => {
                let ghost before = reg.shader_names@;
                reg.shader_names.push(name);
                proof {
                    assert(names_view(reg.shader_names@) =~= names_view(before).push(name@));
                    assert(self.textures@ =~= Seq::<usize>::empty());
                }
                self.shader = Some(reg.shader_names.len() - 1);
                self.request(reg)
            },
            None => LoadRequest::Done,
        }
    }

    /// Reports the texture load that the last request asked for: a loaded
    /// texture is stored under its path, bound, and binding goes on with the
    /// next path as `request` does; a failed one makes the material fall back
    /// to the missing shader with no textures.
    pub fn texture_result(&mut self, reg: &mut MaterialRegistry, loaded: bool) -> (req:
        LoadRequest)
        requires
            old(self).wf(&*old(reg)),
            old(reg).wf(),
            old(self).shader is Some,
            old(self).next < old(self).paths@.len(),
        ensures
            final(reg).wf(),
            final(self).wf(&*final(reg)),
            final(reg).shader_names@ == old(reg).shader_names@,
            final(reg).materials@ == old(reg).materials@,
            final(self).paths@ == old(self).paths@,
            loaded ==> names_view(final(reg).texture_names@) == names_view(
                old(reg).texture_names@,
            ).push(old(self).paths@[old(self).next as int]@) && final(self).shader == old(
                self,
            ).shader && requested(
                &*final(self),
                req,
                names_view(final(reg).texture_names@),
                old(self).textures@.push(old(reg).texture_names@.len() as usize),
                old(self).next + 1,
            ),
            !loaded ==> final(reg).texture_names@ == old(reg).texture_names@ && req is Done
                && final(self).shader is None && final(self).textures@.len() == 0,
    {
        if loaded {
            let np = self.paths.len();
            let path = self.paths[self.next].clone();
            let ghost before = reg.texture_names@;
            reg.texture_names.push(path);
            proof {
                assert(names_view(reg.texture_names@) =~= names_view(before).push(path@));
            }
            self.textures.push(reg.texture_names.len() - 1);
            proof {
                assert(self.next < np);
            }
            self.next = self.next + 1;
            self.request(reg)
        } else {
            self.shader = None;
            self.textures = Vec::new();
            LoadRequest::Done
        }
    }

    /// Stores the material: its shader, or the missing shader, and its
    /// textures.
    pub fn finish(self, reg: &mut MaterialRegistry)
        requires
            self.wf(&*old(reg)),
            old(reg).wf(),
        ensures
            final(reg).wf(),
            stores_material(&*old(reg), &self, &*final(reg)),
    {
        reg.materials.push(MaterialEntry { shader: self.shader, textures: self.textures });
    }
}

/// The first position of `name` among the characters of `v`.
pub open spec fn find_first(v: Seq<String>, name: Seq<char>) -> Option<int> {
    first_index(names_view(v), name)
}

} // verus!
