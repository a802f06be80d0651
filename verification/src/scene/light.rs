use vstd::prelude::*;

use crate::error::CitraError;
use crate::math::Float3;
use crate::scene::graph::SceneGraph;
use crate::scene::node_path::NodePath;

verus! {

/// The kind of a light.
#[derive(Clone, Copy, Debug, PartialEq, Eq, Structural)]
pub enum LightType {
    PointLight,
    DirectionalLight,
    SpotLight,
}

/// A light of the scene, which may follow the transform of an object.
#[derive(Debug)]
pub struct Light {
    pub light_type: LightType,
    /// The path, from the scene root, of the object to follow once the scene is loaded.
    pub starting_follow_transform: Option<NodePath>,
    /// The color, as single-precision bit patterns.
    pub color: Float3,
    /// The handle of the object whose transform the light takes.
    pub follow_transform: Option<usize>,
}

impl Light {
    /// A light following `follow_transform`, which remembers the path that
    /// object builds of itself.
    pub fn new(light_type: LightType, color: Float3, follow_transform: Option<usize>, graph: &SceneGraph) -> (out: Self)
        requires
            graph.wf(),
            follow_transform matches Some(f) ==> f < graph.len(),
        ensures
            out.light_type == light_type,
            out.color == color,
            out.follow_transform == follow_transform,
            match follow_transform {
                Some(f) => out.starting_follow_transform matches Some(p) && p.segments() == graph.ancestry(f as int),
                None => out.starting_follow_transform is None,
            },
    {
        match follow_transform {
            Some(f) => Light {
                light_type,
                starting_follow_transform: Some(graph.build_node_path(f)),
                color,
                follow_transform: Some(f),
            },
            None => Light { light_type, starting_follow_transform: None, color, follow_transform: None },
        }
    }

    /// Resolves the remembered path from `scene_graph` (the root) and follows
    /// the object found there; a path that leads nowhere is an error and
    /// leaves the light as it was.
    pub fn build_ref(&mut self, graph: &SceneGraph, scene_graph: usize) -> (res: Result<(), CitraError>)
        requires
            graph.wf(),
            scene_graph < graph.len(),
        ensures
            final(self).light_type == old(self).light_type,
            final(self).color == old(self).color,
            final(self).starting_follow_transform == old(self).starting_follow_transform,
            match old(self).starting_follow_transform {
                None => res is Ok && final(self).follow_transform == old(self).follow_transform,
                Some(p) => match graph.resolve(scene_graph as int, p.segments()) {
                    Ok(c) => res is Ok && final(self).follow_transform == Some(c as usize),
                    Err(seg) => final(self).follow_transform == old(self).follow_transform
                        && crate::error::is_missing_node(res, seg),
                },
            },
    {
        match &self.starting_follow_transform {
            Some(path) => {
                let p = path.duplicate();
                match graph.fetch_obj(scene_graph, p) {
                    Ok(c) => {
                        self.follow_transform = Some(c);
                        Ok(())
                    },
                    Err(e) => Err(e),
                }
            },
            None => Ok(()),
        }
    }
}

/// A lookup table of the light environment; the factor is a single-precision bit pattern.
#[derive(Clone, Copy, Debug, PartialEq, Eq, Structural)]
pub enum LightLUT {
    Phong { factor: u32, negative: bool },
}

/// The value that indexes a lookup table.
#[derive(Clone, Copy, Debug, PartialEq, Eq, Structural)]
pub enum LUTInput {
    NormalXHalfVec,
    ViewXHalfVec,
    NormalXView,
    LightVecXNormal,
    NegLightVecXSpotVec,
    CosOfPhi,
}

impl LUTInput {
    /// The default input: the light vector dotted with the normal.
    pub fn default() -> (out: Self)
        ensures
            out == LUTInput::LightVecXNormal,
    {
        LUTInput::LightVecXNormal
    }
}

/// A lookup table and the value that indexes it.
#[derive(Clone, Copy, Debug, PartialEq, Eq, Structural)]
pub struct LightLUTCfg {
    pub lut: LightLUT,
    pub input: LUTInput,
}

/// The lookup tables of the light environment, each of them optional.
#[derive(Clone, Copy, Debug, PartialEq, Eq, Structural)]
pub struct LightLUTCfgs {
    pub diffuse0: Option<LightLUTCfg>,
    pub diffuse1: Option<LightLUTCfg>,
    pub spotlight: Option<LightLUTCfg>,
    pub fresnel: Option<LightLUTCfg>,
    pub reflection_red: Option<LightLUTCfg>,
    pub reflection_green: Option<LightLUTCfg>,
    pub reflection_blue: Option<LightLUTCfg>,
    pub distance_attenuation: Option<LightLUTCfg>,
}

impl LightLUTCfgs {
    pub open spec fn default_spec() -> Self {
        LightLUTCfgs {
            diffuse0: None,
            diffuse1: None,
            spotlight: None,
            fresnel: None,
            reflection_red: None,
            reflection_green: None,
            reflection_blue: None,
            distance_attenuation: None,
        }
    }

    /// No lookup tables.
    pub fn default() -> (out: Self)
        ensures
            out == Self::default_spec(),
    {
        LightLUTCfgs {
            diffuse0: None,
            diffuse1: None,
            spotlight: None,
            fresnel: None,
            reflection_red: None,
            reflection_green: None,
            reflection_blue: None,
            distance_attenuation: None,
        }
    }
}

/// The slot that a lookup table is connected to.
#[derive(Clone, Copy, Debug, PartialEq, Eq, Structural)]
pub enum LutId {
    D0,
    D1,
    Spotlight,
    Fresnel,
    ReflectRed,
    ReflectGreen,
    ReflectBlue,
    DistanceAttenuation,
}

/// The lookup tables to connect, slot by slot in the order of the fields of
/// the configuration, leaving out the slots that have none.
pub open spec fn lut_connections_spec(c: LightLUTCfgs) -> Seq<(LutId, LightLUTCfg)> {
    slot(LutId::D0, c.diffuse0) + slot(LutId::D1, c.diffuse1) + slot(LutId::Spotlight, c.spotlight)
        + slot(LutId::Fresnel, c.fresnel) + slot(LutId::ReflectRed, c.reflection_red)
        + slot(LutId::ReflectGreen, c.reflection_green) + slot(LutId::ReflectBlue, c.reflection_blue)
        + slot(LutId::DistanceAttenuation, c.distance_attenuation)
}

/// One slot's connection, if it has a table.
pub open spec fn slot(id: LutId, cfg: Option<LightLUTCfg>) -> Seq<(LutId, LightLUTCfg)> {
    match cfg {
        Some(c) => seq![(id, c)],
        None => Seq::empty(),
    }
}

/// A pair is among two lists joined exactly when it is among either.
proof fn lemma_contains_join(a: Seq<(LutId, LightLUTCfg)>, b: Seq<(LutId, LightLUTCfg)>, x: (LutId, LightLUTCfg))
    ensures
        (a + b).contains(x) <==> a.contains(x) || b.contains(x),
{
    if (a + b).contains(x) {
        let i = choose|i: int| 0 <= i < (a + b).len() && (a + b)[i] == x;
        if i < a.len() {
            assert(a[i] == x);
        } else {
            assert(b[i - a.len()] == x);
        }
    }
    if a.contains(x) {
        let i = choose|i: int| 0 <= i < a.len() && a[i] == x;
        assert((a + b)[i] == x);
    }
    if b.contains(x) {
        let i = choose|i: int| 0 <= i < b.len() && b[i] == x;
        assert((a + b)[a.len() + i] == x);
    }
}

/// A slot's connection holds a pair exactly when the pair is that slot
/// with its table.
proof fn lemma_slot_contains(id: LutId, cfg: Option<LightLUTCfg>, x: (LutId, LightLUTCfg))
    ensures
        slot(id, cfg).contains(x) <==> (x.0 == id && cfg == Some(x.1)),
{
    if cfg is Some {
        assert(slot(id, cfg)[0] == (id, cfg->0));
    }
}

/// Each table goes to the slot named by its own field, and only there: a
/// table is connected to a slot exactly when the configuration holds it
/// under that slot's field (the diffuse tables to `D0` and `D1`, the
/// spotlight, Fresnel and distance tables to theirs, and the red, green and
/// blue reflection tables to `ReflectRed`, `ReflectGreen` and `ReflectBlue`).
pub proof fn lemma_tables_go_to_their_slots(c: LightLUTCfgs, t: LightLUTCfg)
    ensures
        lut_connections_spec(c).contains((LutId::D0, t)) <==> c.diffuse0 == Some(t),
        lut_connections_spec(c).contains((LutId::D1, t)) <==> c.diffuse1 == Some(t),
        lut_connections_spec(c).contains((LutId::Spotlight, t)) <==> c.spotlight == Some(t),
        lut_connections_spec(c).contains((LutId::Fresnel, t)) <==> c.fresnel == Some(t),
        lut_connections_spec(c).contains((LutId::ReflectRed, t)) <==> c.reflection_red == Some(t),
        lut_connections_spec(c).contains((LutId::ReflectGreen, t)) <==> c.reflection_green == Some(t),
        lut_connections_spec(c).contains((LutId::ReflectBlue, t)) <==> c.reflection_blue == Some(t),
        lut_connections_spec(c).contains((LutId::DistanceAttenuation, t)) <==> c.distance_attenuation
            == Some(t),
{
    let s0 = slot(LutId::D0, c.diffuse0);
    let s1 = slot(LutId::D1, c.diffuse1);
    let s2 = slot(LutId::Spotlight, c.spotlight);
    let s3 = slot(LutId::Fresnel, c.fresnel);
    let s4 = slot(LutId::ReflectRed, c.reflection_red);
    let s5 = slot(LutId::ReflectGreen, c.reflection_green);
    let s6 = slot(LutId::ReflectBlue, c.reflection_blue);
    let s7 = slot(LutId::DistanceAttenuation, c.distance_attenuation);
    let ids = seq![
        LutId::D0,
        LutId::D1,
        LutId::Spotlight,
        LutId::Fresnel,
        LutId::ReflectRed,
        LutId::ReflectGreen,
        LutId::ReflectBlue,
        LutId::DistanceAttenuation,
    ];
    assert forall|k: int| 0 <= k < 8 implies {
        let x = (#[trigger] ids[k], t);
        &&& lut_connections_spec(c).contains(x) <==> (s0.contains(x) || s1.contains(x) || s2.contains(x)
            || s3.contains(x) || s4.contains(x) || s5.contains(x) || s6.contains(x) || s7.contains(x))
        &&& s0.contains(x) <==> (x.0 == LutId::D0 && c.diffuse0 == Some(t))
        &&& s1.contains(x) <==> (x.0 == LutId::D1 && c.diffuse1 == Some(t))
        &&& s2.contains(x) <==> (x.0 == LutId::Spotlight && c.spotlight == Some(t))
        &&& s3.contains(x) <==> (x.0 == LutId::Fresnel && c.fresnel == Some(t))
        &&& s4.contains(x) <==> (x.0 == LutId::ReflectRed && c.reflection_red == Some(t))
        &&& s5.contains(x) <==> (x.0 == LutId::ReflectGreen && c.reflection_green == Some(t))
        &&& s6.contains(x) <==> (x.0 == LutId::ReflectBlue && c.reflection_blue == Some(t))
        &&& s7.contains(x) <==> (x.0 == LutId::DistanceAttenuation && c.distance_attenuation == Some(t))
    } by {
        let x = (ids[k], t);
        lemma_contains_join(s0, s1, x);
        lemma_contains_join(s0 + s1, s2, x);
        lemma_contains_join(s0 + s1 + s2, s3, x);
        lemma_contains_join(s0 + s1 + s2 + s3, s4, x);
        lemma_contains_join(s0 + s1 + s2 + s3 + s4, s5, x);
        lemma_contains_join(s0 + s1 + s2 + s3 + s4 + s5, s6, x);
        lemma_contains_join(s0 + s1 + s2 + s3 + s4 + s5 + s6, s7, x);
        lemma_slot_contains(LutId::D0, c.diffuse0, x);
        lemma_slot_contains(LutId::D1, c.diffuse1, x);
        lemma_slot_contains(LutId::Spotlight, c.spotlight, x);
        lemma_slot_contains(LutId::Fresnel, c.fresnel, x);
        lemma_slot_contains(LutId::ReflectRed, c.reflection_red, x);
        lemma_slot_contains(LutId::ReflectGreen, c.reflection_green, x);
        lemma_slot_contains(LutId::ReflectBlue, c.reflection_blue, x);
        lemma_slot_contains(LutId::DistanceAttenuation, c.distance_attenuation, x);
    }
    assert(ids[0] == LutId::D0);
    assert(ids[1] == LutId::D1);
    assert(ids[2] == LutId::Spotlight);
    assert(ids[3] == LutId::Fresnel);
    assert(ids[4] == LutId::ReflectRed);
    assert(ids[5] == LutId::ReflectGreen);
    assert(ids[6] == LutId::ReflectBlue);
    assert(ids[7] == LutId::DistanceAttenuation);
}

fn push_slot(out: &mut Vec<(LutId, LightLUTCfg)>, id: LutId, cfg: Option<LightLUTCfg>)
    ensures
        final(out)@ == old(out)@ + slot(id, cfg),
{
    match cfg {
        Some(c) => {
            out.push((id, c));
            proof {
                assert(final(out)@ =~= old(out)@ + slot(id, cfg));
            }
        },
        None => {
            proof {
                assert(old(out)@ + slot(id, cfg) =~= old(out)@);
            }
        },
    }
}

/// The lookup tables to connect when the light environment is prepared.
pub fn lut_connections(cfgs: &LightLUTCfgs) -> (out: Vec<(LutId, LightLUTCfg)>)
    ensures
        out@ == lut_connections_spec(*cfgs),
{
    let mut out: Vec<(LutId, LightLUTCfg)> = Vec::new();
    push_slot(&mut out, LutId::D0, cfgs.diffuse0);
    push_slot(&mut out, LutId::D1, cfgs.diffuse1);
    push_slot(&mut out, LutId::Spotlight, cfgs.spotlight);
    push_slot(&mut out, LutId::Fresnel, cfgs.fresnel);
    push_slot(&mut out, LutId::ReflectRed, cfgs.reflection_red);
    push_slot(&mut out, LutId::ReflectGreen, cfgs.reflection_green);
    push_slot(&mut out, LutId::ReflectBlue, cfgs.reflection_blue);
    push_slot(&mut out, LutId::DistanceAttenuation, cfgs.distance_attenuation);
    proof {
        assert(out@ =~= lut_connections_spec(*cfgs));
    }
    out
}

/// The material that the lights shine on; colors are single-precision bit patterns.
#[derive(Clone, Copy, Debug, PartialEq, Eq, Structural)]
pub struct LightMaterial {
    pub ambient: Float3,
    pub diffuse: Float3,
    pub specular0: Float3,
    pub specular1: Float3,
    pub emission: Float3,
}

impl LightMaterial {
    pub open spec fn default_spec() -> Self {
        LightMaterial {
            ambient: Float3::zero_spec(),
            diffuse: Float3::zero_spec(),
            specular0: Float3::zero_spec(),
            specular1: Float3::zero_spec(),
            emission: Float3::zero_spec(),
        }
    }

    /// All colors zero.
    pub fn default() -> (out: Self)
        ensures
            out == Self::default_spec(),
    {
        LightMaterial {
            ambient: Float3::zero(),
            diffuse: Float3::zero(),
            specular0: Float3::zero(),
            specular1: Float3::zero(),
            emission: Float3::zero(),
        }
    }
}

/// The light environment of a scene: up to eight lights, the lookup tables
/// and the material.
#[derive(Debug)]
pub struct LightEnv {
    pub lights: [Option<Light>; 8],
    pub light_luts: LightLUTCfgs,
    pub light_material: LightMaterial,
}

impl LightEnv {
    /// No lights, no lookup tables, an all-zero material.
    pub fn default() -> (out: Self)
        ensures
            forall|i: int| 0 <= i < 8 ==> #[trigger] out.lights@[i] is None,
            out.light_luts == LightLUTCfgs::default_spec(),
            out.light_material == LightMaterial::default_spec(),
    {
        LightEnv {
            lights: [None, None, None, None, None, None, None, None],
            light_luts: LightLUTCfgs::default(),
            light_material: LightMaterial::default(),
        }
    }

    /// For each of the eight light slots, whether a light is there.
    pub fn light_slots(&self) -> (out: [bool; 8])
        ensures
            forall|i: int| 0 <= i < 8 ==> #[trigger] out@[i] == (self.lights@[i] is Some),
    {
        let mut out = [false; 8];
        for i in 0..8usize
            invariant
                forall|j: int| 0 <= j < i ==> #[trigger] out@[j] == (self.lights@[j] is Some),
        {
            out[i] = self.lights[i].is_some();
        }
        out
    }
}


/// Two optional paths name the same segments.
pub open spec fn same_path(a: Option<NodePath>, b: Option<NodePath>) -> bool {
    match (a, b) {
        (Some(p), Some(q)) => p.segments() == q.segments(),
        (None, None) => true,
        _ => false,
    }
}

/// Two lights are the same, with their paths taken as segments.
pub open spec fn same_light(a: Light, b: Light) -> bool {
    &&& a.light_type == b.light_type
    &&& a.color == b.color
    &&& a.follow_transform == b.follow_transform
    &&& same_path(a.starting_follow_transform, b.starting_follow_transform)
}

/// Two light slots hold the same light, or are both empty.
pub open spec fn same_slot(a: Option<Light>, b: Option<Light>) -> bool {
    match (a, b) {
        (Some(x), Some(y)) => same_light(x, y),
        (None, None) => true,
        _ => false,
    }
}

/// A copy of an optional path.
pub fn duplicate_path(p: &Option<NodePath>) -> (out: Option<NodePath>)
    ensures
        same_path(out, *p),
{
    match p {
        Some(q) => Some(q.duplicate()),
        None => None,
    }
}

impl Light {
    /// A copy of the light; it follows the same handle.
    pub fn duplicate(&self) -> (out: Light)
        ensures
            same_light(out, *self),
    {
        Light {
            light_type: self.light_type,
            starting_follow_transform: duplicate_path(&self.starting_follow_transform),
            color: self.color,
            follow_transform: self.follow_transform,
        }
    }
}

fn duplicate_slot(s: &Option<Light>) -> (out: Option<Light>)
    ensures
        same_slot(out, *s),
{
    match s {
        Some(l) => Some(l.duplicate()),
        None => None,
    }
}

impl LightEnv {
    /// A copy of the light environment.
    pub fn duplicate(&self) -> (out: LightEnv)
        ensures
            forall|i: int| 0 <= i < 8 ==> same_slot(#[trigger] out.lights@[i], self.lights@[i]),
            out.light_luts == self.light_luts,
            out.light_material == self.light_material,
    {
        LightEnv {
            lights: [
                duplicate_slot(&self.lights[0]),
                duplicate_slot(&self.lights[1]),
                duplicate_slot(&self.lights[2]),
                duplicate_slot(&self.lights[3]),
                duplicate_slot(&self.lights[4]),
                duplicate_slot(&self.lights[5]),
                duplicate_slot(&self.lights[6]),
                duplicate_slot(&self.lights[7]),
            ],
            light_luts: self.light_luts,
            light_material: self.light_material,
        }
    }
}

} // verus!
