use vstd::prelude::*;

use crate::scene::mesh::Mesh;

verus! {

/// What an object shows when the scene is drawn.
#[derive(Debug)]
pub enum RenderData {
    /// Nothing.
    Empty,
    /// The unit cube, drawn with one material.
    Cube { material: usize },
    /// A mesh of a model, one material per primitive.
    Mesh { materials: Vec<usize>, mesh: Mesh },
    /// A camera; its field of view and clip planes are single-precision bit patterns.
    Camera { fov: u32, near: u32, far: u32 },
}

/// What an object shows, with the material list taken as a sequence.
pub enum RenderDataView {
    Empty,
    Cube { material: usize },
    Mesh { materials: Seq<usize>, mesh: Mesh },
    Camera { fov: u32, near: u32, far: u32 },
}

/// The materials bound, in order, to draw an object that shows `r`, where a
/// mesh has `primitives` primitives: a cube binds its material, a mesh one
/// material per primitive, and other objects bind none.
pub open spec fn material_binds_spec(r: RenderDataView, primitives: nat) -> Seq<usize> {
    match r {
        RenderDataView::Cube { material } => seq![material],
        RenderDataView::Mesh { materials, .. } => materials.take(primitives as int),
        _ => Seq::empty(),
    }
}

impl RenderData {
    pub open spec fn view(&self) -> RenderDataView {
        match self {
            RenderData::Empty => RenderDataView::Empty,
            RenderData::Cube { material } => RenderDataView::Cube { material: *material },
            RenderData::Mesh { materials, mesh } => RenderDataView::Mesh { materials: materials@, mesh: *mesh },
            RenderData::Camera { fov, near, far } => RenderDataView::Camera { fov: *fov, near: *near, far: *far },
        }
    }

    /// A copy of the render data.
    pub fn duplicate(&self) -> (out: Self)
        ensures
            out.view() == self.view(),
    {
        match self {
            RenderData::Empty => RenderData::Empty,
            RenderData::Cube { material } => RenderData::Cube { material: *material },
            RenderData::Mesh { materials, mesh } => {
                let mut m: Vec<usize> = Vec::new();
                let n = materials.len();
                for i in 0..n
                    invariant
                        n == materials@.len(),
                        m@ == materials@.take(i as int),
                {
                    m.push(materials[i]);
                    proof {
                        assert(m@ =~= materials@.take(i + 1));
                    }
                }
                proof {
                    assert(materials@.take(n as int) =~= materials@);
                }
                RenderData::Mesh { materials: m, mesh: *mesh }
            },
            RenderData::Camera { fov, near, far } => RenderData::Camera { fov: *fov, near: *near, far: *far },
        }
    }

    /// The materials bound, in order, to draw an object that shows this,
    /// where a mesh has `primitives` primitives; a mesh names a material for
    /// each of them.
    pub fn material_binds(&self, primitives: usize) -> (out: Vec<usize>)
        requires
            self.view() matches RenderDataView::Mesh { materials, .. } ==> primitives <= materials.len(),
        ensures
            out@ == material_binds_spec(self.view(), primitives as nat),
    {
        let mut out: Vec<usize> = Vec::new();
        match self {
            RenderData::Cube { material } => {
                out.push(*material);
            },
            RenderData::Mesh { materials, .. } => {
                for i in 0..primitives
                    invariant
                        primitives <= materials@.len(),
                        out@ == materials@.take(i as int),
                {
                    out.push(materials[i]);
                    proof {
                        assert(out@ =~= materials@.take(i + 1));
                    }
                }
            },
            _ => {},
        }
        proof {
            assert(material_binds_spec(self.view(), primitives as nat) =~= out@);
        }
        out
    }

    /// Whether this is a camera.
    pub fn is_camera(&self) -> (b: bool)
        ensures
            b == (self.view() is Camera),
    {
        match self {
            RenderData::Camera { .. } => true,
            _ => false,
        }
    }
}

} // verus!
