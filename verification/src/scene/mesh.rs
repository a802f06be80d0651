use vstd::prelude::*;

verus! {

/// A mesh of a loaded model: the model's index and the mesh's index in it.
#[derive(Clone, Copy, Debug, PartialEq, Eq, Structural)]
pub struct Mesh {
    pub model: usize,
    pub mesh: usize,
}

} // verus!
