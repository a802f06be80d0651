use vstd::prelude::*;

verus! {

/// A color packed as the 2D renderer takes it: red in the top byte, then
/// green, blue and alpha; a component above 255 spills into the next one up.
#[allow(non_snake_case)]
pub fn C2D_Color32(r: u32, g: u32, b: u32, a: u32) -> (c: u32)
    ensures
        c == a | (b << 8u32) | (g << 16u32) | (r << 24u32),
{
    a | (b << 8u32) | (g << 16u32) | (r << 24u32)
}

} // verus!
