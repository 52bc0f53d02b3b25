//! The material of the pass that scales a tile down.

use vstd::prelude::*;

verus! {

/// The pictures that the renderer keeps.
#[derive(Debug, Clone, Copy, PartialEq, Eq)]
pub enum TextureSlot {
    /// All tiles, scaled down.
    Accumulation,
    /// One tile at full resolution.
    HiRes,
    /// One tile, scaled down.
    LoRes,
}

/// Paints a mesh with a picture, scaled down.
#[derive(Debug, Clone, Copy, PartialEq, Eq)]
pub struct PostProcessingMaterial {
    /// The picture that is scaled down.
    pub source_image: TextureSlot,
}

impl PostProcessingMaterial {
    /// The file of the shader that places the mesh.
    pub fn vertex_shader() -> (r: &'static str)
        ensures
            r@ == "shaders/fullscreen.wgsl"@,
    {
        "shaders/fullscreen.wgsl"
    }

    /// The file of the shader that paints the mesh.
    pub fn fragment_shader() -> (r: &'static str)
        ensures
            r@ == "shaders/downscale.wgsl"@,
    {
        "shaders/downscale.wgsl"
    }
}

}
