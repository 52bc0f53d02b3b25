//! The render layers that keep the passes of the renderer apart.

use crate::cameras::{ACCUMULATION_PASS_LAYER, DOWNSCALING_PASS_LAYER, MAIN_CAMERA_LAYER};
use bevy::render::view::RenderLayers;
use vstd::prelude::*;

verus! {

/// How many render layers there are.
pub const TOTAL_LAYERS: u8 = 32;

/// A set of render layers. A camera renders what it shares a layer with.
#[verifier::external_type_specification]
#[verifier::external_body]
pub struct ExRenderLayers(RenderLayers);

/// The render layers that a set of render layers holds, by number.
pub uninterp spec fn layer_set(layers: RenderLayers) -> Set<u8>;

/// Calls `bevy::render::view::RenderLayers::layer`. Claimed of it: the set holds this one
/// layer. It panics from `TOTAL_LAYERS` on.
#[verifier::external_body]
fn single_layer(layer: u8) -> (r: RenderLayers)
    requires
        layer < TOTAL_LAYERS,
    ensures
        layer_set(r) == set![layer],
{
    RenderLayers::layer(layer)
}

/// The set of one render layer.
pub fn render_layers(layer: u8) -> (r: RenderLayers)
    requires
        layer < TOTAL_LAYERS,
    ensures
        layer_set(r) == set![layer],
{
    single_layer(layer)
}

/// What is on one of the three render layers of the renderer is on none of the others.
pub proof fn law_passes_are_kept_apart(
    downscaling: RenderLayers,
    accumulation: RenderLayers,
    main: RenderLayers,
)
    requires
        layer_set(downscaling) == set![DOWNSCALING_PASS_LAYER],
        layer_set(accumulation) == set![ACCUMULATION_PASS_LAYER],
        layer_set(main) == set![MAIN_CAMERA_LAYER],
    ensures
        layer_set(downscaling).disjoint(layer_set(accumulation)),
        layer_set(downscaling).disjoint(layer_set(main)),
        layer_set(accumulation).disjoint(layer_set(main)),
{
}

}
