//! Layer numbers of a layout library, and the color that each layer is drawn in.

use layout21::raw;
use std::collections::HashMap;
use vstd::prelude::*;

verus! {

broadcast use vstd::std_specs::hash::group_hash_axioms;

/// The layer table of a layout library.
#[verifier::external_type_specification]
#[verifier::external_body]
pub struct ExRawLayers(raw::Layers);

/// The key under which a layer table holds one of its layers.
#[verifier::external_type_specification]
#[verifier::external_body]
pub struct ExLayerKey(raw::LayerKey);

/// The numbers of the layers that a layer table holds, by key.
pub uninterp spec fn layer_numbers(layers: raw::Layers) -> Map<raw::LayerKey, i16>;

/// Calls `layout21::raw::Layers::get` and hands out the `layernum` of the layer that
/// it finds. Claimed of it: it finds a layer exactly for the keys that the table holds,
/// and for such a key it is the layer that the table holds there.
#[verifier::external_body]
fn find_layer_number(layers: &raw::Layers, key: raw::LayerKey) -> (r: Option<i16>)
    ensures
        r == (if layer_numbers(*layers).contains_key(key) {
            Some(layer_numbers(*layers)[key])
        } else {
            None
        }),
{
    layers.get(key).map(|layer| layer.layernum)
}

/// The layers of a layout library.
#[derive(Debug)]
pub struct LibLayers {
    pub layers: raw::Layers,
}

impl View for LibLayers {
    type V = Map<raw::LayerKey, i16>;

    open spec fn view(&self) -> Map<raw::LayerKey, i16> {
        layer_numbers(self.layers)
    }
}

impl LibLayers {
    /// The number of the layer under `key`.
    pub fn layernum(&self, key: raw::LayerKey) -> (r: Option<i16>)
        ensures
            r == (if self@.contains_key(key) {
                Some(self@[key])
            } else {
                None
            }),
            r is Some <==> layer_numbers(self.layers).contains_key(key),
            r matches Some(number) ==> number == layer_numbers(self.layers)[key],
    {
        find_layer_number(&self.layers, key)
    }
}

/// The low eight bits of a layer number, under which its color is kept.
pub open spec fn color_key(layernum: i16) -> u8 {
    (layernum as int % 256) as u8
}

/// Cuts a layer number down to the low eight bits, under which its color is kept.
pub fn layer_index(layernum: i16) -> (r: u8)
    ensures
        r as int == layernum as int % 256,
        r == color_key(layernum),
{
    proof {
        assert((#[verifier::truncate] (layernum as u8)) as i16 == layernum & 0xff) by (bit_vector);
        assert((layernum & 0xff) as int == layernum as int % 256) by (bit_vector);
    }
    #[verifier::truncate] (layernum as u8)
}

/// The colors of the layers, by the low eight bits of the layer number.
#[derive(Debug)]
pub struct LayerColors<C> {
    pub colors: HashMap<u8, C>,
}

impl<C> View for LayerColors<C> {
    type V = Map<u8, C>;

    open spec fn view(&self) -> Map<u8, C> {
        self.colors@
    }
}

impl<C: Copy> LayerColors<C> {
    /// The color of a layer.
    pub fn get(&self, layer: u8) -> (r: Option<C>)
        ensures
            r == (if self@.contains_key(layer) {
                Some(self@[layer])
            } else {
                None
            }),
            r is Some <==> self.colors@.contains_key(layer),
            r matches Some(color) ==> color == self.colors@[layer],
    {
        match self.colors.get(&layer) {
            Some(color) => Some(*color),
            None => None,
        }
    }
}

/// Layer numbers up to 255 have colors of their own; layers whose numbers differ by a
/// multiple of 256, and only those, share one.
pub proof fn law_layers_share_colors(a: i16, b: i16)
    ensures
        color_key(a) as int == a as int % 256,
        0 <= a <= 255 ==> color_key(a) == a,
        color_key(a) == color_key(b) <==> (a - b) % 256 == 0,
{
}

}
