//! The tiles that a layout is cut into.

use crate::geometry::Point;
use std::collections::HashMap;
use vstd::prelude::*;

verus! {

broadcast use vstd::std_specs::hash::group_hash_axioms;

/// One tile of the layout.
#[derive(Debug)]
pub struct Tile {
    /// The corner of the tile's extents with the least coordinates.
    pub extents_min: Point,
    /// The indices of the elements that touch the tile, in drawing order.
    pub shapes: Vec<usize>,
}

/// How many tiles the layout is wide and high.
#[derive(Debug, Clone, Copy, PartialEq, Eq)]
pub struct GridShape {
    pub x: u32,
    pub y: u32,
}

/// The tiles of a layout, by key.
#[derive(Debug)]
pub struct TileMap {
    pub tiles: HashMap<u64, Tile>,
}

impl View for TileMap {
    type V = Map<u64, Tile>;

    open spec fn view(&self) -> Map<u64, Tile> {
        self.tiles@
    }
}

impl TileMap {
    /// The tile under `key`.
    pub fn get(&self, key: u64) -> (r: Option<&Tile>)
        ensures
            r == (if self@.contains_key(key) {
                Some(&self@[key])
            } else {
                None
            }),
            r is Some <==> self.tiles@.contains_key(key),
            r matches Some(tile) ==> *tile == self.tiles@[key],
    {
        self.tiles.get(&key)
    }
}

}
