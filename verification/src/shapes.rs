//! The shapes of a tile: which polygons are drawn, and into which of the shapes that
//! earlier tiles left behind.

use crate::faults::{first_some, lemma_first_some, lemma_first_some_prefix, lemma_first_some_step};
use crate::geometry::{outline, Polygon, Rect};
use crate::layers::{color_key, layer_index, LayerColors, LibLayers};
use crate::tiles::{Tile, TileMap};
use layout21::raw;
use vstd::prelude::*;

verus! {

/// How opaque the inside of a shape is, in percent.
pub const ALPHA_PERCENT: u8 = 10;

/// How wide the outline of a shape is.
pub const WIDTH: u32 = 10;

/// What an element of the layout covers. Only rectangles are drawn.
#[derive(Debug, Clone, Copy, PartialEq, Eq)]
pub enum Shape {
    Rect(Rect),
    Polygon,
    Path,
}

/// An element of the flattened layout.
#[derive(Debug, Clone, Copy, PartialEq, Eq)]
pub struct Element {
    /// The key of the element's layer in the layer table of its library.
    pub layer: raw::LayerKey,
    pub inner: Shape,
}

/// How a shape is painted: its inside in `fill_color` at `fill_alpha_percent` opacity,
/// its outline in `outline_color`.
#[derive(Debug, Clone, Copy, PartialEq, Eq)]
pub struct DrawMode<C> {
    pub fill_color: C,
    pub fill_alpha_percent: u8,
    pub outline_color: C,
    pub line_width: u32,
}

/// A shape as the engine draws it.
#[derive(Debug, Clone, Copy, PartialEq, Eq)]
pub struct ShapeBundle<C> {
    pub path: Polygon,
    pub mode: DrawMode<C>,
    /// The height at which the shape lies: the low eight bits of its layer number.
    pub z: u8,
    pub is_visible: bool,
}

/// Marks the shapes that belong to this renderer.
#[derive(Debug, Clone, Copy, PartialEq, Eq)]
pub struct LyonShape;

/// A shape of this renderer.
#[derive(Debug, Clone, Copy, PartialEq, Eq)]
pub struct LyonShapeBundle<C> {
    pub lyon: ShapeBundle<C>,
    pub marker: LyonShape,
}

/// What is done to the shapes of the scene.
#[derive(Debug, Clone, Copy, PartialEq, Eq)]
pub enum ShapeAction<C> {
    /// Shape number `slot` of the scene gets this path and height and becomes visible.
    /// How it is painted stays as it was.
    Reuse { slot: usize, path: Polygon, z: u8 },
    /// A new shape is added to the scene.
    Spawn(LyonShapeBundle<C>),
}

/// Why the shapes of a tile cannot be drawn.
#[derive(Debug, Clone, Copy, PartialEq, Eq)]
pub enum ShapeFault {
    /// There is no tile under the key.
    NoTile { key: u64 },
    /// The tile names an element that the layout does not have.
    NoElement { index: usize },
    /// The layer of the element is not in the layer table.
    NoLayer { index: usize },
    /// The layer has no color.
    NoColor { layer: u8 },
}

/// What the shapes of all tiles are looked up in.
pub struct Tables<C> {
    pub elems: Seq<Element>,
    pub numbers: Map<raw::LayerKey, i16>,
    pub colors: Map<u8, C>,
}

/// The tables that the arguments of a drawing function hold.
pub open spec fn tables<C>(
    elems: &Vec<Element>,
    lib_layers: &LibLayers,
    colors: &LayerColors<C>,
) -> Tables<C> {
    Tables { elems: elems@, numbers: lib_layers@, colors: colors@ }
}

/// How shapes of a color are painted.
pub open spec fn paint<C>(color: C) -> DrawMode<C> {
    DrawMode {
        fill_color: color,
        fill_alpha_percent: ALPHA_PERCENT,
        outline_color: color,
        line_width: WIDTH,
    }
}

/// The shape that is drawn for a rectangle.
pub open spec fn rect_bundle<C>(rect: Rect, layer: u8, color: C) -> LyonShapeBundle<C> {
    LyonShapeBundle {
        lyon: ShapeBundle { path: outline(rect), mode: paint(color), z: layer, is_visible: true },
        marker: LyonShape,
    }
}

/// The shape that is drawn for an element, if it is a rectangle.
pub open spec fn shape_bundle<C>(inner: Shape, layer: u8, color: C) -> Option<LyonShapeBundle<C>> {
    match inner {
        Shape::Rect(rect) => Some(rect_bundle(rect, layer, color)),
        Shape::Polygon => None,
        Shape::Path => None,
    }
}

impl<C> Tables<C> {
    /// The layer of element `index`, cut down to eight bits.
    pub open spec fn layer(self, index: usize) -> u8 {
        color_key(self.numbers[self.elems[index as int].layer])
    }

    /// Why element `index` cannot be drawn.
    pub open spec fn element_fault(self, index: usize) -> Option<ShapeFault> {
        if index >= self.elems.len() {
            Some(ShapeFault::NoElement { index })
        } else if !self.numbers.contains_key(self.elems[index as int].layer) {
            Some(ShapeFault::NoLayer { index })
        } else if !self.colors.contains_key(self.layer(index)) {
            Some(ShapeFault::NoColor { layer: self.layer(index) })
        } else {
            None
        }
    }

    /// What is drawn for element `index`.
    pub open spec fn element_bundle(self, index: usize) -> Option<LyonShapeBundle<C>> {
        shape_bundle(
            self.elems[index as int].inner,
            self.layer(index),
            self.colors[self.layer(index)],
        )
    }

    /// Why the elements of a tile cannot be drawn: the first fault in drawing order.
    pub open spec fn elements_fault(self, shapes: Seq<usize>) -> Option<ShapeFault> {
        first_some(shapes.map_values(|index: usize| self.element_fault(index)))
    }

    /// The shapes of a tile, in drawing order.
    pub open spec fn bundles(self, shapes: Seq<usize>) -> Seq<LyonShapeBundle<C>>
        decreases shapes.len(),
    {
        if shapes.len() == 0 {
            Seq::empty()
        } else {
            match self.element_bundle(shapes.last()) {
                Some(bundle) => self.bundles(shapes.drop_last()).push(bundle),
                None => self.bundles(shapes.drop_last()),
            }
        }
    }

    /// Why the tile under `key` cannot be drawn.
    pub open spec fn tile_fault(self, tiles: Map<u64, Tile>, key: u64) -> Option<ShapeFault> {
        if tiles.contains_key(key) {
            self.elements_fault(tiles[key].shapes@)
        } else {
            Some(ShapeFault::NoTile { key })
        }
    }

    /// Why the tiles under `events` cannot be drawn: the first fault in drawing order.
    pub open spec fn fault(self, tiles: Map<u64, Tile>, events: Seq<u64>) -> Option<ShapeFault> {
        first_some(events.map_values(|key: u64| self.tile_fault(tiles, key)))
    }

    /// What is done to a scene of `existing` shapes to draw the tiles under `events`. Each
    /// tile starts again at the first shape of the scene.
    pub open spec fn actions(
        self,
        tiles: Map<u64, Tile>,
        events: Seq<u64>,
        existing: nat,
    ) -> Seq<ShapeAction<C>>
        decreases events.len(),
    {
        if events.len() == 0 {
            Seq::empty()
        } else {
            self.actions(tiles, events.drop_last(), existing) + placements(
                self.bundles(tiles[events.last()].shapes@),
                existing,
            )
        }
    }
}

/// The `k`-th shape of a tile goes into the `k`-th of `existing` shapes; what is left over
/// is new.
pub open spec fn placements<C>(
    bundles: Seq<LyonShapeBundle<C>>,
    existing: nat,
) -> Seq<ShapeAction<C>> {
    Seq::new(bundles.len(), |k: int| placement(bundles[k], k, existing))
}

/// Where the `k`-th shape of a tile goes.
pub open spec fn placement<C>(
    bundle: LyonShapeBundle<C>,
    k: int,
    existing: nat,
) -> ShapeAction<C> {
    if k < existing {
        ShapeAction::Reuse { slot: k as usize, path: bundle.lyon.path, z: bundle.lyon.z }
    } else {
        ShapeAction::Spawn(bundle)
    }
}

/// The shape that is drawn for what an element covers, on a layer of this number and
/// color.
pub fn draw_element<C: Copy>(inner: &Shape, layernum: i16, color: C) -> (r: Option<
    LyonShapeBundle<C>,
>)
    ensures
        r == shape_bundle(*inner, color_key(layernum), color),
{
    match inner {
        Shape::Rect(rect) => {
            let mode = DrawMode {
                fill_color: color,
                fill_alpha_percent: ALPHA_PERCENT,
                outline_color: color,
                line_width: WIDTH,
            };
            let lyon = ShapeBundle {
                path: rect.to_polygon(),
                mode,
                z: layer_index(layernum),
                is_visible: true,
            };
            Some(LyonShapeBundle { lyon, marker: LyonShape })
        },
        Shape::Polygon => None,
        Shape::Path => None,
    }
}

/// The color of element `index`, given what the layer table says of its layer: the number
/// of the layer, or nothing.
pub fn layer_color<C: Copy>(
    index: usize,
    layernum: Option<i16>,
    colors: &LayerColors<C>,
) -> (r: Result<C, ShapeFault>)
    ensures
        r == (match layernum {
            None => Err(ShapeFault::NoLayer { index }),
            Some(n) => if colors@.contains_key(color_key(n)) {
                Ok(colors@[color_key(n)])
            } else {
                Err(ShapeFault::NoColor { layer: color_key(n) })
            },
        }),
{
    match layernum {
        None => Err(ShapeFault::NoLayer { index }),
        Some(n) => {
            let layer = layer_index(n);
            match colors.get(layer) {
                None => Err(ShapeFault::NoColor { layer }),
                Some(color) => Ok(color),
            }
        },
    }
}

/// Why element `index` cannot be drawn, if it cannot.
pub fn find_element_fault<C: Copy>(
    index: usize,
    elems: &Vec<Element>,
    lib_layers: &LibLayers,
    colors: &LayerColors<C>,
) -> (r: Option<ShapeFault>)
    ensures
        r == tables(elems, lib_layers, colors).element_fault(index),
{
    if index >= elems.len() {
        return Some(ShapeFault::NoElement { index });
    }
    let layernum = lib_layers.layernum(elems[index].layer);
    match layer_color(index, layernum, colors) {
        Ok(_) => None,
        Err(fault) => Some(fault),
    }
}

/// Why the tile under `key` cannot be drawn, if it cannot.
pub fn find_tile_fault<C: Copy>(
    key: u64,
    tilemap: &TileMap,
    elems: &Vec<Element>,
    lib_layers: &LibLayers,
    colors: &LayerColors<C>,
) -> (r: Option<ShapeFault>)
    ensures
        r == tables(elems, lib_layers, colors).tile_fault(tilemap@, key),
{
    let tile = match tilemap.get(key) {
        None => return Some(ShapeFault::NoTile { key }),
        Some(tile) => tile,
    };
    let ghost t = tables(elems, lib_layers, colors);
    let ghost checks = tile.shapes@.map_values(|index: usize| t.element_fault(index));
    for i in 0..tile.shapes.len()
        invariant
            checks == tile.shapes@.map_values(|index: usize| t.element_fault(index)),
            t == tables(elems, lib_layers, colors),
            tilemap@.contains_key(key),
            *tile == tilemap@[key],
            first_some(checks.take(i as int)) is None,
    {
        let fault = find_element_fault(tile.shapes[i], elems, lib_layers, colors);
        proof {
            lemma_first_some_step(checks, i as int);
        }
        if fault.is_some() {
            proof {
                lemma_first_some_prefix(checks, i + 1);
            }
            return fault;
        }
    }
    assert(checks.take(checks.len() as int) =~= checks);
    None
}

/// Why the tiles under `events` cannot be drawn, if they cannot: the first fault in drawing
/// order.
pub fn find_shape_fault<C: Copy>(
    events: &Vec<u64>,
    tilemap: &TileMap,
    elems: &Vec<Element>,
    lib_layers: &LibLayers,
    colors: &LayerColors<C>,
) -> (r: Option<ShapeFault>)
    ensures
        r == tables(elems, lib_layers, colors).fault(tilemap@, events@),
{
    let ghost t = tables(elems, lib_layers, colors);
    let ghost checks = events@.map_values(|key: u64| t.tile_fault(tilemap@, key));
    for i in 0..events.len()
        invariant
            checks == events@.map_values(|key: u64| t.tile_fault(tilemap@, key)),
            t == tables(elems, lib_layers, colors),
            first_some(checks.take(i as int)) is None,
    {
        let fault = find_tile_fault(events[i], tilemap, elems, lib_layers, colors);
        proof {
            lemma_first_some_step(checks, i as int);
        }
        if fault.is_some() {
            proof {
                lemma_first_some_prefix(checks, i + 1);
            }
            return fault;
        }
    }
    assert(checks.take(checks.len() as int) =~= checks);
    None
}

/// The shapes of a tile, in drawing order.
pub fn draw_tile<C: Copy>(
    tile: &Tile,
    elems: &Vec<Element>,
    lib_layers: &LibLayers,
    colors: &LayerColors<C>,
) -> (r: Vec<LyonShapeBundle<C>>)
    requires
        tables(elems, lib_layers, colors).elements_fault(tile.shapes@) is None,
    ensures
        r@ == tables(elems, lib_layers, colors).bundles(tile.shapes@),
{
    let ghost t = tables(elems, lib_layers, colors);
    let ghost checks = tile.shapes@.map_values(|index: usize| t.element_fault(index));
    proof {
        lemma_first_some(checks);
    }
    let mut bundles: Vec<LyonShapeBundle<C>> = Vec::new();
    for i in 0..tile.shapes.len()
        invariant
            checks == tile.shapes@.map_values(|index: usize| t.element_fault(index)),
            t == tables(elems, lib_layers, colors),
            forall|k: int| 0 <= k < checks.len() ==> (#[trigger] checks[k]) is None,
            bundles@ == t.bundles(tile.shapes@.take(i as int)),
    {
        let index = tile.shapes[i];
        assert(checks[i as int] is None);
        assert(tile.shapes@.take(i + 1).drop_last() =~= tile.shapes@.take(i as int));
        let el = elems[index];
        if let Some(layernum) = lib_layers.layernum(el.layer) {
            if let Ok(color) = layer_color(index, Some(layernum), colors) {
                if let Some(bundle) = draw_element(&el.inner, layernum, color) {
                    bundles.push(bundle);
                }
            }
        }
    }
    assert(tile.shapes@.take(tile.shapes@.len() as int) =~= tile.shapes@);
    bundles
}

/// Sorts the shapes of a tile into those that go into one of `existing` shapes and those
/// that are new.
pub fn place_shapes<C: Copy>(bundles: &Vec<LyonShapeBundle<C>>, existing: usize) -> (r: Vec<
    ShapeAction<C>,
>)
    ensures
        r@ == placements(bundles@, existing as nat),
{
    let mut actions: Vec<ShapeAction<C>> = Vec::new();
    for k in 0..bundles.len()
        invariant
            actions@.len() == k,
            forall|j: int|
                0 <= j < k ==> #[trigger] actions@[j] == placement(
                    bundles@[j],
                    j,
                    existing as nat,
                ),
    {
        let bundle = bundles[k];
        if k < existing {
            actions.push(
                ShapeAction::Reuse { slot: k, path: bundle.lyon.path, z: bundle.lyon.z },
            );
        } else {
            actions.push(ShapeAction::Spawn(bundle));
        }
    }
    assert(actions@ =~= placements(bundles@, existing as nat));
    actions
}

/// Draws the shapes of the tiles under `events` into a scene of `existing` shapes.
pub fn spawn_shapes_system<C: Copy>(
    events: &Vec<u64>,
    tilemap: &TileMap,
    elems: &Vec<Element>,
    lib_layers: &LibLayers,
    colors: &LayerColors<C>,
    existing: usize,
) -> (r: Vec<ShapeAction<C>>)
    requires
        tables(elems, lib_layers, colors).fault(tilemap@, events@) is None,
    ensures
        r@ == tables(elems, lib_layers, colors).actions(tilemap@, events@, existing as nat),
{
    let ghost t = tables(elems, lib_layers, colors);
    let ghost checks = events@.map_values(|key: u64| t.tile_fault(tilemap@, key));
    proof {
        lemma_first_some(checks);
    }
    let mut actions: Vec<ShapeAction<C>> = Vec::new();
    for i in 0..events.len()
        invariant
            checks == events@.map_values(|key: u64| t.tile_fault(tilemap@, key)),
            t == tables(elems, lib_layers, colors),
            forall|k: int| 0 <= k < checks.len() ==> (#[trigger] checks[k]) is None,
            actions@ == t.actions(tilemap@, events@.take(i as int), existing as nat),
    {
        assert(checks[i as int] is None);
        assert(events@.take(i + 1).drop_last() =~= events@.take(i as int));
        if let Some(tile) = tilemap.get(events[i]) {
            let bundles = draw_tile(tile, elems, lib_layers, colors);
            let mut placed = place_shapes(&bundles, existing);
            actions.append(&mut placed);
        }
    }
    assert(events@.take(events@.len() as int) =~= events@);
    actions
}

/// Draws the shapes of the tiles under `events` into a scene of `existing` shapes, or says
/// why that cannot be done.
pub fn try_spawn_shapes_system<C: Copy>(
    events: &Vec<u64>,
    tilemap: &TileMap,
    elems: &Vec<Element>,
    lib_layers: &LibLayers,
    colors: &LayerColors<C>,
    existing: usize,
) -> (r: Result<Vec<ShapeAction<C>>, ShapeFault>)
    ensures
        match tables(elems, lib_layers, colors).fault(tilemap@, events@) {
            Some(fault) => r == Err::<Vec<ShapeAction<C>>, ShapeFault>(fault),
            None => r is Ok && r->Ok_0@ == tables(elems, lib_layers, colors).actions(
                tilemap@,
                events@,
                existing as nat,
            ),
        },
{
    match find_shape_fault(events, tilemap, elems, lib_layers, colors) {
        Some(fault) => Err(fault),
        None => Ok(spawn_shapes_system(events, tilemap, elems, lib_layers, colors, existing)),
    }
}

}
