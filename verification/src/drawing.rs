//! What is drawn for the elements of a tile, and when a tile cannot be drawn.

use crate::faults::lemma_first_some;
use crate::geometry::{outline, Rect};
use crate::layers::{color_key, layer_numbers, LayerColors, LibLayers};
use crate::scene::{after_shape_actions, law_tile_is_drawn_over_the_scene};
use crate::shapes::{
    placements, shape_bundle, tables, Element, LyonShapeBundle, Shape, ShapeAction, ShapeBundle,
    ShapeFault, Tables,
};
use crate::tiles::Tile;
use vstd::prelude::*;

verus! {

/// A rectangle is drawn as its outline, at the height of its layer number modulo 256, visible,
/// with its inside and its outline in the color of the layer. Nothing else is drawn.
pub proof fn law_rectangle_is_drawn_on_its_layer<C>(inner: Shape, layernum: i16, color: C)
    ensures
        match inner {
            Shape::Rect(rect) => {
                &&& shape_bundle(inner, color_key(layernum), color) matches Some(drawn)
                &&& drawn.lyon.path == outline(rect)
                &&& drawn.lyon.z as int == layernum as int % 256
                &&& 0 <= layernum <= 255 ==> drawn.lyon.z == layernum
                &&& drawn.lyon.is_visible
                &&& drawn.lyon.mode.fill_color == color
                &&& drawn.lyon.mode.outline_color == color
                &&& drawn.lyon.mode.fill_alpha_percent == 10
                &&& drawn.lyon.mode.line_width == 10
            },
            Shape::Polygon => shape_bundle(inner, color_key(layernum), color) is None,
            Shape::Path => shape_bundle(inner, color_key(layernum), color) is None,
        },
{
}

/// Of two rectangles on layers numbered up to 255, that on the layer of higher number lies
/// above the other, wherever they lie and whatever color they have.
pub proof fn law_higher_layers_lie_above<C>(
    lower: Rect,
    lower_number: i16,
    lower_color: C,
    upper: Rect,
    upper_number: i16,
    upper_color: C,
)
    requires
        0 <= lower_number < upper_number <= 255,
    ensures
        ({
            let below = shape_bundle(Shape::Rect(lower), color_key(lower_number), lower_color);
            let above = shape_bundle(Shape::Rect(upper), color_key(upper_number), upper_color);
            &&& below is Some
            &&& above is Some
            &&& below->0.lyon.z < above->0.lyon.z
        }),
{
}

/// Every rectangle of a tile is drawn, each once and in the tile's order: there are as many
/// shapes as rectangles, and the `k`-th shape has the outline of the `k`-th rectangle and the
/// height and the color of that rectangle's layer.
pub proof fn law_every_rectangle_is_drawn_in_order<C>(tables: Tables<C>, shapes: Seq<usize>)
    ensures
        ({
            let drawn = tables.bundles(shapes);
            let indices = shapes.filter(
                |index: usize| tables.elems[index as int].inner is Rect,
            );
            &&& drawn.len() == indices.len()
            &&& forall|k: int|
                0 <= k < indices.len() ==> {
                    let element = tables.elems[indices[k] as int];
                    let number = tables.numbers[element.layer] as int % 256;
                    let shape = (#[trigger] drawn[k]).lyon;
                    &&& element.inner matches Shape::Rect(rect)
                    &&& shape.path == outline(rect)
                    &&& shape.z as int == number
                    &&& shape.is_visible
                    &&& shape.mode.fill_color == tables.colors[number as u8]
                    &&& shape.mode.outline_color == tables.colors[number as u8]
                    &&& shape.mode.fill_alpha_percent == 10
                    &&& shape.mode.line_width == 10
                }
        }),
    decreases shapes.len(),
{
    reveal(Seq::filter);
    let is_rect = |index: usize| tables.elems[index as int].inner is Rect;
    if shapes.len() > 0 {
        let before = shapes.drop_last();
        law_every_rectangle_is_drawn_in_order(tables, before);
        if is_rect(shapes.last()) {
            assert(shapes.filter(is_rect) =~= before.filter(is_rect).push(shapes.last()));
        } else {
            assert(shapes.filter(is_rect) =~= before.filter(is_rect));
        }
    }
}

/// A tile takes one action for each of its rectangles, in order. The first ones go over the
/// shapes that there are, the `k`-th over the `k`-th, with the outline and the height of the
/// rectangle; the others are added, and are painted in the color of the rectangle's layer.
pub proof fn law_every_rectangle_takes_one_action<C>(
    tables: Tables<C>,
    tiles: Map<u64, Tile>,
    key: u64,
    existing: nat,
)
    requires
        existing <= usize::MAX,
    ensures
        ({
            let actions = tables.actions(tiles, seq![key], existing);
            let indices = tiles[key].shapes@.filter(
                |index: usize| tables.elems[index as int].inner is Rect,
            );
            &&& actions.len() == indices.len()
            &&& forall|k: int|
                0 <= k < indices.len() ==> {
                    let element = tables.elems[indices[k] as int];
                    let number = tables.numbers[element.layer] as int % 256;
                    match #[trigger] actions[k] {
                        ShapeAction::Reuse { slot, path, z } => {
                            &&& k < existing
                            &&& slot == k
                            &&& path == outline(element.inner->Rect_0)
                            &&& z as int == number
                        },
                        ShapeAction::Spawn(bundle) => {
                            &&& k >= existing
                            &&& bundle.lyon.path == outline(element.inner->Rect_0)
                            &&& bundle.lyon.z as int == number
                            &&& bundle.lyon.is_visible
                            &&& bundle.lyon.mode.fill_color == tables.colors[number as u8]
                            &&& bundle.lyon.mode.outline_color == tables.colors[number as u8]
                            &&& bundle.lyon.mode.fill_alpha_percent == 10
                            &&& bundle.lyon.mode.line_width == 10
                        },
                    }
                }
        }),
{
    let bundles = tables.bundles(tiles[key].shapes@);
    law_every_rectangle_is_drawn_in_order(tables, tiles[key].shapes@);
    assert(seq![key].drop_last() =~= Seq::<u64>::empty());
    assert(tables.actions(tiles, Seq::<u64>::empty(), existing) =~= Seq::empty());
    assert(tables.actions(tiles, seq![key], existing) =~= placements(bundles, existing));
}

/// Tiles that are drawn in one go are drawn one behind the other, each as if it were alone.
pub proof fn law_drawing_can_be_split<C>(
    tables: Tables<C>,
    tiles: Map<u64, Tile>,
    first: Seq<u64>,
    second: Seq<u64>,
    existing: nat,
)
    ensures
        tables.actions(tiles, first + second, existing) == tables.actions(tiles, first, existing)
            + tables.actions(tiles, second, existing),
    decreases second.len(),
{
    let before = tables.actions(tiles, first, existing);
    if second.len() == 0 {
        assert(first + second =~= first);
        assert(before + Seq::<ShapeAction<C>>::empty() =~= before);
    } else {
        let all = first + second;
        assert(all.drop_last() =~= first + second.drop_last());
        law_drawing_can_be_split(tables, tiles, first, second.drop_last(), existing);
        assert(tables.actions(tiles, all, existing) =~= before + tables.actions(
            tiles,
            second,
            existing,
        ));
    }
}

/// Once a tile is drawn, the scene shows its rectangles in order, from the first shape on: each
/// is visible, as its outline and at the height of its layer. A shape that was there keeps the
/// way it is painted; an added one is painted in the color of its layer. What the tile does
/// not reach is unchanged.
pub proof fn law_scene_shows_the_rectangles<C>(
    shapes: Seq<ShapeBundle<C>>,
    tables: Tables<C>,
    tiles: Map<u64, Tile>,
    key: u64,
)
    requires
        shapes.len() <= usize::MAX,
    ensures
        ({
            let drawn = after_shape_actions(
                shapes,
                tables.actions(tiles, seq![key], shapes.len()),
            );
            let indices = tiles[key].shapes@.filter(
                |index: usize| tables.elems[index as int].inner is Rect,
            );
            &&& drawn.len() == if indices.len() > shapes.len() {
                indices.len()
            } else {
                shapes.len()
            }
            &&& forall|k: int|
                0 <= k < indices.len() ==> {
                    let element = tables.elems[indices[k] as int];
                    let number = tables.numbers[element.layer] as int % 256;
                    let shape = #[trigger] drawn[k];
                    &&& shape.is_visible
                    &&& shape.path == outline(element.inner->Rect_0)
                    &&& shape.z as int == number
                    &&& k < shapes.len() ==> shape.mode == shapes[k].mode
                    &&& k >= shapes.len() ==> shape.mode.fill_color == tables.colors[number as u8]
                        && shape.mode.outline_color == tables.colors[number as u8]
                }
            &&& forall|k: int|
                indices.len() <= k < shapes.len() ==> #[trigger] drawn[k] == shapes[k]
        }),
{
    law_every_rectangle_is_drawn_in_order(tables, tiles[key].shapes@);
    law_tile_is_drawn_over_the_scene(shapes, tables, tiles, key);
}

/// Whether all that it takes to draw element `index` is there: the element, its layer, and a
/// color for the layer's number modulo 256.
pub open spec fn is_drawable<C>(tables: Tables<C>, index: usize) -> bool {
    let element = tables.elems[index as int];
    let number = tables.numbers[element.layer] as int % 256;
    &&& index < tables.elems.len()
    &&& tables.numbers.contains_key(element.layer)
    &&& tables.colors.contains_key(number as u8)
}

/// Whether a fault is what keeps element `index` from being drawn.
pub open spec fn is_reason<C>(fault: ShapeFault, tables: Tables<C>, index: usize) -> bool {
    let element = tables.elems[index as int];
    match fault {
        ShapeFault::NoTile { .. } => false,
        ShapeFault::NoElement { index: named } => named == index && index >= tables.elems.len(),
        ShapeFault::NoLayer { index: named } => {
            &&& named == index
            &&& index < tables.elems.len()
            &&& !tables.numbers.contains_key(element.layer)
        },
        ShapeFault::NoColor { layer } => {
            &&& index < tables.elems.len()
            &&& tables.numbers.contains_key(element.layer)
            &&& layer as int == tables.numbers[element.layer] as int % 256
            &&& !tables.colors.contains_key(layer)
        },
    }
}

/// The elements of a tile can be drawn exactly if each is there with its layer and a color.
/// If not, the fault is the reason why the first that cannot be drawn cannot.
pub proof fn law_first_missing_element_is_reported<C>(tables: Tables<C>, shapes: Seq<usize>)
    ensures
        tables.elements_fault(shapes) is None <==> (forall|i: int|
            0 <= i < shapes.len() ==> is_drawable(tables, #[trigger] shapes[i])),
        tables.elements_fault(shapes) matches Some(fault) ==> exists|i: int|
            #![trigger shapes[i]]
            0 <= i < shapes.len() && is_reason(fault, tables, shapes[i]) && (forall|j: int|
                0 <= j < i ==> is_drawable(tables, #[trigger] shapes[j])),
{
    let checks = shapes.map_values(|index: usize| tables.element_fault(index));
    lemma_first_some(checks);
    assert forall|i: int| 0 <= i < shapes.len() implies (is_drawable(tables, #[trigger] shapes[i])
        <==> checks[i] is None) by {}
    if tables.elements_fault(shapes) is Some {
        let i = choose|i: int|
            #![trigger checks[i]]
            0 <= i < checks.len() && checks[i] == tables.elements_fault(shapes) && (forall|j: int|
                0 <= j < i ==> (#[trigger] checks[j]) is None);
        assert(is_reason(tables.elements_fault(shapes)->0, tables, shapes[i]));
        assert forall|j: int| 0 <= j < i implies is_drawable(tables, #[trigger] shapes[j]) by {
            assert(checks[j] is None);
        }
    } else {
        assert forall|i: int| 0 <= i < shapes.len() implies is_drawable(
            tables,
            #[trigger] shapes[i],
        ) by {
            assert(checks[i] is None);
        }
    }
}

/// Tiles can be drawn exactly if each is there and its elements can be drawn. If not, the
/// fault is that of the first that cannot be drawn: that there is no such tile, or what is
/// wrong with its elements.
pub proof fn law_first_missing_tile_is_reported<C>(
    tables: Tables<C>,
    tiles: Map<u64, Tile>,
    events: Seq<u64>,
)
    ensures
        tables.fault(tiles, events) is None <==> (forall|i: int|
            0 <= i < events.len() ==> tiles.contains_key(#[trigger] events[i])
                && tables.elements_fault(tiles[events[i]].shapes@) is None),
        tables.fault(tiles, events) matches Some(fault) ==> exists|i: int|
            #![trigger events[i]]
            0 <= i < events.len() && (if tiles.contains_key(events[i]) {
                tables.elements_fault(tiles[events[i]].shapes@) == Some(fault)
            } else {
                fault == ShapeFault::NoTile { key: events[i] }
            }) && (forall|j: int|
                0 <= j < i ==> tiles.contains_key(#[trigger] events[j])
                    && tables.elements_fault(tiles[events[j]].shapes@) is None),
{
    let checks = events.map_values(|key: u64| tables.tile_fault(tiles, key));
    lemma_first_some(checks);
    if tables.fault(tiles, events) is Some {
        let i = choose|i: int|
            #![trigger checks[i]]
            0 <= i < checks.len() && checks[i] == tables.fault(tiles, events) && (forall|j: int|
                0 <= j < i ==> (#[trigger] checks[j]) is None);
        assert(tables.tile_fault(tiles, events[i]) == tables.fault(tiles, events));
        assert forall|j: int| 0 <= j < i implies tiles.contains_key(#[trigger] events[j])
            && tables.elements_fault(tiles[events[j]].shapes@) is None by {
            assert(checks[j] is None);
        }
    } else {
        assert forall|i: int| 0 <= i < events.len() implies tiles.contains_key(
            #[trigger] events[i],
        ) && tables.elements_fault(tiles[events[i]].shapes@) is None by {
            assert(checks[i] is None);
        }
    }
}

/// The tables of a drawing function are what its arguments hold, all of it.
pub proof fn law_tables_hold_the_arguments<C>(
    elems: &Vec<Element>,
    lib_layers: &LibLayers,
    colors: &LayerColors<C>,
)
    ensures
        tables(elems, lib_layers, colors).elems == elems@,
        tables(elems, lib_layers, colors).numbers == layer_numbers(lib_layers.layers),
        tables(elems, lib_layers, colors).colors == colors.colors@,
{
}

/// Whatever the shapes of a tile are, each is placed once and in order: the `k`-th over the
/// `k`-th of the shapes that there are, with its path and height, or else as a new one.
pub proof fn law_shapes_are_placed_in_order<C>(
    bundles: Seq<LyonShapeBundle<C>>,
    existing: nat,
    k: int,
)
    requires
        existing <= usize::MAX,
        0 <= k < bundles.len(),
    ensures
        placements(bundles, existing).len() == bundles.len(),
        match placements(bundles, existing)[k] {
            ShapeAction::Reuse { slot, path, z } => {
                &&& k < existing
                &&& slot == k
                &&& path == bundles[k].lyon.path
                &&& z == bundles[k].lyon.z
            },
            ShapeAction::Spawn(bundle) => k >= existing && bundle == bundles[k],
        },
{
}

}
