use layout21::raw;
use std::collections::HashMap;
use tiled_renderer::geometry::{to_pixel, Point, Polygon, Rect};
use tiled_renderer::layers::{layer_index, LayerColors, LibLayers};
use tiled_renderer::shapes::{
    draw_element, draw_tile, find_element_fault, find_shape_fault, find_tile_fault, layer_color,
    place_shapes, spawn_shapes_system, try_spawn_shapes_system, DrawMode, Element, LyonShape,
    LyonShapeBundle, Shape, ShapeAction, ShapeBundle, ShapeFault,
};
use tiled_renderer::tiles::{Tile, TileMap};

fn point(x: i64, y: i64) -> Point {
    Point { x, y }
}

fn rect(x0: i64, y0: i64, x1: i64, y1: i64) -> Shape {
    Shape::Rect(Rect { p0: point(x0, y0), p1: point(x1, y1) })
}

fn polygon(x0: i64, y0: i64, x1: i64, y1: i64) -> Polygon {
    Polygon {
        corners: (point(x0, y0), point(x1, y0), point(x1, y1), point(x0, y1)),
        closed: true,
    }
}

fn bundle(path: Polygon, color: &'static str, z: u8) -> LyonShapeBundle<&'static str> {
    LyonShapeBundle {
        lyon: ShapeBundle {
            path,
            mode: DrawMode {
                fill_color: color,
                fill_alpha_percent: 10,
                outline_color: color,
                line_width: 10,
            },
            z,
            is_visible: true,
        },
        marker: LyonShape,
    }
}

struct Setup {
    tilemap: TileMap,
    elems: Vec<Element>,
    lib_layers: LibLayers,
    colors: LayerColors<&'static str>,
}

/// Layers 7 and 263 share a color; layer 9 has none.
fn setup() -> Setup {
    let mut layers = raw::Layers::default();
    let seven = layers.add(raw::Layer::from_num(7));
    let shared = layers.add(raw::Layer::from_num(263));
    let bare = layers.add(raw::Layer::from_num(9));
    let elems = vec![
        Element { layer: seven, inner: rect(0, 0, 40, 80) },
        Element { layer: shared, inner: rect(-7, 4, 9, 11) },
        Element { layer: seven, inner: Shape::Polygon },
        Element { layer: seven, inner: Shape::Path },
        Element { layer: bare, inner: Shape::Path },
        Element { layer: raw::LayerKey::default(), inner: Shape::Polygon },
    ];
    let mut tiles = HashMap::new();
    tiles.insert(1, Tile { extents_min: point(0, 0), shapes: vec![0, 2, 1, 3] });
    tiles.insert(2, Tile { extents_min: point(0, 0), shapes: vec![1] });
    tiles.insert(3, Tile { extents_min: point(0, 0), shapes: vec![0, 4] });
    tiles.insert(4, Tile { extents_min: point(0, 0), shapes: vec![1, 5, 4] });
    tiles.insert(5, Tile { extents_min: point(0, 0), shapes: vec![0, 6] });
    tiles.insert(6, Tile { extents_min: point(0, 0), shapes: vec![] });
    let mut colors = HashMap::new();
    colors.insert(7, "green");
    colors.insert(8, "blue");
    Setup {
        tilemap: TileMap { tiles },
        elems,
        lib_layers: LibLayers { layers },
        colors: LayerColors { colors },
    }
}

fn plan(
    setup: &Setup,
    events: Vec<u64>,
    existing: usize,
) -> Result<Vec<ShapeAction<&'static str>>, ShapeFault> {
    try_spawn_shapes_system(
        &events,
        &setup.tilemap,
        &setup.elems,
        &setup.lib_layers,
        &setup.colors,
        existing,
    )
}

#[test]
fn coordinates_are_cut_toward_zero() {
    assert_eq!(to_pixel(0), 0);
    assert_eq!(to_pixel(3), 0);
    assert_eq!(to_pixel(4), 1);
    assert_eq!(to_pixel(-3), 0);
    assert_eq!(to_pixel(-4), -1);
    assert_eq!(to_pixel(-7), -1);
    assert_eq!(to_pixel(i64::MIN), -2305843009213693952);
    assert_eq!(to_pixel(i64::MAX), 2305843009213693951);
}

#[test]
fn scaling_keeps_order() {
    let coordinates: Vec<i64> = vec![-9, -8, -5, -4, -1, 0, 1, 3, 4, 7, 8];
    for pair in coordinates.windows(2) {
        assert!(to_pixel(pair[0]) <= to_pixel(pair[1]));
    }
}

#[test]
fn rectangle_outline_runs_from_its_first_corner() {
    let drawn = Rect { p0: point(0, 0), p1: point(40, 80) }.to_polygon();
    assert_eq!(drawn, polygon(0, 0, 10, 20));
    assert_eq!(drawn.points(), vec![point(0, 0), point(10, 0), point(10, 20), point(0, 20)]);
    let turned = Rect { p0: point(40, 80), p1: point(0, 0) }.to_polygon();
    assert_eq!(turned.points(), vec![point(10, 20), point(0, 20), point(0, 0), point(10, 0)]);
}

#[test]
fn layer_numbers_are_cut_to_eight_bits() {
    assert_eq!(layer_index(0), 0);
    assert_eq!(layer_index(255), 255);
    assert_eq!(layer_index(256), 0);
    assert_eq!(layer_index(263), 7);
    assert_eq!(layer_index(-1), 255);
    assert_eq!(layer_index(i16::MIN), 0);
    assert_eq!(layer_index(i16::MAX), 255);
}

#[test]
fn layer_table_is_asked_by_key() {
    let setup = setup();
    assert_eq!(setup.lib_layers.layernum(setup.elems[0].layer), Some(7));
    assert_eq!(setup.lib_layers.layernum(setup.elems[1].layer), Some(263));
    assert_eq!(setup.lib_layers.layernum(setup.elems[4].layer), Some(9));
    assert_eq!(setup.lib_layers.layernum(setup.elems[5].layer), None);
}

#[test]
fn colors_are_asked_by_layer() {
    let setup = setup();
    assert_eq!(setup.colors.get(7), Some("green"));
    assert_eq!(setup.colors.get(9), None);
    assert_eq!(layer_color(0, Some(7), &setup.colors), Ok("green"));
    assert_eq!(layer_color(0, Some(263), &setup.colors), Ok("green"));
    assert_eq!(layer_color(0, Some(9), &setup.colors), Err(ShapeFault::NoColor { layer: 9 }));
    assert_eq!(layer_color(3, None, &setup.colors), Err(ShapeFault::NoLayer { index: 3 }));
}

#[test]
fn only_rectangles_are_drawn() {
    assert_eq!(
        draw_element(&rect(-7, 4, 9, 11), 263, "green"),
        Some(bundle(polygon(-1, 1, 2, 2), "green", 7))
    );
    assert_eq!(draw_element(&Shape::Polygon, 7, "green"), None);
    assert_eq!(draw_element(&Shape::Path, 7, "green"), None);
}

#[test]
fn tile_is_drawn_in_order() {
    let setup = setup();
    let drawn = draw_tile(
        setup.tilemap.get(1).unwrap(),
        &setup.elems,
        &setup.lib_layers,
        &setup.colors,
    );
    assert_eq!(
        drawn,
        vec![
            bundle(polygon(0, 0, 10, 20), "green", 7),
            bundle(polygon(-1, 1, 2, 2), "green", 7),
        ]
    );
}

#[test]
fn shapes_go_over_existing_ones_first() {
    let shapes = vec![
        bundle(polygon(0, 0, 1, 1), "green", 7),
        bundle(polygon(0, 0, 2, 2), "blue", 8),
        bundle(polygon(0, 0, 3, 3), "green", 7),
    ];
    let first = ShapeAction::Reuse { slot: 0, path: shapes[0].lyon.path, z: 7 };
    let second = ShapeAction::Reuse { slot: 1, path: shapes[1].lyon.path, z: 8 };
    let third = ShapeAction::Reuse { slot: 2, path: shapes[2].lyon.path, z: 7 };
    assert_eq!(
        place_shapes(&shapes, 0),
        vec![
            ShapeAction::Spawn(shapes[0]),
            ShapeAction::Spawn(shapes[1]),
            ShapeAction::Spawn(shapes[2]),
        ]
    );
    assert_eq!(
        place_shapes(&shapes, 1),
        vec![first, ShapeAction::Spawn(shapes[1]), ShapeAction::Spawn(shapes[2])]
    );
    assert_eq!(place_shapes(&shapes, 3), vec![first, second, third]);
    assert_eq!(place_shapes(&shapes, 9), vec![first, second, third]);
}

#[test]
fn every_tile_starts_at_the_first_shape() {
    let setup = setup();
    let large = polygon(0, 0, 10, 20);
    let small = polygon(-1, 1, 2, 2);
    let expected = vec![
        ShapeAction::Reuse { slot: 0, path: large, z: 7 },
        ShapeAction::Spawn(bundle(small, "green", 7)),
        ShapeAction::Reuse { slot: 0, path: small, z: 7 },
    ];
    assert_eq!(plan(&setup, vec![1, 6, 2], 1), Ok(expected.clone()));
    assert_eq!(
        spawn_shapes_system(
            &vec![1, 6, 2],
            &setup.tilemap,
            &setup.elems,
            &setup.lib_layers,
            &setup.colors,
            1
        ),
        expected
    );
    assert_eq!(plan(&setup, vec![], 1), Ok(vec![]));
    assert_eq!(plan(&setup, vec![6], 1), Ok(vec![]));
}

#[test]
fn a_tile_drawn_again_spawns_nothing() {
    let setup = setup();
    let first = plan(&setup, vec![1], 0).unwrap();
    assert_eq!(first.len(), 2);
    assert!(first.iter().all(|action| matches!(action, ShapeAction::Spawn(_))));
    let again = plan(&setup, vec![1], first.len()).unwrap();
    assert_eq!(again.len(), 2);
    assert!(again.iter().all(|action| matches!(action, ShapeAction::Reuse { .. })));
}

#[test]
fn first_fault_is_reported() {
    let setup = setup();
    assert_eq!(plan(&setup, vec![1, 9, 3], 0), Err(ShapeFault::NoTile { key: 9 }));
    assert_eq!(plan(&setup, vec![1, 3, 9], 0), Err(ShapeFault::NoColor { layer: 9 }));
    assert_eq!(plan(&setup, vec![4], 0), Err(ShapeFault::NoLayer { index: 5 }));
    assert_eq!(plan(&setup, vec![5], 0), Err(ShapeFault::NoElement { index: 6 }));
    assert_eq!(
        find_tile_fault(3, &setup.tilemap, &setup.elems, &setup.lib_layers, &setup.colors),
        Some(ShapeFault::NoColor { layer: 9 })
    );
    assert_eq!(
        find_shape_fault(
            &vec![1, 2, 6],
            &setup.tilemap,
            &setup.elems,
            &setup.lib_layers,
            &setup.colors
        ),
        None
    );
    assert_eq!(
        find_element_fault(5, &setup.elems, &setup.lib_layers, &setup.colors),
        Some(ShapeFault::NoLayer { index: 5 })
    );
    assert_eq!(find_element_fault(0, &setup.elems, &setup.lib_layers, &setup.colors), None);
}

/// Does to a pool of shapes what the actions say.
fn apply(pool: &mut Vec<ShapeBundle<&'static str>>, actions: Vec<ShapeAction<&'static str>>) {
    for action in actions {
        match action {
            ShapeAction::Reuse { slot, path, z } => {
                let mode = pool[slot].mode;
                pool[slot] = ShapeBundle { path, z, mode, is_visible: true };
            }
            ShapeAction::Spawn(bundle) => pool.push(bundle.lyon),
        }
    }
}

#[test]
fn scene_grows_to_the_largest_tile() {
    let setup = setup();
    let mut pool = Vec::new();
    let mut largest = 0;
    for (key, rectangles) in vec![(2, 1), (6, 0), (1, 2), (2, 1), (1, 2)] {
        let actions = plan(&setup, vec![key], pool.len()).unwrap();
        apply(&mut pool, actions);
        largest = largest.max(rectangles);
        assert_eq!(pool.len(), largest);
        assert_eq!(pool.iter().filter(|shape| shape.is_visible).count(), rectangles);
        for shape in pool.iter_mut() {
            shape.is_visible = false;
        }
    }
}

#[test]
fn tiles_in_one_go_lie_over_each_other() {
    let setup = setup();
    let old = bundle(polygon(5, 5, 6, 6), "blue", 8).lyon;
    let large = polygon(0, 0, 10, 20);
    let small = polygon(-1, 1, 2, 2);
    let mut pool = vec![old, old, old];
    apply(&mut pool, plan(&setup, vec![1, 2], 3).unwrap());
    let over = |path| ShapeBundle { path, z: 7, ..old };
    assert_eq!(pool, vec![over(small), over(small), old]);
    let mut pool = vec![old];
    apply(&mut pool, plan(&setup, vec![2, 1], 1).unwrap());
    assert_eq!(pool, vec![over(large), bundle(small, "green", 7).lyon]);
    let mut pool = vec![];
    apply(&mut pool, plan(&setup, vec![1, 2], 0).unwrap());
    assert_eq!(pool.len(), 3);
}

#[test]
fn other_elements_change_nothing() {
    let setup = setup();
    let draw = |shapes: Vec<usize>| {
        let tile = Tile { extents_min: point(0, 0), shapes };
        draw_tile(&tile, &setup.elems, &setup.lib_layers, &setup.colors)
    };
    assert_eq!(draw(vec![2, 0, 3, 1, 2]), draw(vec![0, 1]));
    assert_eq!(draw(vec![2, 3]), vec![]);
}
