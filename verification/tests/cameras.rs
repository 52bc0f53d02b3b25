use bevy::render::view::RenderLayers;
use std::collections::HashMap;
use tiled_renderer::cameras::{
    accumulation_size, downscale, find_camera_fault, find_tile_fault, fullscreen_triangle,
    render_tile, spawn_cameras_system, try_spawn_cameras_system, CameraAction, CameraFault,
    CameraSpec, SpriteSpec, TextureCache, Translation, TriangleMesh, Vertex, Viewport,
    ACCUMULATION_PASS_LAYER, DOWNSCALING_PASS_LAYER, MAIN_CAMERA_LAYER,
};
use tiled_renderer::geometry::{Extent, Point};
use tiled_renderer::material::{PostProcessingMaterial, TextureSlot};
use tiled_renderer::render_layers::render_layers;
use tiled_renderer::texture::{
    blank_pixels, render_target_texture, TextureDimension, TextureFormat, TextureSpec,
    TextureUsages,
};
use tiled_renderer::tiles::{GridShape, Tile, TileMap};

const ORIGIN: Point = Point { x: -100, y: 200 };
const GRID: GridShape = GridShape { x: 3, y: 2 };

fn tile(x: i64, y: i64) -> Tile {
    Tile { extents_min: Point { x, y }, shapes: vec![] }
}

/// Tiles 0 to 5 fill the grid; the others do not lie in it.
fn tilemap() -> TileMap {
    let mut tiles = HashMap::new();
    for row in 0..2 {
        for column in 0..3 {
            tiles.insert(
                (row * 3 + column) as u64,
                tile(ORIGIN.x + column * 16384, ORIGIN.y + row * 16384),
            );
        }
    }
    tiles.insert(10, tile(ORIGIN.x - 1, ORIGIN.y));
    tiles.insert(11, tile(ORIGIN.x, ORIGIN.y - 1));
    tiles.insert(12, tile(i64::MAX, ORIGIN.y));
    tiles.insert(13, tile(ORIGIN.x - 1, ORIGIN.y - 1));
    TileMap { tiles }
}

fn triangle() -> TriangleMesh {
    TriangleMesh {
        a: Vertex { position: (-1, 1, 0), uv: (0, 0), normal: (0, 0, 1) },
        b: Vertex { position: (-1, -3, 0), uv: (0, 2), normal: (0, 0, 1) },
        c: Vertex { position: (3, 1, 0), uv: (2, 0), normal: (0, 0, 1) },
    }
}

fn hires() -> Extent {
    Extent { width: 4096, height: 4096 }
}

fn texture(width: u32, height: u32) -> TextureSpec {
    TextureSpec {
        size: Extent { width, height },
        depth_or_array_layers: 1,
        dimension: TextureDimension::D2,
        format: TextureFormat::Bgra8UnormSrgb,
        mip_level_count: 1,
        sample_count: 1,
        usage: TextureUsages {
            copy_src: false,
            copy_dst: true,
            texture_binding: true,
            storage_binding: false,
            render_attachment: true,
        },
    }
}

fn making() -> Vec<CameraAction> {
    let size = Extent { width: 96, height: 64 };
    vec![
        CameraAction::CreateTexture { slot: TextureSlot::Accumulation, texture: texture(96, 64) },
        CameraAction::SpawnSprite(SpriteSpec {
            texture: Some(TextureSlot::Accumulation),
            size,
            scale_percent: 100,
            offset_percent: 0,
            z: 1,
            tint: (255, 255, 255),
            layer: 3,
        }),
        CameraAction::SpawnSprite(SpriteSpec {
            texture: None,
            size,
            scale_percent: 110,
            offset_percent: -5,
            z: 0,
            tint: (255, 0, 0),
            layer: 3,
        }),
        CameraAction::CreateTexture { slot: TextureSlot::HiRes, texture: texture(4096, 4096) },
        CameraAction::CreateTexture { slot: TextureSlot::LoRes, texture: texture(32, 32) },
    ]
}

fn camera(x: i64, y: i64) -> CameraAction {
    CameraAction::SpawnCamera(CameraSpec {
        target: TextureSlot::HiRes,
        priority: 0,
        translation: Some(Translation { x, y, z: 999 }),
        projection: Some(hires()),
        viewport: None,
        layer: None,
    })
}

fn quad() -> CameraAction {
    CameraAction::CreateQuad {
        mesh: triangle(),
        material: PostProcessingMaterial { source_image: TextureSlot::HiRes },
    }
}

fn downscaling(x: u32, y: u32) -> Vec<CameraAction> {
    vec![
        CameraAction::SpawnQuad { layer: 1 },
        CameraAction::SpawnCamera(CameraSpec {
            target: TextureSlot::Accumulation,
            priority: 2,
            translation: None,
            projection: None,
            viewport: Some(Viewport { x, y, width: 32, height: 32 }),
            layer: Some(1),
        }),
        CameraAction::NotifyWhenDone,
    ]
}

fn filled() -> TextureCache {
    TextureCache {
        accumulation: Some(Extent { width: 96, height: 64 }),
        hires: Some(hires()),
        lores: Some(Extent { width: 32, height: 32 }),
        mesh_and_material: true,
    }
}

#[test]
fn first_tile_makes_everything() {
    let mut cache = TextureCache::new();
    let mut expected = making();
    expected.push(camera(8192, 4096));
    expected.push(quad());
    expected.extend(downscaling(64, 32));
    assert_eq!(
        spawn_cameras_system(&mut cache, &vec![5], &tilemap(), ORIGIN, GRID),
        expected
    );
    assert_eq!(cache, filled());
}

#[test]
fn later_tiles_make_nothing() {
    let mut cache = filled();
    let mut expected = vec![camera(4096, 0)];
    expected.extend(downscaling(32, 0));
    expected.push(camera(0, 4096));
    expected.extend(downscaling(0, 32));
    assert_eq!(
        try_spawn_cameras_system(&mut cache, &vec![1, 3], &tilemap(), ORIGIN, GRID),
        Ok(expected)
    );
    assert_eq!(cache, filled());
}

#[test]
fn what_is_missing_is_made() {
    let mut cache = TextureCache { hires: None, mesh_and_material: false, ..filled() };
    let mut expected = vec![
        CameraAction::CreateTexture { slot: TextureSlot::HiRes, texture: texture(4096, 4096) },
        camera(0, 0),
        quad(),
    ];
    expected.extend(downscaling(0, 0));
    assert_eq!(
        render_tile(&mut cache, GridShape { x: u32::MAX, y: 1 }, &tile(3, 3), Point { x: 0, y: 0 }),
        expected
    );
    assert_eq!(cache, filled());
}

#[test]
fn rendering_can_be_split() {
    let mut once = TextureCache::new();
    let together =
        spawn_cameras_system(&mut once, &vec![0, 4, 2], &tilemap(), ORIGIN, GRID);
    let mut twice = TextureCache::new();
    let mut apart = spawn_cameras_system(&mut twice, &vec![0], &tilemap(), ORIGIN, GRID);
    apart.extend(spawn_cameras_system(&mut twice, &vec![4, 2], &tilemap(), ORIGIN, GRID));
    assert_eq!(together, apart);
    assert_eq!(once, twice);
}

#[test]
fn everything_is_made_once() {
    let mut cache = TextureCache::new();
    let actions =
        spawn_cameras_system(&mut cache, &vec![0, 1, 2, 3, 4, 5], &tilemap(), ORIGIN, GRID);
    let number = |kind: fn(&CameraAction) -> bool| actions.iter().filter(|a| kind(a)).count();
    assert_eq!(number(|a| matches!(a, CameraAction::CreateTexture { .. })), 3);
    assert_eq!(number(|a| matches!(a, CameraAction::SpawnSprite(_))), 2);
    assert_eq!(number(|a| matches!(a, CameraAction::CreateQuad { .. })), 1);
    assert_eq!(number(|a| matches!(a, CameraAction::SpawnCamera(_))), 12);
    assert_eq!(number(|a| matches!(a, CameraAction::SpawnQuad { .. })), 6);
    assert_eq!(number(|a| matches!(a, CameraAction::NotifyWhenDone)), 6);
}

#[test]
fn viewports_fill_the_picture_without_overlap() {
    let mut cache = TextureCache::new();
    let actions =
        spawn_cameras_system(&mut cache, &vec![0, 1, 2, 3, 4, 5], &tilemap(), ORIGIN, GRID);
    let viewports: Vec<Viewport> = actions
        .iter()
        .filter_map(|action| match action {
            CameraAction::SpawnCamera(camera) => camera.viewport,
            _ => None,
        })
        .collect();
    assert_eq!(viewports.len(), 6);
    let mut covered = vec![0; 96 * 64];
    for viewport in viewports {
        for y in viewport.y..viewport.y + viewport.height {
            for x in viewport.x..viewport.x + viewport.width {
                covered[(y * 96 + x) as usize] += 1;
            }
        }
    }
    assert!(covered.iter().all(|times| *times == 1));
}

#[test]
fn no_events_change_nothing() {
    let mut cache = TextureCache::new();
    assert_eq!(
        try_spawn_cameras_system(
            &mut cache,
            &vec![],
            &tilemap(),
            ORIGIN,
            GridShape { x: u32::MAX, y: 0 }
        ),
        Ok(vec![])
    );
    assert_eq!(cache, TextureCache::new());
}

#[test]
fn camera_faults_are_reported_and_change_nothing() {
    let huge = GridShape { x: 1, y: 134217728 };
    let cases = vec![
        (vec![0, 99, 10], GRID, CameraFault::NoTile { key: 99 }),
        (vec![0], huge, CameraFault::GridTooLarge),
        (vec![99], huge, CameraFault::NoTile { key: 99 }),
        (vec![1, 12], GRID, CameraFault::TileTooFar { key: 12 }),
        (vec![10], GRID, CameraFault::NegativeX { key: 10 }),
        (vec![11], GRID, CameraFault::NegativeY { key: 11 }),
        (vec![13], GRID, CameraFault::NegativeX { key: 13 }),
    ];
    for (events, grid, fault) in cases {
        let mut cache = TextureCache::new();
        assert_eq!(
            try_spawn_cameras_system(&mut cache, &events, &tilemap(), ORIGIN, grid),
            Err(fault)
        );
        assert_eq!(cache, TextureCache::new());
        assert_eq!(find_camera_fault(&cache, &events, &tilemap(), ORIGIN, grid), Some(fault));
    }
    assert_eq!(find_tile_fault(&filled(), 0, &tilemap(), ORIGIN, huge), None);
    assert_eq!(
        find_tile_fault(&TextureCache::new(), 0, &tilemap(), ORIGIN, huge),
        Some(CameraFault::GridTooLarge)
    );
}

#[test]
fn picture_of_the_grid_has_a_limit() {
    assert_eq!(accumulation_size(GRID), Some(Extent { width: 96, height: 64 }));
    assert_eq!(
        accumulation_size(GridShape { x: 134217727, y: 0 }),
        Some(Extent { width: 4294967264, height: 0 })
    );
    assert_eq!(accumulation_size(GridShape { x: 134217728, y: 1 }), None);
}

#[test]
fn positions_keep_their_low_bits() {
    assert_eq!(downscale(0), 0);
    assert_eq!(downscale(127), 0);
    assert_eq!(downscale(128), 1);
    assert_eq!(downscale(128 * 4294967295), 4294967295);
    assert_eq!(downscale(128 * 4294967296), 0);
    assert_eq!(downscale(128 * 4294967301 + 5), 5);
    assert_eq!(downscale(i64::MAX), 4294967295);
}

#[test]
fn tile_is_in_view_of_its_camera() {
    let mut cache = filled();
    let corner = tile(16387, 5);
    let actions = render_tile(&mut cache, GRID, &corner, Point { x: 0, y: 0 });
    assert_eq!(actions[0], camera(4096, 1));
}

#[test]
fn triangle_covers_the_target() {
    let mesh = fullscreen_triangle();
    assert_eq!(mesh, triangle());
    for (x, y) in vec![(-1, -1), (-1, 1), (1, -1), (1, 1), (0, 0)] {
        let (a, b, c) = (2 - x + y, 1 - y, x + 1);
        assert!(a >= 0 && b >= 0 && c >= 0);
        assert_eq!(
            a * mesh.a.position.0 + b * mesh.b.position.0 + c * mesh.c.position.0,
            4 * x
        );
        assert_eq!(
            a * mesh.a.position.1 + b * mesh.b.position.1 + c * mesh.c.position.1,
            4 * y
        );
    }
}

#[test]
fn render_layers_hold_one_layer() {
    let layers: Vec<RenderLayers> =
        vec![DOWNSCALING_PASS_LAYER, ACCUMULATION_PASS_LAYER, MAIN_CAMERA_LAYER]
            .into_iter()
            .map(render_layers)
            .collect();
    let numbers: Vec<Vec<u8>> = layers.iter().map(|l| l.iter().collect()).collect();
    assert_eq!(numbers, vec![vec![1], vec![2], vec![3]]);
    assert!(!layers[0].intersects(&layers[1]));
    assert!(!layers[0].intersects(&layers[2]));
    assert!(!layers[1].intersects(&layers[2]));
    assert_eq!(render_layers(31).iter().collect::<Vec<u8>>(), vec![31]);
}

#[test]
fn first_tile_of_a_grid_makes_three_pictures() {
    let mut tiles = HashMap::new();
    tiles.insert(7, tile(0, 0));
    let mut cache = TextureCache::new();
    let actions = spawn_cameras_system(
        &mut cache,
        &vec![7],
        &TileMap { tiles },
        Point { x: 0, y: 0 },
        GridShape { x: 2, y: 3 },
    );
    let made: Vec<(TextureSlot, TextureSpec)> = actions
        .iter()
        .filter_map(|action| match action {
            CameraAction::CreateTexture { slot, texture } => Some((*slot, *texture)),
            _ => None,
        })
        .collect();
    assert_eq!(
        made,
        vec![
            (TextureSlot::Accumulation, texture(64, 96)),
            (TextureSlot::HiRes, texture(4096, 4096)),
            (TextureSlot::LoRes, texture(32, 32)),
        ]
    );
    assert_eq!(cache.accumulation, Some(Extent { width: 64, height: 96 }));
}

#[test]
fn pictures_are_render_targets() {
    assert_eq!(render_target_texture(Extent { width: 5, height: 7 }), texture(5, 7));
}

#[test]
fn pictures_start_all_zero() {
    assert_eq!(blank_pixels(Extent { width: 3, height: 2 }), Some(vec![0; 24]));
    assert_eq!(blank_pixels(Extent { width: 1, height: 1 }), Some(vec![0, 0, 0, 0]));
    assert_eq!(blank_pixels(Extent { width: 0, height: 9 }), Some(vec![]));
    let hires = blank_pixels(hires()).unwrap();
    assert_eq!(hires.len(), 67108864);
    assert!(hires.iter().all(|byte| *byte == 0));
}

#[test]
fn pictures_have_a_limit() {
    assert_eq!(blank_pixels(Extent { width: u32::MAX, height: u32::MAX }), None);
    assert_eq!(blank_pixels(Extent { width: 2147483648, height: 1073741824 }), None);
}
