//! The cameras that render a tile, and the pictures that they render it into.
//!
//! A tile is rendered at full resolution into one picture, which is then scaled down into
//! the tile's place in the picture of the whole layout.

use crate::faults::{first_some, lemma_first_some, lemma_first_some_prefix, lemma_first_some_step};
use crate::geometry::{to_pixel, Extent, Point, UNITS_PER_PIXEL};
use crate::material::{PostProcessingMaterial, TextureSlot};
use crate::texture::{render_target, render_target_texture, TextureSpec};
use crate::tiles::{GridShape, Tile, TileMap};
use vstd::prelude::*;

verus! {

/// The render layer of the pass that scales a tile down.
pub const DOWNSCALING_PASS_LAYER: u8 = 1;

/// The render layer of the pass that collects the scaled tiles.
pub const ACCUMULATION_PASS_LAYER: u8 = 2;

/// The render layer that the main camera shows.
pub const MAIN_CAMERA_LAYER: u8 = 3;

/// The width and height of a tile at full resolution.
pub const HIRES_SIZE: u32 = 4096;

/// The width and height of a tile scaled down.
pub const LORES_SIZE: u32 = 32;

/// How many pixels at full resolution one pixel of the scaled tile covers, in each
/// direction.
pub const DOWNSCALING: i64 = 128;

/// The height at which the camera over a tile hangs.
pub const CAMERA_HEIGHT: i64 = 999;

/// The place of the camera that scales down, after all others.
pub const ACCUMULATION_PRIORITY: i64 = 2;

/// A sprite that is anchored at its bottom left corner.
#[derive(Debug, Clone, Copy, PartialEq, Eq)]
pub struct SpriteSpec {
    /// The picture that the sprite shows. It is plain if there is none.
    pub texture: Option<TextureSlot>,
    /// What the sprite is sized and placed by.
    pub size: Extent,
    /// How large the sprite is, in percent of the size.
    pub scale_percent: u32,
    /// How far from the origin the sprite is anchored, in percent of the size.
    pub offset_percent: i32,
    pub z: i64,
    /// The color of the sprite: red, green and blue.
    pub tint: (u8, u8, u8),
    pub layer: u8,
}

/// A corner of a mesh.
#[derive(Debug, Clone, Copy, PartialEq, Eq)]
pub struct Vertex {
    pub position: (i32, i32, i32),
    pub uv: (i32, i32),
    pub normal: (i32, i32, i32),
}

/// A mesh of one triangle.
#[derive(Debug, Clone, Copy, PartialEq, Eq)]
pub struct TriangleMesh {
    pub a: Vertex,
    pub b: Vertex,
    pub c: Vertex,
}

/// The part of a picture that a camera renders into.
#[derive(Debug, Clone, Copy, PartialEq, Eq)]
pub struct Viewport {
    pub x: u32,
    pub y: u32,
    pub width: u32,
    pub height: u32,
}

/// Where a camera hangs.
#[derive(Debug, Clone, Copy, PartialEq, Eq)]
pub struct Translation {
    pub x: i64,
    pub y: i64,
    pub z: i64,
}

/// A camera of the renderer, which lives until its tile is rendered. What is `None` is as
/// the engine has it by default.
#[derive(Debug, Clone, Copy, PartialEq, Eq)]
pub struct CameraSpec {
    pub target: TextureSlot,
    /// Cameras render in order of rising priority.
    pub priority: i64,
    pub translation: Option<Translation>,
    /// The size of the area that the camera sees, with its bottom left corner at the camera.
    pub projection: Option<Extent>,
    pub viewport: Option<Viewport>,
    pub layer: Option<u8>,
}

/// What is done to have a tile rendered.
#[derive(Debug, Clone, Copy, PartialEq, Eq)]
pub enum CameraAction {
    /// This picture is put into the slot, with its `initial_bytes`.
    CreateTexture { slot: TextureSlot, texture: TextureSpec },
    SpawnSprite(SpriteSpec),
    SpawnCamera(CameraSpec),
    /// The mesh and the material of the downscaling pass are made.
    CreateQuad { mesh: TriangleMesh, material: PostProcessingMaterial },
    /// The mesh with its material is added to a render layer.
    SpawnQuad { layer: u8 },
    /// The end of the rendering that was submitted is to be reported.
    NotifyWhenDone,
}

/// Why a tile cannot be rendered.
#[derive(Debug, Clone, Copy, PartialEq, Eq)]
pub enum CameraFault {
    /// There is no tile under the key.
    NoTile { key: u64 },
    /// The picture of all tiles is larger than sizes go.
    GridTooLarge,
    /// The distance of the tile from the lower left corner is larger than numbers go.
    TileTooFar { key: u64 },
    /// The tile lies left of the lower left corner.
    NegativeX { key: u64 },
    /// The tile lies below the lower left corner.
    NegativeY { key: u64 },
}

/// What the renderer has already made: the size of each picture, and whether there are a
/// mesh and a material.
#[derive(Debug, Clone, Copy, PartialEq, Eq)]
pub struct TextureCache {
    pub accumulation: Option<Extent>,
    pub hires: Option<Extent>,
    pub lores: Option<Extent>,
    pub mesh_and_material: bool,
}

/// The size of the picture of a whole grid.
pub open spec fn accumulation_extent(grid: GridShape) -> Extent {
    Extent { width: (grid.x * LORES_SIZE) as u32, height: (grid.y * LORES_SIZE) as u32 }
}

/// Whether sizes go as far as the picture of a whole grid.
pub open spec fn grid_fits(grid: GridShape) -> bool {
    grid.x * LORES_SIZE <= u32::MAX && grid.y * LORES_SIZE <= u32::MAX
}

/// The size of a square picture.
pub open spec fn square(size: u32) -> Extent {
    Extent { width: size, height: size }
}

/// The triangle that covers the whole target of a camera.
pub open spec fn fullscreen() -> TriangleMesh {
    TriangleMesh {
        a: Vertex { position: (-1 as i32, 1, 0), uv: (0, 0), normal: (0, 0, 1) },
        b: Vertex { position: (-1 as i32, -3 as i32, 0), uv: (0, 2), normal: (0, 0, 1) },
        c: Vertex { position: (3, 1, 0), uv: (2, 0), normal: (0, 0, 1) },
    }
}

/// How far a tile lies from the lower left corner of all tiles, in layout units.
pub open spec fn offset(tile: Tile, lower_left: Point) -> (int, int) {
    (tile.extents_min.x - lower_left.x, tile.extents_min.y - lower_left.y)
}

/// Whether a distance is one that numbers can hold.
pub open spec fn in_range(distance: int) -> bool {
    i64::MIN <= distance <= i64::MAX
}

/// A picture of this size to render into is put into the slot.
pub open spec fn creation(slot: TextureSlot, size: Extent) -> CameraAction {
    CameraAction::CreateTexture { slot, texture: render_target(size) }
}

/// The sprite that shows the picture of all tiles.
pub open spec fn accumulation_sprite(size: Extent) -> SpriteSpec {
    SpriteSpec {
        texture: Some(TextureSlot::Accumulation),
        size,
        scale_percent: 100,
        offset_percent: 0,
        z: 1,
        tint: (255, 255, 255),
        layer: MAIN_CAMERA_LAYER,
    }
}

/// The red sprite behind the picture of all tiles. It sticks out by a twentieth of the size
/// on each side.
pub open spec fn backdrop_sprite(size: Extent) -> SpriteSpec {
    SpriteSpec {
        texture: None,
        size,
        scale_percent: 110,
        offset_percent: -5 as i32,
        z: 0,
        tint: (255, 0, 0),
        layer: MAIN_CAMERA_LAYER,
    }
}

/// The camera over a tile, given the tile's distance in layout units and the size of the
/// picture.
pub open spec fn tile_camera(distance: (int, int), size: Extent) -> CameraSpec {
    CameraSpec {
        target: TextureSlot::HiRes,
        priority: 0,
        translation: Some(
            Translation {
                x: (distance.0 / UNITS_PER_PIXEL as int) as i64,
                y: (distance.1 / UNITS_PER_PIXEL as int) as i64,
                z: CAMERA_HEIGHT,
            },
        ),
        projection: Some(size),
        viewport: None,
        layer: None,
    }
}

/// Where a pixel of the full resolution falls when all is scaled down: the low 32 bits of
/// the number.
pub open spec fn scaled_position(pixel: int) -> u32 {
    ((pixel / DOWNSCALING as int) % 0x1_0000_0000) as u32
}

/// The place of a tile in the picture of all tiles.
pub open spec fn tile_viewport(distance: (int, int)) -> Viewport {
    Viewport {
        x: scaled_position(distance.0 / UNITS_PER_PIXEL as int),
        y: scaled_position(distance.1 / UNITS_PER_PIXEL as int),
        width: LORES_SIZE,
        height: LORES_SIZE,
    }
}

/// The camera that scales a tile down into its place in the picture of all tiles.
pub open spec fn accumulation_camera(distance: (int, int)) -> CameraSpec {
    CameraSpec {
        target: TextureSlot::Accumulation,
        priority: ACCUMULATION_PRIORITY,
        translation: None,
        projection: None,
        viewport: Some(tile_viewport(distance)),
        layer: Some(DOWNSCALING_PASS_LAYER),
    }
}

impl TextureCache {
    /// Pictures of one tile have the size of a tile.
    pub open spec fn well_formed(self) -> bool {
        &&& self.hires matches Some(size) ==> size == square(HIRES_SIZE)
        &&& self.lores matches Some(size) ==> size == square(LORES_SIZE)
    }

    /// Nothing has been made yet.
    pub open spec fn is_empty(self) -> bool {
        &&& self.accumulation is None
        &&& self.hires is None
        &&& self.lores is None
        &&& !self.mesh_and_material
    }

    /// The size of the picture in a slot.
    pub open spec fn texture(self, slot: TextureSlot) -> Option<Extent> {
        match slot {
            TextureSlot::Accumulation => self.accumulation,
            TextureSlot::HiRes => self.hires,
            TextureSlot::LoRes => self.lores,
        }
    }

    /// What there is once a tile has been rendered: all that was there, and all else new.
    pub open spec fn filled(self, grid: GridShape) -> TextureCache {
        TextureCache {
            accumulation: match self.accumulation {
                Some(size) => Some(size),
                None => Some(accumulation_extent(grid)),
            },
            hires: match self.hires {
                Some(size) => Some(size),
                None => Some(square(HIRES_SIZE)),
            },
            lores: match self.lores {
                Some(size) => Some(size),
                None => Some(square(LORES_SIZE)),
            },
            mesh_and_material: true,
        }
    }

    /// What there is once `count` tiles have been rendered.
    pub open spec fn after(self, grid: GridShape, count: nat) -> TextureCache {
        if count == 0 {
            self
        } else {
            self.filled(grid)
        }
    }

    /// What is done to have all pictures.
    pub open spec fn texture_actions(self, grid: GridShape) -> Seq<CameraAction> {
        (if self.accumulation is None {
            let size = accumulation_extent(grid);
            seq![
                creation(TextureSlot::Accumulation, size),
                CameraAction::SpawnSprite(accumulation_sprite(size)),
                CameraAction::SpawnSprite(backdrop_sprite(size)),
            ]
        } else {
            Seq::empty()
        }) + (if self.hires is None {
            seq![creation(TextureSlot::HiRes, square(HIRES_SIZE))]
        } else {
            Seq::empty()
        }) + (if self.lores is None {
            seq![creation(TextureSlot::LoRes, square(LORES_SIZE))]
        } else {
            Seq::empty()
        })
    }

    /// What is done to have a mesh and a material.
    pub open spec fn quad_actions(self) -> Seq<CameraAction> {
        if self.mesh_and_material {
            Seq::empty()
        } else {
            seq![
                CameraAction::CreateQuad {
                    mesh: fullscreen(),
                    material: PostProcessingMaterial { source_image: TextureSlot::HiRes },
                },
            ]
        }
    }

    /// What is done to have a tile at this distance rendered.
    pub open spec fn tile_actions(self, grid: GridShape, distance: (int, int)) -> Seq<
        CameraAction,
    > {
        let size = self.filled(grid).hires->0;
        self.texture_actions(grid) + seq![CameraAction::SpawnCamera(tile_camera(distance, size))]
            + self.quad_actions() + seq![
            CameraAction::SpawnQuad { layer: DOWNSCALING_PASS_LAYER },
            CameraAction::SpawnCamera(accumulation_camera(distance)),
            CameraAction::NotifyWhenDone,
        ]
    }

    /// Why the tile under `key` cannot be rendered.
    pub open spec fn tile_fault(
        self,
        tiles: Map<u64, Tile>,
        lower_left: Point,
        grid: GridShape,
        key: u64,
    ) -> Option<CameraFault> {
        let distance = offset(tiles[key], lower_left);
        if !tiles.contains_key(key) {
            Some(CameraFault::NoTile { key })
        } else if self.accumulation is None && !grid_fits(grid) {
            Some(CameraFault::GridTooLarge)
        } else if !in_range(distance.0) || !in_range(distance.1) {
            Some(CameraFault::TileTooFar { key })
        } else if distance.0 < 0 {
            Some(CameraFault::NegativeX { key })
        } else if distance.1 < 0 {
            Some(CameraFault::NegativeY { key })
        } else {
            None
        }
    }

    /// Why the tiles under `events` cannot be rendered: the first fault in order.
    pub open spec fn fault(
        self,
        tiles: Map<u64, Tile>,
        lower_left: Point,
        grid: GridShape,
        events: Seq<u64>,
    ) -> Option<CameraFault> {
        first_some(events.map_values(|key: u64| self.tile_fault(tiles, lower_left, grid, key)))
    }

    /// What is done to have the tiles under `events` rendered.
    pub open spec fn actions(
        self,
        tiles: Map<u64, Tile>,
        lower_left: Point,
        grid: GridShape,
        events: Seq<u64>,
    ) -> Seq<CameraAction>
        decreases events.len(),
    {
        if events.len() == 0 {
            Seq::empty()
        } else {
            let before = events.drop_last();
            self.actions(tiles, lower_left, grid, before) + self.after(
                grid,
                before.len(),
            ).tile_actions(grid, offset(tiles[events.last()], lower_left))
        }
    }
}

impl TextureCache {
    /// The cache of a renderer that has not rendered anything.
    pub fn new() -> (r: TextureCache)
        ensures
            r.well_formed(),
            r.is_empty(),
    {
        TextureCache { accumulation: None, hires: None, lores: None, mesh_and_material: false }
    }
}

/// The triangle that covers the whole target of a camera.
pub fn fullscreen_triangle() -> (r: TriangleMesh)
    ensures
        r == fullscreen(),
{
    TriangleMesh {
        a: Vertex { position: (-1, 1, 0), uv: (0, 0), normal: (0, 0, 1) },
        b: Vertex { position: (-1, -3, 0), uv: (0, 2), normal: (0, 0, 1) },
        c: Vertex { position: (3, 1, 0), uv: (2, 0), normal: (0, 0, 1) },
    }
}

/// The size of the picture of a whole grid.
pub fn accumulation_size(grid: GridShape) -> (r: Option<Extent>)
    ensures
        r == (if grid_fits(grid) {
            Some(accumulation_extent(grid))
        } else {
            None
        }),
        r is Some <==> 32 * grid.x <= u32::MAX && 32 * grid.y <= u32::MAX,
        r matches Some(size) ==> size.width == 32 * grid.x && size.height == 32 * grid.y,
{
    match (grid.x.checked_mul(LORES_SIZE), grid.y.checked_mul(LORES_SIZE)) {
        (Some(width), Some(height)) => Some(Extent { width, height }),
        _ => None,
    }
}

/// Where a pixel of the full resolution falls when all is scaled down.
pub fn downscale(pixel: i64) -> (r: u32)
    requires
        pixel >= 0,
    ensures
        r as int == (pixel as int / 128) % 0x1_0000_0000,
        r == scaled_position(pixel as int),
{
    let scaled: i64 = pixel / DOWNSCALING;
    proof {
        assert((#[verifier::truncate] (scaled as u32)) == scaled as int % 0x1_0000_0000)
            by (bit_vector)
            requires
                scaled >= 0i64,
        ;
    }
    #[verifier::truncate] (scaled as u32)
}

/// Puts a picture of this size to render into into the slot.
fn create_texture(slot: TextureSlot, size: Extent) -> (r: CameraAction)
    ensures
        r == creation(slot, size),
{
    CameraAction::CreateTexture { slot, texture: render_target_texture(size) }
}

/// Makes the pictures that are not there yet. Returns the size of the picture of one tile.
fn prepare_textures(
    cache: &mut TextureCache,
    grid: GridShape,
    actions: &mut Vec<CameraAction>,
) -> (r: Extent)
    requires
        old(cache).accumulation is None ==> grid_fits(grid),
    ensures
        final(cache).accumulation == old(cache).filled(grid).accumulation,
        final(cache).hires == old(cache).filled(grid).hires,
        final(cache).lores == old(cache).filled(grid).lores,
        final(cache).mesh_and_material == old(cache).mesh_and_material,
        final(actions)@ == old(actions)@ + old(cache).texture_actions(grid),
        r == old(cache).filled(grid).hires->0,
{
    if cache.accumulation.is_none() {
        if let Some(size) = accumulation_size(grid) {
            actions.push(create_texture(TextureSlot::Accumulation, size));
            actions.push(
                CameraAction::SpawnSprite(
                    SpriteSpec {
                        texture: Some(TextureSlot::Accumulation),
                        size,
                        scale_percent: 100,
                        offset_percent: 0,
                        z: 1,
                        tint: (255, 255, 255),
                        layer: MAIN_CAMERA_LAYER,
                    },
                ),
            );
            actions.push(
                CameraAction::SpawnSprite(
                    SpriteSpec {
                        texture: None,
                        size,
                        scale_percent: 110,
                        offset_percent: -5,
                        z: 0,
                        tint: (255, 0, 0),
                        layer: MAIN_CAMERA_LAYER,
                    },
                ),
            );
            cache.accumulation = Some(size);
        }
    }
    let hires = match cache.hires {
        Some(size) => size,
        None => {
            let size = Extent { width: HIRES_SIZE, height: HIRES_SIZE };
            actions.push(create_texture(TextureSlot::HiRes, size));
            cache.hires = Some(size);
            size
        },
    };
    if cache.lores.is_none() {
        let size = Extent { width: LORES_SIZE, height: LORES_SIZE };
        actions.push(create_texture(TextureSlot::LoRes, size));
        cache.lores = Some(size);
    }
    hires
}

/// Has one tile rendered.
pub fn render_tile(
    cache: &mut TextureCache,
    grid: GridShape,
    tile: &Tile,
    lower_left: Point,
) -> (r: Vec<CameraAction>)
    requires
        old(cache).accumulation is None ==> grid_fits(grid),
        0 <= offset(*tile, lower_left).0 <= i64::MAX,
        0 <= offset(*tile, lower_left).1 <= i64::MAX,
    ensures
        *final(cache) == old(cache).filled(grid),
        old(cache).well_formed() ==> final(cache).well_formed(),
        r@ == old(cache).tile_actions(grid, offset(*tile, lower_left)),
{
    let mut actions: Vec<CameraAction> = Vec::new();
    let size = prepare_textures(cache, grid, &mut actions);
    let tile_x: i64 = tile.extents_min.x - lower_left.x;
    let tile_y: i64 = tile.extents_min.y - lower_left.y;
    let x = to_pixel(tile_x);
    let y = to_pixel(tile_y);
    actions.push(
        CameraAction::SpawnCamera(
            CameraSpec {
                target: TextureSlot::HiRes,
                priority: 0,
                translation: Some(Translation { x, y, z: CAMERA_HEIGHT }),
                projection: Some(size),
                viewport: None,
                layer: None,
            },
        ),
    );
    if !cache.mesh_and_material {
        actions.push(
            CameraAction::CreateQuad {
                mesh: fullscreen_triangle(),
                material: PostProcessingMaterial { source_image: TextureSlot::HiRes },
            },
        );
        cache.mesh_and_material = true;
    }
    actions.push(CameraAction::SpawnQuad { layer: DOWNSCALING_PASS_LAYER });
    let viewport = Viewport {
        x: downscale(x),
        y: downscale(y),
        width: LORES_SIZE,
        height: LORES_SIZE,
    };
    actions.push(
        CameraAction::SpawnCamera(
            CameraSpec {
                target: TextureSlot::Accumulation,
                priority: ACCUMULATION_PRIORITY,
                translation: None,
                projection: None,
                viewport: Some(viewport),
                layer: Some(DOWNSCALING_PASS_LAYER),
            },
        ),
    );
    actions.push(CameraAction::NotifyWhenDone);
    assert(actions@ =~= old(cache).tile_actions(grid, offset(*tile, lower_left)));
    actions
}

/// Why the tile under `key` cannot be rendered, if it cannot.
pub fn find_tile_fault(
    cache: &TextureCache,
    key: u64,
    tilemap: &TileMap,
    lower_left: Point,
    grid: GridShape,
) -> (r: Option<CameraFault>)
    ensures
        r == cache.tile_fault(tilemap@, lower_left, grid, key),
{
    let tile = match tilemap.get(key) {
        None => return Some(CameraFault::NoTile { key }),
        Some(tile) => tile,
    };
    if cache.accumulation.is_none() && accumulation_size(grid).is_none() {
        return Some(CameraFault::GridTooLarge);
    }
    match (
        tile.extents_min.x.checked_sub(lower_left.x),
        tile.extents_min.y.checked_sub(lower_left.y),
    ) {
        (Some(tile_x), Some(tile_y)) => if tile_x < 0 {
            Some(CameraFault::NegativeX { key })
        } else if tile_y < 0 {
            Some(CameraFault::NegativeY { key })
        } else {
            None
        },
        _ => Some(CameraFault::TileTooFar { key }),
    }
}

/// Why the tiles under `events` cannot be rendered, if they cannot: the first fault in
/// order.
pub fn find_camera_fault(
    cache: &TextureCache,
    events: &Vec<u64>,
    tilemap: &TileMap,
    lower_left: Point,
    grid: GridShape,
) -> (r: Option<CameraFault>)
    ensures
        r == cache.fault(tilemap@, lower_left, grid, events@),
{
    let ghost checks = events@.map_values(
        |key: u64| cache.tile_fault(tilemap@, lower_left, grid, key),
    );
    for i in 0..events.len()
        invariant
            checks == events@.map_values(
                |key: u64| cache.tile_fault(tilemap@, lower_left, grid, key),
            ),
            first_some(checks.take(i as int)) is None,
    {
        let fault = find_tile_fault(cache, events[i], tilemap, lower_left, grid);
        proof {
            lemma_first_some_step(checks, i as int);
        }
        if fault.is_some() {
            proof {
                lemma_first_some_prefix(checks, i + 1);
            }
            return fault;
        }
    }
    assert(checks.take(checks.len() as int) =~= checks);
    None
}

/// Has the tiles under `events` rendered.
pub fn spawn_cameras_system(
    cache: &mut TextureCache,
    events: &Vec<u64>,
    tilemap: &TileMap,
    lower_left: Point,
    grid: GridShape,
) -> (r: Vec<CameraAction>)
    requires
        old(cache).fault(tilemap@, lower_left, grid, events@) is None,
    ensures
        *final(cache) == old(cache).after(grid, events@.len()),
        old(cache).well_formed() ==> final(cache).well_formed(),
        r@ == old(cache).actions(tilemap@, lower_left, grid, events@),
{
    let ghost start = *cache;
    let ghost checks = events@.map_values(
        |key: u64| start.tile_fault(tilemap@, lower_left, grid, key),
    );
    proof {
        lemma_first_some(checks);
    }
    let mut actions: Vec<CameraAction> = Vec::new();
    for i in 0..events.len()
        invariant
            checks == events@.map_values(
                |key: u64| start.tile_fault(tilemap@, lower_left, grid, key),
            ),
            forall|k: int| 0 <= k < checks.len() ==> (#[trigger] checks[k]) is None,
            *cache == start.after(grid, i as nat),
            start.well_formed() ==> cache.well_formed(),
            actions@ == start.actions(tilemap@, lower_left, grid, events@.take(i as int)),
    {
        assert(checks[i as int] is None);
        assert(events@.take(i + 1).drop_last() =~= events@.take(i as int));
        if let Some(tile) = tilemap.get(events[i]) {
            let mut rendered = render_tile(cache, grid, tile, lower_left);
            actions.append(&mut rendered);
        }
    }
    assert(events@.take(events@.len() as int) =~= events@);
    actions
}

/// Has the tiles under `events` rendered, or says why that cannot be done and leaves the
/// cache as it is.
pub fn try_spawn_cameras_system(
    cache: &mut TextureCache,
    events: &Vec<u64>,
    tilemap: &TileMap,
    lower_left: Point,
    grid: GridShape,
) -> (r: Result<Vec<CameraAction>, CameraFault>)
    ensures
        old(cache).well_formed() ==> final(cache).well_formed(),
        match old(cache).fault(tilemap@, lower_left, grid, events@) {
            Some(fault) => {
                &&& r == Err::<Vec<CameraAction>, CameraFault>(fault)
                &&& *final(cache) == *old(cache)
            },
            None => {
                &&& r is Ok
                &&& r->Ok_0@ == old(cache).actions(tilemap@, lower_left, grid, events@)
                &&& *final(cache) == old(cache).after(grid, events@.len())
            },
        },
{
    match find_camera_fault(cache, events, tilemap, lower_left, grid) {
        Some(fault) => Err(fault),
        None => Ok(spawn_cameras_system(cache, events, tilemap, lower_left, grid)),
    }
}

}
