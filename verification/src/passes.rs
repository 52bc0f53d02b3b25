//! What each tile that is rendered gets: its two cameras, and with the first tile the
//! pictures, the sprites and the mesh; and when a tile cannot be rendered.

use crate::cameras::{
    accumulation_camera, accumulation_extent, accumulation_sprite, backdrop_sprite, creation,
    fullscreen, offset, scaled_position, square, tile_camera, tile_viewport, CameraAction,
    CameraFault, TextureCache, DOWNSCALING_PASS_LAYER, HIRES_SIZE, LORES_SIZE,
};
use crate::faults::lemma_first_some;
use crate::geometry::{Extent, Point, UNITS_PER_PIXEL};
use crate::material::TextureSlot;
use crate::rendering::{makes_quad, makes_texture, spawns_quad, spawns_sprite};
use crate::texture::render_target;
use crate::tiles::{GridShape, Tile};
use vstd::prelude::*;

verus! {

/// The actions that add a camera which renders into a slot.
pub open spec fn spawns_camera_into(slot: TextureSlot) -> spec_fn(CameraAction) -> bool {
    |action: CameraAction|
        (action matches CameraAction::SpawnCamera(camera) && camera.target == slot)
}

/// The action, if it is of a kind.
spec fn pick(action: CameraAction, kind: spec_fn(CameraAction) -> bool) -> Seq<CameraAction> {
    if kind(action) {
        seq![action]
    } else {
        Seq::empty()
    }
}

proof fn lemma_filter_concat(
    first: Seq<CameraAction>,
    second: Seq<CameraAction>,
    kind: spec_fn(CameraAction) -> bool,
)
    ensures
        (first + second).filter(kind) == first.filter(kind) + second.filter(kind),
    decreases second.len(),
{
    reveal(Seq::filter);
    if second.len() == 0 {
        assert(first + second =~= first);
        assert(second.filter(kind) =~= Seq::empty());
    } else {
        assert((first + second).drop_last() =~= first + second.drop_last());
        assert((first + second).last() == second.last());
        lemma_filter_concat(first, second.drop_last(), kind);
        assert((first + second).filter(kind) =~= first.filter(kind) + second.filter(kind));
    }
}

proof fn lemma_filter_one(a: CameraAction, kind: spec_fn(CameraAction) -> bool)
    ensures
        seq![a].filter(kind) == pick(a, kind),
{
    reveal(Seq::filter);
    assert(seq![a].drop_last() =~= Seq::empty());
    assert(seq![a].drop_last().filter(kind) =~= Seq::empty());
    assert(seq![a].filter(kind) =~= pick(a, kind));
}

proof fn lemma_filter_three(
    a: CameraAction,
    b: CameraAction,
    c: CameraAction,
    kind: spec_fn(CameraAction) -> bool,
)
    ensures
        seq![a, b, c].filter(kind) == pick(a, kind) + pick(b, kind) + pick(c, kind),
{
    assert(seq![a, b, c] =~= seq![a] + seq![b] + seq![c]);
    lemma_filter_concat(seq![a] + seq![b], seq![c], kind);
    lemma_filter_concat(seq![a], seq![b], kind);
    lemma_filter_one(a, kind);
    lemma_filter_one(b, kind);
    lemma_filter_one(c, kind);
}

proof fn lemma_filter_none(kind: spec_fn(CameraAction) -> bool)
    ensures
        Seq::<CameraAction>::empty().filter(kind) == Seq::<CameraAction>::empty(),
{
    reveal(Seq::filter);
}

/// Those of a tile's actions that make what is not there yet and are of a kind.
spec fn picked_making(
    cache: TextureCache,
    grid: GridShape,
    kind: spec_fn(CameraAction) -> bool,
) -> Seq<CameraAction> {
    let size = accumulation_extent(grid);
    (if cache.accumulation is None {
        pick(creation(TextureSlot::Accumulation, size), kind) + pick(
            CameraAction::SpawnSprite(accumulation_sprite(size)),
            kind,
        ) + pick(CameraAction::SpawnSprite(backdrop_sprite(size)), kind)
    } else {
        Seq::empty()
    }) + (if cache.hires is None {
        pick(creation(TextureSlot::HiRes, square(HIRES_SIZE)), kind)
    } else {
        Seq::empty()
    }) + (if cache.lores is None {
        pick(creation(TextureSlot::LoRes, square(LORES_SIZE)), kind)
    } else {
        Seq::empty()
    })
}

/// Those of a tile's actions that are of a kind.
proof fn lemma_filter_tile(
    cache: TextureCache,
    grid: GridShape,
    distance: (int, int),
    kind: spec_fn(CameraAction) -> bool,
)
    ensures
        cache.tile_actions(grid, distance).filter(kind) == picked_making(cache, grid, kind) + pick(
            CameraAction::SpawnCamera(tile_camera(distance, cache.filled(grid).hires->0)),
            kind,
        ) + (if cache.mesh_and_material {
            Seq::empty()
        } else {
            pick(cache.quad_actions()[0], kind)
        }) + (pick(CameraAction::SpawnQuad { layer: DOWNSCALING_PASS_LAYER }, kind) + pick(
            CameraAction::SpawnCamera(accumulation_camera(distance)),
            kind,
        ) + pick(CameraAction::NotifyWhenDone, kind)),
{
    let size = accumulation_extent(grid);
    let accumulation = creation(TextureSlot::Accumulation, size);
    let hires = creation(TextureSlot::HiRes, square(HIRES_SIZE));
    let lores = creation(TextureSlot::LoRes, square(LORES_SIZE));
    let sprite = CameraAction::SpawnSprite(accumulation_sprite(size));
    let backdrop = CameraAction::SpawnSprite(backdrop_sprite(size));
    let camera = CameraAction::SpawnCamera(tile_camera(distance, cache.filled(grid).hires->0));
    let quad = CameraAction::SpawnQuad { layer: DOWNSCALING_PASS_LAYER };
    let scaling = CameraAction::SpawnCamera(accumulation_camera(distance));
    let report = CameraAction::NotifyWhenDone;
    let a = if cache.accumulation is None {
        seq![accumulation, sprite, backdrop]
    } else {
        Seq::empty()
    };
    let b = if cache.hires is None {
        seq![hires]
    } else {
        Seq::empty()
    };
    let c = if cache.lores is None {
        seq![lores]
    } else {
        Seq::empty()
    };
    let d = seq![camera];
    let e = cache.quad_actions();
    let f = seq![quad, scaling, report];
    assert(cache.tile_actions(grid, distance) == a + b + c + d + e + f);
    lemma_filter_concat(a + b + c + d + e, f, kind);
    lemma_filter_concat(a + b + c + d, e, kind);
    lemma_filter_concat(a + b + c, d, kind);
    lemma_filter_concat(a + b, c, kind);
    lemma_filter_concat(a, b, kind);
    lemma_filter_three(accumulation, sprite, backdrop, kind);
    lemma_filter_one(hires, kind);
    lemma_filter_one(lores, kind);
    lemma_filter_one(camera, kind);
    lemma_filter_none(kind);
    if !cache.mesh_and_material {
        lemma_filter_one(e[0], kind);
        assert(e =~= seq![e[0]]);
    }
    lemma_filter_three(quad, scaling, report, kind);
}

/// The cameras that a tile takes.
proof fn lemma_tile_cameras(cache: TextureCache, grid: GridShape, distance: (int, int))
    ensures
        cache.tile_actions(grid, distance).filter(spawns_camera_into(TextureSlot::Accumulation))
            == seq![CameraAction::SpawnCamera(accumulation_camera(distance))],
        cache.tile_actions(grid, distance).filter(spawns_camera_into(TextureSlot::HiRes)) == seq![
            CameraAction::SpawnCamera(tile_camera(distance, cache.filled(grid).hires->0)),
        ],
        cache.tile_actions(grid, distance).filter(spawns_camera_into(TextureSlot::LoRes)) == Seq::<
            CameraAction,
        >::empty(),
{
    lemma_filter_tile(cache, grid, distance, spawns_camera_into(TextureSlot::Accumulation));
    lemma_filter_tile(cache, grid, distance, spawns_camera_into(TextureSlot::HiRes));
    lemma_filter_tile(cache, grid, distance, spawns_camera_into(TextureSlot::LoRes));
    assert(cache.tile_actions(grid, distance).filter(
        spawns_camera_into(TextureSlot::Accumulation),
    ) =~= seq![CameraAction::SpawnCamera(accumulation_camera(distance))]);
    assert(cache.tile_actions(grid, distance).filter(spawns_camera_into(TextureSlot::HiRes))
        =~= seq![CameraAction::SpawnCamera(tile_camera(distance, cache.filled(grid).hires->0))]);
    assert(cache.tile_actions(grid, distance).filter(spawns_camera_into(TextureSlot::LoRes))
        =~= Seq::empty());
}

/// The cameras that the tiles under `events` take, if each takes one of a kind.
proof fn lemma_cameras_of_a_kind(
    cache: TextureCache,
    tiles: Map<u64, Tile>,
    lower_left: Point,
    grid: GridShape,
    events: Seq<u64>,
    kind: spec_fn(CameraAction) -> bool,
    each: spec_fn((int, int)) -> Seq<CameraAction>,
)
    requires
        forall|count: nat, distance: (int, int)| #[trigger]
            cache.after(grid, count).tile_actions(grid, distance).filter(kind) == each(distance),
    ensures
        (forall|distance: (int, int)| (#[trigger] each(distance)).len() == 0) ==> cache.actions(
            tiles,
            lower_left,
            grid,
            events,
        ).filter(kind).len() == 0,
        (forall|distance: (int, int)| (#[trigger] each(distance)).len() == 1) ==> {
            let cameras = cache.actions(tiles, lower_left, grid, events).filter(kind);
            &&& cameras.len() == events.len()
            &&& forall|k: int|
                0 <= k < events.len() ==> #[trigger] cameras[k] == each(
                    offset(tiles[events[k]], lower_left),
                )[0]
        },
    decreases events.len(),
{
    lemma_filter_none(kind);
    if events.len() > 0 {
        let before = events.drop_last();
        let earlier = cache.actions(tiles, lower_left, grid, before);
        let distance = offset(tiles[events.last()], lower_left);
        let last = cache.after(grid, before.len()).tile_actions(grid, distance);
        lemma_cameras_of_a_kind(cache, tiles, lower_left, grid, before, kind, each);
        assert(cache.actions(tiles, lower_left, grid, events) == earlier + last);
        lemma_filter_concat(earlier, last, kind);
        assert(last.filter(kind) == each(distance));
    }
}

/// The cameras that the tiles under `events` take.
proof fn lemma_cameras(
    cache: TextureCache,
    tiles: Map<u64, Tile>,
    lower_left: Point,
    grid: GridShape,
    events: Seq<u64>,
)
    ensures
        ({
            let actions = cache.actions(tiles, lower_left, grid, events);
            let size = cache.filled(grid).hires->0;
            let scaling = actions.filter(spawns_camera_into(TextureSlot::Accumulation));
            let over = actions.filter(spawns_camera_into(TextureSlot::HiRes));
            &&& scaling.len() == events.len()
            &&& forall|k: int|
                0 <= k < events.len() ==> #[trigger] scaling[k] == CameraAction::SpawnCamera(
                    accumulation_camera(offset(tiles[events[k]], lower_left)),
                )
            &&& over.len() == events.len()
            &&& forall|k: int|
                0 <= k < events.len() ==> #[trigger] over[k] == CameraAction::SpawnCamera(
                    tile_camera(offset(tiles[events[k]], lower_left), size),
                )
            &&& actions.filter(spawns_camera_into(TextureSlot::LoRes)).len() == 0
        }),
{
    let size = cache.filled(grid).hires->0;
    let scaling = |distance: (int, int)|
        seq![CameraAction::SpawnCamera(accumulation_camera(distance))];
    let over = |distance: (int, int)| seq![CameraAction::SpawnCamera(tile_camera(distance, size))];
    let none = |distance: (int, int)| Seq::<CameraAction>::empty();
    let accumulation = spawns_camera_into(TextureSlot::Accumulation);
    let hires = spawns_camera_into(TextureSlot::HiRes);
    let lores = spawns_camera_into(TextureSlot::LoRes);
    assert forall|count: nat, distance: (int, int)| #[trigger]
        cache.after(grid, count).tile_actions(grid, distance).filter(accumulation) == scaling(
            distance,
        ) by {
        lemma_tile_cameras(cache.after(grid, count), grid, distance);
    }
    assert forall|count: nat, distance: (int, int)| #[trigger]
        cache.after(grid, count).tile_actions(grid, distance).filter(hires) == over(distance) by {
        lemma_tile_cameras(cache.after(grid, count), grid, distance);
    }
    assert forall|count: nat, distance: (int, int)| #[trigger]
        cache.after(grid, count).tile_actions(grid, distance).filter(lores) == none(distance) by {
        lemma_tile_cameras(cache.after(grid, count), grid, distance);
    }
    lemma_cameras_of_a_kind(cache, tiles, lower_left, grid, events, accumulation, scaling);
    lemma_cameras_of_a_kind(cache, tiles, lower_left, grid, events, hires, over);
    lemma_cameras_of_a_kind(cache, tiles, lower_left, grid, events, lores, none);
}

proof fn lemma_place(distance: int)
    ensures
        scaled_position(distance / UNITS_PER_PIXEL as int) as int == (distance / 512)
            % 0x1_0000_0000,
        0 <= distance / 512 <= u32::MAX ==> (distance / 512) % 0x1_0000_0000 == distance / 512,
{
    assert((distance / 4) / 128 == distance / 512);
}

/// Rendering a tile adds one camera that renders into the picture of all tiles, and that camera
/// fills the square of 32 by 32 pixels whose corner is at a 512th of the distance between the
/// tile and the lower left corner, of which the low 32 bits count.
pub proof fn law_tile_is_scaled_into_its_place(
    cache: TextureCache,
    grid: GridShape,
    tile: Tile,
    lower_left: Point,
)
    ensures
        ({
            let actions = cache.tile_actions(grid, offset(tile, lower_left));
            let scaling = actions.filter(spawns_camera_into(TextureSlot::Accumulation));
            let dx = tile.extents_min.x - lower_left.x;
            let dy = tile.extents_min.y - lower_left.y;
            &&& scaling.len() == 1
            &&& scaling[0] matches CameraAction::SpawnCamera(camera)
            &&& camera.viewport matches Some(viewport)
            &&& viewport.x as int == (dx / 512) % 0x1_0000_0000
            &&& viewport.y as int == (dy / 512) % 0x1_0000_0000
            &&& viewport.width == 32
            &&& viewport.height == 32
            &&& 0 <= dx / 512 <= u32::MAX ==> viewport.x == dx / 512
            &&& 0 <= dy / 512 <= u32::MAX ==> viewport.y == dy / 512
        }),
{
    let distance = offset(tile, lower_left);
    lemma_tile_cameras(cache, grid, distance);
    lemma_place(distance.0);
    lemma_place(distance.1);
}

/// However many tiles are rendered, the `k`-th camera that renders into the picture of all
/// tiles is that of the `k`-th tile. It fills the square of 32 by 32 pixels whose corner is at
/// a 512th of the tile's distance, renders after all others and sees the layer of the
/// downscaling pass.
pub proof fn law_every_tile_is_scaled_into_its_place(
    cache: TextureCache,
    tiles: Map<u64, Tile>,
    lower_left: Point,
    grid: GridShape,
    events: Seq<u64>,
)
    ensures
        ({
            let actions = cache.actions(tiles, lower_left, grid, events);
            let scaling = actions.filter(spawns_camera_into(TextureSlot::Accumulation));
            &&& scaling.len() == events.len()
            &&& forall|k: int|
                0 <= k < events.len() ==> {
                    let tile = tiles[events[k]];
                    let dx = tile.extents_min.x - lower_left.x;
                    let dy = tile.extents_min.y - lower_left.y;
                    &&& #[trigger] scaling[k] matches CameraAction::SpawnCamera(camera)
                    &&& camera.viewport matches Some(viewport)
                    &&& viewport.x as int == (dx / 512) % 0x1_0000_0000
                    &&& viewport.y as int == (dy / 512) % 0x1_0000_0000
                    &&& viewport.width == 32
                    &&& viewport.height == 32
                    &&& camera.priority == 2
                    &&& camera.layer == Some(1u8)
                    &&& camera.translation is None
                    &&& camera.projection is None
                }
        }),
{
    lemma_cameras(cache, tiles, lower_left, grid, events);
    assert forall|k: int| 0 <= k < events.len() implies {
        let distance = #[trigger] offset(tiles[events[k]], lower_left);
        let viewport = tile_viewport(distance);
        &&& viewport.x as int == (distance.0 / 512) % 0x1_0000_0000
        &&& viewport.y as int == (distance.1 / 512) % 0x1_0000_0000
    } by {
        let distance = offset(tiles[events[k]], lower_left);
        lemma_place(distance.0);
        lemma_place(distance.1);
    }
}

/// However many tiles are rendered, the `k`-th camera that renders into the picture of one tile
/// is that of the `k`-th tile. It hangs at a quarter of the tile's distance, at height 999, and
/// sees as much as the picture is large: 4096 by 4096 pixels, unless another picture was kept.
/// No camera renders into the picture of one tile scaled down.
pub proof fn law_every_tile_has_its_camera(
    cache: TextureCache,
    tiles: Map<u64, Tile>,
    lower_left: Point,
    grid: GridShape,
    events: Seq<u64>,
)
    ensures
        ({
            let actions = cache.actions(tiles, lower_left, grid, events);
            let over = actions.filter(spawns_camera_into(TextureSlot::HiRes));
            &&& over.len() == events.len()
            &&& forall|k: int|
                0 <= k < events.len() ==> {
                    let tile = tiles[events[k]];
                    let dx = tile.extents_min.x - lower_left.x;
                    let dy = tile.extents_min.y - lower_left.y;
                    &&& #[trigger] over[k] matches CameraAction::SpawnCamera(camera)
                    &&& camera.translation matches Some(place)
                    &&& 0 <= dx - 4 * place.x < 4
                    &&& 0 <= dy - 4 * place.y < 4
                    &&& place.z == 999
                    &&& camera.projection == (match cache.hires {
                        Some(size) => Some(size),
                        None => Some(Extent { width: 4096, height: 4096 }),
                    })
                    &&& camera.priority == 0
                    &&& camera.viewport is None
                    &&& camera.layer is None
                }
            &&& actions.filter(spawns_camera_into(TextureSlot::LoRes)).len() == 0
        }),
{
    lemma_cameras(cache, tiles, lower_left, grid, events);
}

/// The tile at column `i` and row `j` of the grid is scaled into the square at column `i` and
/// row `j` of the picture of all tiles, which lies within that picture.
pub proof fn law_grid_tile_fills_its_square(
    cache: TextureCache,
    tiles: Map<u64, Tile>,
    lower_left: Point,
    grid: GridShape,
    events: Seq<u64>,
    k: int,
    i: int,
    j: int,
)
    requires
        0 <= k < events.len(),
        tiles[events[k]].extents_min.x == lower_left.x + 16384 * i,
        tiles[events[k]].extents_min.y == lower_left.y + 16384 * j,
        0 <= i < grid.x,
        0 <= j < grid.y,
        32 * grid.x <= u32::MAX,
        32 * grid.y <= u32::MAX,
    ensures
        ({
            let actions = cache.actions(tiles, lower_left, grid, events);
            let scaling = actions.filter(spawns_camera_into(TextureSlot::Accumulation));
            let size = accumulation_extent(grid);
            &&& scaling[k] matches CameraAction::SpawnCamera(camera)
            &&& camera.viewport matches Some(viewport)
            &&& viewport.x == 32 * i
            &&& viewport.y == 32 * j
            &&& viewport.width == 32
            &&& viewport.height == 32
            &&& viewport.x + viewport.width <= size.width
            &&& viewport.y + viewport.height <= size.height
        }),
{
    law_every_tile_is_scaled_into_its_place(cache, tiles, lower_left, grid, events);
    let scaling = cache.actions(tiles, lower_left, grid, events).filter(
        spawns_camera_into(TextureSlot::Accumulation),
    );
    assert(scaling[k] is SpawnCamera);
}

/// Tiles that do not overlap are scaled into places that do not overlap, wherever they come
/// among the tiles that are rendered. Distances whose place does not fit into 32 bits are left
/// out.
pub proof fn law_tiles_apart_are_shown_apart(
    cache: TextureCache,
    tiles: Map<u64, Tile>,
    lower_left: Point,
    grid: GridShape,
    events: Seq<u64>,
    k: int,
    l: int,
)
    requires
        0 <= k < events.len(),
        0 <= l < events.len(),
        ({
            let a = tiles[events[k]].extents_min;
            let b = tiles[events[l]].extents_min;
            &&& 0 <= (a.x - lower_left.x) / 512 <= u32::MAX
            &&& 0 <= (a.y - lower_left.y) / 512 <= u32::MAX
            &&& 0 <= (b.x - lower_left.x) / 512 <= u32::MAX
            &&& 0 <= (b.y - lower_left.y) / 512 <= u32::MAX
            &&& a.x + 16384 <= b.x || b.x + 16384 <= a.x || a.y + 16384 <= b.y || b.y + 16384
                <= a.y
        }),
    ensures
        ({
            let actions = cache.actions(tiles, lower_left, grid, events);
            let scaling = actions.filter(spawns_camera_into(TextureSlot::Accumulation));
            &&& scaling[k] matches CameraAction::SpawnCamera(first)
            &&& scaling[l] matches CameraAction::SpawnCamera(second)
            &&& first.viewport matches Some(a)
            &&& second.viewport matches Some(b)
            &&& a.x + a.width <= b.x || b.x + b.width <= a.x || a.y + a.height <= b.y || b.y
                + b.height <= a.y
        }),
{
    law_every_tile_is_scaled_into_its_place(cache, tiles, lower_left, grid, events);
    let scaling = cache.actions(tiles, lower_left, grid, events).filter(
        spawns_camera_into(TextureSlot::Accumulation),
    );
    assert(scaling[k] is SpawnCamera);
    assert(scaling[l] is SpawnCamera);
}

/// What is made for the tiles under `events` is made for the first of them.
proof fn lemma_filter_making(
    cache: TextureCache,
    tiles: Map<u64, Tile>,
    lower_left: Point,
    grid: GridShape,
    events: Seq<u64>,
    kind: spec_fn(CameraAction) -> bool,
)
    requires
        forall|action: CameraAction| #[trigger]
            kind(action) ==> action is CreateTexture || action is SpawnSprite || action is
                CreateQuad,
    ensures
        cache.actions(tiles, lower_left, grid, events).filter(kind) == (if events.len() == 0 {
            Seq::empty()
        } else {
            picked_making(cache, grid, kind) + (if cache.mesh_and_material {
                Seq::empty()
            } else {
                pick(cache.quad_actions()[0], kind)
            })
        }),
    decreases events.len(),
{
    let actions = cache.actions(tiles, lower_left, grid, events);
    lemma_filter_none(kind);
    if events.len() > 0 {
        let before = events.drop_last();
        let earlier = cache.actions(tiles, lower_left, grid, before);
        let now = cache.after(grid, before.len());
        let distance = offset(tiles[events.last()], lower_left);
        let last = now.tile_actions(grid, distance);
        lemma_filter_making(cache, tiles, lower_left, grid, before, kind);
        lemma_filter_tile(now, grid, distance, kind);
        lemma_filter_concat(earlier, last, kind);
        let made = picked_making(now, grid, kind) + (if now.mesh_and_material {
            Seq::empty()
        } else {
            pick(now.quad_actions()[0], kind)
        });
        assert(last.filter(kind) =~= made);
        if before.len() > 0 {
            assert(made =~= Seq::empty());
            assert(actions.filter(kind) =~= earlier.filter(kind));
        } else {
            assert(actions.filter(kind) =~= made);
        }
    }
}

/// The pictures are made with the first tile, each if it is not kept yet: that of all tiles as
/// large as 32 by 32 pixels for each tile of the grid, that of one tile 4096 by 4096 pixels,
/// that of one tile scaled down 32 by 32 pixels.
pub proof fn law_pictures_have_their_sizes(
    cache: TextureCache,
    tiles: Map<u64, Tile>,
    lower_left: Point,
    grid: GridShape,
    events: Seq<u64>,
    slot: TextureSlot,
)
    requires
        cache.accumulation is None ==> 32 * grid.x <= u32::MAX && 32 * grid.y <= u32::MAX,
    ensures
        ({
            let actions = cache.actions(tiles, lower_left, grid, events);
            let made = actions.filter(makes_texture(slot));
            let kept = match slot {
                TextureSlot::Accumulation => cache.accumulation,
                TextureSlot::HiRes => cache.hires,
                TextureSlot::LoRes => cache.lores,
            };
            if events.len() == 0 || kept is Some {
                made.len() == 0
            } else {
                &&& made.len() == 1
                &&& made[0] matches CameraAction::CreateTexture { slot: filled, texture }
                &&& filled == slot
                &&& texture == render_target(texture.size)
                &&& texture.size.width == (match slot {
                    TextureSlot::Accumulation => 32 * grid.x,
                    TextureSlot::HiRes => 4096,
                    TextureSlot::LoRes => 32,
                })
                &&& texture.size.height == (match slot {
                    TextureSlot::Accumulation => 32 * grid.y,
                    TextureSlot::HiRes => 4096,
                    TextureSlot::LoRes => 32,
                })
            }
        }),
{
    lemma_filter_making(cache, tiles, lower_left, grid, events, makes_texture(slot));
}

/// Two sprites come with the picture of all tiles, and without it none: one that shows the
/// picture at the size that it is made with, with its corner at the origin, and a red one
/// behind it. That is sized and placed by the size of the picture too: it is a tenth larger,
/// and its corner lies a twentieth of the size below and left of the origin. Both are seen by
/// the main camera.
pub proof fn law_sprites_have_the_size_of_the_picture(
    cache: TextureCache,
    tiles: Map<u64, Tile>,
    lower_left: Point,
    grid: GridShape,
    events: Seq<u64>,
)
    requires
        cache.accumulation is None ==> 32 * grid.x <= u32::MAX && 32 * grid.y <= u32::MAX,
    ensures
        ({
            let actions = cache.actions(tiles, lower_left, grid, events);
            let sprites = actions.filter(spawns_sprite());
            let made = actions.filter(makes_texture(TextureSlot::Accumulation));
            if events.len() == 0 || cache.accumulation is Some {
                sprites.len() == 0
            } else {
                &&& sprites.len() == 2
                &&& made.len() == 1
                &&& sprites[0] matches CameraAction::SpawnSprite(picture)
                &&& sprites[1] matches CameraAction::SpawnSprite(backdrop)
                &&& made[0] matches CameraAction::CreateTexture { texture, .. }
                &&& picture.size == texture.size
                &&& backdrop.size == texture.size
                &&& picture.size.width == 32 * grid.x
                &&& picture.size.height == 32 * grid.y
                &&& picture.texture == Some(TextureSlot::Accumulation)
                &&& picture.scale_percent == 100
                &&& picture.offset_percent == 0
                &&& picture.z == 1
                &&& picture.tint == (255u8, 255u8, 255u8)
                &&& picture.layer == 3
                &&& backdrop.texture is None
                &&& backdrop.scale_percent == 110
                &&& backdrop.offset_percent == -5
                &&& backdrop.z == 0
                &&& backdrop.tint == (255u8, 0u8, 0u8)
                &&& backdrop.layer == 3
            }
        }),
{
    let accumulation = makes_texture(TextureSlot::Accumulation);
    lemma_filter_making(cache, tiles, lower_left, grid, events, spawns_sprite());
    lemma_filter_making(cache, tiles, lower_left, grid, events, accumulation);
}

/// The mesh and the material are made with the first tile, if there are none yet: the triangle
/// that covers the target, painted with the picture of one tile. Every tile adds the mesh once,
/// to the layer of the downscaling pass.
pub proof fn law_every_tile_adds_the_mesh(
    cache: TextureCache,
    tiles: Map<u64, Tile>,
    lower_left: Point,
    grid: GridShape,
    events: Seq<u64>,
)
    ensures
        ({
            let actions = cache.actions(tiles, lower_left, grid, events);
            let made = actions.filter(makes_quad());
            let added = actions.filter(spawns_quad());
            &&& if events.len() == 0 || cache.mesh_and_material {
                made.len() == 0
            } else {
                &&& made.len() == 1
                &&& made[0] matches CameraAction::CreateQuad { mesh, material }
                &&& mesh == fullscreen()
                &&& material.source_image is HiRes
            }
            &&& added.len() == events.len()
            &&& forall|k: int|
                0 <= k < added.len() ==> #[trigger] added[k] == (CameraAction::SpawnQuad {
                    layer: 1,
                })
        }),
    decreases events.len(),
{
    lemma_filter_making(cache, tiles, lower_left, grid, events, makes_quad());
    let actions = cache.actions(tiles, lower_left, grid, events);
    lemma_filter_none(spawns_quad());
    if events.len() > 0 {
        let before = events.drop_last();
        let earlier = cache.actions(tiles, lower_left, grid, before);
        let now = cache.after(grid, before.len());
        let distance = offset(tiles[events.last()], lower_left);
        let last = now.tile_actions(grid, distance);
        law_every_tile_adds_the_mesh(cache, tiles, lower_left, grid, before);
        lemma_filter_tile(now, grid, distance, spawns_quad());
        lemma_filter_concat(earlier, last, spawns_quad());
        assert(last.filter(spawns_quad()) =~= seq![CameraAction::SpawnQuad { layer: 1 }]);
    }
}

/// What is kept stays as it is, however many tiles are rendered; what is missing is kept from
/// the first tile on, with the size that it was made with.
pub proof fn law_what_was_made_is_kept(cache: TextureCache, grid: GridShape, count: nat)
    requires
        cache.accumulation is None ==> 32 * grid.x <= u32::MAX && 32 * grid.y <= u32::MAX,
    ensures
        ({
            let after = cache.after(grid, count);
            &&& count == 0 ==> after == cache
            &&& count > 0 ==> after == cache.filled(grid)
            &&& count > 0 ==> {
                &&& after.mesh_and_material
                &&& cache.accumulation is Some ==> after.accumulation == cache.accumulation
                &&& cache.hires is Some ==> after.hires == cache.hires
                &&& cache.lores is Some ==> after.lores == cache.lores
                &&& after.accumulation matches Some(size)
                &&& cache.accumulation is None ==> size.width == 32 * grid.x && size.height == 32
                    * grid.y
                &&& after.hires matches Some(hires)
                &&& cache.hires is None ==> hires.width == 4096 && hires.height == 4096
                &&& after.lores matches Some(lores)
                &&& cache.lores is None ==> lores.width == 32 && lores.height == 32
            }
        }),
{
}

/// A tile can be rendered exactly if it is there, the picture of all tiles is kept or can be
/// made, and the tile's distances from the lower left corner are neither negative nor too large
/// to hold. If it cannot, the fault says which of these fails, in this order.
pub proof fn law_fault_says_why_a_tile_cannot_be_rendered(
    cache: TextureCache,
    tiles: Map<u64, Tile>,
    lower_left: Point,
    grid: GridShape,
    key: u64,
)
    ensures
        ({
            let there = tiles.contains_key(key);
            let fits = cache.accumulation is Some || (32 * grid.x <= u32::MAX && 32 * grid.y
                <= u32::MAX);
            let dx = tiles[key].extents_min.x - lower_left.x;
            let dy = tiles[key].extents_min.y - lower_left.y;
            let held = i64::MIN <= dx <= i64::MAX && i64::MIN <= dy <= i64::MAX;
            match cache.tile_fault(tiles, lower_left, grid, key) {
                None => there && fits && 0 <= dx <= i64::MAX && 0 <= dy <= i64::MAX,
                Some(CameraFault::NoTile { key: named }) => named == key && !there,
                Some(CameraFault::GridTooLarge) => there && !fits,
                Some(CameraFault::TileTooFar { key: named }) => {
                    &&& named == key
                    &&& there && fits && !held
                },
                Some(CameraFault::NegativeX { key: named }) => {
                    &&& named == key
                    &&& there && fits && held && dx < 0
                },
                Some(CameraFault::NegativeY { key: named }) => {
                    &&& named == key
                    &&& there && fits && held && dx >= 0 && dy < 0
                },
            }
        }),
{
}

/// Tiles can be rendered exactly if each of them can. If not, the fault is that of the first
/// that cannot.
pub proof fn law_first_tile_that_cannot_be_rendered_is_reported(
    cache: TextureCache,
    tiles: Map<u64, Tile>,
    lower_left: Point,
    grid: GridShape,
    events: Seq<u64>,
)
    ensures
        cache.fault(tiles, lower_left, grid, events) is None <==> (forall|i: int|
            0 <= i < events.len() ==> cache.tile_fault(
                tiles,
                lower_left,
                grid,
                #[trigger] events[i],
            ) is None),
        cache.fault(tiles, lower_left, grid, events) is Some ==> exists|i: int|
            #![trigger events[i]]
            0 <= i < events.len() && cache.tile_fault(tiles, lower_left, grid, events[i])
                == cache.fault(tiles, lower_left, grid, events) && (forall|j: int|
                0 <= j < i ==> cache.tile_fault(tiles, lower_left, grid, #[trigger] events[j]) is
                    None),
{
    let checks = events.map_values(|key: u64| cache.tile_fault(tiles, lower_left, grid, key));
    let fault = cache.fault(tiles, lower_left, grid, events);
    lemma_first_some(checks);
    if fault is Some {
        let i = choose|i: int|
            #![trigger checks[i]]
            0 <= i < checks.len() && checks[i] == fault && (forall|j: int|
                0 <= j < i ==> (#[trigger] checks[j]) is None);
        assert(cache.tile_fault(tiles, lower_left, grid, events[i]) == fault);
        assert forall|j: int| 0 <= j < i implies cache.tile_fault(
            tiles,
            lower_left,
            grid,
            #[trigger] events[j],
        ) is None by {
            assert(checks[j] is None);
        }
    } else {
        assert forall|i: int| 0 <= i < events.len() implies cache.tile_fault(
            tiles,
            lower_left,
            grid,
            #[trigger] events[i],
        ) is None by {
            assert(checks[i] is None);
        }
    }
}

/// The place of an action among those of a tile.
pub open spec fn rank(action: CameraAction) -> int {
    match action {
        CameraAction::CreateTexture { slot, .. } => match slot {
            TextureSlot::Accumulation => 0,
            TextureSlot::HiRes => 3,
            TextureSlot::LoRes => 4,
        },
        CameraAction::SpawnSprite(sprite) => if sprite.texture is Some {
            1
        } else {
            2
        },
        CameraAction::SpawnCamera(camera) => if camera.target is HiRes {
            5
        } else {
            8
        },
        CameraAction::CreateQuad { .. } => 6,
        CameraAction::SpawnQuad { .. } => 7,
        CameraAction::NotifyWhenDone => 9,
    }
}

/// The actions of a tile come in one order, each at most once: the picture of all tiles and its
/// two sprites, the other pictures, the camera over the tile, the mesh and the material, the
/// mesh in the scene, the camera that scales down, and last the report.
pub proof fn law_actions_of_a_tile_come_in_order(
    cache: TextureCache,
    tiles: Map<u64, Tile>,
    lower_left: Point,
    grid: GridShape,
    key: u64,
)
    ensures
        ({
            let actions = cache.actions(tiles, lower_left, grid, seq![key]);
            let dx = tiles[key].extents_min.x - lower_left.x;
            let dy = tiles[key].extents_min.y - lower_left.y;
            &&& actions == cache.tile_actions(grid, (dx, dy))
            &&& forall|i: int, j: int|
                0 <= i < j < actions.len() ==> rank(#[trigger] actions[i]) < rank(
                    #[trigger] actions[j],
                )
            &&& actions.len() > 0
            &&& actions.last() is NotifyWhenDone
        }),
{
    let actions = cache.actions(tiles, lower_left, grid, seq![key]);
    let distance = offset(tiles[key], lower_left);
    assert(seq![key].drop_last() =~= Seq::<u64>::empty());
    assert(cache.actions(tiles, lower_left, grid, Seq::<u64>::empty()) =~= Seq::empty());
    assert(actions =~= cache.tile_actions(grid, distance));
}

}
