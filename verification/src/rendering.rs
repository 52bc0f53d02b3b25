//! What holds of the pictures and the cameras over all tiles that are rendered.

use crate::cameras::{
    accumulation_camera, accumulation_extent, accumulation_sprite, backdrop_sprite, creation,
    fullscreen, grid_fits, offset, scaled_position, square, tile_camera, tile_viewport,
    CameraAction, TextureCache, Viewport, DOWNSCALING, DOWNSCALING_PASS_LAYER, HIRES_SIZE,
    LORES_SIZE,
};
use crate::geometry::{pixel, Extent, Point, UNITS_PER_PIXEL};
use crate::material::TextureSlot;
use crate::render_layers::TOTAL_LAYERS;
use crate::texture::render_target;
use crate::tiles::{GridShape, Tile};
use vstd::prelude::*;

verus! {

/// One if the action is of a kind.
pub open spec fn one(action: CameraAction, kind: spec_fn(CameraAction) -> bool) -> nat {
    if kind(action) {
        1
    } else {
        0
    }
}

/// How many of the actions are of a kind.
pub open spec fn count(actions: Seq<CameraAction>, kind: spec_fn(CameraAction) -> bool) -> nat
    decreases actions.len(),
{
    if actions.len() == 0 {
        0
    } else {
        count(actions.drop_last(), kind) + one(actions.last(), kind)
    }
}

/// The actions that make a picture for a slot.
pub open spec fn makes_texture(slot: TextureSlot) -> spec_fn(CameraAction) -> bool {
    |action: CameraAction|
        (action matches CameraAction::CreateTexture { slot: made, .. } && made == slot)
}

/// The actions that make the mesh and the material.
pub open spec fn makes_quad() -> spec_fn(CameraAction) -> bool {
    |action: CameraAction| action is CreateQuad
}

/// The actions that add a sprite to the scene.
pub open spec fn spawns_sprite() -> spec_fn(CameraAction) -> bool {
    |action: CameraAction| action is SpawnSprite
}

/// The actions that add a camera to the scene.
pub open spec fn spawns_camera() -> spec_fn(CameraAction) -> bool {
    |action: CameraAction| action is SpawnCamera
}

/// The actions that add the mesh to the scene.
pub open spec fn spawns_quad() -> spec_fn(CameraAction) -> bool {
    |action: CameraAction| action is SpawnQuad
}

/// The actions that ask for a report.
pub open spec fn asks_for_report() -> spec_fn(CameraAction) -> bool {
    |action: CameraAction| action is NotifyWhenDone
}

proof fn lemma_count_concat(
    first: Seq<CameraAction>,
    second: Seq<CameraAction>,
    kind: spec_fn(CameraAction) -> bool,
)
    ensures
        count(first + second, kind) == count(first, kind) + count(second, kind),
    decreases second.len(),
{
    if second.len() == 0 {
        assert(first + second =~= first);
    } else {
        assert((first + second).drop_last() =~= first + second.drop_last());
        lemma_count_concat(first, second.drop_last(), kind);
    }
}

proof fn lemma_count_one(a: CameraAction, kind: spec_fn(CameraAction) -> bool)
    ensures
        count(seq![a], kind) == one(a, kind),
{
    assert(seq![a].drop_last() =~= Seq::empty());
    assert(count(seq![a].drop_last(), kind) == 0);
}

proof fn lemma_count_three(
    a: CameraAction,
    b: CameraAction,
    c: CameraAction,
    kind: spec_fn(CameraAction) -> bool,
)
    ensures
        count(seq![a, b, c], kind) == one(a, kind) + one(b, kind) + one(c, kind),
{
    assert(seq![a, b, c] =~= seq![a] + seq![b] + seq![c]);
    lemma_count_concat(seq![a] + seq![b], seq![c], kind);
    lemma_count_concat(seq![a], seq![b], kind);
    lemma_count_one(a, kind);
    lemma_count_one(b, kind);
    lemma_count_one(c, kind);
}

/// How many actions of a kind it takes to make what is not there yet.
spec fn making(
    cache: TextureCache,
    grid: GridShape,
    kind: spec_fn(CameraAction) -> bool,
) -> nat {
    let size = accumulation_extent(grid);
    (if cache.accumulation is None {
        one(creation(TextureSlot::Accumulation, size), kind) + one(
            CameraAction::SpawnSprite(accumulation_sprite(size)),
            kind,
        ) + one(CameraAction::SpawnSprite(backdrop_sprite(size)), kind)
    } else {
        0
    }) + (if cache.hires is None {
        one(creation(TextureSlot::HiRes, square(HIRES_SIZE)), kind)
    } else {
        0
    }) + (if cache.lores is None {
        one(creation(TextureSlot::LoRes, square(LORES_SIZE)), kind)
    } else {
        0
    }) + (if cache.mesh_and_material {
        0
    } else {
        one(cache.quad_actions()[0], kind)
    })
}

/// How many actions of a kind a tile takes once everything has been made.
spec fn passing(
    distance: (int, int),
    size: Extent,
    kind: spec_fn(CameraAction) -> bool,
) -> nat {
    one(CameraAction::SpawnCamera(tile_camera(distance, size)), kind) + one(
        CameraAction::SpawnQuad { layer: DOWNSCALING_PASS_LAYER },
        kind,
    ) + one(CameraAction::SpawnCamera(accumulation_camera(distance)), kind) + one(
        CameraAction::NotifyWhenDone,
        kind,
    )
}

/// How many actions of a kind one tile takes.
proof fn lemma_count_tile(
    cache: TextureCache,
    grid: GridShape,
    distance: (int, int),
    kind: spec_fn(CameraAction) -> bool,
)
    ensures
        count(cache.tile_actions(grid, distance), kind) == making(cache, grid, kind) + passing(
            distance,
            cache.filled(grid).hires->0,
            kind,
        ),
{
    let size = accumulation_extent(grid);
    let accumulation = creation(TextureSlot::Accumulation, size);
    let hires = creation(TextureSlot::HiRes, square(HIRES_SIZE));
    let lores = creation(TextureSlot::LoRes, square(LORES_SIZE));
    let sprite = CameraAction::SpawnSprite(accumulation_sprite(size));
    let backdrop = CameraAction::SpawnSprite(backdrop_sprite(size));
    let camera = CameraAction::SpawnCamera(tile_camera(distance, cache.filled(grid).hires->0));
    let quad = CameraAction::SpawnQuad { layer: DOWNSCALING_PASS_LAYER };
    let scaling = CameraAction::SpawnCamera(accumulation_camera(distance));
    let report = CameraAction::NotifyWhenDone;
    let a = if cache.accumulation is None {
        seq![accumulation, sprite, backdrop]
    } else {
        Seq::empty()
    };
    let b = if cache.hires is None {
        seq![hires]
    } else {
        Seq::empty()
    };
    let c = if cache.lores is None {
        seq![lores]
    } else {
        Seq::empty()
    };
    let d = seq![camera];
    let e = cache.quad_actions();
    let f = seq![quad, scaling, report];
    assert(cache.tile_actions(grid, distance) == a + b + c + d + e + f);
    lemma_count_concat(a + b + c + d + e, f, kind);
    lemma_count_concat(a + b + c + d, e, kind);
    lemma_count_concat(a + b + c, d, kind);
    lemma_count_concat(a + b, c, kind);
    lemma_count_concat(a, b, kind);
    lemma_count_three(accumulation, sprite, backdrop, kind);
    lemma_count_one(hires, kind);
    lemma_count_one(lores, kind);
    lemma_count_one(camera, kind);
    if !cache.mesh_and_material {
        lemma_count_one(e[0], kind);
        assert(e =~= seq![e[0]]);
    }
    lemma_count_three(quad, scaling, report, kind);
}

/// How many actions of a kind the tiles under `events` take, if each takes `each`, and making
/// what is not there yet takes `extra`.
proof fn lemma_count_events(
    cache: TextureCache,
    tiles: Map<u64, Tile>,
    lower_left: Point,
    grid: GridShape,
    events: Seq<u64>,
    kind: spec_fn(CameraAction) -> bool,
    each: nat,
    extra: nat,
)
    requires
        forall|distance: (int, int), size: Extent| #[trigger]
            passing(distance, size, kind) == each,
        making(cache, grid, kind) == extra,
    ensures
        count(cache.actions(tiles, lower_left, grid, events), kind) == each * events.len() + (
        if events.len() > 0 {
            extra
        } else {
            0
        }),
    decreases events.len(),
{
    if events.len() > 0 {
        let before = events.drop_last();
        let now = cache.after(grid, before.len());
        let distance = offset(tiles[events.last()], lower_left);
        lemma_count_events(cache, tiles, lower_left, grid, before, kind, each, extra);
        lemma_count_tile(now, grid, distance, kind);
        lemma_count_concat(
            cache.actions(tiles, lower_left, grid, before),
            now.tile_actions(grid, distance),
            kind,
        );
        assert(each * events.len() == each * before.len() + each) by (nonlinear_arith)
            requires
                events.len() == before.len() + 1,
        ;
    }
}

/// Each picture is made at most once, however many tiles are rendered: with the first tile,
/// and only if it was not there before.
pub proof fn law_textures_are_made_once(
    cache: TextureCache,
    tiles: Map<u64, Tile>,
    lower_left: Point,
    grid: GridShape,
    events: Seq<u64>,
    slot: TextureSlot,
)
    ensures
        count(cache.actions(tiles, lower_left, grid, events), makes_texture(slot)) == (
        if events.len() > 0 && cache.texture(slot) is None {
            1nat
        } else {
            0nat
        }),
{
    let kind = makes_texture(slot);
    lemma_count_events(
        cache,
        tiles,
        lower_left,
        grid,
        events,
        kind,
        0,
        making(cache, grid, kind),
    );
}

/// The mesh and the material are made at most once, however many tiles are rendered.
pub proof fn law_quad_is_made_once(
    cache: TextureCache,
    tiles: Map<u64, Tile>,
    lower_left: Point,
    grid: GridShape,
    events: Seq<u64>,
)
    ensures
        count(cache.actions(tiles, lower_left, grid, events), makes_quad()) == (
        if events.len() > 0 && !cache.mesh_and_material {
            1nat
        } else {
            0nat
        }),
{
    let kind = makes_quad();
    lemma_count_events(
        cache,
        tiles,
        lower_left,
        grid,
        events,
        kind,
        0,
        making(cache, grid, kind),
    );
}

/// The two sprites, of all tiles and of what lies behind them, come with the picture of all
/// tiles, and so at most once.
pub proof fn law_sprites_are_made_once(
    cache: TextureCache,
    tiles: Map<u64, Tile>,
    lower_left: Point,
    grid: GridShape,
    events: Seq<u64>,
)
    ensures
        count(cache.actions(tiles, lower_left, grid, events), spawns_sprite()) == 2 * count(
            cache.actions(tiles, lower_left, grid, events),
            makes_texture(TextureSlot::Accumulation),
        ),
{
    let kind = spawns_sprite();
    lemma_count_events(
        cache,
        tiles,
        lower_left,
        grid,
        events,
        kind,
        0,
        making(cache, grid, kind),
    );
    law_textures_are_made_once(
        cache,
        tiles,
        lower_left,
        grid,
        events,
        TextureSlot::Accumulation,
    );
}

/// Every tile takes two cameras and one mesh, and asks for one report.
pub proof fn law_every_tile_takes_two_cameras_and_one_report(
    cache: TextureCache,
    tiles: Map<u64, Tile>,
    lower_left: Point,
    grid: GridShape,
    events: Seq<u64>,
)
    ensures
        count(cache.actions(tiles, lower_left, grid, events), spawns_camera()) == 2
            * events.len(),
        count(cache.actions(tiles, lower_left, grid, events), spawns_quad()) == events.len(),
        count(cache.actions(tiles, lower_left, grid, events), asks_for_report()) == events.len(),
{
    lemma_count_events(cache, tiles, lower_left, grid, events, spawns_camera(), 2, 0);
    lemma_count_events(cache, tiles, lower_left, grid, events, spawns_quad(), 1, 0);
    lemma_count_events(cache, tiles, lower_left, grid, events, asks_for_report(), 1, 0);
}

/// Every picture that is made is one to render into, of the size that its slot is kept with
/// from then on.
pub proof fn law_pictures_are_render_targets(
    cache: TextureCache,
    tiles: Map<u64, Tile>,
    lower_left: Point,
    grid: GridShape,
    events: Seq<u64>,
    i: int,
)
    requires
        0 <= i < cache.actions(tiles, lower_left, grid, events).len(),
    ensures
        cache.actions(tiles, lower_left, grid, events)[i] matches CameraAction::CreateTexture {
            slot,
            texture,
        } ==> texture == render_target(texture.size) && cache.after(grid, events.len()).texture(
            slot,
        ) == Some(texture.size),
    decreases events.len(),
{
    let before = events.drop_last();
    if i < cache.actions(tiles, lower_left, grid, before).len() {
        law_pictures_are_render_targets(cache, tiles, lower_left, grid, before, i);
    }
}

/// Whether tiles are rendered in one go or in two makes no difference.
pub proof fn law_rendering_can_be_split(
    cache: TextureCache,
    tiles: Map<u64, Tile>,
    lower_left: Point,
    grid: GridShape,
    first: Seq<u64>,
    second: Seq<u64>,
)
    ensures
        cache.actions(tiles, lower_left, grid, first + second) == cache.actions(
            tiles,
            lower_left,
            grid,
            first,
        ) + cache.after(grid, first.len()).actions(tiles, lower_left, grid, second),
        cache.after(grid, (first + second).len()) == cache.after(grid, first.len()).after(
            grid,
            second.len(),
        ),
    decreases second.len(),
{
    if second.len() == 0 {
        assert(first + second =~= first);
        assert(cache.actions(tiles, lower_left, grid, first) + Seq::<CameraAction>::empty()
            =~= cache.actions(tiles, lower_left, grid, first));
    } else {
        let all = first + second;
        let before = second.drop_last();
        assert(all.drop_last() =~= first + before);
        law_rendering_can_be_split(cache, tiles, lower_left, grid, first, before);
        assert(cache.actions(tiles, lower_left, grid, all) =~= cache.actions(
            tiles,
            lower_left,
            grid,
            first,
        ) + cache.after(grid, first.len()).actions(tiles, lower_left, grid, second));
    }
}

/// Whether a slot has a picture before action number `i`.
pub open spec fn has_texture(
    cache: TextureCache,
    actions: Seq<CameraAction>,
    i: int,
    slot: TextureSlot,
) -> bool {
    cache.texture(slot) is Some || exists|j: int|
        0 <= j < i && makes_texture(slot)(#[trigger] actions[j])
}

/// Whether there are a mesh and a material before action number `i`.
pub open spec fn has_quad(cache: TextureCache, actions: Seq<CameraAction>, i: int) -> bool {
    cache.mesh_and_material || exists|j: int| 0 <= j < i && (#[trigger] actions[j]) is CreateQuad
}

/// Whether all that action number `i` uses is there before it.
pub open spec fn is_supplied(cache: TextureCache, actions: Seq<CameraAction>, i: int) -> bool {
    match actions[i] {
        CameraAction::SpawnCamera(camera) => has_texture(cache, actions, i, camera.target),
        CameraAction::SpawnSprite(sprite) => sprite.texture matches Some(slot) ==> has_texture(
            cache,
            actions,
            i,
            slot,
        ),
        CameraAction::CreateQuad { material, .. } => has_texture(
            cache,
            actions,
            i,
            material.source_image,
        ),
        CameraAction::SpawnQuad { .. } => has_quad(cache, actions, i),
        CameraAction::CreateTexture { .. } => true,
        CameraAction::NotifyWhenDone => true,
    }
}


/// One tile finds all that it uses, and leaves all there is.
proof fn lemma_tile_is_supplied(cache: TextureCache, grid: GridShape, distance: (int, int))
    ensures
        forall|i: int|
            0 <= i < cache.tile_actions(grid, distance).len() ==> #[trigger] is_supplied(
                cache,
                cache.tile_actions(grid, distance),
                i,
            ),
        forall|slot: TextureSlot| #[trigger]
            has_texture(
                cache,
                cache.tile_actions(grid, distance),
                cache.tile_actions(grid, distance).len() as int,
                slot,
            ),
        has_quad(
            cache,
            cache.tile_actions(grid, distance),
            cache.tile_actions(grid, distance).len() as int,
        ),
{
    let actions = cache.tile_actions(grid, distance);
    let textures = cache.texture_actions(grid);
    let n = textures.len() as int;
    let a = if cache.accumulation is None {
        3int
    } else {
        0int
    };
    let h = if cache.hires is None {
        1int
    } else {
        0int
    };
    assert(forall|i: int| 0 <= i < n ==> #[trigger] actions[i] == textures[i]);
    if cache.accumulation is None {
        assert(makes_texture(TextureSlot::Accumulation)(actions[0]));
    }
    if cache.hires is None {
        assert(makes_texture(TextureSlot::HiRes)(actions[a]));
    }
    if cache.lores is None {
        assert(makes_texture(TextureSlot::LoRes)(actions[a + h]));
    }
    if !cache.mesh_and_material {
        assert(actions[n + 1] is CreateQuad);
    }
    assert forall|i: int| 0 <= i < actions.len() implies #[trigger] is_supplied(
        cache,
        actions,
        i,
    ) by {}
}

proof fn lemma_all_is_left(
    cache: TextureCache,
    tiles: Map<u64, Tile>,
    lower_left: Point,
    grid: GridShape,
    events: Seq<u64>,
)
    requires
        events.len() > 0,
    ensures
        forall|slot: TextureSlot| #[trigger]
            has_texture(
                cache,
                cache.actions(tiles, lower_left, grid, events),
                cache.actions(tiles, lower_left, grid, events).len() as int,
                slot,
            ),
        has_quad(
            cache,
            cache.actions(tiles, lower_left, grid, events),
            cache.actions(tiles, lower_left, grid, events).len() as int,
        ),
    decreases events.len(),
{
    let before = events.drop_last();
    let earlier = cache.actions(tiles, lower_left, grid, before);
    let actions = cache.actions(tiles, lower_left, grid, events);
    let distance = offset(tiles[events.last()], lower_left);
    if before.len() == 0 {
        lemma_tile_is_supplied(cache, grid, distance);
        assert(actions =~= cache.tile_actions(grid, distance));
    } else {
        lemma_all_is_left(cache, tiles, lower_left, grid, before);
        assert(forall|j: int| 0 <= j < earlier.len() ==> #[trigger] actions[j] == earlier[j]);
        assert forall|slot: TextureSlot| #[trigger]
            has_texture(cache, actions, actions.len() as int, slot) by {
            assert(has_texture(cache, earlier, earlier.len() as int, slot));
            if cache.texture(slot) is None {
                let j = choose|j: int|
                    0 <= j < earlier.len() && makes_texture(slot)(#[trigger] earlier[j]);
                assert(makes_texture(slot)(actions[j]));
            }
        }
        if !cache.mesh_and_material {
            let j = choose|j: int|
                0 <= j < earlier.len() && (#[trigger] earlier[j]) is CreateQuad;
            assert(actions[j] is CreateQuad);
        }
    }
}

/// Nothing is used before it is there: every picture that a camera renders into, that a
/// sprite shows or that the material reads is kept already or was made by an earlier action,
/// and so are the mesh and the material that are added to the scene.
pub proof fn law_nothing_is_used_before_it_is_made(
    cache: TextureCache,
    tiles: Map<u64, Tile>,
    lower_left: Point,
    grid: GridShape,
    events: Seq<u64>,
    i: int,
)
    requires
        0 <= i < cache.actions(tiles, lower_left, grid, events).len(),
    ensures
        is_supplied(cache, cache.actions(tiles, lower_left, grid, events), i),
    decreases events.len(),
{
    let before = events.drop_last();
    let earlier = cache.actions(tiles, lower_left, grid, before);
    let actions = cache.actions(tiles, lower_left, grid, events);
    let n = earlier.len() as int;
    assert(forall|j: int| 0 <= j < n ==> #[trigger] actions[j] == earlier[j]);
    if i < n {
        law_nothing_is_used_before_it_is_made(cache, tiles, lower_left, grid, before, i);
        assert forall|slot: TextureSlot| #[trigger]
            has_texture(cache, earlier, i, slot) implies has_texture(cache, actions, i, slot) by {
            if cache.texture(slot) is None {
                let j = choose|j: int|
                    0 <= j < i && makes_texture(slot)(#[trigger] earlier[j]);
                assert(makes_texture(slot)(actions[j]));
            }
        }
        if has_quad(cache, earlier, i) && !cache.mesh_and_material {
            let j = choose|j: int| 0 <= j < i && (#[trigger] earlier[j]) is CreateQuad;
            assert(actions[j] is CreateQuad);
        }
    } else {
        let now = cache.after(grid, before.len());
        let distance = offset(tiles[events.last()], lower_left);
        let last = now.tile_actions(grid, distance);
        lemma_tile_is_supplied(now, grid, distance);
        assert(is_supplied(now, last, i - n));
        assert(forall|j: int| 0 <= j < last.len() ==> #[trigger] last[j] == actions[n + j]);
        if before.len() > 0 {
            lemma_all_is_left(cache, tiles, lower_left, grid, before);
        }
        assert forall|slot: TextureSlot| #[trigger]
            has_texture(now, last, i - n, slot) implies has_texture(cache, actions, i, slot) by {
            if cache.texture(slot) is None {
                if now.texture(slot) is None {
                    let j = choose|j: int|
                        0 <= j < i - n && makes_texture(slot)(#[trigger] last[j]);
                    assert(makes_texture(slot)(actions[n + j]));
                } else {
                    assert(has_texture(cache, earlier, n, slot));
                    let j = choose|j: int|
                        0 <= j < n && makes_texture(slot)(#[trigger] earlier[j]);
                    assert(makes_texture(slot)(actions[j]));
                }
            }
        }
        if has_quad(now, last, i - n) && !cache.mesh_and_material {
            if now.mesh_and_material {
                let j = choose|j: int| 0 <= j < n && (#[trigger] earlier[j]) is CreateQuad;
                assert(actions[j] is CreateQuad);
            } else {
                let j = choose|j: int| 0 <= j < i - n && (#[trigger] last[j]) is CreateQuad;
                assert(actions[n + j] is CreateQuad);
            }
        }
    }
}

/// Whether the render layer that an action names is one that there is.
pub open spec fn names_a_layer(action: CameraAction) -> bool {
    match action {
        CameraAction::SpawnCamera(camera) => camera.layer matches Some(layer) ==> layer
            < TOTAL_LAYERS,
        CameraAction::SpawnSprite(sprite) => sprite.layer < TOTAL_LAYERS,
        CameraAction::SpawnQuad { layer } => layer < TOTAL_LAYERS,
        CameraAction::CreateTexture { .. } => true,
        CameraAction::CreateQuad { .. } => true,
        CameraAction::NotifyWhenDone => true,
    }
}

/// Every render layer that is named in rendering tiles is one that there is.
pub proof fn law_render_layers_exist(
    cache: TextureCache,
    tiles: Map<u64, Tile>,
    lower_left: Point,
    grid: GridShape,
    events: Seq<u64>,
    i: int,
)
    requires
        0 <= i < cache.actions(tiles, lower_left, grid, events).len(),
    ensures
        names_a_layer(cache.actions(tiles, lower_left, grid, events)[i]),
    decreases events.len(),
{
    let before = events.drop_last();
    if i < cache.actions(tiles, lower_left, grid, before).len() {
        law_render_layers_exist(cache, tiles, lower_left, grid, before, i);
    }
}

/// The passes of a tile follow on each other: the camera over the tile renders before the
/// one that scales down; the material reads the picture that the camera over the tile renders
/// into; and the mesh with the material is seen by the camera that scales down, but not by
/// the one over the tile.
pub proof fn law_passes_follow_on_each_other(
    cache: TextureCache,
    grid: GridShape,
    distance: (int, int),
    size: Extent,
    i: int,
)
    requires
        0 <= i < cache.tile_actions(grid, distance).len(),
    ensures
        tile_camera(distance, size).priority < accumulation_camera(distance).priority,
        cache.tile_actions(grid, distance)[i] matches CameraAction::CreateQuad { material, .. }
            ==> material.source_image == tile_camera(distance, size).target,
        cache.tile_actions(grid, distance)[i] matches CameraAction::SpawnQuad { layer }
            ==> accumulation_camera(distance).layer == Some(layer) && tile_camera(
            distance,
            size,
        ).layer != Some(layer),
{
}

/// How many layout units a tile is wide and high.
pub open spec fn tile_units() -> int {
    HIRES_SIZE * UNITS_PER_PIXEL
}

/// Two parts of a picture that have no pixel in common.
pub open spec fn apart(a: Viewport, b: Viewport) -> bool {
    ||| a.x + a.width <= b.x
    ||| b.x + b.width <= a.x
    ||| a.y + a.height <= b.y
    ||| b.y + b.height <= a.y
}

proof fn lemma_units()
    ensures
        tile_units() == 16384,
        UNITS_PER_PIXEL * DOWNSCALING == 512,
{
    assert(HIRES_SIZE * UNITS_PER_PIXEL == 16384) by (nonlinear_arith)
        requires
            HIRES_SIZE == 4096,
            UNITS_PER_PIXEL == 4,
    ;
    assert(UNITS_PER_PIXEL * DOWNSCALING == 512) by (nonlinear_arith)
        requires
            UNITS_PER_PIXEL == 4,
            DOWNSCALING == 128,
    ;
}

proof fn lemma_scaled_position(distance: int)
    requires
        0 <= distance,
        distance / 512 <= u32::MAX,
    ensures
        scaled_position(distance / UNITS_PER_PIXEL as int) == distance / 512,
{
    let scaled = distance / 512;
    assert((distance / 4) / 128 == scaled);
    assert(scaled % 0x1_0000_0000 == scaled);
}

/// A tile is scaled down by as much as its picture at full resolution is larger than its
/// place in the picture of all tiles, and that place is where its camera hangs, scaled down
/// in the same way. Distances whose place does not fit into 32 bits are left out.
pub proof fn law_viewport_lies_under_the_camera(distance: (int, int), size: Extent)
    requires
        0 <= distance.0 <= i64::MAX,
        0 <= distance.1 <= i64::MAX,
        distance.0 / (UNITS_PER_PIXEL * DOWNSCALING) <= u32::MAX,
        distance.1 / (UNITS_PER_PIXEL * DOWNSCALING) <= u32::MAX,
    ensures
        ({
            let camera = tile_camera(distance, size).translation->0;
            let viewport = tile_viewport(distance);
            &&& viewport.width * DOWNSCALING == HIRES_SIZE
            &&& viewport.height * DOWNSCALING == HIRES_SIZE
            &&& viewport.x == camera.x as int / DOWNSCALING as int
            &&& viewport.y == camera.y as int / DOWNSCALING as int
        }),
{
    lemma_units();
    lemma_scaled_position(distance.0);
    lemma_scaled_position(distance.1);
    assert(LORES_SIZE * DOWNSCALING == HIRES_SIZE) by (nonlinear_arith)
        requires
            LORES_SIZE == 32,
            DOWNSCALING == 128,
            HIRES_SIZE == 4096,
    ;
}

/// Tiles that do not overlap have places in the picture of all tiles that do not overlap.
/// Distances whose place does not fit into 32 bits are left out.
pub proof fn law_viewports_do_not_overlap(first: (int, int), second: (int, int))
    requires
        0 <= first.0 && first.0 / (UNITS_PER_PIXEL * DOWNSCALING) <= u32::MAX,
        0 <= first.1 && first.1 / (UNITS_PER_PIXEL * DOWNSCALING) <= u32::MAX,
        0 <= second.0 && second.0 / (UNITS_PER_PIXEL * DOWNSCALING) <= u32::MAX,
        0 <= second.1 && second.1 / (UNITS_PER_PIXEL * DOWNSCALING) <= u32::MAX,
        first.0 + tile_units() <= second.0 || second.0 + tile_units() <= first.0 || first.1
            + tile_units() <= second.1 || second.1 + tile_units() <= first.1,
    ensures
        apart(tile_viewport(first), tile_viewport(second)),
{
    lemma_units();
    lemma_scaled_position(first.0);
    lemma_scaled_position(first.1);
    lemma_scaled_position(second.0);
    lemma_scaled_position(second.1);
}

/// The place of a tile that lies in the grid lies in the picture of the grid.
pub proof fn law_viewport_lies_in_the_picture(distance: (int, int), grid: GridShape)
    requires
        grid_fits(grid),
        0 <= distance.0 <= (grid.x - 1) * tile_units(),
        0 <= distance.1 <= (grid.y - 1) * tile_units(),
    ensures
        tile_viewport(distance).x + tile_viewport(distance).width <= accumulation_extent(
            grid,
        ).width,
        tile_viewport(distance).y + tile_viewport(distance).height <= accumulation_extent(
            grid,
        ).height,
{
    lemma_units();
    assert(distance.0 <= (grid.x - 1) * 16384);
    assert(distance.1 <= (grid.y - 1) * 16384);
    assert(grid.x * LORES_SIZE == grid.x * 32);
    assert(grid.y * LORES_SIZE == grid.y * 32);
    lemma_scaled_position(distance.0);
    lemma_scaled_position(distance.1);
}

/// The tile at column `i` and row `j` of the grid fills exactly the square at column `i` and
/// row `j` of the picture of the grid.
pub proof fn law_tiles_fill_the_picture(i: int, j: int, grid: GridShape)
    requires
        grid_fits(grid),
        0 <= i < grid.x,
        0 <= j < grid.y,
    ensures
        tile_viewport((i * tile_units(), j * tile_units())) == (Viewport {
            x: (i * LORES_SIZE) as u32,
            y: (j * LORES_SIZE) as u32,
            width: LORES_SIZE,
            height: LORES_SIZE,
        }),
{
    lemma_units();
    assert(grid.x * LORES_SIZE == grid.x * 32);
    assert(grid.y * LORES_SIZE == grid.y * 32);
    assert(i * tile_units() == i * 16384);
    assert(j * tile_units() == j * 16384);
    assert(i * LORES_SIZE == i * 32);
    assert(j * LORES_SIZE == j * 32);
    lemma_scaled_position(i * 16384);
    lemma_scaled_position(j * 16384);
}

/// The triangle of the downscaling pass covers its whole target: every point of the target
/// (here `x / n` and `y / n`, with -1 and 1 at the borders) is a mean of the three corners
/// with weights that are not negative. There the picture is read at the same place, from the
/// upper left corner on.
pub proof fn law_triangle_covers_the_target(n: int, x: int, y: int)
    requires
        n > 0,
        -n <= x <= n,
        -n <= y <= n,
    ensures
        ({
            let mesh = fullscreen();
            let a = 2 * n - x + y;
            let b = n - y;
            let c = x + n;
            &&& a >= 0 && b >= 0 && c >= 0 && a + b + c == 4 * n
            &&& a * mesh.a.position.0 + b * mesh.b.position.0 + c * mesh.c.position.0 == 4 * x
            &&& a * mesh.a.position.1 + b * mesh.b.position.1 + c * mesh.c.position.1 == 4 * y
            &&& a * mesh.a.uv.0 + b * mesh.b.uv.0 + c * mesh.c.uv.0 == 2 * (n + x)
            &&& a * mesh.a.uv.1 + b * mesh.b.uv.1 + c * mesh.c.uv.1 == 2 * (n - y)
        }),
{
    let mesh = fullscreen();
    let a = 2 * n - x + y;
    let b = n - y;
    let c = x + n;
    assert(a * mesh.a.position.0 == a * -1);
    assert(b * mesh.b.position.0 == b * -1);
    assert(c * mesh.c.position.0 == c * 3);
    assert(a * mesh.a.position.1 == a * 1);
    assert(b * mesh.b.position.1 == b * -3);
    assert(c * mesh.c.position.1 == c * 1);
    assert(a * mesh.a.uv.0 == a * 0);
    assert(b * mesh.b.uv.0 == b * 0);
    assert(c * mesh.c.uv.0 == c * 2);
    assert(a * mesh.a.uv.1 == a * 0);
    assert(b * mesh.b.uv.1 == b * 2);
    assert(c * mesh.c.uv.1 == c * 0);
}

/// With the lower left corner of all tiles at the origin, whatever lies in a tile is drawn
/// in view of the tile's camera.
pub proof fn law_tile_is_in_view(tile: Tile, corner: Point)
    requires
        tile.extents_min.x >= 0,
        tile.extents_min.y >= 0,
        tile.extents_min.x <= corner.x <= tile.extents_min.x + tile_units(),
        tile.extents_min.y <= corner.y <= tile.extents_min.y + tile_units(),
    ensures
        ({
            let camera = tile_camera(
                offset(tile, Point { x: 0, y: 0 }),
                square(HIRES_SIZE),
            ).translation->0;
            &&& camera.x <= pixel(corner.x) <= camera.x + HIRES_SIZE
            &&& camera.y <= pixel(corner.y) <= camera.y + HIRES_SIZE
        }),
{
    lemma_units();
}

/// The sprite behind the picture of all tiles sticks out equally far on all sides of it, lies
/// under it and is seen by the same camera.
pub proof fn law_backdrop_frames_the_picture(size: Extent)
    ensures
        ({
            let picture = accumulation_sprite(size);
            let backdrop = backdrop_sprite(size);
            let left = picture.offset_percent - backdrop.offset_percent;
            let right = (backdrop.offset_percent + backdrop.scale_percent) - (
            picture.offset_percent + picture.scale_percent);
            &&& left == right
            &&& left > 0
            &&& backdrop.size == picture.size
            &&& backdrop.z < picture.z
            &&& backdrop.layer == picture.layer
        }),
{
}

}
