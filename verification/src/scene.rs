//! What becomes of a scene when tiles are drawn into it and when it is cleared.

use crate::channel::RenderingDoneChannel;
use crate::despawn::{cleanup, is_despawn, response, DespawnAction};
use crate::shapes::{placements, LyonShapeBundle, ShapeAction, ShapeBundle, Tables};
use crate::tiles::Tile;
use crossbeam_channel::TryRecvError;
use vstd::prelude::*;

verus! {

/// The shapes and the cameras of the renderer, where `E` tells the cameras apart, and how
/// often the end of a rendering was made known.
#[verifier::reject_recursive_types(E)]
pub struct Scene<C, E> {
    pub shapes: Seq<ShapeBundle<C>>,
    pub cameras: Set<E>,
    pub completed: nat,
}

/// The shapes of a scene behind one action.
pub open spec fn after_shape_action<C>(
    shapes: Seq<ShapeBundle<C>>,
    action: ShapeAction<C>,
) -> Seq<ShapeBundle<C>> {
    match action {
        ShapeAction::Reuse { slot, path, z } => shapes.update(
            slot as int,
            ShapeBundle { path, z, is_visible: true, mode: shapes[slot as int].mode },
        ),
        ShapeAction::Spawn(bundle) => shapes.push(bundle.lyon),
    }
}

/// The shapes of a scene behind a run of actions.
pub open spec fn after_shape_actions<C>(
    shapes: Seq<ShapeBundle<C>>,
    actions: Seq<ShapeAction<C>>,
) -> Seq<ShapeBundle<C>>
    decreases actions.len(),
{
    if actions.len() == 0 {
        shapes
    } else {
        after_shape_action(after_shape_actions(shapes, actions.drop_last()), actions.last())
    }
}

impl<C, E> Scene<C, E> {
    /// The scene behind one action.
    pub open spec fn after_despawn_action(self, action: DespawnAction<E>) -> Scene<C, E> {
        match action {
            DespawnAction::DespawnCamera(camera) => Scene {
                cameras: self.cameras.remove(camera),
                ..self
            },
            DespawnAction::HideShape { slot } => Scene {
                shapes: self.shapes.update(
                    slot as int,
                    ShapeBundle { is_visible: false, ..self.shapes[slot as int] },
                ),
                ..self
            },
            DespawnAction::CompleteRendering => Scene { completed: self.completed + 1, ..self },
        }
    }

    /// The scene behind a run of actions.
    pub open spec fn after_despawn_actions(self, actions: Seq<DespawnAction<E>>) -> Scene<C, E>
        decreases actions.len(),
    {
        if actions.len() == 0 {
            self
        } else {
            self.after_despawn_actions(actions.drop_last()).after_despawn_action(actions.last())
        }
    }
}

/// No shape of the scene is visible.
pub open spec fn all_hidden<C>(shapes: Seq<ShapeBundle<C>>) -> bool {
    forall|k: int| 0 <= k < shapes.len() ==> !(#[trigger] shapes[k]).is_visible
}

/// A shape at its place in the scene, once the shapes of a tile are drawn over it.
pub open spec fn drawn_over<C>(
    shapes: Seq<ShapeBundle<C>>,
    bundles: Seq<LyonShapeBundle<C>>,
    k: int,
) -> ShapeBundle<C> {
    if k >= bundles.len() {
        shapes[k]
    } else if k < shapes.len() {
        ShapeBundle {
            path: bundles[k].lyon.path,
            z: bundles[k].lyon.z,
            is_visible: true,
            mode: shapes[k].mode,
        }
    } else {
        bundles[k].lyon
    }
}

/// The shapes of a scene once the shapes of a tile are drawn over them.
pub open spec fn all_drawn_over<C>(
    shapes: Seq<ShapeBundle<C>>,
    bundles: Seq<LyonShapeBundle<C>>,
) -> Seq<ShapeBundle<C>> {
    Seq::new(
        if bundles.len() > shapes.len() {
            bundles.len()
        } else {
            shapes.len()
        },
        |k: int| drawn_over(shapes, bundles, k),
    )
}

proof fn lemma_placements_prefix<C>(
    shapes: Seq<ShapeBundle<C>>,
    bundles: Seq<LyonShapeBundle<C>>,
    n: nat,
)
    requires
        shapes.len() <= usize::MAX,
        n <= bundles.len(),
    ensures
        after_shape_actions(shapes, placements(bundles, shapes.len()).take(n as int))
            == all_drawn_over(shapes, bundles.take(n as int)),
    decreases n,
{
    let actions = placements(bundles, shapes.len());
    if n == 0 {
        assert(all_drawn_over(shapes, bundles.take(0)) =~= shapes);
    } else {
        let m = (n - 1) as nat;
        lemma_placements_prefix(shapes, bundles, m);
        assert(actions.take(n as int).drop_last() =~= actions.take(m as int));
        assert(actions.take(n as int).last() == actions[m as int]);
        assert(all_drawn_over(shapes, bundles.take(n as int)) =~= after_shape_action(
            all_drawn_over(shapes, bundles.take(m as int)),
            actions[m as int],
        ));
    }
}

/// Drawing a tile puts its shapes one for one over those of the scene, from the first on.
/// Where the scene has too few, the rest of the tile's shapes is added to it; what the tile
/// does not reach stays as it was. A shape that is drawn over keeps the way it is painted.
pub proof fn law_tile_is_drawn_over_the_scene<C>(
    shapes: Seq<ShapeBundle<C>>,
    tables: Tables<C>,
    tiles: Map<u64, Tile>,
    key: u64,
)
    requires
        shapes.len() <= usize::MAX,
    ensures
        after_shape_actions(shapes, tables.actions(tiles, seq![key], shapes.len()))
            == all_drawn_over(shapes, tables.bundles(tiles[key].shapes@)),
{
    let bundles = tables.bundles(tiles[key].shapes@);
    let actions = placements(bundles, shapes.len());
    assert(seq![key].drop_last() =~= Seq::<u64>::empty());
    assert(tables.actions(tiles, Seq::<u64>::empty(), shapes.len()) =~= Seq::empty());
    assert(tables.actions(tiles, seq![key], shapes.len()) =~= actions);
    lemma_placements_prefix(shapes, bundles, bundles.len());
    assert(actions.take(bundles.len() as int) =~= actions);
    assert(bundles.take(bundles.len() as int) =~= bundles);
}

/// In a scene without visible shapes, drawing a tile makes exactly the tile's shapes
/// visible: as many as it has rectangles, each with the path and the height of its
/// rectangle.
pub proof fn law_exactly_the_tile_is_visible<C>(
    shapes: Seq<ShapeBundle<C>>,
    tables: Tables<C>,
    tiles: Map<u64, Tile>,
    key: u64,
)
    requires
        shapes.len() <= usize::MAX,
        all_hidden(shapes),
    ensures
        ({
            let bundles = tables.bundles(tiles[key].shapes@);
            let drawn = after_shape_actions(
                shapes,
                tables.actions(tiles, seq![key], shapes.len()),
            );
            &&& bundles.len() <= drawn.len()
            &&& forall|k: int|
                0 <= k < drawn.len() ==> ((#[trigger] drawn[k]).is_visible <==> k < bundles.len())
            &&& forall|k: int|
                0 <= k < bundles.len() ==> (#[trigger] drawn[k]).path == bundles[k].lyon.path
                    && drawn[k].z == bundles[k].lyon.z
        }),
{
    law_tile_is_drawn_over_the_scene(shapes, tables, tiles, key);
    let bundles = tables.bundles(tiles[key].shapes@);
    lemma_bundles_visible(tables, tiles[key].shapes@);
    assert forall|k: int|
        0 <= k < all_drawn_over(shapes, bundles).len() implies ((#[trigger] all_drawn_over(
        shapes,
        bundles,
    )[k]).is_visible <==> k < bundles.len()) by {
        if k >= bundles.len() {
            assert(!shapes[k].is_visible);
        }
    }
}

proof fn lemma_bundles_visible<C>(tables: Tables<C>, shapes: Seq<usize>)
    ensures
        forall|k: int|
            0 <= k < tables.bundles(shapes).len() ==> (#[trigger] tables.bundles(
                shapes,
            )[k]).lyon.is_visible,
    decreases shapes.len(),
{
    if shapes.len() > 0 {
        lemma_bundles_visible(tables, shapes.drop_last());
    }
}

proof fn lemma_actions_concat<C>(
    shapes: Seq<ShapeBundle<C>>,
    first: Seq<ShapeAction<C>>,
    second: Seq<ShapeAction<C>>,
)
    ensures
        after_shape_actions(shapes, first + second) == after_shape_actions(
            after_shape_actions(shapes, first),
            second,
        ),
    decreases second.len(),
{
    if second.len() == 0 {
        assert(first + second =~= first);
    } else {
        assert((first + second).drop_last() =~= first + second.drop_last());
        lemma_actions_concat(shapes, first, second.drop_last());
    }
}

/// What any run of actions on slots of the scene leaves alone.
proof fn lemma_actions_keep<C>(
    shapes: Seq<ShapeBundle<C>>,
    actions: Seq<ShapeAction<C>>,
    existing: nat,
)
    requires
        existing <= shapes.len(),
        forall|i: int|
            0 <= i < actions.len() ==> ((#[trigger] actions[i]) matches ShapeAction::Reuse {
                slot,
                ..
            } ==> slot < existing),
    ensures
        shapes.len() <= after_shape_actions(shapes, actions).len(),
        forall|k: int|
            0 <= k < shapes.len() ==> (#[trigger] after_shape_actions(shapes, actions)[k]).mode
                == shapes[k].mode,
    decreases actions.len(),
{
    if actions.len() > 0 {
        let before = actions.drop_last();
        assert forall|i: int| 0 <= i < before.len() implies ((
        #[trigger] before[i]) matches ShapeAction::Reuse { slot, .. } ==> slot < existing) by {
            assert(before[i] == actions[i]);
        }
        lemma_actions_keep(shapes, before, existing);
        assert(actions[actions.len() - 1] == actions.last());
    }
}

proof fn lemma_actions_in_range<C>(
    tables: Tables<C>,
    tiles: Map<u64, Tile>,
    events: Seq<u64>,
    existing: nat,
)
    requires
        existing <= usize::MAX,
    ensures
        forall|i: int|
            0 <= i < tables.actions(tiles, events, existing).len() ==> ((#[trigger] tables.actions(
                tiles,
                events,
                existing,
            )[i]) matches ShapeAction::Reuse { slot, .. } ==> slot < existing),
    decreases events.len(),
{
    if events.len() > 0 {
        lemma_actions_in_range(tables, tiles, events.drop_last(), existing);
    }
}

/// Drawing any tiles never takes a shape out of the scene, and never changes how a shape
/// that was there is painted.
pub proof fn law_drawing_keeps_the_scene<C>(
    shapes: Seq<ShapeBundle<C>>,
    tables: Tables<C>,
    tiles: Map<u64, Tile>,
    events: Seq<u64>,
)
    requires
        shapes.len() <= usize::MAX,
    ensures
        ({
            let drawn = after_shape_actions(shapes, tables.actions(tiles, events, shapes.len()));
            &&& shapes.len() <= drawn.len()
            &&& forall|k: int|
                0 <= k < shapes.len() ==> (#[trigger] drawn[k]).mode == shapes[k].mode
        }),
{
    lemma_actions_in_range(tables, tiles, events, shapes.len());
    lemma_actions_keep(shapes, tables.actions(tiles, events, shapes.len()), shapes.len());
}

/// What lies on top at place `k` once the tiles under `events` are drawn: the shape of the
/// last of them that has so many.
pub open spec fn topmost<C>(
    tables: Tables<C>,
    tiles: Map<u64, Tile>,
    events: Seq<u64>,
    k: int,
) -> Option<LyonShapeBundle<C>>
    decreases events.len(),
{
    if events.len() == 0 {
        None
    } else {
        let bundles = tables.bundles(tiles[events.last()].shapes@);
        if k < bundles.len() {
            Some(bundles[k])
        } else {
            topmost(tables, tiles, events.drop_last(), k)
        }
    }
}

/// The shapes of the tiles under `events` that find no place among `existing` shapes, tile
/// by tile.
pub open spec fn overflow<C>(
    tables: Tables<C>,
    tiles: Map<u64, Tile>,
    events: Seq<u64>,
    existing: nat,
) -> Seq<ShapeBundle<C>>
    decreases events.len(),
{
    if events.len() == 0 {
        Seq::empty()
    } else {
        overflow(tables, tiles, events.drop_last(), existing) + beyond(
            tables.bundles(tiles[events.last()].shapes@),
            existing,
        )
    }
}

/// The shapes of one tile that find no place among `existing` shapes.
pub open spec fn beyond<C>(bundles: Seq<LyonShapeBundle<C>>, existing: nat) -> Seq<ShapeBundle<C>> {
    Seq::new(
        if bundles.len() > existing {
            (bundles.len() - existing) as nat
        } else {
            0
        },
        |k: int| bundles[existing + k].lyon,
    )
}

/// A shape of the scene with another one drawn over it.
pub open spec fn covered<C>(
    shape: ShapeBundle<C>,
    bundle: Option<LyonShapeBundle<C>>,
) -> ShapeBundle<C> {
    match bundle {
        Some(over) => ShapeBundle {
            path: over.lyon.path,
            z: over.lyon.z,
            is_visible: true,
            mode: shape.mode,
        },
        None => shape,
    }
}

/// The shapes of a scene once the tiles under `events` are drawn in one go.
pub open spec fn all_covered<C>(
    shapes: Seq<ShapeBundle<C>>,
    tables: Tables<C>,
    tiles: Map<u64, Tile>,
    events: Seq<u64>,
) -> Seq<ShapeBundle<C>> {
    Seq::new(
        shapes.len(),
        |k: int| covered(shapes[k], topmost(tables, tiles, events, k)),
    ) + overflow(tables, tiles, events, shapes.len())
}

/// One more tile of a batch, its first `n` shapes.
proof fn lemma_one_more_tile<C>(
    under: Seq<ShapeBundle<C>>,
    bundles: Seq<LyonShapeBundle<C>>,
    existing: nat,
    n: nat,
)
    requires
        existing <= usize::MAX,
        existing <= under.len(),
        n <= bundles.len(),
    ensures
        after_shape_actions(under, placements(bundles, existing).take(n as int)) == Seq::new(
            under.len(),
            |k: int|
                covered(
                    under[k],
                    if k < existing && k < n {
                        Some(bundles[k])
                    } else {
                        None
                    },
                ),
        ) + beyond(bundles.take(n as int), existing),
    decreases n,
{
    let actions = placements(bundles, existing);
    let drawn = |m: nat|
        Seq::new(
            under.len(),
            |k: int|
                covered(
                    under[k],
                    if k < existing && k < m {
                        Some(bundles[k])
                    } else {
                        None
                    },
                ),
        ) + beyond(bundles.take(m as int), existing);
    if n == 0 {
        assert(drawn(0) =~= under);
    } else {
        let m = (n - 1) as nat;
        lemma_one_more_tile(under, bundles, existing, m);
        assert(actions.take(n as int).drop_last() =~= actions.take(m as int));
        assert(actions.take(n as int).last() == actions[m as int]);
        assert(after_shape_action(drawn(m), actions[m as int]) =~= drawn(n));
    }
}

/// Of several tiles that are drawn in one go, each starts again at the first shape of the
/// scene. So a place of the scene ends with the shape of the last tile that has so many, and
/// is unchanged where none has; and each tile adds the shapes that it has more than the scene
/// had.
pub proof fn law_tiles_are_drawn_over_each_other<C>(
    shapes: Seq<ShapeBundle<C>>,
    tables: Tables<C>,
    tiles: Map<u64, Tile>,
    events: Seq<u64>,
)
    requires
        shapes.len() <= usize::MAX,
    ensures
        after_shape_actions(shapes, tables.actions(tiles, events, shapes.len())) == all_covered(
            shapes,
            tables,
            tiles,
            events,
        ),
    decreases events.len(),
{
    if events.len() == 0 {
        assert(all_covered(shapes, tables, tiles, events) =~= shapes);
    } else {
        let before = events.drop_last();
        let bundles = tables.bundles(tiles[events.last()].shapes@);
        let last = placements(bundles, shapes.len());
        let under = all_covered(shapes, tables, tiles, before);
        law_tiles_are_drawn_over_each_other(shapes, tables, tiles, before);
        lemma_actions_concat(shapes, tables.actions(tiles, before, shapes.len()), last);
        lemma_one_more_tile(under, bundles, shapes.len(), bundles.len());
        assert(last.take(bundles.len() as int) =~= last);
        assert(bundles.take(bundles.len() as int) =~= bundles);
        assert(all_covered(shapes, tables, tiles, events) =~= after_shape_actions(under, last));
    }
}

/// Of two tiles that are drawn in one go, a place of the scene ends with the second tile's
/// shape if that tile has so many, else with the first tile's if that has, else unchanged;
/// and what either has more than the scene had is added.
pub proof fn law_second_tile_lies_on_top<C>(
    shapes: Seq<ShapeBundle<C>>,
    tables: Tables<C>,
    tiles: Map<u64, Tile>,
    first: u64,
    second: u64,
)
    requires
        shapes.len() <= usize::MAX,
    ensures
        ({
            let a = tables.bundles(tiles[first].shapes@);
            let b = tables.bundles(tiles[second].shapes@);
            let n = shapes.len();
            let drawn = after_shape_actions(
                shapes,
                tables.actions(tiles, seq![first, second], n),
            );
            &&& drawn.len() == n + (if a.len() > n {
                a.len() - n
            } else {
                0
            }) + (if b.len() > n {
                b.len() - n
            } else {
                0
            })
            &&& forall|k: int|
                0 <= k < n ==> #[trigger] drawn[k] == covered(
                    shapes[k],
                    if k < b.len() {
                        Some(b[k])
                    } else if k < a.len() {
                        Some(a[k])
                    } else {
                        None
                    },
                )
            &&& drawn.skip(n as int) == beyond(a, n) + beyond(b, n)
        }),
{
    let events = seq![first, second];
    let n = shapes.len();
    let a = tables.bundles(tiles[first].shapes@);
    let b = tables.bundles(tiles[second].shapes@);
    law_tiles_are_drawn_over_each_other(shapes, tables, tiles, events);
    assert(events.drop_last() =~= seq![first]);
    assert(seq![first].drop_last() =~= Seq::<u64>::empty());
    assert(overflow(tables, tiles, Seq::<u64>::empty(), n) =~= Seq::empty());
    assert(overflow(tables, tiles, seq![first], n) =~= beyond(a, n));
    assert(overflow(tables, tiles, events, n) =~= beyond(a, n) + beyond(b, n));
    assert forall|k: int| 0 <= k < n implies #[trigger] topmost(tables, tiles, events, k) == (
    if k < b.len() {
        Some(b[k])
    } else if k < a.len() {
        Some(a[k])
    } else {
        None
    }) by {
        assert(topmost(tables, tiles, Seq::<u64>::empty(), k) is None);
        assert(topmost(tables, tiles, seq![first], k) == (if k < a.len() {
            Some(a[k])
        } else {
            None
        }));
    }
    assert(all_covered(shapes, tables, tiles, events).skip(n as int) =~= overflow(
        tables,
        tiles,
        events,
        n,
    ));
}

/// Elements that are no rectangles change nothing: a tile is drawn as if it had only its
/// rectangles, and has as many shapes as those.
pub proof fn law_only_rectangles_are_drawn<C>(tables: Tables<C>, shapes: Seq<usize>)
    ensures
        ({
            let rectangles = shapes.filter(
                |index: usize| tables.elems[index as int].inner is Rect,
            );
            &&& tables.bundles(shapes) == tables.bundles(rectangles)
            &&& tables.bundles(shapes).len() == rectangles.len()
        }),
    decreases shapes.len(),
{
    reveal(Seq::filter);
    let is_rect = |index: usize| tables.elems[index as int].inner is Rect;
    if shapes.len() > 0 {
        law_only_rectangles_are_drawn(tables, shapes.drop_last());
        let earlier = shapes.drop_last().filter(is_rect);
        if is_rect(shapes.last()) {
            assert(shapes.filter(is_rect) =~= earlier.push(shapes.last()));
            assert(earlier.push(shapes.last()).drop_last() =~= earlier);
        }
    }
}

/// What happens to a scene: one tile is drawn into it, or it is cleared of these cameras.
pub enum SceneStep<E> {
    Draw(u64),
    Clear(Seq<E>),
}

impl<C, E> Scene<C, E> {
    /// The scene behind one step.
    pub open spec fn after_step(
        self,
        tables: Tables<C>,
        tiles: Map<u64, Tile>,
        step: SceneStep<E>,
    ) -> Scene<C, E> {
        match step {
            SceneStep::Draw(key) => Scene {
                shapes: after_shape_actions(
                    self.shapes,
                    tables.actions(tiles, seq![key], self.shapes.len()),
                ),
                ..self
            },
            SceneStep::Clear(cameras) => self.after_despawn_actions(
                cleanup(cameras, self.shapes.len()),
            ),
        }
    }

    /// The scene behind a run of steps.
    pub open spec fn after_steps(
        self,
        tables: Tables<C>,
        tiles: Map<u64, Tile>,
        steps: Seq<SceneStep<E>>,
    ) -> Scene<C, E>
        decreases steps.len(),
    {
        if steps.len() == 0 {
            self
        } else {
            self.after_steps(tables, tiles, steps.drop_last()).after_step(
                tables,
                tiles,
                steps.last(),
            )
        }
    }
}

/// The larger of two numbers.
pub open spec fn larger(a: nat, b: nat) -> nat {
    if a >= b {
        a
    } else {
        b
    }
}

/// The largest number of shapes of any tile that is drawn in a run of steps.
pub open spec fn most_shapes<C, E>(
    tables: Tables<C>,
    tiles: Map<u64, Tile>,
    steps: Seq<SceneStep<E>>,
) -> nat
    decreases steps.len(),
{
    if steps.len() == 0 {
        0
    } else {
        larger(
            most_shapes(tables, tiles, steps.drop_last()),
            match steps.last() {
                SceneStep::Draw(key) => tables.bundles(tiles[key].shapes@).len(),
                SceneStep::Clear(_) => 0,
            },
        )
    }
}

/// A tile has no more shapes than a vector can hold indices.
proof fn lemma_bundles_fit<C>(tables: Tables<C>, tile: Tile)
    ensures
        tables.bundles(tile.shapes@).len() <= usize::MAX,
{
    lemma_bundles_len(tables, tile.shapes@);
    assert(tile.shapes@.len() == tile.shapes.len());
}

proof fn lemma_bundles_len<C>(tables: Tables<C>, shapes: Seq<usize>)
    ensures
        tables.bundles(shapes).len() <= shapes.len(),
    decreases shapes.len(),
{
    if shapes.len() > 0 {
        lemma_bundles_len(tables, shapes.drop_last());
    }
}

/// However tiles are drawn one by one and the scene is cleared in between, the scene never
/// has more shapes than it takes: as many as it began with, or as the tile with the most
/// rectangles so far, whichever is more.
pub proof fn law_scene_has_as_many_shapes_as_the_largest_tile<C, E>(
    scene: Scene<C, E>,
    tables: Tables<C>,
    tiles: Map<u64, Tile>,
    steps: Seq<SceneStep<E>>,
)
    requires
        scene.shapes.len() <= usize::MAX,
    ensures
        scene.after_steps(tables, tiles, steps).shapes.len() == larger(
            scene.shapes.len(),
            most_shapes(tables, tiles, steps),
        ),
        scene.after_steps(tables, tiles, steps).shapes.len() <= usize::MAX,
    decreases steps.len(),
{
    if steps.len() > 0 {
        let before = steps.drop_last();
        let now = scene.after_steps(tables, tiles, before);
        law_scene_has_as_many_shapes_as_the_largest_tile(scene, tables, tiles, before);
        match steps.last() {
            SceneStep::Draw(key) => {
                lemma_bundles_fit(tables, tiles[key]);
                law_tile_is_drawn_over_the_scene(now.shapes, tables, tiles, key);
            },
            SceneStep::Clear(cameras) => {
                lemma_clearing(now, cameras);
            },
        }
    }
}

proof fn lemma_despawn_cameras<C, E>(scene: Scene<C, E>, cameras: Seq<E>)
    ensures
        ({
            let actions = cameras.map_values(|camera: E| DespawnAction::DespawnCamera(camera));
            let cleared = scene.after_despawn_actions(actions);
            &&& cleared.shapes == scene.shapes
            &&& cleared.completed == scene.completed
            &&& forall|camera: E| #[trigger]
                cleared.cameras.contains(camera) <==> scene.cameras.contains(camera)
                    && !cameras.contains(camera)
        }),
    decreases cameras.len(),
{
    let actions = cameras.map_values(|camera: E| DespawnAction::DespawnCamera(camera));
    if cameras.len() > 0 {
        let before = cameras.drop_last();
        lemma_despawn_cameras(scene, before);
        assert(actions.drop_last() =~= before.map_values(
            |camera: E| DespawnAction::DespawnCamera(camera),
        ));
        assert(actions.last() == DespawnAction::DespawnCamera(cameras.last()));
        assert(cameras =~= before.push(cameras.last()));
        assert forall|camera: E|
            cameras.contains(camera) <==> before.contains(camera) || camera
                == cameras.last() by {
            if before.contains(camera) {
                let i = choose|i: int| 0 <= i < before.len() && before[i] == camera;
                assert(cameras[i] == camera);
            }
            if camera == cameras.last() {
                assert(cameras[cameras.len() - 1] == camera);
            }
            if cameras.contains(camera) && camera != cameras.last() {
                let i = choose|i: int| 0 <= i < cameras.len() && cameras[i] == camera;
                assert(before[i] == camera);
            }
        }
    }
}

proof fn lemma_hide_shapes<C, E>(scene: Scene<C, E>, n: nat)
    requires
        n <= scene.shapes.len() <= usize::MAX,
    ensures
        ({
            let actions = Seq::new(
                n,
                |k: int| DespawnAction::<E>::HideShape { slot: k as usize },
            );
            let cleared = scene.after_despawn_actions(actions);
            &&& cleared.cameras == scene.cameras
            &&& cleared.completed == scene.completed
            &&& cleared.shapes.len() == scene.shapes.len()
            &&& forall|k: int|
                0 <= k < scene.shapes.len() ==> #[trigger] cleared.shapes[k] == (if k < n {
                    ShapeBundle { is_visible: false, ..scene.shapes[k] }
                } else {
                    scene.shapes[k]
                })
        }),
    decreases n,
{
    let actions = Seq::new(n, |k: int| DespawnAction::<E>::HideShape { slot: k as usize });
    if n > 0 {
        let m = (n - 1) as nat;
        lemma_hide_shapes(scene, m);
        assert(actions.drop_last() =~= Seq::new(
            m,
            |k: int| DespawnAction::<E>::HideShape { slot: k as usize },
        ));
    }
}

proof fn lemma_despawn_concat<C, E>(
    scene: Scene<C, E>,
    first: Seq<DespawnAction<E>>,
    second: Seq<DespawnAction<E>>,
)
    ensures
        scene.after_despawn_actions(first + second) == scene.after_despawn_actions(
            first,
        ).after_despawn_actions(second),
    decreases second.len(),
{
    if second.len() == 0 {
        assert(first + second =~= first);
    } else {
        assert((first + second).drop_last() =~= first + second.drop_last());
        lemma_despawn_concat(scene, first, second.drop_last());
    }
}

/// What clearing a scene of some of its cameras leaves.
proof fn lemma_clearing<C, E>(scene: Scene<C, E>, cameras: Seq<E>)
    requires
        scene.shapes.len() <= usize::MAX,
    ensures
        ({
            let cleared = scene.after_despawn_actions(cleanup(cameras, scene.shapes.len()));
            &&& forall|camera: E| #[trigger]
                cleared.cameras.contains(camera) <==> scene.cameras.contains(camera)
                    && !cameras.contains(camera)
            &&& cleared.shapes == scene.shapes.map_values(
                |shape: ShapeBundle<C>| ShapeBundle { is_visible: false, ..shape },
            )
            &&& cleared.completed == scene.completed + 1
        }),
{
    let despawned = cameras.map_values(|camera: E| DespawnAction::DespawnCamera(camera));
    let hidden = Seq::new(
        scene.shapes.len(),
        |k: int| DespawnAction::<E>::HideShape { slot: k as usize },
    );
    let done = seq![DespawnAction::<E>::CompleteRendering];
    lemma_despawn_cameras(scene, cameras);
    lemma_despawn_concat(scene, despawned, hidden);
    lemma_despawn_concat(scene, despawned + hidden, done);
    let without_cameras = scene.after_despawn_actions(despawned);
    lemma_hide_shapes(without_cameras, scene.shapes.len());
    let all_but_report = scene.after_despawn_actions(despawned + hidden);
    assert(done.drop_last() =~= Seq::empty());
    assert(all_but_report.after_despawn_actions(done) == all_but_report.after_despawn_action(
        DespawnAction::CompleteRendering,
    )) by {
        assert(all_but_report.after_despawn_actions(done.drop_last()) == all_but_report);
    }
    let cleared = scene.after_despawn_actions(cleanup(cameras, scene.shapes.len()));
    assert(cleared.shapes =~= scene.shapes.map_values(
        |shape: ShapeBundle<C>| ShapeBundle { is_visible: false, ..shape },
    ));
}

/// Clearing a scene takes out every camera and no shape, hides every shape and changes
/// nothing else of it, and makes the end of the rendering known once.
pub proof fn law_clearing_empties_the_scene<C, E>(scene: Scene<C, E>, cameras: Seq<E>)
    requires
        scene.shapes.len() <= usize::MAX,
        forall|camera: E| scene.cameras.contains(camera) ==> cameras.contains(camera),
    ensures
        ({
            let cleared = scene.after_despawn_actions(cleanup(cameras, scene.shapes.len()));
            &&& cleared.cameras == Set::<E>::empty()
            &&& cleared.shapes == scene.shapes.map_values(
                |shape: ShapeBundle<C>| ShapeBundle { is_visible: false, ..shape },
            )
            &&& all_hidden(cleared.shapes)
            &&& cleared.completed == scene.completed + 1
        }),
{
    lemma_clearing(scene, cameras);
    let cleared = scene.after_despawn_actions(cleanup(cameras, scene.shapes.len()));
    assert(cleared.cameras =~= Set::<E>::empty());
}

/// How many of the replies brought a report.
pub open spec fn reports(replies: Seq<Result<(), TryRecvError>>) -> nat
    decreases replies.len(),
{
    if replies.len() == 0 {
        0
    } else {
        reports(replies.drop_last()) + (if replies.last() is Ok {
            1nat
        } else {
            0nat
        })
    }
}

/// How many of the actions make the end of a rendering known.
pub open spec fn completions<E>(actions: Seq<DespawnAction<E>>) -> nat
    decreases actions.len(),
{
    if actions.len() == 0 {
        0
    } else {
        completions(actions.drop_last()) + (if actions.last() is CompleteRendering {
            1nat
        } else {
            0nat
        })
    }
}

/// One call about a scene of these cameras and this many shapes, and what it answered.
pub struct DespawnCall<E> {
    pub cameras: Seq<E>,
    pub shapes: nat,
    pub actions: Seq<DespawnAction<E>>,
}

/// How often a run of calls makes the end of a rendering known.
pub open spec fn all_completions<E>(calls: Seq<DespawnCall<E>>) -> nat
    decreases calls.len(),
{
    if calls.len() == 0 {
        0
    } else {
        all_completions(calls.drop_last()) + completions(calls.last().actions)
    }
}

/// Whether each of the calls takes the channel from one state to the next.
pub open spec fn is_run<E>(
    channels: Seq<RenderingDoneChannel>,
    calls: Seq<DespawnCall<E>>,
) -> bool {
    &&& channels.len() == calls.len() + 1
    &&& forall|i: int|
        #![trigger calls[i]]
        0 <= i < calls.len() ==> is_despawn(
            channels[i],
            channels[i + 1],
            calls[i].cameras,
            calls[i].shapes,
            calls[i].actions,
        )
}

proof fn lemma_cleanup_completes_once<E>(cameras: Seq<E>, shapes: nat)
    ensures
        completions(cleanup(cameras, shapes)) == 1,
{
    let actions = cleanup(cameras, shapes);
    let rest = actions.drop_last();
    assert(actions.last() is CompleteRendering);
    assert(forall|i: int| 0 <= i < rest.len() ==> !((#[trigger] rest[i]) is CompleteRendering));
    lemma_no_completion(rest);
}

proof fn lemma_no_completion<E>(actions: Seq<DespawnAction<E>>)
    requires
        forall|i: int|
            0 <= i < actions.len() ==> !((#[trigger] actions[i]) is CompleteRendering),
    ensures
        completions(actions) == 0,
    decreases actions.len(),
{
    if actions.len() > 0 {
        assert(!(actions[actions.len() - 1] is CompleteRendering));
        lemma_no_completion(actions.drop_last());
    }
}

/// Over any run of calls, the end of a rendering is made known as often as a report was
/// received, whatever cameras and shapes there are at each call.
pub proof fn law_completions_equal_reports<E>(
    channels: Seq<RenderingDoneChannel>,
    calls: Seq<DespawnCall<E>>,
)
    requires
        is_run(channels, calls),
    ensures
        reports(channels.last().replies()) == reports(channels[0].replies()) + all_completions(
            calls,
        ),
        channels.last().replies().len() == channels[0].replies().len() + calls.len(),
    decreases calls.len(),
{
    if calls.len() > 0 {
        let n = calls.len() - 1;
        let before = calls.drop_last();
        let earlier = channels.drop_last();
        assert forall|i: int| #![trigger before[i]] 0 <= i < before.len() implies is_despawn(
            earlier[i],
            earlier[i + 1],
            before[i].cameras,
            before[i].shapes,
            before[i].actions,
        ) by {
            assert(before[i] == calls[i]);
        }
        law_completions_equal_reports(earlier, before);
        let call = calls[n];
        assert(is_despawn(channels[n], channels[n + 1], call.cameras, call.shapes, call.actions));
        let reply = choose|reply: Result<(), TryRecvError>|
            channels[n + 1].replies() == #[trigger] channels[n].replies().push(reply)
                && call.actions == response(reply, call.cameras, call.shapes);
        assert(channels[n].replies().push(reply).drop_last() =~= channels[n].replies());
        lemma_cleanup_completes_once(call.cameras, call.shapes);
    }
}

/// What is made known of a scene is what the actions on it make known.
pub proof fn law_completions_are_counted<C, E>(
    scene: Scene<C, E>,
    actions: Seq<DespawnAction<E>>,
)
    ensures
        scene.after_despawn_actions(actions).completed == scene.completed + completions(actions),
    decreases actions.len(),
{
    if actions.len() > 0 {
        law_completions_are_counted(scene, actions.drop_last());
    }
}

/// A call that receives no report changes nothing of the scene.
pub proof fn law_without_a_report_nothing_changes<C, E>(
    scene: Scene<C, E>,
    before: RenderingDoneChannel,
    after: RenderingDoneChannel,
    call: DespawnCall<E>,
)
    requires
        is_despawn(before, after, call.cameras, call.shapes, call.actions),
        reports(after.replies()) == reports(before.replies()),
    ensures
        call.actions == Seq::<DespawnAction<E>>::empty(),
        scene.after_despawn_actions(call.actions) == scene,
{
    let reply = choose|reply: Result<(), TryRecvError>|
        after.replies() == #[trigger] before.replies().push(reply) && call.actions == response(
            reply,
            call.cameras,
            call.shapes,
        );
    assert(before.replies().push(reply).drop_last() =~= before.replies());
}

/// A call that receives a report clears the scene that it is about, however many cameras and
/// shapes that has: every camera is taken out, every shape is hidden and otherwise unchanged,
/// and the end of the rendering is made known once.
pub proof fn law_with_a_report_the_scene_is_cleared<C, E>(
    scene: Scene<C, E>,
    before: RenderingDoneChannel,
    after: RenderingDoneChannel,
    call: DespawnCall<E>,
)
    requires
        is_despawn(before, after, call.cameras, call.shapes, call.actions),
        reports(after.replies()) == reports(before.replies()) + 1,
        scene.shapes.len() == call.shapes <= usize::MAX,
        forall|camera: E| scene.cameras.contains(camera) ==> call.cameras.contains(camera),
    ensures
        ({
            let cleared = scene.after_despawn_actions(call.actions);
            &&& cleared.cameras == Set::<E>::empty()
            &&& cleared.shapes.len() == scene.shapes.len()
            &&& forall|k: int|
                0 <= k < scene.shapes.len() ==> {
                    let shape = #[trigger] cleared.shapes[k];
                    &&& !shape.is_visible
                    &&& shape.path == scene.shapes[k].path
                    &&& shape.z == scene.shapes[k].z
                    &&& shape.mode == scene.shapes[k].mode
                }
            &&& cleared.completed == scene.completed + 1
        }),
{
    let reply = choose|reply: Result<(), TryRecvError>|
        after.replies() == #[trigger] before.replies().push(reply) && call.actions == response(
            reply,
            call.cameras,
            call.shapes,
        );
    assert(before.replies().push(reply).drop_last() =~= before.replies());
    law_clearing_empties_the_scene(scene, call.cameras);
}

/// Once a tile has been drawn and the scene has been cleared, drawing the tile again adds
/// no shape to the scene.
pub proof fn law_shapes_are_used_again<C, E>(
    scene: Scene<C, E>,
    cameras: Seq<E>,
    tables: Tables<C>,
    tiles: Map<u64, Tile>,
    key: u64,
)
    requires
        scene.shapes.len() <= usize::MAX,
        forall|camera: E| scene.cameras.contains(camera) ==> cameras.contains(camera),
    ensures
        ({
            let drawn = Scene {
                shapes: after_shape_actions(
                    scene.shapes,
                    tables.actions(tiles, seq![key], scene.shapes.len()),
                ),
                ..scene
            };
            let cleared = drawn.after_despawn_actions(cleanup(cameras, drawn.shapes.len()));
            let again = tables.actions(tiles, seq![key], cleared.shapes.len());
            &&& forall|i: int| 0 <= i < again.len() ==> (#[trigger] again[i]) is Reuse
            &&& after_shape_actions(cleared.shapes, again).len() == cleared.shapes.len()
        }),
{
    let bundles = tables.bundles(tiles[key].shapes@);
    lemma_bundles_fit(tables, tiles[key]);
    law_tile_is_drawn_over_the_scene(scene.shapes, tables, tiles, key);
    let drawn = Scene {
        shapes: after_shape_actions(
            scene.shapes,
            tables.actions(tiles, seq![key], scene.shapes.len()),
        ),
        ..scene
    };
    law_clearing_empties_the_scene(drawn, cameras);
    let cleared = drawn.after_despawn_actions(cleanup(cameras, drawn.shapes.len()));
    law_tile_is_drawn_over_the_scene(cleared.shapes, tables, tiles, key);
    let again = tables.actions(tiles, seq![key], cleared.shapes.len());
    assert(seq![key].drop_last() =~= Seq::<u64>::empty());
    assert(tables.actions(tiles, Seq::<u64>::empty(), cleared.shapes.len()) =~= Seq::empty());
    assert(again =~= placements(bundles, cleared.shapes.len()));
}

}
