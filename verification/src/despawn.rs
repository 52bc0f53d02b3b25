//! Clearing the scene once a rendering has ended.

use crate::channel::{try_recv_replies, RenderingDoneChannel};
use crossbeam_channel::TryRecvError;
use vstd::prelude::*;

verus! {

/// What is done to clear the scene, where `E` tells the cameras apart.
#[derive(Debug, Clone, Copy, PartialEq, Eq)]
pub enum DespawnAction<E> {
    /// The camera is taken out of the scene.
    DespawnCamera(E),
    /// Shape number `slot` of the scene becomes invisible. It stays in the scene.
    HideShape { slot: usize },
    /// The end of the rendering is made known.
    CompleteRendering,
}

/// What is done to clear a scene of these cameras and this many shapes.
pub open spec fn cleanup<E>(cameras: Seq<E>, shapes: nat) -> Seq<DespawnAction<E>> {
    cameras.map_values(|camera: E| DespawnAction::DespawnCamera(camera)) + Seq::new(
        shapes,
        |k: int| DespawnAction::<E>::HideShape { slot: k as usize },
    ) + seq![DespawnAction::<E>::CompleteRendering]
}

/// What is done about a scene of these cameras and this many shapes, where `done` says
/// whether a rendering has ended.
pub fn despawn_when<E: Copy>(done: bool, cameras: &Vec<E>, shapes: usize) -> (r: Vec<
    DespawnAction<E>,
>)
    ensures
        r@ == (if done {
            cleanup(cameras@, shapes as nat)
        } else {
            Seq::empty()
        }),
{
    let mut actions: Vec<DespawnAction<E>> = Vec::new();
    if done {
        for i in 0..cameras.len()
            invariant
                actions@ == cameras@.take(i as int).map_values(
                    |camera: E| DespawnAction::DespawnCamera(camera),
                ),
        {
            actions.push(DespawnAction::DespawnCamera(cameras[i]));
            assert(cameras@.take(i + 1) =~= cameras@.take(i as int).push(cameras@[i as int]));
        }
        assert(cameras@.take(cameras@.len() as int) =~= cameras@);
        let ghost despawned = actions@;
        for slot in 0..shapes
            invariant
                actions@ == despawned + Seq::new(
                    slot as nat,
                    |k: int| DespawnAction::<E>::HideShape { slot: k as usize },
                ),
        {
            actions.push(DespawnAction::HideShape { slot });
        }
        actions.push(DespawnAction::CompleteRendering);
    }
    actions
}

/// What is done about a scene of these cameras and this many shapes, given the reply of the
/// channel.
pub open spec fn response<E>(
    reply: Result<(), TryRecvError>,
    cameras: Seq<E>,
    shapes: nat,
) -> Seq<DespawnAction<E>> {
    if reply is Ok {
        cleanup(cameras, shapes)
    } else {
        Seq::empty()
    }
}

/// Whether a scene of these cameras and this many shapes is answered with these actions, on
/// the one reply that the channel brings between `before` and `after`.
pub open spec fn is_despawn<E>(
    before: RenderingDoneChannel,
    after: RenderingDoneChannel,
    cameras: Seq<E>,
    shapes: nat,
    actions: Seq<DespawnAction<E>>,
) -> bool {
    exists|reply: Result<(), TryRecvError>|
        after.replies() == #[trigger] before.replies().push(reply) && actions == response(
            reply,
            cameras,
            shapes,
        )
}

/// Asks the channel once for the report that a rendering has ended. Clears a scene of these
/// cameras and this many shapes if it brings one; does nothing if it brings none.
pub fn despawn_system<E: Copy>(
    rendering_done_channel: &mut RenderingDoneChannel,
    cameras: &Vec<E>,
    shapes: usize,
) -> (r: Vec<DespawnAction<E>>)
    ensures
        is_despawn(
            *old(rendering_done_channel),
            *final(rendering_done_channel),
            cameras@,
            shapes as nat,
            r@,
        ),
        try_recv_replies(final(rendering_done_channel).receiver).len() == try_recv_replies(
            old(rendering_done_channel).receiver,
        ).len() + 1,
        final(rendering_done_channel).sender == old(rendering_done_channel).sender,
        old(rendering_done_channel).well_formed()
            ==> final(rendering_done_channel).well_formed(),
{
    despawn_when(rendering_done_channel.poll(), cameras, shapes)
}

/// Clearing a scene takes every camera out once, in order, then hides every shape once, from
/// the first on, then makes the end of the rendering known, and does nothing else.
pub proof fn law_clearing_does_everything_once<E>(cameras: Seq<E>, shapes: nat, i: int)
    requires
        shapes <= usize::MAX,
        0 <= i < cleanup(cameras, shapes).len(),
    ensures
        cleanup(cameras, shapes).len() == cameras.len() + shapes + 1,
        match cleanup(cameras, shapes)[i] {
            DespawnAction::DespawnCamera(camera) => i < cameras.len() && camera == cameras[i],
            DespawnAction::HideShape { slot } => cameras.len() <= i < cameras.len() + shapes
                && slot == i - cameras.len(),
            DespawnAction::CompleteRendering => i == cameras.len() + shapes,
        },
{
}

/// A report has the scene cleared, however many cameras and shapes there are; without one
/// nothing is done.
pub proof fn law_only_a_report_clears<E>(
    reply: Result<(), TryRecvError>,
    cameras: Seq<E>,
    shapes: nat,
)
    ensures
        reply is Ok ==> response(reply, cameras, shapes).len() == cameras.len() + shapes + 1,
        reply is Ok ==> response(reply, cameras, shapes) == cleanup(cameras, shapes),
        reply is Err ==> response(reply, cameras, shapes).len() == 0,
{
}

}
