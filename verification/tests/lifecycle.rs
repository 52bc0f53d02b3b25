use crossbeam_channel::{bounded, SendError, TryRecvError};
use tiled_renderer::channel::{received, sent, DoneNotifier, ReceiverGone, RenderingDoneChannel};
use tiled_renderer::despawn::{despawn_system, despawn_when, DespawnAction};
use tiled_renderer::material::PostProcessingMaterial;
use tiled_renderer::plugin::{
    AppStep, DownscaledTileMarker, HiResTileMarker, RenderSystem, TiledRendererPlugin,
};

fn cleanup() -> Vec<DespawnAction<char>> {
    vec![
        DespawnAction::DespawnCamera('a'),
        DespawnAction::DespawnCamera('b'),
        DespawnAction::HideShape { slot: 0 },
        DespawnAction::HideShape { slot: 1 },
        DespawnAction::HideShape { slot: 2 },
        DespawnAction::CompleteRendering,
    ]
}

#[test]
fn scene_is_cleared_only_when_done() {
    assert_eq!(despawn_when(true, &vec!['a', 'b'], 3), cleanup());
    assert_eq!(despawn_when(false, &vec!['a', 'b'], 3), vec![]);
    assert_eq!(
        despawn_when::<char>(true, &vec![], 0),
        vec![DespawnAction::CompleteRendering]
    );
}

#[test]
fn every_report_clears_the_scene_once() {
    let mut channel = RenderingDoneChannel::new();
    let cameras = vec!['a', 'b'];
    assert_eq!(despawn_system(&mut channel, &cameras, 3), vec![]);
    for _ in 0..2 {
        assert_eq!(channel.notifier().notify(), Ok(()));
        assert_eq!(despawn_system(&mut channel, &cameras, 3), cleanup());
        assert_eq!(despawn_system(&mut channel, &cameras, 3), vec![]);
    }
}

#[test]
fn channel_holds_one_report() {
    let channel = RenderingDoneChannel::new();
    assert_eq!(channel.sender.capacity(), Some(1));
    assert_eq!(channel.receiver.capacity(), Some(1));
    assert_eq!(channel.notifier().sender.capacity(), Some(1));
    assert!(channel.notifier().sender.same_channel(&channel.sender));
}

#[test]
fn report_fails_without_a_receiver() {
    let channel = RenderingDoneChannel::new();
    let mut notifier = channel.notifier();
    drop(channel);
    assert_eq!(notifier.notify(), Err(ReceiverGone));
}

#[test]
fn channel_without_senders_brings_no_report() {
    let (sender, receiver) = bounded(1);
    let (other, _kept) = bounded(1);
    drop(sender);
    let mut channel = RenderingDoneChannel { sender: other, receiver };
    assert_eq!(despawn_system(&mut channel, &vec!['a'], 1), vec![]);
}

#[test]
fn replies_are_told_apart() {
    assert!(received(Ok(())));
    assert!(!received(Err(TryRecvError::Empty)));
    assert!(!received(Err(TryRecvError::Disconnected)));
    assert_eq!(sent(Ok(())), Ok(()));
    assert_eq!(sent(Err(SendError(()))), Err(ReceiverGone));
}

#[test]
fn notifier_sends_into_its_channel() {
    let (sender, receiver) = bounded(1);
    let mut notifier = DoneNotifier { sender };
    assert_eq!(notifier.notify(), Ok(()));
    assert_eq!(receiver.try_recv(), Ok(()));
}

#[test]
fn notifier_reports_once() {
    let mut channel = RenderingDoneChannel::new();
    assert_eq!(channel.notifier().notify(), Ok(()));
    assert_eq!(channel.receiver.len(), 1);
    despawn_system(&mut channel, &vec!['a'], 1);
    assert_eq!(channel.receiver.len(), 0);
}

#[test]
fn a_call_takes_one_report() {
    let (sender, receiver) = bounded(2);
    sender.send(()).unwrap();
    sender.send(()).unwrap();
    let mut channel = RenderingDoneChannel { sender, receiver };
    assert_eq!(despawn_system(&mut channel, &vec!['a', 'b'], 3), cleanup());
    assert_eq!(channel.receiver.len(), 1);
    assert_eq!(despawn_system(&mut channel, &vec!['a', 'b'], 3), cleanup());
    assert_eq!(channel.receiver.len(), 0);
    assert_eq!(despawn_system(&mut channel, &vec!['a', 'b'], 3), vec![]);
}

#[test]
fn completions_equal_reports() {
    let mut channel = RenderingDoneChannel::new();
    let mut completions = 0;
    for round in 0..6 {
        if round % 3 != 1 {
            channel.notifier().notify().unwrap();
        }
        completions += despawn_system(&mut channel, &vec!['a'], round)
            .iter()
            .filter(|action| matches!(action, DespawnAction::CompleteRendering))
            .count();
    }
    assert_eq!(completions, 4);
}

#[test]
fn plugin_runs_cameras_behind_shapes() {
    assert_eq!(
        TiledRendererPlugin.build(),
        vec![
            AppStep::AddShapePlugin,
            AppStep::AddMaterialPlugin,
            AppStep::InsertDoneChannel,
            AppStep::AddSystem { system: RenderSystem::Despawn, after: None },
            AppStep::AddSystem { system: RenderSystem::SpawnShapes, after: None },
            AppStep::AddSystem {
                system: RenderSystem::SpawnCameras,
                after: Some(RenderSystem::SpawnShapes),
            },
        ]
    );
}

#[test]
fn markers_can_be_copied_and_printed() {
    let hires = HiResTileMarker;
    let downscaled = DownscaledTileMarker;
    assert_eq!(format!("{:?} {:?}", hires, downscaled), "HiResTileMarker DownscaledTileMarker");
}

#[test]
fn material_names_its_shaders() {
    assert_eq!(PostProcessingMaterial::vertex_shader(), "shaders/fullscreen.wgsl");
    assert_eq!(PostProcessingMaterial::fragment_shader(), "shaders/downscale.wgsl");
}
