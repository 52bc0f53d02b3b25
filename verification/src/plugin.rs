//! What the renderer adds to an application.

use vstd::prelude::*;

verus! {

/// The renderer, as an application takes it in.
#[derive(Debug, Clone, Copy, PartialEq, Eq)]
pub struct TiledRendererPlugin;

/// Marks a tile that is shown at full resolution.
#[derive(Debug, Clone, Copy, PartialEq, Eq)]
pub struct HiResTileMarker;

/// Marks a tile that is shown scaled down.
#[derive(Debug, Clone, Copy, PartialEq, Eq)]
pub struct DownscaledTileMarker;

/// The systems that run once in every frame.
#[derive(Debug, Clone, Copy, PartialEq, Eq)]
pub enum RenderSystem {
    Despawn,
    SpawnShapes,
    SpawnCameras,
}

/// One thing that is added to an application.
#[derive(Debug, Clone, Copy, PartialEq, Eq)]
pub enum AppStep {
    /// What draws shapes.
    AddShapePlugin,
    /// What paints with the material of the downscaling pass.
    AddMaterialPlugin,
    /// A new channel over which the end of a rendering is reported.
    InsertDoneChannel,
    /// A system, which in every frame runs behind the system `after`, if there is one.
    AddSystem { system: RenderSystem, after: Option<RenderSystem> },
}

/// All that the renderer adds to an application, in order.
pub open spec fn build_steps() -> Seq<AppStep> {
    seq![
        AppStep::AddShapePlugin,
        AppStep::AddMaterialPlugin,
        AppStep::InsertDoneChannel,
        AppStep::AddSystem { system: RenderSystem::Despawn, after: None },
        AppStep::AddSystem { system: RenderSystem::SpawnShapes, after: None },
        AppStep::AddSystem {
            system: RenderSystem::SpawnCameras,
            after: Some(RenderSystem::SpawnShapes),
        },
    ]
}

impl TiledRendererPlugin {
    /// All that the renderer adds to an application, in order.
    pub fn build(&self) -> (r: Vec<AppStep>)
        ensures
            r@ == build_steps(),
    {
        vec![
            AppStep::AddShapePlugin,
            AppStep::AddMaterialPlugin,
            AppStep::InsertDoneChannel,
            AppStep::AddSystem { system: RenderSystem::Despawn, after: None },
            AppStep::AddSystem { system: RenderSystem::SpawnShapes, after: None },
            AppStep::AddSystem {
                system: RenderSystem::SpawnCameras,
                after: Some(RenderSystem::SpawnShapes),
            },
        ]
    }
}

}
