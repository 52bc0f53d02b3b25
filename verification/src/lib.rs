//! Plans the rendering of an integrated circuit layout, tile by tile: the shapes of a tile,
//! the cameras that render it and scale it down into the picture of the whole layout, and
//! the clearing of the scene behind it.

pub mod cameras;
pub mod channel;
pub mod despawn;
pub mod drawing;
pub mod faults;
pub mod geometry;
pub mod layers;
pub mod material;
pub mod passes;
pub mod plugin;
pub mod render_layers;
pub mod rendering;
pub mod scene;
pub mod shapes;
pub mod texture;
pub mod tiles;
