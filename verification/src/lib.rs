//! The logic of a tile-based world renderer: tiles and their properties,
//! chunks of tiles and the world that holds them, the window-event decisions
//! of the application loop and the choice of a GL configuration.

pub mod tiles;
pub mod quad;
pub mod chunk;
pub mod world;
pub mod app;
pub mod renderer;
