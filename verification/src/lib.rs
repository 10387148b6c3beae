//! Top-down map rendering of Minecraft worlds: block colors, chunk surface
//! extraction, elevation lighting and image composition.

pub mod color;
pub mod palette;
pub mod text;
pub mod chunk;
pub mod light;
pub mod render;
pub mod region;
pub mod args;
pub mod dimension;
pub mod pipeline;
pub mod server;
