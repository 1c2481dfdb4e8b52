//! The rules that advance the world, one call per frame each.

pub mod bot;
pub mod input;
pub mod map_render;
pub mod movement;
