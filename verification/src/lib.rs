//! The core of a streamed, procedurally generated grid world.
//!
//! * [`map`] decides from a coordinate alone what a cell holds.
//! * [`view`] computes the rectangle of cells under the camera and lists the
//!   cells of one kind in a rectangle.
//! * [`systems`] holds the rules that run once per frame: streaming of
//!   obstacles and bots, the bots' wandering and talk, the player's input and
//!   its tick-driven movement.
//! * [`components`] and [`resources`] hold the data those rules work on.
//! * [`timer`] and [`random`] are the two places where the library relies on
//!   other crates: what is stated there of `bevy`'s timers and of `rand`'s
//!   draws is taken on trust.

pub mod map;
pub mod timer;
pub mod random;
pub mod constants;
pub mod components;
pub mod resources;
pub mod systems;
pub mod view;
