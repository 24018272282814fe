//! The reactive core of a small online-world server: an attribute store, a
//! tile-based world, and a command / event / effect engine that applies every
//! mutation through one serialized path.

pub mod position;
pub mod definitions;
pub mod attribute;
pub mod world;
pub mod event;
pub mod command;
pub mod systems;
pub mod game;
pub mod xtea;
