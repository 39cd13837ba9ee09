//! A grid-based snake simulation: a snake moves on a fixed timestep, grows by
//! eating flowers, can be cut by scorpions, and dies on self-collision.
//!
//! The library holds the verified world model; rendering, input polling and
//! the clock live outside it and exchange plain values with it.

pub mod assets;
pub mod input;
pub mod laws;
pub mod point;
pub mod render;
pub mod scorpion;
pub mod snake;
pub mod world;
