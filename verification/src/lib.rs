pub mod game;
pub mod render;
mod rng;
