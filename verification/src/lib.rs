//! Coverage simulation of a bouncing circular cutter on a discretised grid.
//!
//! All world-space quantities are exact integers: lengths and coordinates are
//! counted in world units (`i32`), directions are fixed-point vectors whose unit
//! length is [`vector::DIR_SCALE`], simulated time is counted in microseconds.

pub mod model;
pub mod random;
pub mod sim;
pub mod strategy;
pub mod text;
pub mod collision;
pub mod frames;
pub mod color_theme;
pub mod geometry;
pub mod image;
pub mod laws;
pub mod mapfile;
pub mod vector;
