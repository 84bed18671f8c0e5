//! Identicons: a name is hashed, and the digest is painted as a small square
//! grid of filled and empty cells in a colour taken from the same digest.

pub mod canvas;
pub mod digest;
pub mod encode;
pub mod grid;
pub mod params;
pub mod query;
pub mod rejection;
pub mod render;
pub mod rounding;
pub mod service;
pub mod text;
