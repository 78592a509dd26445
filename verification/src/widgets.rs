//! What the viewer draws.

pub mod board;
