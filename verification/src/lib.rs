//! A live chess board for the terminal.
//!
//! The crate holds the rules of the viewer: how feed events become board
//! positions, how the render loop reacts to keys and to fresh positions,
//! and which cells and glyph dots make up the drawn board.  Reading from
//! the network and painting the terminal are left to the program around it.

pub mod api;
pub mod app;
pub mod channel;
pub mod error;
pub mod fen;
pub mod position;
pub mod widgets;
