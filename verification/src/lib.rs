//! A small console ray-casting engine: a double-buffered character
//! renderer for a text console, the keyboard state shared with an input
//! thread, and the integer rules of the game world.

pub mod arith;
pub mod vec2;
pub mod terminal;
pub mod game;
