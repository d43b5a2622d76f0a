//! Console output and keyboard input.

pub mod output;
pub mod input;
