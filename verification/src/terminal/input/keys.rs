//! Virtual-key codes of the keys the game reads.

use vstd::prelude::*;

verus! {

/// A virtual-key code.
#[allow(non_camel_case_types)]
pub type KEY = u32;

pub const KEY_X: KEY = 88;
pub const KEY_E: KEY = 69;
pub const KEY_Q: KEY = 81;
pub const KEY_W: KEY = 87;
pub const KEY_S: KEY = 83;
pub const KEY_A: KEY = 65;
pub const KEY_D: KEY = 68;
/// No key is held.
pub const KEY_UP: KEY = 0;

} // verus!
