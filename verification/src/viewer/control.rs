//! What the numbers in input messages mean on the phone.
use vstd::prelude::*;

pub mod key_action;
pub mod keycode;
pub mod touch_action;

verus! {

/// The pointer number of the mouse.
pub const POINTER_ID_MOUSE: u64 = 0xFFFF_FFFF_FFFF_FFFF;

} // verus!
