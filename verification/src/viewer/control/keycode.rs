//! Keys, as `android.view.KeyEvent` numbers them.
use vstd::prelude::*;

verus! {

pub const BACK: u32 = 4;

pub const HOME: u32 = 3;

pub const ENTER: u32 = 66;

pub const DEL: u32 = 67;

pub const TAB: u32 = 61;

pub const SPACE: u32 = 62;

pub const DPAD_UP: u32 = 19;

pub const DPAD_DOWN: u32 = 20;

pub const DPAD_LEFT: u32 = 21;

pub const DPAD_RIGHT: u32 = 22;

} // verus!
