//! What a key does, as `android.view.KeyEvent` numbers it.
use vstd::prelude::*;

verus! {

pub const DOWN: u8 = 0;

pub const UP: u8 = 1;

} // verus!
