//! Special key ids (X11 keysym minus `0x1000`).

use crate::keys::KeyId;
use vstd::prelude::*;

verus! {

pub const BACKSPACE: KeyId = 0xEF08;

pub const TAB: KeyId = 0xEF09;

pub const RETURN: KeyId = 0xEF0D;

pub const ESCAPE: KeyId = 0xEF1B;

pub const DELETE: KeyId = 0xEFFF;

/// Printable.
pub const SPACE: KeyId = 0x0020;

pub const HOME: KeyId = 0xEF50;

pub const LEFT: KeyId = 0xEF51;

pub const UP: KeyId = 0xEF52;

pub const RIGHT: KeyId = 0xEF53;

pub const DOWN: KeyId = 0xEF54;

pub const PAGE_UP: KeyId = 0xEF55;

pub const PAGE_DOWN: KeyId = 0xEF56;

pub const END: KeyId = 0xEF57;

pub const INSERT: KeyId = 0xEF63;

/// The function keys are contiguous from here.
pub const F1: KeyId = 0xEFBE;

/// The id of the `n`-th function key, counted from one.
pub fn f(n: u8) -> (id: KeyId)
    ensures
        id == F1 + n - 1,
{
    F1 + (n as KeyId) - 1
}

pub const SHIFT_L: KeyId = 0xEFE1;

pub const SHIFT_R: KeyId = 0xEFE2;

pub const CONTROL_L: KeyId = 0xEFE3;

pub const CONTROL_R: KeyId = 0xEFE4;

pub const CAPS_LOCK: KeyId = 0xEFE5;

pub const ALT_L: KeyId = 0xEFE9;

pub const ALT_R: KeyId = 0xEFEA;

pub const SUPER_L: KeyId = 0xEFEB;

pub const SUPER_R: KeyId = 0xEFEC;

pub const META_L: KeyId = 0xEFE7;

pub const META_R: KeyId = 0xEFE8;

} // verus!
