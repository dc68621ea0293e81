//! Modifier mask bits.

use crate::keys::KeyModifierMask;
use vstd::prelude::*;

verus! {

pub const SHIFT: KeyModifierMask = 0x0001;

pub const CONTROL: KeyModifierMask = 0x0002;

pub const ALT: KeyModifierMask = 0x0004;

pub const META: KeyModifierMask = 0x0008;

pub const SUPER: KeyModifierMask = 0x0010;

pub const ALT_GR: KeyModifierMask = 0x0020;

pub const LEVEL5LOCK: KeyModifierMask = 0x0040;

pub const CAPS_LOCK: KeyModifierMask = 0x1000;

pub const NUM_LOCK: KeyModifierMask = 0x2000;

pub const SCROLL_LOCK: KeyModifierMask = 0x4000;

} // verus!
