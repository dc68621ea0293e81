//! Key encoding tables.
//!
//! The protocol separates three concepts, and the separation is what makes cross-platform key
//! forwarding correct:
//!
//! * [`KeyId`] is the *virtual* key: the character or symbol that the press produces. It changes
//!   with modifiers (`a` and `A`). Printable keys use their Unicode code point, special keys the
//!   X11 keysym minus `0x1000` (the `0xEFxx` block); media and system keys live in a private
//!   `0xE0xx` block.
//! * [`KeyButton`] is the *physical* key, like a scan code and independent of the layout. A
//!   receiver tracks held keys by it, because the virtual key at release time may differ from
//!   that at press time once a modifier changed.
//! * [`KeyModifierMask`] is the set of modifiers active at the moment of the event.

use vstd::prelude::*;

pub mod key;
pub mod modifier;

verus! {

/// Virtual key id (16-bit on the wire).
pub type KeyId = u16;

/// Physical key or scan code (16-bit on the wire).
pub type KeyButton = u16;

/// Modifier bitmask (16-bit on the wire).
pub type KeyModifierMask = u16;

pub const KEY_NONE: KeyId = 0x0000;

/// The id of a printable character.
pub open spec fn id_of_char(c: char) -> Option<KeyId> {
    if c as int <= 0xFFFF {
        Some(c as KeyId)
    } else {
        None
    }
}

/// Map a printable character to its [`KeyId`], its Unicode code point. Characters outside the
/// basic multilingual plane do not fit the wire field and have none.
pub fn key_id_from_char(c: char) -> (id: Option<KeyId>)
    ensures
        id is Some <==> c as int <= 0xFFFF,
        id matches Some(k) ==> k as int == c as int,
        id == id_of_char(c),
{
    let cp: u32 = c as u32;
    if cp <= 0xFFFF {
        Some(cp as KeyId)
    } else {
        None
    }
}

/// True if a [`KeyId`] denotes a directly printable character rather than a special key from the
/// `0xEFxx` and `0xE0xx` blocks.
pub fn is_printable(id: KeyId) -> (printable: bool)
    ensures
        printable == (!(0xE000 <= id <= 0xEFFF) && id != KEY_NONE),
{
    !(0xE000 <= id && id <= 0xEFFF) && id != KEY_NONE
}

/// A character of the basic multilingual plane has an id of its own, its code point, and any other
/// has none.
pub proof fn lemma_characters_have_their_code_point(a: char, b: char)
    ensures
        id_of_char(a) is Some <==> a as int <= 65_535,
        id_of_char(a) matches Some(id) ==> id as int == a as int,
        id_of_char(a) is Some && id_of_char(a) == id_of_char(b) ==> a == b,
{
}

/// The modifier bits are ten different ones, and the special ids are those of the protocol: the X11
/// keysyms less `0x1000`, with the function keys one after the other. The space is a character.
pub proof fn lemma_key_numbers()
    ensures
        modifier::SHIFT == 1,
        modifier::CONTROL == 2,
        modifier::ALT == 4,
        modifier::META == 8,
        modifier::SUPER == 16,
        modifier::ALT_GR == 32,
        modifier::LEVEL5LOCK == 64,
        modifier::CAPS_LOCK == 4_096,
        modifier::NUM_LOCK == 8_192,
        modifier::SCROLL_LOCK == 16_384,
        KEY_NONE == 0,
        key::SPACE as int == ' ' as int,
        key::BACKSPACE == 0xFF08 - 0x1000,
        key::TAB == 0xFF09 - 0x1000,
        key::RETURN == 0xFF0D - 0x1000,
        key::ESCAPE == 0xFF1B - 0x1000,
        key::DELETE == 0xFFFF - 0x1000,
        key::HOME == 0xFF50 - 0x1000,
        key::LEFT == 0xFF51 - 0x1000,
        key::UP == 0xFF52 - 0x1000,
        key::RIGHT == 0xFF53 - 0x1000,
        key::DOWN == 0xFF54 - 0x1000,
        key::PAGE_UP == 0xFF55 - 0x1000,
        key::PAGE_DOWN == 0xFF56 - 0x1000,
        key::END == 0xFF57 - 0x1000,
        key::INSERT == 0xFF63 - 0x1000,
        key::F1 == 0xFFBE - 0x1000,
        key::SHIFT_L == 0xFFE1 - 0x1000,
        key::SHIFT_R == 0xFFE2 - 0x1000,
        key::CONTROL_L == 0xFFE3 - 0x1000,
        key::CONTROL_R == 0xFFE4 - 0x1000,
        key::CAPS_LOCK == 0xFFE5 - 0x1000,
        key::META_L == 0xFFE7 - 0x1000,
        key::META_R == 0xFFE8 - 0x1000,
        key::ALT_L == 0xFFE9 - 0x1000,
        key::ALT_R == 0xFFEA - 0x1000,
        key::SUPER_L == 0xFFEB - 0x1000,
        key::SUPER_R == 0xFFEC - 0x1000,
{
}

} // verus!
