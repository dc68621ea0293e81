//! From what a capture backend sees to normalised events.

use crate::events::{KeyAction, LocalEvent};
use crate::keys::{key, KeyButton, KeyId};
use vstd::prelude::*;

verus! {

/// A physical key of a standard keyboard.
#[derive(Clone, Copy, Debug, PartialEq, Eq, Structural)]
pub enum PhysicalKey {
    KeyA,
    KeyB,
    KeyC,
    KeyD,
    KeyE,
    KeyF,
    KeyG,
    KeyH,
    KeyI,
    KeyJ,
    KeyK,
    KeyL,
    KeyM,
    KeyN,
    KeyO,
    KeyP,
    KeyQ,
    KeyR,
    KeyS,
    KeyT,
    KeyU,
    KeyV,
    KeyW,
    KeyX,
    KeyY,
    KeyZ,
    Num0,
    Num1,
    Num2,
    Num3,
    Num4,
    Num5,
    Num6,
    Num7,
    Num8,
    Num9,
    Space,
    Return,
    Tab,
    Backspace,
    Escape,
    Delete,
    Insert,
    Home,
    End,
    PageUp,
    PageDown,
    UpArrow,
    DownArrow,
    LeftArrow,
    RightArrow,
    ShiftLeft,
    ShiftRight,
    ControlLeft,
    ControlRight,
    Alt,
    AltGr,
    MetaLeft,
    MetaRight,
    CapsLock,
    F1,
    F2,
    F3,
    F4,
    F5,
    F6,
    F7,
    F8,
    F9,
    F10,
    F11,
    F12,
    Minus,
    Equal,
    LeftBracket,
    RightBracket,
    SemiColon,
    Quote,
    BackSlash,
    Comma,
    Dot,
    Slash,
    BackQuote,
    PrintScreen,
    ScrollLock,
    Pause,
    NumLock,
    IntlBackslash,
    KpReturn,
    KpMinus,
    KpPlus,
    KpMultiply,
    KpDivide,
    Kp0,
    Kp1,
    Kp2,
    Kp3,
    Kp4,
    Kp5,
    Kp6,
    Kp7,
    Kp8,
    Kp9,
    KpDelete,
    Function,
    Unknown(u32),
}

/// A physical mouse button.
#[derive(Clone, Copy, Debug, PartialEq, Eq, Structural)]
pub enum PhysicalButton {
    Left,
    Right,
    Middle,
    Unknown(u8),
}

/// An event as the backend reports it. A move carries the pointer's position and how far it is from
/// the position before, if there was one.
#[derive(Clone, Copy, Debug, PartialEq, Eq)]
pub enum RawEvent {
    KeyPress(PhysicalKey),
    KeyRelease(PhysicalKey),
    ButtonPress(PhysicalButton),
    ButtonRelease(PhysicalButton),
    MouseMove { x: i32, y: i32, delta: Option<(i32, i32)> },
    Wheel { delta_x: i64, delta_y: i64 },
}

/// The protocol's number for a mouse button.
pub open spec fn button_number(b: PhysicalButton) -> i8 {
    match b {
        PhysicalButton::Left => 1,
        PhysicalButton::Middle => 2,
        PhysicalButton::Right => 3,
        PhysicalButton::Unknown(n) => n as i8,
    }
}

/// The protocol's id for a key: letters and digits have their unshifted code point, punctuation
/// that of the US layout. Keys that the protocol does not carry have none.
pub open spec fn key_id(k: PhysicalKey) -> Option<KeyId> {
    match k {
        PhysicalKey::KeyA => Some('a' as KeyId),
        PhysicalKey::KeyB => Some('b' as KeyId),
        PhysicalKey::KeyC => Some('c' as KeyId),
        PhysicalKey::KeyD => Some('d' as KeyId),
        PhysicalKey::KeyE => Some('e' as KeyId),
        PhysicalKey::KeyF => Some('f' as KeyId),
        PhysicalKey::KeyG => Some('g' as KeyId),
        PhysicalKey::KeyH => Some('h' as KeyId),
        PhysicalKey::KeyI => Some('i' as KeyId),
        PhysicalKey::KeyJ => Some('j' as KeyId),
        PhysicalKey::KeyK => Some('k' as KeyId),
        PhysicalKey::KeyL => Some('l' as KeyId),
        PhysicalKey::KeyM => Some('m' as KeyId),
        PhysicalKey::KeyN => Some('n' as KeyId),
        PhysicalKey::KeyO => Some('o' as KeyId),
        PhysicalKey::KeyP => Some('p' as KeyId),
        PhysicalKey::KeyQ => Some('q' as KeyId),
        PhysicalKey::KeyR => Some('r' as KeyId),
        PhysicalKey::KeyS => Some('s' as KeyId),
        PhysicalKey::KeyT => Some('t' as KeyId),
        PhysicalKey::KeyU => Some('u' as KeyId),
        PhysicalKey::KeyV => Some('v' as KeyId),
        PhysicalKey::KeyW => Some('w' as KeyId),
        PhysicalKey::KeyX => Some('x' as KeyId),
        PhysicalKey::KeyY => Some('y' as KeyId),
        PhysicalKey::KeyZ => Some('z' as KeyId),
        PhysicalKey::Num0 => Some('0' as KeyId),
        PhysicalKey::Num1 => Some('1' as KeyId),
        PhysicalKey::Num2 => Some('2' as KeyId),
        PhysicalKey::Num3 => Some('3' as KeyId),
        PhysicalKey::Num4 => Some('4' as KeyId),
        PhysicalKey::Num5 => Some('5' as KeyId),
        PhysicalKey::Num6 => Some('6' as KeyId),
        PhysicalKey::Num7 => Some('7' as KeyId),
        PhysicalKey::Num8 => Some('8' as KeyId),
        PhysicalKey::Num9 => Some('9' as KeyId),
        PhysicalKey::Space => Some(' ' as KeyId),
        PhysicalKey::Return => Some(key::RETURN),
        PhysicalKey::Tab => Some(key::TAB),
        PhysicalKey::Backspace => Some(key::BACKSPACE),
        PhysicalKey::Escape => Some(key::ESCAPE),
        PhysicalKey::Delete => Some(key::DELETE),
        PhysicalKey::Insert => Some(key::INSERT),
        PhysicalKey::Home => Some(key::HOME),
        PhysicalKey::End => Some(key::END),
        PhysicalKey::PageUp => Some(key::PAGE_UP),
        PhysicalKey::PageDown => Some(key::PAGE_DOWN),
        PhysicalKey::UpArrow => Some(key::UP),
        PhysicalKey::DownArrow => Some(key::DOWN),
        PhysicalKey::LeftArrow => Some(key::LEFT),
        PhysicalKey::RightArrow => Some(key::RIGHT),
        PhysicalKey::ShiftLeft => Some(key::SHIFT_L),
        PhysicalKey::ShiftRight => Some(key::SHIFT_R),
        PhysicalKey::ControlLeft => Some(key::CONTROL_L),
        PhysicalKey::ControlRight => Some(key::CONTROL_R),
        PhysicalKey::Alt => Some(key::ALT_L),
        PhysicalKey::AltGr => Some(key::ALT_R),
        PhysicalKey::MetaLeft => Some(key::SUPER_L),
        PhysicalKey::MetaRight => Some(key::SUPER_R),
        PhysicalKey::CapsLock => Some(key::CAPS_LOCK),
        PhysicalKey::F1 => Some(key::F1),
        PhysicalKey::F2 => Some((key::F1 + 1) as KeyId),
        PhysicalKey::F3 => Some((key::F1 + 2) as KeyId),
        PhysicalKey::F4 => Some((key::F1 + 3) as KeyId),
        PhysicalKey::F5 => Some((key::F1 + 4) as KeyId),
        PhysicalKey::F6 => Some((key::F1 + 5) as KeyId),
        PhysicalKey::F7 => Some((key::F1 + 6) as KeyId),
        PhysicalKey::F8 => Some((key::F1 + 7) as KeyId),
        PhysicalKey::F9 => Some((key::F1 + 8) as KeyId),
        PhysicalKey::F10 => Some((key::F1 + 9) as KeyId),
        PhysicalKey::F11 => Some((key::F1 + 10) as KeyId),
        PhysicalKey::F12 => Some((key::F1 + 11) as KeyId),
        PhysicalKey::Minus => Some('-' as KeyId),
        PhysicalKey::Equal => Some('=' as KeyId),
        PhysicalKey::LeftBracket => Some('[' as KeyId),
        PhysicalKey::RightBracket => Some(']' as KeyId),
        PhysicalKey::SemiColon => Some(';' as KeyId),
        PhysicalKey::Quote => Some('\'' as KeyId),
        PhysicalKey::BackSlash => Some('\\' as KeyId),
        PhysicalKey::Comma => Some(',' as KeyId),
        PhysicalKey::Dot => Some('.' as KeyId),
        PhysicalKey::Slash => Some('/' as KeyId),
        PhysicalKey::BackQuote => Some('`' as KeyId),
        _ => None,
    }
}

/// The event that a key's press or release is.
pub open spec fn key_event(k: PhysicalKey, action: KeyAction) -> Option<LocalEvent> {
    match key_id(k) {
        Some(id) => Some(LocalEvent::Key { id, mask: 0, button: id as KeyButton, action }),
        None => None,
    }
}

/// What an event means. While input is grabbed, motion is reported as relative, and only where
/// there is any.
pub open spec fn meaning(event: RawEvent, grabbing: bool) -> Option<LocalEvent> {
    match event {
        RawEvent::MouseMove { x, y, delta } => if grabbing {
            match delta {
                Some((dx, dy)) => if dx != 0 || dy != 0 {
                    Some(LocalEvent::MotionRel { dx, dy })
                } else {
                    None
                },
                None => None,
            }
        } else {
            Some(LocalEvent::MotionAbs { x, y })
        },
        RawEvent::ButtonPress(b) => Some(
            LocalEvent::Button { button: button_number(b), pressed: true },
        ),
        RawEvent::ButtonRelease(b) => Some(
            LocalEvent::Button { button: button_number(b), pressed: false },
        ),
        RawEvent::Wheel { delta_x, delta_y } => Some(
            LocalEvent::Wheel { x: delta_x as i16, y: delta_y as i16 },
        ),
        RawEvent::KeyPress(k) => key_event(k, KeyAction::Down),
        RawEvent::KeyRelease(k) => key_event(k, KeyAction::Up),
    }
}

/// Translate a captured event. Nothing comes of a key that the protocol does not carry, nor of a
/// grabbed move without a distance.
pub fn translate(event: RawEvent, grabbing: bool) -> (ev: Option<LocalEvent>)
    ensures
        ev == meaning(event, grabbing),
{
    match event {
        RawEvent::MouseMove { x, y, delta } => {
            if grabbing {
                match delta {
                    Some((dx, dy)) => {
                        if dx != 0 || dy != 0 {
                            Some(LocalEvent::MotionRel { dx, dy })
                        } else {
                            None
                        }
                    },
                    None => None,
                }
            } else {
                Some(LocalEvent::MotionAbs { x, y })
            }
        },
        RawEvent::ButtonPress(b) => Some(
            LocalEvent::Button { button: map_button(b), pressed: true },
        ),
        RawEvent::ButtonRelease(b) => Some(
            LocalEvent::Button { button: map_button(b), pressed: false },
        ),
        RawEvent::Wheel { delta_x, delta_y } => Some(
            LocalEvent::Wheel { x: delta_x as i16, y: delta_y as i16 },
        ),
        RawEvent::KeyPress(k) => map_key_event(k, KeyAction::Down),
        RawEvent::KeyRelease(k) => map_key_event(k, KeyAction::Up),
    }
}

fn map_key_event(k: PhysicalKey, action: KeyAction) -> (ev: Option<LocalEvent>)
    ensures
        ev == key_event(k, action),
{
    match map_key(k) {
        Some(id) => Some(LocalEvent::Key { id, mask: 0, button: id as KeyButton, action }),
        None => None,
    }
}

fn map_button(b: PhysicalButton) -> (n: i8)
    ensures
        n == button_number(b),
{
    match b {
        PhysicalButton::Left => 1,
        PhysicalButton::Middle => 2,
        PhysicalButton::Right => 3,
        PhysicalButton::Unknown(n) => n as i8,
    }
}

/// Map a physical key to a protocol [`KeyId`]. Letters and digits use their base (unshifted) code
/// point; the shift state arrives as separate modifier key events, so the receiver reconstructs the
/// right character.
pub fn map_key(k: PhysicalKey) -> (id: Option<KeyId>)
    ensures
        id == key_id(k),
{
    match k {
        PhysicalKey::KeyA => Some('a' as KeyId),
        PhysicalKey::KeyB => Some('b' as KeyId),
        PhysicalKey::KeyC => Some('c' as KeyId),
        PhysicalKey::KeyD => Some('d' as KeyId),
        PhysicalKey::KeyE => Some('e' as KeyId),
        PhysicalKey::KeyF => Some('f' as KeyId),
        PhysicalKey::KeyG => Some('g' as KeyId),
        PhysicalKey::KeyH => Some('h' as KeyId),
        PhysicalKey::KeyI => Some('i' as KeyId),
        PhysicalKey::KeyJ => Some('j' as KeyId),
        PhysicalKey::KeyK => Some('k' as KeyId),
        PhysicalKey::KeyL => Some('l' as KeyId),
        PhysicalKey::KeyM => Some('m' as KeyId),
        PhysicalKey::KeyN => Some('n' as KeyId),
        PhysicalKey::KeyO => Some('o' as KeyId),
        PhysicalKey::KeyP => Some('p' as KeyId),
        PhysicalKey::KeyQ => Some('q' as KeyId),
        PhysicalKey::KeyR => Some('r' as KeyId),
        PhysicalKey::KeyS => Some('s' as KeyId),
        PhysicalKey::KeyT => Some('t' as KeyId),
        PhysicalKey::KeyU => Some('u' as KeyId),
        PhysicalKey::KeyV => Some('v' as KeyId),
        PhysicalKey::KeyW => Some('w' as KeyId),
        PhysicalKey::KeyX => Some('x' as KeyId),
        PhysicalKey::KeyY => Some('y' as KeyId),
        PhysicalKey::KeyZ => Some('z' as KeyId),
        PhysicalKey::Num0 => Some('0' as KeyId),
        PhysicalKey::Num1 => Some('1' as KeyId),
        PhysicalKey::Num2 => Some('2' as KeyId),
        PhysicalKey::Num3 => Some('3' as KeyId),
        PhysicalKey::Num4 => Some('4' as KeyId),
        PhysicalKey::Num5 => Some('5' as KeyId),
        PhysicalKey::Num6 => Some('6' as KeyId),
        PhysicalKey::Num7 => Some('7' as KeyId),
        PhysicalKey::Num8 => Some('8' as KeyId),
        PhysicalKey::Num9 => Some('9' as KeyId),
        PhysicalKey::Space => Some(' ' as KeyId),
        PhysicalKey::Return => Some(key::RETURN),
        PhysicalKey::Tab => Some(key::TAB),
        PhysicalKey::Backspace => Some(key::BACKSPACE),
        PhysicalKey::Escape => Some(key::ESCAPE),
        PhysicalKey::Delete => Some(key::DELETE),
        PhysicalKey::Insert => Some(key::INSERT),
        PhysicalKey::Home => Some(key::HOME),
        PhysicalKey::End => Some(key::END),
        PhysicalKey::PageUp => Some(key::PAGE_UP),
        PhysicalKey::PageDown => Some(key::PAGE_DOWN),
        PhysicalKey::UpArrow => Some(key::UP),
        PhysicalKey::DownArrow => Some(key::DOWN),
        PhysicalKey::LeftArrow => Some(key::LEFT),
        PhysicalKey::RightArrow => Some(key::RIGHT),
        PhysicalKey::ShiftLeft => Some(key::SHIFT_L),
        PhysicalKey::ShiftRight => Some(key::SHIFT_R),
        PhysicalKey::ControlLeft => Some(key::CONTROL_L),
        PhysicalKey::ControlRight => Some(key::CONTROL_R),
        PhysicalKey::Alt => Some(key::ALT_L),
        PhysicalKey::AltGr => Some(key::ALT_R),
        PhysicalKey::MetaLeft => Some(key::SUPER_L),
        PhysicalKey::MetaRight => Some(key::SUPER_R),
        PhysicalKey::CapsLock => Some(key::CAPS_LOCK),
        PhysicalKey::F1 => Some(key::f(1)),
        PhysicalKey::F2 => Some(key::f(2)),
        PhysicalKey::F3 => Some(key::f(3)),
        PhysicalKey::F4 => Some(key::f(4)),
        PhysicalKey::F5 => Some(key::f(5)),
        PhysicalKey::F6 => Some(key::f(6)),
        PhysicalKey::F7 => Some(key::f(7)),
        PhysicalKey::F8 => Some(key::f(8)),
        PhysicalKey::F9 => Some(key::f(9)),
        PhysicalKey::F10 => Some(key::f(10)),
        PhysicalKey::F11 => Some(key::f(11)),
        PhysicalKey::F12 => Some(key::f(12)),
        PhysicalKey::Minus => Some('-' as KeyId),
        PhysicalKey::Equal => Some('=' as KeyId),
        PhysicalKey::LeftBracket => Some('[' as KeyId),
        PhysicalKey::RightBracket => Some(']' as KeyId),
        PhysicalKey::SemiColon => Some(';' as KeyId),
        PhysicalKey::Quote => Some('\'' as KeyId),
        PhysicalKey::BackSlash => Some('\\' as KeyId),
        PhysicalKey::Comma => Some(',' as KeyId),
        PhysicalKey::Dot => Some('.' as KeyId),
        PhysicalKey::Slash => Some('/' as KeyId),
        PhysicalKey::BackQuote => Some('`' as KeyId),
        _ => None,
    }
}

/// Whether the local machine sees an event: grabbed input is swallowed.
pub fn passes_through(grabbing: bool) -> (passes: bool)
    ensures
        passes == !grabbing,
{
    !grabbing
}

/// The physical key that types an id on a US keyboard without a modifier. Characters go by their
/// code points and special keys by their X11 keysyms, less `0x1000`.
pub open spec fn key_typing(id: KeyId) -> Option<PhysicalKey> {
    if id == 0x0061 {
        Some(PhysicalKey::KeyA)
    } else if id == 0x0062 {
        Some(PhysicalKey::KeyB)
    } else if id == 0x0063 {
        Some(PhysicalKey::KeyC)
    } else if id == 0x0064 {
        Some(PhysicalKey::KeyD)
    } else if id == 0x0065 {
        Some(PhysicalKey::KeyE)
    } else if id == 0x0066 {
        Some(PhysicalKey::KeyF)
    } else if id == 0x0067 {
        Some(PhysicalKey::KeyG)
    } else if id == 0x0068 {
        Some(PhysicalKey::KeyH)
    } else if id == 0x0069 {
        Some(PhysicalKey::KeyI)
    } else if id == 0x006A {
        Some(PhysicalKey::KeyJ)
    } else if id == 0x006B {
        Some(PhysicalKey::KeyK)
    } else if id == 0x006C {
        Some(PhysicalKey::KeyL)
    } else if id == 0x006D {
        Some(PhysicalKey::KeyM)
    } else if id == 0x006E {
        Some(PhysicalKey::KeyN)
    } else if id == 0x006F {
        Some(PhysicalKey::KeyO)
    } else if id == 0x0070 {
        Some(PhysicalKey::KeyP)
    } else if id == 0x0071 {
        Some(PhysicalKey::KeyQ)
    } else if id == 0x0072 {
        Some(PhysicalKey::KeyR)
    } else if id == 0x0073 {
        Some(PhysicalKey::KeyS)
    } else if id == 0x0074 {
        Some(PhysicalKey::KeyT)
    } else if id == 0x0075 {
        Some(PhysicalKey::KeyU)
    } else if id == 0x0076 {
        Some(PhysicalKey::KeyV)
    } else if id == 0x0077 {
        Some(PhysicalKey::KeyW)
    } else if id == 0x0078 {
        Some(PhysicalKey::KeyX)
    } else if id == 0x0079 {
        Some(PhysicalKey::KeyY)
    } else if id == 0x007A {
        Some(PhysicalKey::KeyZ)
    } else if id == 0x0030 {
        Some(PhysicalKey::Num0)
    } else if id == 0x0031 {
        Some(PhysicalKey::Num1)
    } else if id == 0x0032 {
        Some(PhysicalKey::Num2)
    } else if id == 0x0033 {
        Some(PhysicalKey::Num3)
    } else if id == 0x0034 {
        Some(PhysicalKey::Num4)
    } else if id == 0x0035 {
        Some(PhysicalKey::Num5)
    } else if id == 0x0036 {
        Some(PhysicalKey::Num6)
    } else if id == 0x0037 {
        Some(PhysicalKey::Num7)
    } else if id == 0x0038 {
        Some(PhysicalKey::Num8)
    } else if id == 0x0039 {
        Some(PhysicalKey::Num9)
    } else if id == 0x0020 {
        Some(PhysicalKey::Space)
    } else if id == 0x002D {
        Some(PhysicalKey::Minus)
    } else if id == 0x003D {
        Some(PhysicalKey::Equal)
    } else if id == 0x005B {
        Some(PhysicalKey::LeftBracket)
    } else if id == 0x005D {
        Some(PhysicalKey::RightBracket)
    } else if id == 0x003B {
        Some(PhysicalKey::SemiColon)
    } else if id == 0x0027 {
        Some(PhysicalKey::Quote)
    } else if id == 0x005C {
        Some(PhysicalKey::BackSlash)
    } else if id == 0x002C {
        Some(PhysicalKey::Comma)
    } else if id == 0x002E {
        Some(PhysicalKey::Dot)
    } else if id == 0x002F {
        Some(PhysicalKey::Slash)
    } else if id == 0x0060 {
        Some(PhysicalKey::BackQuote)
    } else if id == 0xFF0D - 0x1000 {
        Some(PhysicalKey::Return)
    } else if id == 0xFF09 - 0x1000 {
        Some(PhysicalKey::Tab)
    } else if id == 0xFF08 - 0x1000 {
        Some(PhysicalKey::Backspace)
    } else if id == 0xFF1B - 0x1000 {
        Some(PhysicalKey::Escape)
    } else if id == 0xFFFF - 0x1000 {
        Some(PhysicalKey::Delete)
    } else if id == 0xFF63 - 0x1000 {
        Some(PhysicalKey::Insert)
    } else if id == 0xFF50 - 0x1000 {
        Some(PhysicalKey::Home)
    } else if id == 0xFF57 - 0x1000 {
        Some(PhysicalKey::End)
    } else if id == 0xFF55 - 0x1000 {
        Some(PhysicalKey::PageUp)
    } else if id == 0xFF56 - 0x1000 {
        Some(PhysicalKey::PageDown)
    } else if id == 0xFF52 - 0x1000 {
        Some(PhysicalKey::UpArrow)
    } else if id == 0xFF54 - 0x1000 {
        Some(PhysicalKey::DownArrow)
    } else if id == 0xFF51 - 0x1000 {
        Some(PhysicalKey::LeftArrow)
    } else if id == 0xFF53 - 0x1000 {
        Some(PhysicalKey::RightArrow)
    } else if id == 0xFFE1 - 0x1000 {
        Some(PhysicalKey::ShiftLeft)
    } else if id == 0xFFE2 - 0x1000 {
        Some(PhysicalKey::ShiftRight)
    } else if id == 0xFFE3 - 0x1000 {
        Some(PhysicalKey::ControlLeft)
    } else if id == 0xFFE4 - 0x1000 {
        Some(PhysicalKey::ControlRight)
    } else if id == 0xFFE9 - 0x1000 {
        Some(PhysicalKey::Alt)
    } else if id == 0xFFEA - 0x1000 {
        Some(PhysicalKey::AltGr)
    } else if id == 0xFFEB - 0x1000 {
        Some(PhysicalKey::MetaLeft)
    } else if id == 0xFFEC - 0x1000 {
        Some(PhysicalKey::MetaRight)
    } else if id == 0xFFE5 - 0x1000 {
        Some(PhysicalKey::CapsLock)
    } else if id == 0xFFBE - 0x1000 {
        Some(PhysicalKey::F1)
    } else if id == 0xFFBF - 0x1000 {
        Some(PhysicalKey::F2)
    } else if id == 0xFFC0 - 0x1000 {
        Some(PhysicalKey::F3)
    } else if id == 0xFFC1 - 0x1000 {
        Some(PhysicalKey::F4)
    } else if id == 0xFFC2 - 0x1000 {
        Some(PhysicalKey::F5)
    } else if id == 0xFFC3 - 0x1000 {
        Some(PhysicalKey::F6)
    } else if id == 0xFFC4 - 0x1000 {
        Some(PhysicalKey::F7)
    } else if id == 0xFFC5 - 0x1000 {
        Some(PhysicalKey::F8)
    } else if id == 0xFFC6 - 0x1000 {
        Some(PhysicalKey::F9)
    } else if id == 0xFFC7 - 0x1000 {
        Some(PhysicalKey::F10)
    } else if id == 0xFFC8 - 0x1000 {
        Some(PhysicalKey::F11)
    } else if id == 0xFFC9 - 0x1000 {
        Some(PhysicalKey::F12)
    } else {
        None
    }
}

/// Every key has the id that it types, and no two have the same. A key has an id if it types
/// something at all.
#[verifier::spinoff_prover]
pub proof fn lemma_keys_have_the_ids_that_they_type(k: PhysicalKey, id: KeyId)
    ensures
        key_id(k) == Some(id) <==> key_typing(id) == Some(k),
{
}

/// Two keys never have one id.
pub proof fn lemma_key_ids_are_told_apart(a: PhysicalKey, b: PhysicalKey)
    requires
        key_id(a) is Some,
        key_id(a) == key_id(b),
    ensures
        a == b,
{
    lemma_keys_have_the_ids_that_they_type(a, key_id(a)->0);
    lemma_keys_have_the_ids_that_they_type(b, key_id(a)->0);
}

/// A key that has an id gives an event at its press and one at its release, with that id for the
/// physical key as well and no modifiers. One that has none gives nothing. Grabbed or not.
pub proof fn lemma_keys_are_captured(k: PhysicalKey, grabbing: bool)
    ensures
        ({
            let press = meaning(RawEvent::KeyPress(k), grabbing);
            let release = meaning(RawEvent::KeyRelease(k), grabbing);
            match key_id(k) {
                Some(id) => {
                    &&& press == Some(
                        LocalEvent::Key { id, mask: 0, button: id, action: KeyAction::Down },
                    )
                    &&& release == Some(
                        LocalEvent::Key { id, mask: 0, button: id, action: KeyAction::Up },
                    )
                },
                None => press is None && release is None,
            }
        }),
{
}

/// The left, the middle and the right button are the first, the second and the third, and another
/// one has the number that the backend gives. A press is told from a release. Grabbed or not.
pub proof fn lemma_buttons_are_captured(b: PhysicalButton, grabbing: bool)
    ensures
        ({
            let press = meaning(RawEvent::ButtonPress(b), grabbing);
            let release = meaning(RawEvent::ButtonRelease(b), grabbing);
            &&& press matches Some(LocalEvent::Button { button, pressed: true })
            &&& release == Some(LocalEvent::Button { button, pressed: false })
            &&& b is Left ==> button == 1
            &&& b is Middle ==> button == 2
            &&& b is Right ==> button == 3
            &&& b matches PhysicalButton::Unknown(n) ==> (n <= 127 ==> button == n) && (n > 127
                ==> button == n - 256)
        }),
{
    if let PhysicalButton::Unknown(n) = b {
        assert(n <= 127 ==> n as i8 == n) by (bit_vector);
        assert(n > 127 ==> n as i8 == n - 256) by (bit_vector);
    }
}

/// While input is grabbed, a move gives the distance, if there is one and it is known. While it is
/// not, it gives the position, whatever the distance.
pub proof fn lemma_moves_are_captured(x: i32, y: i32, dx: i32, dy: i32)
    ensures
        ({
            let far = RawEvent::MouseMove { x, y, delta: Some((dx, dy)) };
            let first = RawEvent::MouseMove { x, y, delta: None };
            &&& meaning(far, false) == Some(LocalEvent::MotionAbs { x, y })
            &&& meaning(first, false) == Some(LocalEvent::MotionAbs { x, y })
            &&& meaning(first, true) is None
            &&& dx == 0 && dy == 0 ==> meaning(far, true) is None
            &&& dx != 0 || dy != 0 ==> meaning(far, true) == Some(
                LocalEvent::MotionRel { dx, dy },
            )
        }),
{
}

/// A turn of the wheel is passed on along both axes, grabbed or not. One that does not fit is cut
/// to its sixteen low bits.
pub proof fn lemma_wheel_is_captured(delta_x: i64, delta_y: i64, grabbing: bool)
    ensures
        meaning(RawEvent::Wheel { delta_x, delta_y }, grabbing) matches Some(
            LocalEvent::Wheel { x, y },
        ) && (delta_x - x) % 65_536 == 0 && (delta_y - y) % 65_536 == 0 && (i16::MIN <= delta_x
            <= i16::MAX ==> x == delta_x) && (i16::MIN <= delta_y <= i16::MAX ==> y == delta_y),
{
    assert((delta_x - (delta_x as i16)) % 65_536 == 0) by (bit_vector);
    assert((delta_y - (delta_y as i16)) % 65_536 == 0) by (bit_vector);
}

} // verus!
