//! From input commands to the steps of an injection backend.
//!
//! Modifier state is *not* applied from the mask of a key: the server forwards explicit modifier
//! key events, so the right shifted character emerges from replaying those presses.

use crate::events::{InputCommand, KeyAction};
use crate::keys::{is_printable, key, KeyId};
use vstd::prelude::*;

verus! {

/// A mouse button that a backend can press.
#[derive(Clone, Copy, Debug, PartialEq, Eq, Structural)]
pub enum OutputButton {
    Left,
    Middle,
    Right,
    Back,
    Forward,
}

/// A key that a backend can press.
#[derive(Clone, Copy, Debug, PartialEq, Eq, Structural)]
pub enum OutputKey {
    Unicode(char),
    Backspace,
    Tab,
    Return,
    Escape,
    Delete,
    Home,
    End,
    PageUp,
    PageDown,
    LeftArrow,
    RightArrow,
    UpArrow,
    DownArrow,
    Shift,
    Control,
    Alt,
    Meta,
    CapsLock,
    F1,
    F2,
    F3,
    F4,
    F5,
    F6,
    F7,
    F8,
    F9,
    F10,
    F11,
    F12,
}

#[derive(Clone, Copy, Debug, PartialEq, Eq, Structural)]
pub enum Direction {
    Press,
    Release,
}

#[derive(Clone, Copy, Debug, PartialEq, Eq, Structural)]
pub enum Axis {
    Vertical,
    Horizontal,
}

/// One call of a backend.
#[derive(Clone, Copy, Debug, PartialEq, Eq, Structural)]
#[allow(inconsistent_fields)]
pub enum Step {
    MoveTo { x: i32, y: i32 },
    MoveBy { dx: i32, dy: i32 },
    Button { button: OutputButton, direction: Direction },
    /// Positive is down and right.
    Scroll { lines: i32, axis: Axis },
    Key { key: OutputKey, direction: Direction },
}

/// The backend's button for one of the protocol. Buttons that it does not know count as the left
/// one.
pub open spec fn button_for(button: i8) -> OutputButton {
    if button == 2 {
        OutputButton::Middle
    } else if button == 3 {
        OutputButton::Right
    } else if button == 4 {
        OutputButton::Back
    } else if button == 5 {
        OutputButton::Forward
    } else {
        OutputButton::Left
    }
}

/// The lines to scroll for a wheel delta: one for every full 120, at least one, in the opposite
/// direction.
pub open spec fn lines_for(delta: int) -> int {
    if delta == 0 {
        0
    } else if delta > 0 {
        if delta < 120 {
            -1
        } else {
            -(delta / 120)
        }
    } else {
        if delta > -120 {
            1
        } else {
            (-delta) / 120
        }
    }
}

/// The backend's `n`-th function key.
pub open spec fn function_key(n: int) -> Option<OutputKey> {
    if n == 1 {
        Some(OutputKey::F1)
    } else if n == 2 {
        Some(OutputKey::F2)
    } else if n == 3 {
        Some(OutputKey::F3)
    } else if n == 4 {
        Some(OutputKey::F4)
    } else if n == 5 {
        Some(OutputKey::F5)
    } else if n == 6 {
        Some(OutputKey::F6)
    } else if n == 7 {
        Some(OutputKey::F7)
    } else if n == 8 {
        Some(OutputKey::F8)
    } else if n == 9 {
        Some(OutputKey::F9)
    } else if n == 10 {
        Some(OutputKey::F10)
    } else if n == 11 {
        Some(OutputKey::F11)
    } else if n == 12 {
        Some(OutputKey::F12)
    } else {
        None
    }
}

/// The backend's key for one of the protocol: printable ids stand for their character, and the
/// special ones for a key of their own, where the backend has it. A surrogate is no character.
pub open spec fn key_for(id: KeyId) -> Option<OutputKey> {
    if id == key::BACKSPACE {
        Some(OutputKey::Backspace)
    } else if id == key::TAB {
        Some(OutputKey::Tab)
    } else if id == key::RETURN {
        Some(OutputKey::Return)
    } else if id == key::ESCAPE {
        Some(OutputKey::Escape)
    } else if id == key::DELETE {
        Some(OutputKey::Delete)
    } else if id == key::HOME {
        Some(OutputKey::Home)
    } else if id == key::END {
        Some(OutputKey::End)
    } else if id == key::PAGE_UP {
        Some(OutputKey::PageUp)
    } else if id == key::PAGE_DOWN {
        Some(OutputKey::PageDown)
    } else if id == key::LEFT {
        Some(OutputKey::LeftArrow)
    } else if id == key::RIGHT {
        Some(OutputKey::RightArrow)
    } else if id == key::UP {
        Some(OutputKey::UpArrow)
    } else if id == key::DOWN {
        Some(OutputKey::DownArrow)
    } else if id == key::SHIFT_L || id == key::SHIFT_R {
        Some(OutputKey::Shift)
    } else if id == key::CONTROL_L || id == key::CONTROL_R {
        Some(OutputKey::Control)
    } else if id == key::ALT_L || id == key::ALT_R {
        Some(OutputKey::Alt)
    } else if id == key::SUPER_L || id == key::SUPER_R || id == key::META_L || id == key::META_R {
        Some(OutputKey::Meta)
    } else if id == key::CAPS_LOCK {
        Some(OutputKey::CapsLock)
    } else if key::F1 <= id <= key::F1 + 11 {
        function_key(id - key::F1 + 1)
    } else if id == 0 || 0xD800 <= id <= 0xEFFF {
        None
    } else {
        Some(OutputKey::Unicode(id as char))
    }
}

/// The calls that inject a command, in order. A wheel command scrolls along each axis along which
/// it has a delta, the vertical first. A key that the backend does not have is skipped.
pub open spec fn steps(cmd: InputCommand) -> Seq<Step> {
    match cmd {
        InputCommand::MouseMoveAbs { x, y } => seq![Step::MoveTo { x, y }],
        InputCommand::MouseMoveRel { dx, dy } => seq![Step::MoveBy { dx, dy }],
        InputCommand::MouseButton { button, pressed } => seq![
            Step::Button {
                button: button_for(button),
                direction: if pressed {
                    Direction::Press
                } else {
                    Direction::Release
                },
            },
        ],
        InputCommand::MouseWheel { x, y } => {
            let vertical = if y != 0 {
                seq![Step::Scroll { lines: lines_for(y as int) as i32, axis: Axis::Vertical }]
            } else {
                Seq::empty()
            };
            let horizontal = if x != 0 {
                seq![Step::Scroll { lines: lines_for(x as int) as i32, axis: Axis::Horizontal }]
            } else {
                Seq::empty()
            };
            vertical + horizontal
        },
        InputCommand::Key { id, action, .. } => match key_for(id) {
            Some(key) => seq![
                Step::Key {
                    key,
                    direction: if action == KeyAction::Up {
                        Direction::Release
                    } else {
                        Direction::Press
                    },
                },
            ],
            None => Seq::empty(),
        },
    }
}

/// The calls that inject a command, in order. A backend carries them out up to the first that
/// fails.
pub fn injection_steps(cmd: InputCommand) -> (s: Vec<Step>)
    ensures
        s@ == steps(cmd),
{
    match cmd {
        InputCommand::MouseMoveAbs { x, y } => vec![Step::MoveTo { x, y }],
        InputCommand::MouseMoveRel { dx, dy } => vec![Step::MoveBy { dx, dy }],
        InputCommand::MouseButton { button, pressed } => {
            let direction = if pressed {
                Direction::Press
            } else {
                Direction::Release
            };
            vec![Step::Button { button: map_button(button), direction }]
        },
        InputCommand::MouseWheel { x, y } => {
            let mut s: Vec<Step> = Vec::new();
            if y != 0 {
                s.push(Step::Scroll { lines: wheel_lines(y), axis: Axis::Vertical });
            }
            if x != 0 {
                s.push(Step::Scroll { lines: wheel_lines(x), axis: Axis::Horizontal });
            }
            s
        },
        InputCommand::Key { id, action, .. } => {
            let direction = match action {
                KeyAction::Down | KeyAction::Repeat(_) => Direction::Press,
                KeyAction::Up => Direction::Release,
            };
            match map_key(id) {
                Some(key) => vec![Step::Key { key, direction }],
                None => Vec::new(),
            }
        },
    }
}

fn map_button(button: i8) -> (b: OutputButton)
    ensures
        b == button_for(button),
{
    match button {
        1 => OutputButton::Left,
        2 => OutputButton::Middle,
        3 => OutputButton::Right,
        4 => OutputButton::Back,
        5 => OutputButton::Forward,
        _ => OutputButton::Left,
    }
}

/// Convert a protocol wheel delta (about 120 per notch) into scroll lines. The backend treats
/// positive as down and right, so the sign is flipped to match the usual convention that a positive
/// delta scrolls up.
fn wheel_lines(delta: i16) -> (n: i32)
    ensures
        n == lines_for(delta as int),
{
    let d: i32 = delta as i32;
    let lines: i32 = d / 120;
    if lines == 0 {
        if d > 0 {
            -1
        } else if d < 0 {
            1
        } else {
            0
        }
    } else {
        -lines
    }
}

/// `char::from_u32`: the character with the code point, which there is exactly below 0x110000 and
/// outside of the surrogates.
pub assume_specification[ char::from_u32 ](i: u32) -> (c: Option<char>)
    ensures
        match c {
            Some(ch) => ch as int == i as int && i <= 0x10_FFFF && !(0xD800 <= i <= 0xDFFF),
            None => i > 0x10_FFFF || 0xD800 <= i <= 0xDFFF,
        },
;

fn map_key(id: KeyId) -> (k: Option<OutputKey>)
    ensures
        k == key_for(id),
{
    if is_printable(id) {
        return match char::from_u32(id as u32) {
            Some(c) => Some(OutputKey::Unicode(c)),
            None => None,
        };
    }
    let k = match id {
        key::BACKSPACE => OutputKey::Backspace,
        key::TAB => OutputKey::Tab,
        key::RETURN => OutputKey::Return,
        key::ESCAPE => OutputKey::Escape,
        key::DELETE => OutputKey::Delete,
        key::HOME => OutputKey::Home,
        key::END => OutputKey::End,
        key::PAGE_UP => OutputKey::PageUp,
        key::PAGE_DOWN => OutputKey::PageDown,
        key::LEFT => OutputKey::LeftArrow,
        key::RIGHT => OutputKey::RightArrow,
        key::UP => OutputKey::UpArrow,
        key::DOWN => OutputKey::DownArrow,
        key::SHIFT_L | key::SHIFT_R => OutputKey::Shift,
        key::CONTROL_L | key::CONTROL_R => OutputKey::Control,
        key::ALT_L | key::ALT_R => OutputKey::Alt,
        key::SUPER_L | key::SUPER_R | key::META_L | key::META_R => OutputKey::Meta,
        key::CAPS_LOCK => OutputKey::CapsLock,
        _ => {
            if key::F1 <= id && id <= key::f(12) {
                return f_key(id - key::F1 + 1);
            }
            return None;
        },
    };
    Some(k)
}

fn f_key(n: KeyId) -> (k: Option<OutputKey>)
    ensures
        k == function_key(n as int),
{
    match n {
        1 => Some(OutputKey::F1),
        2 => Some(OutputKey::F2),
        3 => Some(OutputKey::F3),
        4 => Some(OutputKey::F4),
        5 => Some(OutputKey::F5),
        6 => Some(OutputKey::F6),
        7 => Some(OutputKey::F7),
        8 => Some(OutputKey::F8),
        9 => Some(OutputKey::F9),
        10 => Some(OutputKey::F10),
        11 => Some(OutputKey::F11),
        12 => Some(OutputKey::F12),
        _ => None,
    }
}

/// The special keys are known by their X11 keysyms, less `0x1000`, and each gives the backend's key
/// of that name and no other id does.
pub proof fn lemma_special_keys_have_their_keysyms(id: KeyId)
    ensures
        key_for(id) == Some(OutputKey::Backspace) <==> id + 0x1000 == 0xFF08,
        key_for(id) == Some(OutputKey::Tab) <==> id + 0x1000 == 0xFF09,
        key_for(id) == Some(OutputKey::Return) <==> id + 0x1000 == 0xFF0D,
        key_for(id) == Some(OutputKey::Escape) <==> id + 0x1000 == 0xFF1B,
        key_for(id) == Some(OutputKey::Delete) <==> id + 0x1000 == 0xFFFF,
        key_for(id) == Some(OutputKey::Home) <==> id + 0x1000 == 0xFF50,
        key_for(id) == Some(OutputKey::LeftArrow) <==> id + 0x1000 == 0xFF51,
        key_for(id) == Some(OutputKey::UpArrow) <==> id + 0x1000 == 0xFF52,
        key_for(id) == Some(OutputKey::RightArrow) <==> id + 0x1000 == 0xFF53,
        key_for(id) == Some(OutputKey::DownArrow) <==> id + 0x1000 == 0xFF54,
        key_for(id) == Some(OutputKey::PageUp) <==> id + 0x1000 == 0xFF55,
        key_for(id) == Some(OutputKey::PageDown) <==> id + 0x1000 == 0xFF56,
        key_for(id) == Some(OutputKey::End) <==> id + 0x1000 == 0xFF57,
        key_for(id) == Some(OutputKey::CapsLock) <==> id + 0x1000 == 0xFFE5,
        key_for(id) == Some(OutputKey::F1) <==> id + 0x1000 == 0xFFBE,
        key_for(id) == Some(OutputKey::F2) <==> id + 0x1000 == 0xFFBF,
        key_for(id) == Some(OutputKey::F3) <==> id + 0x1000 == 0xFFC0,
        key_for(id) == Some(OutputKey::F4) <==> id + 0x1000 == 0xFFC1,
        key_for(id) == Some(OutputKey::F5) <==> id + 0x1000 == 0xFFC2,
        key_for(id) == Some(OutputKey::F6) <==> id + 0x1000 == 0xFFC3,
        key_for(id) == Some(OutputKey::F7) <==> id + 0x1000 == 0xFFC4,
        key_for(id) == Some(OutputKey::F8) <==> id + 0x1000 == 0xFFC5,
        key_for(id) == Some(OutputKey::F9) <==> id + 0x1000 == 0xFFC6,
        key_for(id) == Some(OutputKey::F10) <==> id + 0x1000 == 0xFFC7,
        key_for(id) == Some(OutputKey::F11) <==> id + 0x1000 == 0xFFC8,
        key_for(id) == Some(OutputKey::F12) <==> id + 0x1000 == 0xFFC9,
{
}

/// The left and the right form of a modifier give the backend's key of that modifier, and nothing
/// else does. Super and meta are one key.
pub proof fn lemma_modifiers_keep_their_kind(id: KeyId)
    ensures
        key_for(id) == Some(OutputKey::Shift) <==> id + 0x1000 == 0xFFE1 || id + 0x1000 == 0xFFE2,
        key_for(id) == Some(OutputKey::Control) <==> id + 0x1000 == 0xFFE3 || id + 0x1000 == 0xFFE4,
        key_for(id) == Some(OutputKey::Alt) <==> id + 0x1000 == 0xFFE9 || id + 0x1000 == 0xFFEA,
        key_for(id) == Some(OutputKey::Meta) <==> id + 0x1000 == 0xFFE7 || id + 0x1000 == 0xFFE8
            || id + 0x1000 == 0xFFEB || id + 0x1000 == 0xFFEC,
{
}

/// A printable id gives its own character, and no other does: every id that is neither none, nor a
/// surrogate, nor in the block of the special keys.
pub proof fn lemma_printable_ids_are_characters(id: KeyId)
    ensures
        (key_for(id) matches Some(OutputKey::Unicode(_))) <==> id != 0 && !(0xD800 <= id <= 0xEFFF),
        key_for(id) matches Some(OutputKey::Unicode(c)) ==> c as int == id as int,
        id == 0 || 0xD800 <= id < 0xEF00 ==> key_for(id) is None,
{
}

/// Whether two ids are the left and the right form of one modifier, or both super or meta.
pub open spec fn same_modifier(a: KeyId, b: KeyId) -> bool {
    let low = if a <= b {
        a + 0x1000
    } else {
        b + 0x1000
    };
    let high = if a <= b {
        b + 0x1000
    } else {
        a + 0x1000
    };
    ||| (low == 0xFFE1 && high == 0xFFE2)
    ||| (low == 0xFFE3 && high == 0xFFE4)
    ||| (low == 0xFFE9 && high == 0xFFEA)
    ||| ((low == 0xFFE7 || low == 0xFFE8 || low == 0xFFEB) && (high == 0xFFE8 || high == 0xFFEB
        || high == 0xFFEC))
}

/// Different keys stay different: two ids have one backend's key only if they are the two forms of
/// one modifier.
pub proof fn lemma_keys_are_told_apart(a: KeyId, b: KeyId)
    requires
        key_for(a) is Some,
        a != b,
    ensures
        key_for(a) == key_for(b) <==> same_modifier(a, b),
{
    if key_for(a) is Some && key_for(b) is Some {
        if key_for(a)->0 is Unicode && key_for(b)->0 is Unicode {
            lemma_printable_ids_are_characters(a);
            lemma_printable_ids_are_characters(b);
        }
    }
}

/// A key goes down when it is pressed or repeats, and up when it is released, in one call and
/// whatever the mask and the physical key are. One that the backend does not have is skipped.
pub proof fn lemma_keys_go_down_and_up(id: KeyId, mask: u16, button: u16, action: KeyAction)
    ensures
        ({
            let did = steps(InputCommand::Key { id, mask, button, action });
            match key_for(id) {
                Some(key) => did.len() == 1 && did[0] == (Step::Key {
                    key,
                    direction: match action {
                        KeyAction::Down | KeyAction::Repeat(_) => Direction::Press,
                        KeyAction::Up => Direction::Release,
                    },
                }),
                None => did.len() == 0,
            }
        }),
{
}

/// The pointer is moved to the position, or by the distance, that the command holds, in one call.
pub proof fn lemma_pointer_goes_where_it_is_sent(x: i32, y: i32)
    ensures
        steps(InputCommand::MouseMoveAbs { x, y }).len() == 1,
        steps(InputCommand::MouseMoveAbs { x, y })[0] == (Step::MoveTo { x, y }),
        steps(InputCommand::MouseMoveRel { dx: x, dy: y }).len() == 1,
        steps(InputCommand::MouseMoveRel { dx: x, dy: y })[0] == (Step::MoveBy { dx: x, dy: y }),
{
}

/// The buttons from two to five are the middle, the right, the back and the forward one, each of
/// them alone, and every other number is the left one. A press presses, and a release releases.
pub proof fn lemma_buttons_keep_their_number(button: i8, pressed: bool)
    ensures
        ({
            let did = steps(InputCommand::MouseButton { button, pressed });
            &&& did.len() == 1
            &&& did[0] matches Step::Button { button: which, direction }
            &&& (which == OutputButton::Middle <==> button == 2)
            &&& (which == OutputButton::Right <==> button == 3)
            &&& (which == OutputButton::Back <==> button == 4)
            &&& (which == OutputButton::Forward <==> button == 5)
            &&& (direction == Direction::Press <==> pressed)
        }),
{
}

/// The wheel scrolls along each axis along which it turned, the vertical first, and no other. A
/// turn of at least one notch scrolls a line for each full notch of 120, and a smaller one a
/// single line. A positive turn scrolls up or to the left, which the backend counts as negative.
pub proof fn lemma_wheel_scrolls_by_notches(x: i16, y: i16)
    ensures
        ({
            let did = steps(InputCommand::MouseWheel { x, y });
            let n = did.len() as int;
            &&& n == (if x != 0 {
                1int
            } else {
                0int
            }) + (if y != 0 {
                1int
            } else {
                0int
            })
            &&& y != 0 ==> (did[0] matches Step::Scroll { lines, axis: Axis::Vertical }
                && scrolls(lines as int, y as int))
            &&& x != 0 ==> (did[n - 1] matches Step::Scroll { lines, axis: Axis::Horizontal }
                && scrolls(lines as int, x as int))
        }),
{
}

/// Whether a turn of the wheel, which is not none, scrolls by so many lines.
pub open spec fn scrolls(lines: int, delta: int) -> bool {
    let turn = if delta > 0 {
        delta
    } else {
        -delta
    };
    let by = if lines > 0 {
        lines
    } else {
        -lines
    };
    &&& delta > 0 <==> lines < 0
    &&& lines != 0
    &&& turn >= 120 ==> 120 * by <= turn < 120 * (by + 1)
    &&& turn < 120 ==> by == 1
}

} // verus!
