//! Capture, injection, displays and the clipboard watch.

use self_kvm::capture::{
    map_key, passes_through, translate, PhysicalButton, PhysicalKey, RawEvent,
};
use self_kvm::clipboard::ClipboardWatch;
use self_kvm::events::{InputCommand, KeyAction, LocalEvent};
use self_kvm::inject::{Injector, NoopInjector};
use self_kvm::injection::{
    injection_steps, Axis, Direction, OutputButton, OutputKey, Step,
};
use self_kvm::input::{primary_display_size, Display, GrabSwitch, InputError};
use self_kvm::keys::key;

#[test]
fn motion_is_relative_only_while_grabbing() {
    let moved = RawEvent::MouseMove {
        x: 10,
        y: 20,
        delta: Some((3, 0)),
    };
    assert_eq!(
        translate(moved, false),
        Some(LocalEvent::MotionAbs { x: 10, y: 20 })
    );
    assert_eq!(
        translate(moved, true),
        Some(LocalEvent::MotionRel { dx: 3, dy: 0 })
    );
    let still = RawEvent::MouseMove {
        x: 10,
        y: 20,
        delta: Some((0, 0)),
    };
    assert_eq!(translate(still, true), None);
    let first = RawEvent::MouseMove {
        x: 10,
        y: 20,
        delta: None,
    };
    assert_eq!(translate(first, true), None);
    assert!(passes_through(false));
    assert!(!passes_through(true));
}

#[test]
fn keys_buttons_and_wheel_are_translated() {
    assert_eq!(
        translate(RawEvent::KeyPress(PhysicalKey::KeyA), false),
        Some(LocalEvent::Key {
            id: 0x61,
            mask: 0,
            button: 0x61,
            action: KeyAction::Down
        })
    );
    assert_eq!(
        translate(RawEvent::KeyRelease(PhysicalKey::AltGr), true),
        Some(LocalEvent::Key {
            id: key::ALT_R,
            mask: 0,
            button: key::ALT_R,
            action: KeyAction::Up
        })
    );
    assert_eq!(
        translate(RawEvent::KeyPress(PhysicalKey::Unknown(7)), true),
        None
    );
    assert_eq!(
        translate(RawEvent::ButtonPress(PhysicalButton::Right), true),
        Some(LocalEvent::Button {
            button: 3,
            pressed: true
        })
    );
    assert_eq!(
        translate(RawEvent::ButtonRelease(PhysicalButton::Unknown(200)), true),
        Some(LocalEvent::Button {
            button: 200u8 as i8,
            pressed: false
        })
    );
    assert_eq!(
        translate(
            RawEvent::Wheel {
                delta_x: -1,
                delta_y: 70_000
            },
            true
        ),
        Some(LocalEvent::Wheel {
            x: -1,
            y: 70_000i64 as i16
        })
    );
}

#[test]
fn key_table_is_exact() {
    for (k, id) in [
        (PhysicalKey::KeyZ, 'z' as u16),
        (PhysicalKey::Num0, '0' as u16),
        (PhysicalKey::Space, 0x20),
        (PhysicalKey::Quote, '\'' as u16),
        (PhysicalKey::BackSlash, '\\' as u16),
        (PhysicalKey::BackQuote, '`' as u16),
        (PhysicalKey::Return, key::RETURN),
        (PhysicalKey::MetaLeft, key::SUPER_L),
        (PhysicalKey::Alt, key::ALT_L),
        (PhysicalKey::F1, key::F1),
        (PhysicalKey::F12, key::F1 + 11),
        (PhysicalKey::Insert, key::INSERT),
    ] {
        assert_eq!(map_key(k), Some(id), "{k:?}");
    }
    assert_eq!(map_key(PhysicalKey::Kp1), None);
    assert_eq!(map_key(PhysicalKey::PrintScreen), None);
}

fn key_cmd(id: u16, action: KeyAction) -> InputCommand {
    InputCommand::Key {
        id,
        mask: 0,
        button: 0,
        action,
    }
}

#[test]
fn commands_become_backend_calls() {
    assert_eq!(
        injection_steps(InputCommand::MouseMoveAbs { x: 1, y: 2 }),
        vec![Step::MoveTo { x: 1, y: 2 }]
    );
    assert_eq!(
        injection_steps(InputCommand::MouseMoveRel { dx: -1, dy: 2 }),
        vec![Step::MoveBy { dx: -1, dy: 2 }]
    );
    for (n, b) in [
        (1, OutputButton::Left),
        (2, OutputButton::Middle),
        (3, OutputButton::Right),
        (4, OutputButton::Back),
        (5, OutputButton::Forward),
        (9, OutputButton::Left),
        (-1, OutputButton::Left),
    ] {
        assert_eq!(
            injection_steps(InputCommand::MouseButton {
                button: n,
                pressed: n > 0
            }),
            vec![Step::Button {
                button: b,
                direction: if n > 0 {
                    Direction::Press
                } else {
                    Direction::Release
                }
            }]
        );
    }
}

#[test]
fn wheel_scrolls_in_lines() {
    let scroll = |lines, axis| Step::Scroll { lines, axis };
    let deltas = [(120, -1), (240, -2), (359, -2), (1, -1), (-1, 1), (-120, 1), (-300, 2)];
    for (delta, lines) in deltas {
        assert_eq!(
            injection_steps(InputCommand::MouseWheel { x: 0, y: delta }),
            vec![scroll(lines, Axis::Vertical)]
        );
    }
    assert_eq!(
        injection_steps(InputCommand::MouseWheel { x: -120, y: 120 }),
        vec![scroll(-1, Axis::Vertical), scroll(1, Axis::Horizontal)]
    );
    assert!(injection_steps(InputCommand::MouseWheel { x: 0, y: 0 }).is_empty());
}

#[test]
fn keys_are_pressed_and_released() {
    let press = |k| {
        vec![Step::Key {
            key: k,
            direction: Direction::Press,
        }]
    };
    assert_eq!(
        injection_steps(key_cmd(0x61, KeyAction::Down)),
        press(OutputKey::Unicode('a'))
    );
    assert_eq!(
        injection_steps(key_cmd(0x20AC, KeyAction::Repeat(3))),
        press(OutputKey::Unicode('€'))
    );
    assert_eq!(
        injection_steps(key_cmd(key::F1 + 11, KeyAction::Up)),
        vec![Step::Key {
            key: OutputKey::F12,
            direction: Direction::Release
        }]
    );
    for (id, k) in [
        (key::SHIFT_R, OutputKey::Shift),
        (key::META_R, OutputKey::Meta),
        (key::SUPER_L, OutputKey::Meta),
        (key::ALT_R, OutputKey::Alt),
        (key::PAGE_UP, OutputKey::PageUp),
        (key::CAPS_LOCK, OutputKey::CapsLock),
    ] {
        assert_eq!(injection_steps(key_cmd(id, KeyAction::Down)), press(k));
    }
    // No backend key: insert, a surrogate, no key at all, one past the function keys.
    for id in [key::INSERT, 0xD800, 0, key::F1 + 12] {
        assert!(injection_steps(key_cmd(id, KeyAction::Down)).is_empty());
    }
}

#[test]
fn first_primary_display_is_chosen() {
    let d = |is_primary, width, height| Display {
        is_primary,
        width,
        height,
    };
    assert_eq!(primary_display_size(&[]), None);
    assert_eq!(
        primary_display_size(&[d(false, 1, 2), d(false, 3, 4)]),
        Some((1, 2))
    );
    assert_eq!(
        primary_display_size(&[d(false, 1, 2), d(true, 3, 4), d(true, 5, 6)]),
        Some((3, 4))
    );
}

#[test]
fn remote_paste_is_not_echoed() {
    let mut w = ClipboardWatch::new(Ok("start".to_string()));
    assert_eq!(w.polled(Ok("start".to_string())), None);
    assert_eq!(w.polled(Ok("mine".to_string())), Some("mine".to_string()));
    assert_eq!(w.polled(Ok("mine".to_string())), None);
    w.written("theirs".to_string());
    assert_eq!(w.polled(Ok("theirs".to_string())), None);
    assert_eq!(w.polled(Ok(String::new())), None);
    assert_eq!(w.polled(Err(InputError::Backend("busy".to_string()))), None);
    assert_eq!(w.polled(Ok("mine".to_string())), Some("mine".to_string()));
    let mut unread = ClipboardWatch::new(Err(InputError::Unavailable(String::new())));
    assert_eq!(unread.polled(Ok("x".to_string())), Some("x".to_string()));
}

#[test]
fn switch_and_errors_are_plain() {
    let mut g = GrabSwitch::new();
    assert!(!g.enabled());
    g.set(true);
    assert!(g.enabled());
    assert_eq!(
        InputError::Unavailable("x".to_string()).message(),
        "input backend unavailable: x"
    );
    assert_eq!(
        InputError::PermissionDenied("x".to_string()).message(),
        "permission denied (grant Accessibility / Input Monitoring): x"
    );
    assert_eq!(
        InputError::Backend("x".to_string()).message(),
        "backend error: x"
    );
    assert_eq!(
        NoopInjector::default().inject(InputCommand::MouseWheel { x: 0, y: 1 }),
        Ok(())
    );
}
