//! The server machine.

use self_kvm::events::{KeyAction, LocalEvent};
use self_kvm::keys::{key, modifier};
use self_kvm::layout::{Edge, ScreenLayout, ScreenSize};
use self_kvm::message::Message;
use self_kvm::server::{ServerAction, ServerMachine};

fn machine() -> ServerMachine {
    let mut l = ScreenLayout::new();
    l.add_screen("srv", ScreenSize::new(1920, 1080));
    l.add_screen("lap", ScreenSize::new(1280, 800));
    l.link("srv", Edge::Right, "lap");
    ServerMachine::new(l, "srv")
}

#[test]
fn starts_local() {
    let m = machine();
    assert!(!m.is_remote());
    assert_eq!(m.active_screen(), "srv");
}

#[test]
fn crossing_right_edge_enters_client_and_grabs() {
    let mut m = machine();
    let actions = m.handle(LocalEvent::MotionAbs { x: 1920, y: 540 });
    assert!(m.is_remote());
    assert_eq!(m.active_screen(), "lap");
    assert_eq!(
        actions,
        vec![
            ServerAction::SetGrab(true),
            ServerAction::Send {
                screen: "lap".into(),
                msg: Message::Enter {
                    x: 0,
                    y: 400,
                    seq: 1,
                    modifiers: 0
                }
            },
            ServerAction::ActiveChanged {
                screen: "lap".into()
            },
        ]
    );
}

#[test]
fn motion_on_client_forwards_absolute_position() {
    let mut m = machine();
    m.handle(LocalEvent::MotionAbs { x: 1920, y: 540 }); // enter lap at (0,400)
    let actions = m.handle(LocalEvent::MotionRel { dx: 100, dy: 50 });
    assert_eq!(
        actions,
        vec![ServerAction::Send {
            screen: "lap".into(),
            msg: Message::MouseMove { x: 100, y: 450 }
        }]
    );
}

#[test]
fn buttons_and_keys_forward_while_remote() {
    let mut m = machine();
    m.handle(LocalEvent::MotionAbs { x: 1920, y: 540 });

    let a = m.handle(LocalEvent::Button {
        button: 1,
        pressed: true,
    });
    assert_eq!(a[0], ServerAction::Send {
        screen: "lap".into(),
        msg: Message::MouseDown { button: 1 }
    });

    let a = m.handle(LocalEvent::Key {
        id: 0x41,
        mask: 0,
        button: 30,
        action: KeyAction::Down,
    });
    assert_eq!(a[0], ServerAction::Send {
        screen: "lap".into(),
        msg: Message::KeyDown { id: 0x41, mask: 0, button: 30 }
    });
}

#[test]
fn crossing_back_releases_grab_and_warps_home() {
    let mut m = machine();
    m.handle(LocalEvent::MotionAbs { x: 1920, y: 540 }); // now on lap at (0,400)
    let actions = m.handle(LocalEvent::MotionRel { dx: -5, dy: 0 }); // off lap's left edge
    assert!(!m.is_remote());
    assert_eq!(m.active_screen(), "srv");
    assert_eq!(
        actions,
        vec![
            ServerAction::Send {
                screen: "lap".into(),
                msg: Message::Leave
            },
            ServerAction::SetGrab(false),
            ServerAction::WarpCursor { x: 1919, y: 540 },
            ServerAction::ActiveChanged {
                screen: "srv".into()
            },
        ]
    );
}

#[test]
fn lock_pins_cursor_to_active_screen() {
    let mut m = machine();
    m.set_lock(true);
    // Pushing off the right edge would normally cross to lap; locked, it stays.
    let actions = m.handle(LocalEvent::MotionAbs { x: 1920, y: 540 });
    assert!(!m.is_remote(), "lock should prevent crossing");
    assert_eq!(m.active_screen(), "srv");
    assert!(actions.is_empty()); // local + clamped, nothing forwarded

    // Unlock, then the same motion crosses.
    m.set_lock(false);
    m.handle(LocalEvent::MotionAbs { x: 1920, y: 540 });
    assert!(m.is_remote());
}

#[test]
fn modifier_state_is_carried_into_enter() {
    let mut m = machine();
    // Hold Control on the local screen, then cross.
    m.handle(LocalEvent::Key {
        id: key::CONTROL_L,
        mask: 0,
        button: 59,
        action: KeyAction::Down,
    });
    let actions = m.handle(LocalEvent::MotionAbs { x: 1920, y: 0 });
    let enter = actions.iter().find_map(|a| match a {
        ServerAction::Send {
            msg: Message::Enter { modifiers, .. },
            ..
        } => Some(*modifiers),
        _ => None,
    });
    assert_eq!(enter, Some(modifier::CONTROL));
}

#[test]
fn hop_between_clients_keeps_the_grab() {
    let mut l = ScreenLayout::new();
    l.add_screen("srv", ScreenSize::new(1920, 1080));
    l.add_screen("lap", ScreenSize::new(1280, 800));
    l.add_screen("tab", ScreenSize::new(640, 400));
    l.link("srv", Edge::Right, "lap");
    l.link("lap", Edge::Right, "tab");
    let mut m = ServerMachine::new(l, "srv");
    m.handle(LocalEvent::MotionAbs { x: 1920, y: 540 });
    let actions = m.handle(LocalEvent::MotionRel { dx: 1280, dy: 0 });
    assert_eq!(
        actions,
        vec![
            ServerAction::Send {
                screen: "lap".into(),
                msg: Message::Leave
            },
            ServerAction::Send {
                screen: "tab".into(),
                msg: Message::Enter {
                    x: 0,
                    y: 200,
                    seq: 2,
                    modifiers: 0
                }
            },
            ServerAction::ActiveChanged {
                screen: "tab".into()
            },
        ]
    );
}

#[test]
fn virtual_cursor_is_clamped_at_free_edges() {
    let mut m = machine();
    m.handle(LocalEvent::MotionAbs { x: 1920, y: 540 });
    let actions = m.handle(LocalEvent::MotionRel { dx: 9000, dy: 9000 });
    assert_eq!(
        actions,
        vec![ServerAction::Send {
            screen: "lap".into(),
            msg: Message::MouseMove { x: 1279, y: 799 }
        }]
    );
    assert!(m.handle(LocalEvent::MotionAbs { x: 5, y: 5 }).is_empty());
    assert_eq!(m.active_screen(), "lap");
}

#[test]
fn going_home_centres_the_cursor() {
    let mut m = machine();
    assert!(m.go_home().is_empty());
    m.handle(LocalEvent::MotionAbs { x: 1920, y: 540 });
    assert_eq!(
        m.go_home(),
        vec![
            ServerAction::SetGrab(false),
            ServerAction::WarpCursor { x: 960, y: 540 },
            ServerAction::ActiveChanged {
                screen: "srv".into()
            },
        ]
    );
    assert!(!m.is_remote());
}

#[test]
fn released_modifiers_are_not_carried() {
    let mut m = machine();
    for action in [KeyAction::Down, KeyAction::Up] {
        m.handle(LocalEvent::Key {
            id: key::SHIFT_R,
            mask: modifier::ALT,
            button: 1,
            action,
        });
    }
    let actions = m.handle(LocalEvent::MotionAbs { x: 1920, y: 0 });
    assert!(actions.contains(&ServerAction::Send {
        screen: "lap".into(),
        msg: Message::Enter {
            x: 0,
            y: 0,
            seq: 1,
            modifiers: modifier::ALT
        }
    }));
}

#[test]
fn lock_can_be_toggled() {
    let mut m = machine();
    assert!(!m.is_locked());
    assert!(m.toggle_lock());
    assert!(m.is_locked());
    assert!(!m.toggle_lock());
}

#[test]
fn new_layout_resets_control() {
    let mut m = machine();
    m.handle(LocalEvent::MotionAbs { x: 1920, y: 540 });
    let mut l = ScreenLayout::new();
    l.add_screen("srv", ScreenSize::new(800, 600));
    m.set_layout(l);
    assert!(!m.is_remote());
    assert!(!m.layout().contains("lap"));
}

#[test]
fn local_input_is_left_to_the_os() {
    let mut m = machine();
    assert!(m
        .handle(LocalEvent::Button {
            button: 1,
            pressed: true
        })
        .is_empty());
    assert!(m.handle(LocalEvent::Wheel { x: 0, y: 1 }).is_empty());
    assert!(m.handle(LocalEvent::MotionRel { dx: 5, dy: 5 }).is_empty());
}
