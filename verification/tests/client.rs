//! The client machine.

use self_kvm::client::{ClientAction, ClientMachine, DisconnectReason};
use self_kvm::events::InputCommand;
use self_kvm::layout::ScreenSize;
use self_kvm::message::{Message, PROTOCOL_MAJOR, PROTOCOL_MINOR};

fn client() -> ClientMachine {
    ClientMachine::new("laptop", ScreenSize::new(1280, 800))
}

#[test]
fn handshake_sequence() {
    let mut c = client();

    let a = c.handle(Message::Hello { major: 1, minor: 8 });
    assert_eq!(
        a,
        vec![ClientAction::Reply(Message::HelloBack {
            major: PROTOCOL_MAJOR,
            minor: PROTOCOL_MINOR,
            name: "laptop".into()
        })]
    );

    let a = c.handle(Message::QueryInfo);
    assert_eq!(
        a,
        vec![ClientAction::Reply(Message::DeviceInfo {
            x: 0,
            y: 0,
            w: 1280,
            h: 800,
            warp: 0,
            mx: 640,
            my: 400
        })]
    );

    let a = c.handle(Message::InfoAck);
    assert_eq!(a, vec![ClientAction::Connected]);
}

#[test]
fn moves_dropped_until_entered_and_acked() {
    let mut c = client();
    // Not entered, not acked: dropped.
    assert!(c.handle(Message::MouseMove { x: 10, y: 10 }).is_empty());

    c.handle(Message::InfoAck);
    // Acked but not entered: still dropped.
    assert!(c.handle(Message::MouseMove { x: 10, y: 10 }).is_empty());

    let a = c.handle(Message::Enter {
        x: 5,
        y: 6,
        seq: 1,
        modifiers: 0,
    });
    assert_eq!(
        a,
        vec![
            ClientAction::Entered,
            ClientAction::Inject(InputCommand::MouseMoveAbs { x: 5, y: 6 })
        ]
    );
    assert!(c.is_entered());

    // Now moves inject.
    let a = c.handle(Message::MouseMove { x: 100, y: 200 });
    assert_eq!(
        a,
        vec![ClientAction::Inject(InputCommand::MouseMoveAbs { x: 100, y: 200 })]
    );
}

#[test]
fn keepalive_is_echoed() {
    let mut c = client();
    assert_eq!(
        c.handle(Message::KeepAlive),
        vec![ClientAction::Reply(Message::KeepAlive)]
    );
}

#[test]
fn leave_stops_injection() {
    let mut c = client();
    c.handle(Message::InfoAck);
    c.handle(Message::Enter {
        x: 0,
        y: 0,
        seq: 1,
        modifiers: 0,
    });
    assert_eq!(c.handle(Message::Leave), vec![ClientAction::Left]);
    assert!(!c.is_entered());
    assert!(c.handle(Message::MouseMove { x: 1, y: 1 }).is_empty());
}

#[test]
fn errors_map_to_disconnect() {
    let mut c = client();
    assert_eq!(
        c.handle(Message::ErrBusy),
        vec![ClientAction::Disconnect(DisconnectReason::NameInUse)]
    );
}

#[test]
fn every_farewell_has_its_reason() {
    for (msg, reason) in [
        (Message::Close, DisconnectReason::ServerClosed),
        (
            Message::ErrIncompatible { major: 2, minor: 3 },
            DisconnectReason::IncompatibleVersion { major: 2, minor: 3 },
        ),
        (Message::ErrUnknown, DisconnectReason::UnknownToServer),
        (Message::ErrBad, DisconnectReason::ProtocolViolation),
    ] {
        assert_eq!(
            client().handle(msg),
            vec![ClientAction::Disconnect(reason)]
        );
    }
}

#[test]
fn buttons_and_keys_need_no_ack() {
    let mut c = client();
    assert!(c.handle(Message::MouseDown { button: 1 }).is_empty());
    c.handle(Message::Enter {
        x: -3,
        y: 4,
        seq: 9,
        modifiers: 0,
    });
    assert_eq!(c.last_seq(), 9);
    assert_eq!(
        c.handle(Message::MouseDown { button: 1 }),
        vec![ClientAction::Inject(InputCommand::MouseButton {
            button: 1,
            pressed: true
        })]
    );
    assert!(c.handle(Message::MouseRelMove { dx: 1, dy: 1 }).is_empty());
    c.handle(Message::InfoAck);
    assert_eq!(
        c.handle(Message::MouseRelMove { dx: 1, dy: -1 }),
        vec![ClientAction::Inject(InputCommand::MouseMoveRel {
            dx: 1,
            dy: -1
        })]
    );
}

#[test]
fn other_traffic_is_ignored() {
    let mut c = client();
    for msg in [
        Message::NoOp,
        Message::ResetOptions,
        Message::SetOptions { opts: vec![1] },
        Message::ScreenSaver { on: true },
        Message::FileEnd { id: 1, count: 0 },
    ] {
        assert!(c.handle(msg).is_empty());
    }
}

#[test]
fn geometry_is_cut_to_the_wire() {
    let mut c = ClientMachine::new("odd", ScreenSize::new(-5, 70_000));
    assert_eq!(
        c.handle(Message::QueryInfo),
        vec![ClientAction::Reply(Message::DeviceInfo {
            x: 0,
            y: 0,
            w: -5,
            h: 70_000i32 as i16,
            warp: 0,
            mx: -2,
            my: 35_000i32 as i16
        })]
    );
}
