//! The server's controller and handshake, and the client's session.

use self_kvm::client::DisconnectReason;
use self_kvm::controller::{ServerController, ServerEffect, ServerEvent, ServerStatus};
use self_kvm::events::{InputCommand, KeyAction, LocalEvent};
use self_kvm::handshake::{
    accept_hello, accept_info, hello, query, Handshake, HandshakeError, HandshakeStep,
};
use self_kvm::hooks::{NoopHooks, RecordingHooks, ServerHooks};
use self_kvm::inject::{Injector, MockInjector};
use self_kvm::layout::{Edge, ScreenLayout, ScreenSize};
use self_kvm::message::{Message, PROTOCOL_MAJOR, PROTOCOL_MINOR};
use self_kvm::session::{describe, ClientSession, ClientStatus, Received, SessionEffect};

fn layout() -> ScreenLayout {
    let mut l = ScreenLayout::new();
    l.add_screen("srv", ScreenSize::new(1920, 1080));
    l.add_screen("lap", ScreenSize::new(1280, 800));
    l.link("srv", Edge::Right, "lap");
    l
}

fn connected(screen: &str) -> ServerEvent {
    ServerEvent::ClientConnected {
        screen: screen.to_string(),
    }
}

fn gone(screen: &str) -> ServerEvent {
    ServerEvent::ClientDisconnected {
        screen: screen.to_string(),
    }
}

fn report(status: ServerStatus) -> ServerEffect {
    ServerEffect::Report(status)
}

fn deliver(screen: &str, msg: Message) -> ServerEffect {
    ServerEffect::Deliver {
        screen: screen.to_string(),
        msg,
    }
}

#[test]
fn input_is_forwarded_end_to_end() {
    let mut server = ServerController::new(layout(), "srv");
    let mut client = ClientSession::new("lap", ScreenSize::new(1280, 800));
    let mut injector = MockInjector::new();
    let mut hooks = RecordingHooks::new();
    let mut statuses = Vec::new();

    // Handshake.
    let reply = |effects: Vec<SessionEffect>| match effects.into_iter().next() {
        Some(SessionEffect::Reply(m)) => m,
        other => panic!("expected a reply, got {other:?}"),
    };
    let answer = reply(client.on_received(Received::Message(hello())));
    assert_eq!(accept_hello(&layout(), answer), Ok("lap".to_string()));
    let answer = reply(client.on_received(Received::Message(query())));
    let rest = accept_info("lap", answer).unwrap();
    assert_eq!(
        rest,
        vec![
            Message::InfoAck,
            Message::ResetOptions,
            Message::SetOptions { opts: vec![] }
        ]
    );
    for m in rest {
        for e in client.on_received(Received::Message(m)) {
            assert_eq!(e, SessionEffect::Report(ClientStatus::Connected));
        }
    }
    assert_eq!(
        server.handle(connected("lap")),
        vec![report(ServerStatus::ClientConnected("lap".to_string()))]
    );

    // Cross the right edge, move, click, type, and come back.
    let events = [
        LocalEvent::MotionAbs { x: 1920, y: 540 },
        LocalEvent::MotionRel { dx: 100, dy: 50 },
        LocalEvent::Button {
            button: 1,
            pressed: true,
        },
        LocalEvent::Button {
            button: 1,
            pressed: false,
        },
        LocalEvent::Key {
            id: 0x41,
            mask: 0,
            button: 30,
            action: KeyAction::Down,
        },
        LocalEvent::Wheel { x: 0, y: 120 },
        LocalEvent::MotionRel { dx: -200, dy: 0 },
    ];
    for ev in events {
        for effect in server.handle(ServerEvent::Local(ev)) {
            match effect {
                ServerEffect::Deliver { screen, msg } => {
                    assert_eq!(screen, "lap");
                    let wire = msg.encode();
                    let got = Message::decode(&wire).unwrap();
                    for e in client.on_received(Received::Message(got)) {
                        match e {
                            SessionEffect::Inject(cmd) => injector.inject(cmd).unwrap(),
                            SessionEffect::Report(_) => {}
                            other => panic!("unexpected effect {other:?}"),
                        }
                    }
                }
                ServerEffect::SetGrab(on) => hooks.set_grab(on),
                ServerEffect::WarpCursor { x, y } => hooks.warp_cursor(x, y),
                ServerEffect::SetClipboard(_) => unreachable!(),
                ServerEffect::Report(s) => statuses.push(s),
            }
        }
    }
    assert_eq!(
        injector.recorded(),
        vec![
            InputCommand::MouseMoveAbs { x: 0, y: 400 },
            InputCommand::MouseMoveAbs { x: 100, y: 450 },
            InputCommand::MouseButton {
                button: 1,
                pressed: true
            },
            InputCommand::MouseButton {
                button: 1,
                pressed: false
            },
            InputCommand::Key {
                id: 0x41,
                mask: 0,
                button: 30,
                action: KeyAction::Down
            },
            InputCommand::MouseWheel { x: 0, y: 120 },
        ]
    );
    assert_eq!(injector.log().len(), 6);
    assert_eq!(hooks.snapshot().grabs, vec![true, false]);
    assert_eq!(hooks.log().warps, vec![(1919, 607)]);
    assert_eq!(
        statuses,
        vec![
            ServerStatus::Grab(true),
            ServerStatus::ActiveScreen("lap".to_string()),
            ServerStatus::Grab(false),
            ServerStatus::ActiveScreen("srv".to_string()),
        ]
    );
}

#[test]
fn messages_for_absent_clients_are_dropped() {
    let mut c = ServerController::new(layout(), "srv");
    assert_eq!(
        c.handle(ServerEvent::Local(LocalEvent::MotionAbs { x: 1920, y: 540 })),
        vec![
            ServerEffect::SetGrab(true),
            report(ServerStatus::Grab(true)),
            report(ServerStatus::ActiveScreen("lap".to_string())),
        ]
    );
}

#[test]
fn losing_the_active_client_brings_control_home() {
    let mut c = ServerController::new(layout(), "srv");
    c.handle(connected("lap"));
    c.handle(ServerEvent::Local(LocalEvent::MotionAbs { x: 1920, y: 540 }));
    assert!(c.machine().is_remote());
    assert_eq!(
        c.handle(gone("lap")),
        vec![
            ServerEffect::SetGrab(false),
            report(ServerStatus::Grab(false)),
            ServerEffect::WarpCursor { x: 960, y: 540 },
            report(ServerStatus::ActiveScreen("srv".to_string())),
            report(ServerStatus::ClientDisconnected("lap".to_string())),
        ]
    );
    assert!(!c.machine().is_remote());
    assert_eq!(
        c.handle(gone("lap")),
        vec![report(ServerStatus::ClientDisconnected("lap".to_string()))]
    );
}

#[test]
fn keep_alives_and_clipboard_go_to_every_client() {
    let mut c = ServerController::new(layout(), "srv");
    assert!(c.handle(ServerEvent::KeepAliveTick).is_empty());
    c.handle(connected("lap"));
    c.handle(connected("tab"));
    c.handle(connected("lap"));
    assert_eq!(
        c.handle(ServerEvent::KeepAliveTick),
        vec![
            deliver("lap", Message::KeepAlive),
            deliver("tab", Message::KeepAlive)
        ]
    );
    c.handle(gone("lap"));
    for seq in 1..3 {
        assert_eq!(
            c.handle(ServerEvent::ClipboardOut("grüße".to_string())),
            vec![deliver(
                "tab",
                Message::ClipboardData {
                    id: 0,
                    seq,
                    mark: 0,
                    data: "grüße".as_bytes().to_vec()
                }
            )]
        );
    }
}

#[test]
fn clipboard_data_from_a_client_is_applied() {
    let mut c = ServerController::new(layout(), "srv");
    let from = |msg| ServerEvent::FromClient {
        screen: "lap".to_string(),
        msg,
    };
    assert_eq!(
        c.handle(from(Message::ClipboardData {
            id: 0,
            seq: 1,
            mark: 0,
            data: b"ab\xFFc".to_vec()
        })),
        vec![ServerEffect::SetClipboard("ab\u{FFFD}c".to_string())]
    );
    assert!(c.handle(from(Message::KeepAlive)).is_empty());
}

#[test]
fn events_beyond_the_coordinates_are_recognised() {
    let c = ServerController::new(layout(), "srv");
    let far = LocalEvent::MotionRel {
        dx: i32::MAX,
        dy: 0,
    };
    assert!(!c.can_handle(&ServerEvent::Local(far)));
    assert!(!c.machine().can_handle(&far));
    assert!(c.can_handle(&ServerEvent::KeepAliveTick));
    let near = LocalEvent::MotionRel { dx: 1, dy: -1 };
    assert!(c.can_handle(&ServerEvent::Local(near)));
}

#[test]
fn strangers_are_turned_away() {
    let answer = |major, name: &str| Message::HelloBack {
        major,
        minor: 9,
        name: name.to_string(),
    };
    let e = accept_hello(&layout(), answer(2, "lap")).unwrap_err();
    assert_eq!(e, HandshakeError::Incompatible { major: 2 });
    assert_eq!(
        e.reply(),
        Some(Message::ErrIncompatible { major: 1, minor: 9 })
    );
    let e = accept_hello(&layout(), answer(1, "ghost")).unwrap_err();
    assert_eq!(
        e,
        HandshakeError::UnknownScreen {
            name: "ghost".to_string()
        }
    );
    assert_eq!(e.reply(), Some(Message::ErrUnknown));
    let e = accept_hello(&layout(), Message::KeepAlive).unwrap_err();
    assert_eq!(e, HandshakeError::ExpectedHelloBack);
    assert_eq!(e.reply(), None);
    let e = accept_info("lap", Message::KeepAlive).unwrap_err();
    assert_eq!(
        e,
        HandshakeError::ExpectedDeviceInfo {
            name: "lap".to_string()
        }
    );
    assert_eq!(e.reply(), None);
}

#[test]
fn refused_client_reports_the_reason() {
    let mut s = ClientSession::new("ghost", ScreenSize::new(1280, 800));
    assert_eq!(
        s.on_received(Received::Message(Message::ErrUnknown)),
        vec![
            SessionEffect::Report(ClientStatus::Disconnected("UnknownToServer".to_string())),
            SessionEffect::Finish
        ]
    );
    assert_eq!(
        s.on_received(Received::Closed),
        vec![
            SessionEffect::Report(ClientStatus::Disconnected("server closed".to_string())),
            SessionEffect::Finish
        ]
    );
    assert_eq!(
        s.on_received(Received::Failed("io error: reset".to_string())),
        vec![
            SessionEffect::Report(ClientStatus::Disconnected("io error: reset".to_string())),
            SessionEffect::Fail
        ]
    );
}

#[test]
fn reasons_are_worded_like_their_names() {
    for reason in [
        DisconnectReason::ServerClosed,
        DisconnectReason::IncompatibleVersion {
            major: 1,
            minor: -32768,
        },
        DisconnectReason::NameInUse,
        DisconnectReason::UnknownToServer,
        DisconnectReason::ProtocolViolation,
    ] {
        assert_eq!(describe(reason), format!("{reason:?}"));
    }
}

#[test]
fn session_applies_clipboard_and_echoes_keep_alives() {
    let mut s = ClientSession::new("lap", ScreenSize::new(1280, 800));
    assert_eq!(
        s.on_received(Received::Message(Message::ClipboardData {
            id: 0,
            seq: 1,
            mark: 0,
            data: b"text".to_vec()
        })),
        vec![SessionEffect::SetClipboard("text".to_string())]
    );
    assert_eq!(
        s.on_received(Received::Message(Message::KeepAlive)),
        vec![SessionEffect::Reply(Message::KeepAlive)]
    );
    assert_eq!(
        s.on_received(Received::Message(Message::Leave)),
        vec![SessionEffect::Report(ClientStatus::Left)]
    );
}

#[test]
fn noop_hooks_do_nothing() {
    let mut h = NoopHooks::default();
    h.set_grab(true);
    h.warp_cursor(1, 2);
    let r = RecordingHooks::default();
    assert!(r.snapshot().grabs.is_empty());
}

#[test]
fn recorded_hooks_are_complete_and_in_order() {
    let mut r = RecordingHooks::new();
    r.set_grab(true);
    r.warp_cursor(1, 2);
    r.warp_cursor(3, -4);
    let early = r.snapshot();
    r.set_grab(false);
    r.set_grab(true);
    r.warp_cursor(1, 2);
    assert_eq!(early.grabs, [true]);
    assert_eq!(early.warps, [(1, 2), (3, -4)]);
    assert_eq!(r.snapshot().grabs, [true, false, true]);
    assert_eq!(r.snapshot().warps, [(1, 2), (3, -4), (1, 2)]);
    assert_eq!(r.log(), &r.snapshot());
}

#[test]
fn handshake_with_a_known_client_ends_in_a_welcome() {
    let mut layout = ScreenLayout::new();
    layout.add_screen("srv", ScreenSize::new(1920, 1080));
    layout.add_screen("lap", ScreenSize::new(1280, 800));
    let mut client = ClientSession::new("lap", ScreenSize::new(1280, 800));
    let (mut handshake, mut msg) = Handshake::begin();
    let welcomed = loop {
        let effects = client.on_received(Received::Message(msg));
        let answer = match effects.into_iter().next() {
            Some(SessionEffect::Reply(answer)) => answer,
            other => panic!("{other:?}"),
        };
        match handshake.on_answer(&layout, answer) {
            HandshakeStep::Ask(next) => msg = next,
            HandshakeStep::Welcome { name, msgs } => {
                for m in msgs {
                    client.on_received(Received::Message(m));
                }
                break name;
            }
            HandshakeStep::Refuse { error, .. } => panic!("{error:?}"),
        }
    };
    assert_eq!(welcomed, "lap");
    assert_eq!(
        handshake.on_answer(&layout, Message::NoOp),
        HandshakeStep::Refuse {
            reply: None,
            error: HandshakeError::Over
        }
    );
}

#[test]
fn handshake_with_a_stranger_ends_in_a_refusal() {
    let mut layout = ScreenLayout::new();
    layout.add_screen("srv", ScreenSize::new(1920, 1080));
    let (mut handshake, _) = Handshake::begin();
    let answer = Message::HelloBack {
        major: PROTOCOL_MAJOR,
        minor: PROTOCOL_MINOR,
        name: "stranger".to_string(),
    };
    let reply = match handshake.on_answer(&layout, answer) {
        HandshakeStep::Refuse { reply, error } => {
            assert_eq!(
                error,
                HandshakeError::UnknownScreen {
                    name: "stranger".to_string()
                }
            );
            reply.unwrap()
        }
        other => panic!("{other:?}"),
    };
    let mut client = ClientSession::new("stranger", ScreenSize::new(1024, 768));
    assert_eq!(
        client.on_received(Received::Message(reply)),
        [
            SessionEffect::Report(ClientStatus::Disconnected("UnknownToServer".to_string())),
            SessionEffect::Finish
        ]
    );
}

#[test]
fn handshake_needs_the_geometry() {
    let mut layout = ScreenLayout::new();
    layout.add_screen("lap", ScreenSize::new(1280, 800));
    let (mut handshake, _) = Handshake::begin();
    let answer = Message::HelloBack {
        major: PROTOCOL_MAJOR,
        minor: 0,
        name: "lap".to_string(),
    };
    assert_eq!(
        handshake.on_answer(&layout, answer),
        HandshakeStep::Ask(Message::QueryInfo)
    );
    assert_eq!(
        handshake.on_answer(&layout, Message::KeepAlive),
        HandshakeStep::Refuse {
            reply: None,
            error: HandshakeError::ExpectedDeviceInfo {
                name: "lap".to_string()
            }
        }
    );
}

#[test]
fn clipboard_text_arrives_as_it_is() {
    let mut server = ServerController::new(layout(), "srv");
    server.handle(connected("lap"));
    let mut effects = server.handle(ServerEvent::ClipboardOut("grüße 👋".to_string()));
    let msg = match effects.pop() {
        Some(ServerEffect::Deliver { screen, msg }) => {
            assert_eq!(screen, "lap");
            Message::decode(&msg.encode()).unwrap()
        }
        other => panic!("{other:?}"),
    };
    let mut client = ClientSession::new("lap", ScreenSize::new(1280, 800));
    assert_eq!(
        client.on_received(Received::Message(msg)),
        [SessionEffect::SetClipboard("grüße 👋".to_string())]
    );
}
