//! The control deck.

use self_kvm::controller::ServerStatus;
use self_kvm::deck::{
    build_layout, client_config, client_status_event, server_config, server_status_event,
    ClientSetup, ScreenDto, ServerSetup, StatusEvent,
};
use self_kvm::layout::{Edge, ScreenSize};
use self_kvm::session::ClientStatus;

fn cell(name: &str, w: i32, h: i32, col: i32, row: i32) -> ScreenDto {
    ScreenDto {
        name: name.to_string(),
        w,
        h,
        col,
        row,
    }
}

#[test]
fn adjacent_cells_become_neighbours() {
    let l = build_layout(&[
        cell("mid", 1920, 1080, 1, 1),
        cell("right", 0, -5, 2, 1),
        cell("below", 800, 600, 1, 2),
        cell("far", 800, 600, 3, 3),
    ]);
    let at = |name: &str, edge| {
        l.nodes
            .get(name)
            .unwrap()
            .neighbors
            .get(edge)
            .map(|s| s.as_str())
    };
    assert_eq!(at("mid", Edge::Right), Some("right"));
    assert_eq!(at("right", Edge::Left), Some("mid"));
    assert_eq!(at("mid", Edge::Bottom), Some("below"));
    assert_eq!(at("below", Edge::Top), Some("mid"));
    assert_eq!(at("mid", Edge::Left), None);
    assert_eq!(at("right", Edge::Bottom), None);
    assert_eq!(at("far", Edge::Left), None);
    assert_eq!(l.size_of("right"), Some(ScreenSize::new(1, 1)));
    assert!(l.can_clamp_to("right"));
}

#[test]
fn local_screen_must_be_on_the_grid() {
    let setup = |local: &str| ServerSetup {
        bind: "0.0.0.0".to_string(),
        port: 24800,
        local_screen: local.to_string(),
        screens: vec![cell("desk", 1920, 1080, 0, 0)],
        tls: true,
    };
    let c = server_config(setup("desk")).unwrap();
    assert_eq!(c.listen_addr(), "0.0.0.0:24800");
    assert_eq!(c.local_screen, "desk");
    assert!(c.tls);
    assert_eq!(server_config(setup("ghost")), Err("ghost".to_string()));
}

#[test]
fn client_screen_has_an_area() {
    let c = client_config(ClientSetup {
        server_addr: "host:24800".to_string(),
        name: "lap".to_string(),
        width: 0,
        height: 800,
        tls: false,
    });
    assert_eq!(c.screen, ScreenSize::new(1, 800));
    assert_eq!(c.server_addr, "host:24800");
    assert_eq!(c.name, "lap");
}

fn shown(kind: &str, detail: &str) -> StatusEvent {
    StatusEvent {
        kind: kind.to_string(),
        detail: detail.to_string(),
    }
}

#[test]
fn statuses_are_displayed() {
    let s = "lap".to_string();
    assert_eq!(
        server_status_event(ServerStatus::Listening("0.0.0.0:1".to_string())),
        shown("listening", "0.0.0.0:1")
    );
    assert_eq!(
        server_status_event(ServerStatus::ClientConnected(s.clone())),
        shown("client_connected", "lap")
    );
    assert_eq!(
        server_status_event(ServerStatus::ClientDisconnected(s.clone())),
        shown("client_disconnected", "lap")
    );
    assert_eq!(
        server_status_event(ServerStatus::ActiveScreen(s.clone())),
        shown("active_screen", "lap")
    );
    assert_eq!(
        server_status_event(ServerStatus::Grab(true)),
        shown("grab", "true")
    );
    assert_eq!(
        server_status_event(ServerStatus::Grab(false)),
        shown("grab", "false")
    );
    assert_eq!(
        client_status_event(ClientStatus::Connecting),
        shown("connecting", "")
    );
    assert_eq!(
        client_status_event(ClientStatus::Connected),
        shown("connected", "")
    );
    assert_eq!(
        client_status_event(ClientStatus::Entered),
        shown("entered", "")
    );
    assert_eq!(client_status_event(ClientStatus::Left), shown("left", ""));
    assert_eq!(
        client_status_event(ClientStatus::Disconnected(s)),
        shown("disconnected", "lap")
    );
}
