//! Configurations.

use self_kvm::bulk::{SendOptions, DEFAULT_FILE_PORT};
use self_kvm::config::{default_bind, default_port, ClientConfig, ServerConfig};
use self_kvm::layout::ScreenSize;

#[test]
fn defaults_are_as_documented() {
    let s = ServerConfig::default();
    assert_eq!(s.bind, "0.0.0.0");
    assert_eq!(s.port, 24800);
    assert_eq!(s.local_screen, "server");
    assert_eq!(s.layout.size_of("server"), Some(ScreenSize::new(1920, 1080)));
    assert!(!s.tls);
    let c = ClientConfig::default();
    assert_eq!(c.server_addr, "127.0.0.1:24800");
    assert_eq!(c.name, "client");
    assert_eq!(c.screen, ScreenSize::new(1280, 800));
    assert!(!c.tls);
    assert_eq!(default_bind(), "0.0.0.0");
    assert_eq!(default_port(), 24800);
    assert_eq!(DEFAULT_FILE_PORT, 24801);
    assert_eq!(
        SendOptions::default(),
        SendOptions {
            chunk_size: 262144,
            tls: false
        }
    );
}

#[test]
fn listen_address_can_be_overridden() {
    let mut s = ServerConfig::default();
    assert_eq!(s.listen_addr(), "0.0.0.0:24800");
    s.override_listen(None, Some(0));
    assert_eq!(s.listen_addr(), "0.0.0.0:0");
    s.override_listen(Some("127.0.0.1".to_string()), None);
    assert_eq!(s.listen_addr(), "127.0.0.1:0");
}

#[test]
fn equal_layouts_make_equal_configurations() {
    assert_eq!(ServerConfig::default(), ServerConfig::default());
    let mut other = ServerConfig::default();
    other.layout.add_screen("lap", ScreenSize::new(1, 1));
    assert_ne!(ServerConfig::default(), other);
}
