//! Injectors and clipboards.

use self_kvm::clipboard::{Clipboard, MockClipboard};
use self_kvm::events::InputCommand;
use self_kvm::inject::{Injector, MockInjector};

#[test]
fn mock_records_commands() {
    let mut m = MockInjector::new();
    m.inject(InputCommand::MouseMoveAbs { x: 1, y: 2 }).unwrap();
    m.inject(InputCommand::MouseButton {
        button: 1,
        pressed: true,
    })
    .unwrap();
    assert_eq!(
        m.recorded(),
        vec![
            InputCommand::MouseMoveAbs { x: 1, y: 2 },
            InputCommand::MouseButton {
                button: 1,
                pressed: true
            },
        ]
    );
}

#[test]
fn mock_clipboard_roundtrip() {
    let mut c = MockClipboard::new();
    assert_eq!(c.get_text().unwrap(), "");
    c.set_text("hello clipboard").unwrap();
    assert_eq!(c.get_text().unwrap(), "hello clipboard");
}
