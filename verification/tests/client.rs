use rdesk::client::{key_message, wheel, Buttons, Mouse};
use rdesk::keys::Key;
use rdesk::wire::InputMessage;

fn btn(button: u8, pressed: bool) -> InputMessage {
    InputMessage::MouseButton { button, pressed }
}

#[test]
fn pointer_is_sent_when_it_moved() {
    let mut m = Mouse::new();
    assert_eq!(m.moved(0, 0), Some(InputMessage::MouseMove { x: 0, y: 0 }));
    assert_eq!(m.moved(0, 0), None);
    assert_eq!(m.moved(0, 1), Some(InputMessage::MouseMove { x: 0, y: 1 }));
    assert_eq!(m.moved(0, 1), None);
}

#[test]
fn buttons_are_sent_when_they_changed() {
    let mut m = Mouse::new();
    let none = Buttons { left: false, middle: false, right: false };
    let two = Buttons { left: true, middle: false, right: true };
    assert_eq!(m.buttons(none), vec![]);
    assert_eq!(m.buttons(two), vec![btn(1, true), btn(3, true)]);
    assert_eq!(m.buttons(two), vec![]);
    let other = Buttons { left: false, middle: true, right: true };
    assert_eq!(m.buttons(other), vec![btn(1, false), btn(2, true)]);
}

#[test]
fn wheel_sends_one_notch() {
    assert_eq!(wheel(0, 1), vec![btn(4, true), btn(4, false)]);
    assert_eq!(wheel(9, -1), vec![btn(5, true), btn(5, false)]);
    assert_eq!(wheel(-1, 0), vec![btn(6, true), btn(6, false)]);
    assert_eq!(wheel(1, 0), vec![btn(7, true), btn(7, false)]);
    assert_eq!(wheel(0, 0), vec![]);
}

#[test]
fn keys_without_a_keysym_are_dropped() {
    assert_eq!(
        key_message(Key::A, true),
        Some(InputMessage::Key { keysym: 0x61, pressed: true })
    );
    assert_eq!(
        key_message(Key::Tab, false),
        Some(InputMessage::Key { keysym: 0xff09, pressed: false })
    );
    assert_eq!(key_message(Key::Unknown, true), None);
}
