use rdesk::input::{
    click, handle_input, key, keyboard, motion, mouse, Binding, FakeInput, Injection, KeyAction,
    Keyboard, KeyboardEvent, MouseEvent, BUTTON_PRESS, BUTTON_RELEASE, KEY_PRESS, KEY_RELEASE, MOTION_NOTIFY,
};
use rdesk::typing::Layout;
use rdesk::view::Scene;
use rdesk::wire::InputMessage;
use std::collections::HashMap;
use x11rb::protocol::xproto;

fn ev(kind: u8, detail: u8, x: i16, y: i16) -> FakeInput {
    FakeInput { kind, detail, x, y }
}

/// The events of a mouse event where the client sees all of the screen in its own size.
fn plain(e: MouseEvent) -> Vec<FakeInput> {
    mouse(&mut Scene::new(1920, 1072, 1920, 1072, false), e)
}

/// Keys from 8 on: Cyrillic a and A, shift, nothing.
fn layout() -> Layout {
    Layout { min: 8, per: 2, keysyms: vec![0x6c1, 0x6e1, 0xffe1, 0, 0, 0] }
}

#[test]
fn event_types_are_those_of_the_x_protocol() {
    assert_eq!(KEY_PRESS, xproto::KEY_PRESS_EVENT);
    assert_eq!(KEY_RELEASE, xproto::KEY_RELEASE_EVENT);
    assert_eq!(BUTTON_PRESS, xproto::BUTTON_PRESS_EVENT);
    assert_eq!(BUTTON_RELEASE, xproto::BUTTON_RELEASE_EVENT);
    assert_eq!(MOTION_NOTIFY, xproto::MOTION_NOTIFY_EVENT);
}

#[test]
fn clicks_come_in_pairs() {
    let one = vec![ev(4, 5, 0, 0), ev(5, 5, 0, 0)];
    assert_eq!(click(5, 1), one);
    assert_eq!(click(5, 0), one);
    assert_eq!(click(5, -3), one);
    assert_eq!(click(5, 2), [one.clone(), one].concat());
}

#[test]
fn scancodes_are_injected() {
    assert_eq!(key(0x1e, false, true), KeyAction::Inject(ev(2, 38, 0, 0)));
    assert_eq!(key(0x1e, false, false), KeyAction::Inject(ev(3, 38, 0, 0)));
    assert_eq!(key(0x1e, true, true), KeyAction::Unmapped { code: 0x1e, extended: true });
}

#[test]
fn keyboard_events_are_decided() {
    let mut k = Keyboard::new(layout());
    assert_eq!(
        keyboard(&mut k, KeyboardEvent::Pressed { code: 0x48, extended: true }),
        KeyAction::Inject(ev(2, 111, 0, 0))
    );
    assert_eq!(
        keyboard(&mut k, KeyboardEvent::Released { code: 0x48, extended: true }),
        KeyAction::Inject(ev(3, 111, 0, 0))
    );
    assert_eq!(keyboard(&mut k, KeyboardEvent::Synchronize), KeyAction::Ignore);
    assert_eq!(k.layout.keysyms, layout().keysyms);
}

#[test]
fn characters_of_the_layout_are_typed() {
    let mut k = Keyboard::new(layout());
    assert_eq!(
        keyboard(&mut k, KeyboardEvent::UnicodePressed(0x430)),
        KeyAction::Type { bind: None, events: vec![ev(2, 8, 0, 0)] }
    );
    assert_eq!(
        keyboard(&mut k, KeyboardEvent::UnicodeReleased(0x430)),
        KeyAction::Type { bind: None, events: vec![ev(3, 8, 0, 0)] }
    );
    assert_eq!(
        keyboard(&mut k, KeyboardEvent::UnicodePressed(0x410)),
        KeyAction::Type { bind: None, events: vec![ev(2, 9, 0, 0), ev(2, 8, 0, 0)] }
    );
    assert_eq!(k.layout.keysyms, layout().keysyms);
}

#[test]
fn characters_that_the_layout_lacks_are_bound_and_typed() {
    let mut k = Keyboard::new(layout());
    let euro = 0x0100_20ac;
    assert_eq!(
        keyboard(&mut k, KeyboardEvent::UnicodePressed(0x20ac)),
        KeyAction::Type {
            bind: Some(Binding { keycode: 10, row: vec![euro, euro] }),
            events: vec![ev(2, 10, 0, 0)],
        }
    );
    assert_eq!(
        keyboard(&mut k, KeyboardEvent::UnicodeReleased(0x20ac)),
        KeyAction::Type { bind: None, events: vec![ev(3, 10, 0, 0)] }
    );
    assert_eq!(
        keyboard(&mut k, KeyboardEvent::UnicodePressed(0x61)),
        KeyAction::Untypable { character: 0x61 }
    );
    assert_eq!(
        keyboard(&mut k, KeyboardEvent::UnicodePressed(0xdc00)),
        KeyAction::Untypable { character: 0xdc00 }
    );
}

#[test]
fn characters_of_two_units_are_typed_as_one() {
    let mut k = Keyboard::new(layout());
    let face = 0x0101_f600;
    assert_eq!(keyboard(&mut k, KeyboardEvent::UnicodePressed(0xd83d)), KeyAction::Half);
    assert_eq!(
        keyboard(&mut k, KeyboardEvent::UnicodePressed(0xde00)),
        KeyAction::Type {
            bind: Some(Binding { keycode: 10, row: vec![face, face] }),
            events: vec![ev(2, 10, 0, 0)],
        }
    );
    assert_eq!(keyboard(&mut k, KeyboardEvent::UnicodeReleased(0xd83d)), KeyAction::Half);
    assert_eq!(
        keyboard(&mut k, KeyboardEvent::UnicodeReleased(0xde00)),
        KeyAction::Type { bind: None, events: vec![ev(3, 10, 0, 0)] }
    );
}

#[test]
fn halves_of_characters_may_go_up_in_between() {
    let mut k = Keyboard::new(Layout { min: 8, per: 1, keysyms: vec![0x0101_f600] });
    assert_eq!(keyboard(&mut k, KeyboardEvent::UnicodePressed(0xd83d)), KeyAction::Half);
    assert_eq!(keyboard(&mut k, KeyboardEvent::UnicodeReleased(0xd83d)), KeyAction::Half);
    assert_eq!(
        keyboard(&mut k, KeyboardEvent::UnicodePressed(0xde00)),
        KeyAction::Type { bind: None, events: vec![ev(2, 8, 0, 0)] }
    );
    assert_eq!(
        keyboard(&mut k, KeyboardEvent::UnicodeReleased(0xde00)),
        KeyAction::Type { bind: None, events: vec![ev(3, 8, 0, 0)] }
    );
}

#[test]
fn half_a_character_is_dropped_when_another_follows() {
    let mut k = Keyboard::new(layout());
    assert_eq!(keyboard(&mut k, KeyboardEvent::UnicodePressed(0xd83d)), KeyAction::Half);
    assert_eq!(
        keyboard(&mut k, KeyboardEvent::UnicodePressed(0x430)),
        KeyAction::Type { bind: None, events: vec![ev(2, 8, 0, 0)] }
    );
    assert_eq!(
        keyboard(&mut k, KeyboardEvent::UnicodePressed(0xde00)),
        KeyAction::Untypable { character: 0xde00 }
    );
}

#[test]
fn mouse_buttons_have_x_numbers() {
    let pairs = vec![
        (MouseEvent::LeftPressed, MouseEvent::LeftReleased, 1),
        (MouseEvent::MiddlePressed, MouseEvent::MiddleReleased, 2),
        (MouseEvent::RightPressed, MouseEvent::RightReleased, 3),
        (MouseEvent::Button4Pressed, MouseEvent::Button4Released, 8),
        (MouseEvent::Button5Pressed, MouseEvent::Button5Released, 9),
    ];
    for (down, up, b) in pairs {
        assert_eq!(plain(down), vec![ev(4, b, 0, 0)]);
        assert_eq!(plain(up), vec![ev(5, b, 0, 0)]);
    }
}

#[test]
fn pointer_goes_to_what_the_client_sees() {
    let mut scaled = Scene::new(1920, 1080, 960, 540, false);
    assert_eq!(
        mouse(&mut scaled, MouseEvent::Move { x: 100, y: 100 }),
        vec![ev(6, 0, 200, 200)]
    );
    let mut boxed = Scene::new(200, 100, 100, 100, false);
    assert_eq!(mouse(&mut boxed, MouseEvent::Move { x: 10, y: 30 }), vec![ev(6, 0, 20, 10)]);
    assert_eq!(mouse(&mut boxed, MouseEvent::Move { x: 10, y: 0 }), vec![ev(6, 0, 20, 0)]);
}

#[test]
fn pointer_lands_on_the_pixel_that_is_drawn() {
    let mut screen = vec![];
    for y in 0..100u8 {
        for x in 0..200u8 {
            screen.extend_from_slice(&[x, y, 0, 0]);
        }
    }
    let mut scene = Scene::new(200, 100, 90, 70, false);
    for (x, y) in [(0, 13), (44, 35), (89, 56)] {
        let e = mouse(&mut scene, MouseEvent::Move { x, y })[0];
        let p = (y as usize * 90 + x as usize) * 4;
        let drawn = scene.render(&screen);
        assert_eq!((drawn[p] as i16, drawn[p + 1] as i16), (e.x, e.y));
    }
}

#[test]
fn pointer_moves_a_window() {
    let mut scene = Scene::new(2000, 2000, 400, 400, false);
    assert_eq!(mouse(&mut scene, MouseEvent::Move { x: 399, y: 200 }), vec![ev(6, 0, 447, 200)]);
    assert_eq!((scene.x, scene.y), (48, 0));
    assert_eq!(mouse(&mut scene, MouseEvent::LeftPressed), vec![ev(4, 1, 0, 0)]);
    assert_eq!((scene.x, scene.y), (48, 0));
}

#[test]
fn pointer_of_the_same_size_is_as_given() {
    assert_eq!(plain(MouseEvent::Move { x: 100, y: 200 }), vec![ev(6, 0, 100, 200)]);
    assert_eq!(plain(MouseEvent::Move { x: 65535, y: 0 }), vec![ev(6, 0, 1919, 0)]);
    assert!(plain(MouseEvent::RelMove { x: 1, y: 1 }).is_empty());
    assert_eq!(motion(65535, 32768), ev(6, 0, -1, -32768));
}

#[test]
fn wheel_turns_into_clicks() {
    assert_eq!(plain(MouseEvent::VerticalScroll { value: 120 }), click(4, 1));
    assert_eq!(plain(MouseEvent::VerticalScroll { value: 1 }), click(4, 1));
    assert_eq!(plain(MouseEvent::VerticalScroll { value: -360 }), click(5, 3));
    assert_eq!(plain(MouseEvent::VerticalScroll { value: 0 }), click(5, 1));
    assert_eq!(
        plain(MouseEvent::Scroll { x: -240, y: 120 }),
        [click(4, 1), click(6, 2)].concat()
    );
    assert_eq!(plain(MouseEvent::Scroll { x: 5, y: 0 }), click(7, 1));
    assert!(plain(MouseEvent::Scroll { x: 0, y: 0 }).is_empty());
}

#[test]
fn client_messages_are_injected() {
    let map: HashMap<u32, u8> = [(0xff0d, 36)].into_iter().collect();
    assert_eq!(handle_input(&[2, 0, 10, 0, 20], &map), Injection::Input(ev(6, 0, 10, 20)));
    assert_eq!(handle_input(&[3, 1, 1], &map), Injection::Input(ev(4, 1, 0, 0)));
    assert_eq!(handle_input(&[3, 1, 0], &map), Injection::Input(ev(5, 1, 0, 0)));
    assert_eq!(handle_input(&[4, 0, 0, 0xff, 0x0d, 1], &map), Injection::Input(ev(2, 36, 0, 0)));
    assert_eq!(handle_input(&[4, 0, 0, 0xff, 0x0d, 0], &map), Injection::Input(ev(3, 36, 0, 0)));
}

#[test]
fn encoded_messages_do_what_they_say() {
    let map: HashMap<u32, u8> = [(0x61, 38)].into_iter().collect();
    let m = InputMessage::MouseMove { x: 5, y: 6 };
    assert_eq!(handle_input(&m.encode(), &map), Injection::Input(ev(6, 0, 5, 6)));
    let m = InputMessage::MouseButton { button: 7, pressed: true };
    assert_eq!(handle_input(&m.encode(), &map), Injection::Input(ev(4, 7, 0, 0)));
    let m = InputMessage::Key { keysym: 0x61, pressed: false };
    assert_eq!(handle_input(&m.encode(), &map), Injection::Input(ev(3, 38, 0, 0)));
}

#[test]
fn client_messages_that_make_no_sense_are_told() {
    let map: HashMap<u32, u8> = HashMap::new();
    assert_eq!(handle_input(&[4, 0, 0, 0, 0x61, 1], &map), Injection::NoKeycode(0x61));
    assert_eq!(handle_input(&[2, 0, 10], &map), Injection::Bad { kind: 2, len: 3 });
    assert_eq!(handle_input(&[0], &map), Injection::Bad { kind: 0, len: 1 });
}
