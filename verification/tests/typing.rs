use rdesk::input::FakeInput;
use rdesk::typing::{type_events, Held, Layout, Typing};

const NONE: Held = Held { shift: None, group: None, level: None };

/// Keys from 8 on: a/A, shift, nothing, 1/!, nothing.
fn layout() -> Layout {
    Layout {
        min: 8,
        per: 2,
        keysyms: vec![0x61, 0x41, 0xffe1, 0, 0, 0, 0x31, 0x21, 0, 0],
    }
}

fn ev(kind: u8, detail: u8) -> FakeInput {
    FakeInput { kind, detail, x: 0, y: 0 }
}

fn shifted(keycode: u8, shift: u8) -> Typing {
    Typing::Press { keycode, held: Held { shift: Some(shift), ..NONE } }
}

#[test]
fn characters_of_the_layout_have_their_keys() {
    let mut l = layout();
    assert_eq!(l.plan(&[0x61]), Typing::Press { keycode: 8, held: NONE });
    assert_eq!(l.plan(&[0x21]), shifted(11, 9));
    assert_eq!(l.plan(&[0x0100_0999, 0x21]), shifted(11, 9));
    assert_eq!(l.keysyms, layout().keysyms);
}

#[test]
fn other_characters_are_bound_to_spare_keys() {
    let mut l = layout();
    assert_eq!(l.plan(&[0xe5]), Typing::Bind { keycode: 12, keysym: 0xe5 });
    assert_eq!(l.plan(&[0xe5]), Typing::Press { keycode: 12, held: NONE });
    assert_eq!(l.plan(&[0xe6, 0x7]), Typing::Bind { keycode: 10, keysym: 0xe6 });
    assert_eq!(l.plan(&[0xe7]), Typing::Never);
    assert_eq!(l.keysyms, vec![0x61, 0x41, 0xffe1, 0, 0xe6, 0xe6, 0x31, 0x21, 0xe5, 0xe5]);
}

#[test]
fn every_column_has_the_keys_that_choose_it() {
    // Key 8 gives a letter in each column; 9 to 11 choose columns; 12 is spare.
    let mut keysyms: Vec<u32> = (0x61..0x69).collect();
    for k in [0xffe1, 0xff7e, 0xfe03, 0] {
        keysyms.push(k);
        keysyms.extend_from_slice(&[0; 7]);
    }
    let mut l = Layout { min: 8, per: 8, keysyms };
    for col in 0..8u32 {
        let held = Held {
            shift: if col & 1 != 0 { Some(9) } else { None },
            group: if col & 2 != 0 { Some(10) } else { None },
            level: if col & 4 != 0 { Some(11) } else { None },
        };
        assert_eq!(l.plan(&[0x61 + col]), Typing::Press { keycode: 8, held });
    }
}

#[test]
fn lower_columns_come_first() {
    let mut l = Layout { min: 8, per: 3, keysyms: vec![0x61, 0x62, 0x40, 0x63, 0x40, 0] };
    assert_eq!(l.plan(&[0x40]), shifted(9, 50));
}

#[test]
fn keys_that_the_layout_does_not_name_are_in_their_usual_places() {
    let mut l = Layout { min: 8, per: 8, keysyms: vec![0, 0, 0x40, 0, 0, 0, 0, 0x23] };
    let group = Held { group: Some(203), ..NONE };
    assert_eq!(l.plan(&[0x40]), Typing::Press { keycode: 8, held: group });
    let all = Held { shift: Some(50), group: Some(203), level: Some(92) };
    assert_eq!(l.plan(&[0x23]), Typing::Press { keycode: 8, held: all });
}

#[test]
fn typed_keys_go_down_and_up() {
    let plain = Typing::Press { keycode: 8, held: NONE };
    assert_eq!(type_events(plain, true), vec![ev(2, 8)]);
    assert_eq!(type_events(plain, false), vec![ev(3, 8)]);
    let held = Held { shift: Some(9), group: Some(10), level: Some(11) };
    let all = Typing::Press { keycode: 8, held };
    assert_eq!(type_events(all, true), vec![ev(2, 9), ev(2, 10), ev(2, 11), ev(2, 8)]);
    assert_eq!(type_events(all, false), vec![ev(3, 8), ev(3, 11), ev(3, 10), ev(3, 9)]);
    assert_eq!(type_events(Typing::Bind { keycode: 12, keysym: 1 }, true), vec![ev(2, 12)]);
    assert!(type_events(Typing::Never, true).is_empty());
}
