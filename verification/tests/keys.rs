use rdesk::keys::{build_keymap, keycode, keysym, Key};

#[test]
fn plain_scancodes_are_offset_by_eight() {
    assert_eq!(keycode(0x1e, false), Some(0x1e + 8));
    assert_eq!(keycode(1, false), Some(9));
    assert_eq!(keycode(247, false), Some(255));
}

#[test]
fn scancodes_without_a_keycode_are_unmapped() {
    assert_eq!(keycode(0, false), None);
    assert_eq!(keycode(248, false), None);
    assert_eq!(keycode(255, false), None);
    assert_eq!(keycode(0, true), None);
    assert_eq!(keycode(0x1e, true), None);
}

#[test]
fn extended_scancodes_have_a_table() {
    let table: Vec<(u8, u8)> = vec![
        (0x1c, 96), (0x1d, 97), (0x35, 98), (0x37, 99), (0x38, 100), (0x46, 119), (0x47, 102),
        (0x48, 103), (0x49, 104), (0x4b, 105), (0x4d, 106), (0x4f, 107), (0x50, 108),
        (0x51, 109), (0x52, 110), (0x53, 111), (0x5b, 125), (0x5c, 126), (0x5d, 127),
        (0x20, 113), (0x2e, 114), (0x30, 115), (0x22, 164), (0x24, 166), (0x19, 163),
        (0x10, 165),
    ];
    for (code, ev) in table {
        assert_eq!(keycode(code, true), Some(ev + 8));
    }
}

#[test]
fn keys_have_their_keysyms() {
    assert_eq!(keysym(Key::Key0), Some(0x30));
    assert_eq!(keysym(Key::A), Some(0x61));
    assert_eq!(keysym(Key::Z), Some(0x7a));
    assert_eq!(keysym(Key::F15), Some(0xffcc));
    assert_eq!(keysym(Key::Delete), Some(0xffff));
    assert_eq!(keysym(Key::Enter), Some(0xff0d));
    assert_eq!(keysym(Key::RightSuper), Some(0xffec));
    assert_eq!(keysym(Key::NumPadEnter), Some(0xff8d));
    assert_eq!(keysym(Key::Unknown), None);
}

#[test]
fn keymap_prefers_the_unshifted_key() {
    // Key 8 gives a/A, key 9 gives A/b, key 10 gives a/nothing.
    let m = build_keymap(8, 10, 2, &[0x61, 0x41, 0x41, 0x62, 0x61, 0]);
    assert_eq!(m.get(&0x61), Some(&8));
    assert_eq!(m.get(&0x41), Some(&9));
    assert_eq!(m.get(&0x62), Some(&9));
    assert_eq!(m.get(&0), None);
    assert_eq!(m.len(), 3);
}

#[test]
fn keymap_without_columns_is_empty() {
    assert!(build_keymap(8, 9, 0, &[]).is_empty());
}
