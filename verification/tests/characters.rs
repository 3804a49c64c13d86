use rdesk::characters::{assemble, keysyms_of};

#[test]
fn latin_characters_are_their_own_keysyms() {
    assert_eq!(keysyms_of(0x61), vec![0x61]);
    assert_eq!(keysyms_of(0xe5), vec![0xe5]);
    assert_eq!(keysyms_of(0x20), vec![0x20]);
}

#[test]
fn other_characters_have_a_keysym_of_their_number() {
    assert_eq!(keysyms_of(0x561), vec![0x0100_0561]);
    assert_eq!(keysyms_of(0x4e00), vec![0x0100_4e00]);
    assert_eq!(keysyms_of(0xe000), vec![0x0100_e000]);
    assert_eq!(keysyms_of(0x1_f600), vec![0x0101_f600]);
    assert_eq!(keysyms_of(0x10_ffff), vec![0x0110_ffff]);
}

#[test]
fn letters_have_older_keysyms_too() {
    let table: Vec<(u32, u32)> = vec![
        (0x0104, 0x1a1), (0x0159, 0x1f8), (0x02d9, 0x1ff), (0x0126, 0x2a1), (0x0138, 0x3a2),
        (0x016b, 0x3fe), (0x0153, 0x13bd), (0x0430, 0x6c1), (0x0410, 0x6e1), (0x044f, 0x6d1),
        (0x0451, 0x6a3), (0x0491, 0x6ad), (0x2116, 0x6b0), (0x03b1, 0x7e1), (0x03c2, 0x7f3),
        (0x03a9, 0x7d9), (0x0386, 0x7a1), (0x05d0, 0xce0), (0x05ea, 0xcfa), (0x0627, 0x5c7),
        (0x060c, 0x5ac), (0x0e01, 0xda1), (0x0e3f, 0xddf), (0x0e59, 0xdf9), (0x3002, 0x4a1),
        (0x30f3, 0x4dd), (0x309c, 0x4df), (0x3131, 0xea1), (0x3163, 0xed3), (0x11c2, 0xeee),
        (0x20ac, 0x20ac), (0x2014, 0xaa9), (0x2019, 0xad1), (0x2264, 0x8bc), (0x2502, 0x9f8),
    ];
    for (unit, old) in table {
        assert_eq!(keysyms_of(unit), vec![0x0100_0000 + unit, old]);
    }
    assert_eq!(keysyms_of(0x20a9), vec![0x0100_20a9, 0x20a9, 0xeff]);
}

#[test]
fn control_characters_have_keys() {
    assert_eq!(keysyms_of(0x08), vec![0xff08]);
    assert_eq!(keysyms_of(0x09), vec![0xff09]);
    assert_eq!(keysyms_of(0x0d), vec![0xff0d]);
    assert_eq!(keysyms_of(0x1b), vec![0xff1b]);
}

#[test]
fn what_is_no_character_has_no_keysym() {
    for unit in [0x00, 0x07, 0x7f, 0x85, 0xd800, 0xdfff, 0x11_0000] {
        assert!(keysyms_of(unit).is_empty());
    }
}

#[test]
fn units_make_characters() {
    assert_eq!(assemble(None, 0x61), (None, Some(0x61)));
    assert_eq!(assemble(None, 0xd800), (Some(0xd800), None));
    assert_eq!(assemble(Some(0xd800), 0xdc00), (None, Some(0x1_0000)));
    assert_eq!(assemble(Some(0xdbff), 0xdfff), (None, Some(0x10_ffff)));
    assert_eq!(assemble(Some(0xd83d), 0xde00), (None, Some(0x1_f600)));
    assert_eq!(assemble(Some(0xd83d), 0xd83e), (Some(0xd83e), None));
    assert_eq!(assemble(Some(0xd83d), 0x61), (None, Some(0x61)));
    assert_eq!(assemble(None, 0xde00), (None, Some(0xde00)));
}
