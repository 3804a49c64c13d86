//! Keyboards: RDP scancodes and window-system keys to X keycodes and keysyms.

use std::collections::HashMap;
use vstd::prelude::*;

verus! {

// ------------------------------------------------------------ scancodes

/// Linux evdev code of a PC/AT set 1 scancode, `extended` for the E0 prefix. The
/// two agree for the keys without the prefix.
pub open spec fn evdev(code: u8, extended: bool) -> Option<int> {
    if !extended {
        if code == 0 {
            None
        } else {
            Some(code as int)
        }
    } else {
        match code {
            0x1c => Some(96),  // KP_Enter
            0x1d => Some(97),  // Control_R
            0x35 => Some(98),  // KP_Divide
            0x37 => Some(99),  // Print
            0x38 => Some(100),  // Alt_R / AltGr
            0x46 => Some(119),  // Pause (Ctrl+Break form)
            0x47 => Some(102),  // Home
            0x48 => Some(103),  // Up
            0x49 => Some(104),  // PgUp
            0x4b => Some(105),  // Left
            0x4d => Some(106),  // Right
            0x4f => Some(107),  // End
            0x50 => Some(108),  // Down
            0x51 => Some(109),  // PgDn
            0x52 => Some(110),  // Insert
            0x53 => Some(111),  // Delete
            0x5b => Some(125),  // Super_L
            0x5c => Some(126),  // Super_R
            0x5d => Some(127),  // Menu
            0x20 => Some(113),  // Mute
            0x2e => Some(114),  // VolDown
            0x30 => Some(115),  // VolUp
            0x22 => Some(164),  // Play
            0x24 => Some(166),  // Stop
            0x19 => Some(163),  // Next
            0x10 => Some(165),  // Prev
            _ => None,
        }
    }
}

/// X keycode of a scancode: the evdev code plus eight, where that is a keycode.
pub open spec fn x_keycode(code: u8, extended: bool) -> Option<u8> {
    match evdev(code, extended) {
        Some(ev) => if ev + 8 <= 255 {
            Some((ev + 8) as u8)
        } else {
            None
        },
        None => None,
    }
}

/// RDP scancode to X keycode.
pub fn keycode(code: u8, extended: bool) -> (r: Option<u8>)
    ensures
        r == x_keycode(code, extended),
{
    let ev: u8 = if !extended {
        code
    } else {
        match code {
            0x1c => 96,
            0x1d => 97,
            0x35 => 98,
            0x37 => 99,
            0x38 => 100,
            0x46 => 119,
            0x47 => 102,
            0x48 => 103,
            0x49 => 104,
            0x4b => 105,
            0x4d => 106,
            0x4f => 107,
            0x50 => 108,
            0x51 => 109,
            0x52 => 110,
            0x53 => 111,
            0x5b => 125,
            0x5c => 126,
            0x5d => 127,
            0x20 => 113,
            0x2e => 114,
            0x30 => 115,
            0x22 => 164,
            0x24 => 166,
            0x19 => 163,
            0x10 => 165,
            _ => 0,
        }
    };
    if ev == 0 || ev > 247 {
        None
    } else {
        Some(ev + 8)
    }
}

/// No two scancodes of one kind press the same key.
pub proof fn law_keycodes_differ(a: u8, b: u8, extended: bool)
    requires
        x_keycode(a, extended) is Some,
        x_keycode(a, extended) == x_keycode(b, extended),
    ensures
        a == b,
{
}

/// Keycodes below eight do not exist in X, and none comes out.
pub proof fn law_keycodes_are_x_keycodes(code: u8, extended: bool)
    ensures
        x_keycode(code, extended) matches Some(kc) ==> kc > 8,
{
}

// ------------------------------------------------------------ window keys

/// A key of the client's window system, by its place on a US keyboard.
#[derive(Clone, Copy, PartialEq, Eq, Structural, Debug)]
pub enum Key {
    Key0,
    Key1,
    Key2,
    Key3,
    Key4,
    Key5,
    Key6,
    Key7,
    Key8,
    Key9,
    A,
    B,
    C,
    D,
    E,
    F,
    G,
    H,
    I,
    J,
    K,
    L,
    M,
    N,
    O,
    P,
    Q,
    R,
    S,
    T,
    U,
    V,
    W,
    X,
    Y,
    Z,
    F1,
    F2,
    F3,
    F4,
    F5,
    F6,
    F7,
    F8,
    F9,
    F10,
    F11,
    F12,
    F13,
    F14,
    F15,
    Down,
    Left,
    Right,
    Up,
    Apostrophe,
    Backquote,
    Backslash,
    Comma,
    Equal,
    LeftBracket,
    Minus,
    Period,
    RightBracket,
    Semicolon,
    Slash,
    Backspace,
    Delete,
    End,
    Enter,
    Escape,
    Home,
    Insert,
    Menu,
    PageDown,
    PageUp,
    Pause,
    Space,
    Tab,
    NumLock,
    CapsLock,
    ScrollLock,
    LeftShift,
    RightShift,
    LeftCtrl,
    RightCtrl,
    LeftAlt,
    RightAlt,
    LeftSuper,
    RightSuper,
    NumPad0,
    NumPad1,
    NumPad2,
    NumPad3,
    NumPad4,
    NumPad5,
    NumPad6,
    NumPad7,
    NumPad8,
    NumPad9,
    NumPadDot,
    NumPadSlash,
    NumPadAsterisk,
    NumPadMinus,
    NumPadPlus,
    NumPadEnter,
    /// A key that the window system has no name for.
    Unknown,
}

/// X11 keysym of a key.
pub open spec fn x_keysym(k: Key) -> Option<u32> {
    match k {
        Key::Key0 => Some(0x30),
        Key::Key1 => Some(0x31),
        Key::Key2 => Some(0x32),
        Key::Key3 => Some(0x33),
        Key::Key4 => Some(0x34),
        Key::Key5 => Some(0x35),
        Key::Key6 => Some(0x36),
        Key::Key7 => Some(0x37),
        Key::Key8 => Some(0x38),
        Key::Key9 => Some(0x39),
        Key::A => Some(0x61),
        Key::B => Some(0x62),
        Key::C => Some(0x63),
        Key::D => Some(0x64),
        Key::E => Some(0x65),
        Key::F => Some(0x66),
        Key::G => Some(0x67),
        Key::H => Some(0x68),
        Key::I => Some(0x69),
        Key::J => Some(0x6a),
        Key::K => Some(0x6b),
        Key::L => Some(0x6c),
        Key::M => Some(0x6d),
        Key::N => Some(0x6e),
        Key::O => Some(0x6f),
        Key::P => Some(0x70),
        Key::Q => Some(0x71),
        Key::R => Some(0x72),
        Key::S => Some(0x73),
        Key::T => Some(0x74),
        Key::U => Some(0x75),
        Key::V => Some(0x76),
        Key::W => Some(0x77),
        Key::X => Some(0x78),
        Key::Y => Some(0x79),
        Key::Z => Some(0x7a),
        Key::F1 => Some(0xffbe),
        Key::F2 => Some(0xffbf),
        Key::F3 => Some(0xffc0),
        Key::F4 => Some(0xffc1),
        Key::F5 => Some(0xffc2),
        Key::F6 => Some(0xffc3),
        Key::F7 => Some(0xffc4),
        Key::F8 => Some(0xffc5),
        Key::F9 => Some(0xffc6),
        Key::F10 => Some(0xffc7),
        Key::F11 => Some(0xffc8),
        Key::F12 => Some(0xffc9),
        Key::F13 => Some(0xffca),
        Key::F14 => Some(0xffcb),
        Key::F15 => Some(0xffcc),
        Key::Down => Some(0xff54),
        Key::Left => Some(0xff51),
        Key::Right => Some(0xff53),
        Key::Up => Some(0xff52),
        Key::Apostrophe => Some(0x27),
        Key::Backquote => Some(0x60),
        Key::Backslash => Some(0x5c),
        Key::Comma => Some(0x2c),
        Key::Equal => Some(0x3d),
        Key::LeftBracket => Some(0x5b),
        Key::Minus => Some(0x2d),
        Key::Period => Some(0x2e),
        Key::RightBracket => Some(0x5d),
        Key::Semicolon => Some(0x3b),
        Key::Slash => Some(0x2f),
        Key::Backspace => Some(0xff08),
        Key::Delete => Some(0xffff),
        Key::End => Some(0xff57),
        Key::Enter => Some(0xff0d),
        Key::Escape => Some(0xff1b),
        Key::Home => Some(0xff50),
        Key::Insert => Some(0xff63),
        Key::Menu => Some(0xff67),
        Key::PageDown => Some(0xff56),
        Key::PageUp => Some(0xff55),
        Key::Pause => Some(0xff13),
        Key::Space => Some(0x20),
        Key::Tab => Some(0xff09),
        Key::NumLock => Some(0xff7f),
        Key::CapsLock => Some(0xffe5),
        Key::ScrollLock => Some(0xff14),
        Key::LeftShift => Some(0xffe1),
        Key::RightShift => Some(0xffe2),
        Key::LeftCtrl => Some(0xffe3),
        Key::RightCtrl => Some(0xffe4),
        Key::LeftAlt => Some(0xffe9),
        Key::RightAlt => Some(0xffea),
        Key::LeftSuper => Some(0xffeb),
        Key::RightSuper => Some(0xffec),
        Key::NumPad0 => Some(0xffb0),
        Key::NumPad1 => Some(0xffb1),
        Key::NumPad2 => Some(0xffb2),
        Key::NumPad3 => Some(0xffb3),
        Key::NumPad4 => Some(0xffb4),
        Key::NumPad5 => Some(0xffb5),
        Key::NumPad6 => Some(0xffb6),
        Key::NumPad7 => Some(0xffb7),
        Key::NumPad8 => Some(0xffb8),
        Key::NumPad9 => Some(0xffb9),
        Key::NumPadDot => Some(0xffae),
        Key::NumPadSlash => Some(0xffaf),
        Key::NumPadAsterisk => Some(0xffaa),
        Key::NumPadMinus => Some(0xffad),
        Key::NumPadPlus => Some(0xffab),
        Key::NumPadEnter => Some(0xff8d),
        Key::Unknown => None,
    }
}

/// Window-system key to X11 keysym. Keys without a name are dropped.
pub fn keysym(k: Key) -> (r: Option<u32>)
    ensures
        r == x_keysym(k),
{
    match k {
        Key::Key0 => Some(0x30),
        Key::Key1 => Some(0x31),
        Key::Key2 => Some(0x32),
        Key::Key3 => Some(0x33),
        Key::Key4 => Some(0x34),
        Key::Key5 => Some(0x35),
        Key::Key6 => Some(0x36),
        Key::Key7 => Some(0x37),
        Key::Key8 => Some(0x38),
        Key::Key9 => Some(0x39),
        Key::A => Some(0x61),
        Key::B => Some(0x62),
        Key::C => Some(0x63),
        Key::D => Some(0x64),
        Key::E => Some(0x65),
        Key::F => Some(0x66),
        Key::G => Some(0x67),
        Key::H => Some(0x68),
        Key::I => Some(0x69),
        Key::J => Some(0x6a),
        Key::K => Some(0x6b),
        Key::L => Some(0x6c),
        Key::M => Some(0x6d),
        Key::N => Some(0x6e),
        Key::O => Some(0x6f),
        Key::P => Some(0x70),
        Key::Q => Some(0x71),
        Key::R => Some(0x72),
        Key::S => Some(0x73),
        Key::T => Some(0x74),
        Key::U => Some(0x75),
        Key::V => Some(0x76),
        Key::W => Some(0x77),
        Key::X => Some(0x78),
        Key::Y => Some(0x79),
        Key::Z => Some(0x7a),
        Key::F1 => Some(0xffbe),
        Key::F2 => Some(0xffbf),
        Key::F3 => Some(0xffc0),
        Key::F4 => Some(0xffc1),
        Key::F5 => Some(0xffc2),
        Key::F6 => Some(0xffc3),
        Key::F7 => Some(0xffc4),
        Key::F8 => Some(0xffc5),
        Key::F9 => Some(0xffc6),
        Key::F10 => Some(0xffc7),
        Key::F11 => Some(0xffc8),
        Key::F12 => Some(0xffc9),
        Key::F13 => Some(0xffca),
        Key::F14 => Some(0xffcb),
        Key::F15 => Some(0xffcc),
        Key::Down => Some(0xff54),
        Key::Left => Some(0xff51),
        Key::Right => Some(0xff53),
        Key::Up => Some(0xff52),
        Key::Apostrophe => Some(0x27),
        Key::Backquote => Some(0x60),
        Key::Backslash => Some(0x5c),
        Key::Comma => Some(0x2c),
        Key::Equal => Some(0x3d),
        Key::LeftBracket => Some(0x5b),
        Key::Minus => Some(0x2d),
        Key::Period => Some(0x2e),
        Key::RightBracket => Some(0x5d),
        Key::Semicolon => Some(0x3b),
        Key::Slash => Some(0x2f),
        Key::Backspace => Some(0xff08),
        Key::Delete => Some(0xffff),
        Key::End => Some(0xff57),
        Key::Enter => Some(0xff0d),
        Key::Escape => Some(0xff1b),
        Key::Home => Some(0xff50),
        Key::Insert => Some(0xff63),
        Key::Menu => Some(0xff67),
        Key::PageDown => Some(0xff56),
        Key::PageUp => Some(0xff55),
        Key::Pause => Some(0xff13),
        Key::Space => Some(0x20),
        Key::Tab => Some(0xff09),
        Key::NumLock => Some(0xff7f),
        Key::CapsLock => Some(0xffe5),
        Key::ScrollLock => Some(0xff14),
        Key::LeftShift => Some(0xffe1),
        Key::RightShift => Some(0xffe2),
        Key::LeftCtrl => Some(0xffe3),
        Key::RightCtrl => Some(0xffe4),
        Key::LeftAlt => Some(0xffe9),
        Key::RightAlt => Some(0xffea),
        Key::LeftSuper => Some(0xffeb),
        Key::RightSuper => Some(0xffec),
        Key::NumPad0 => Some(0xffb0),
        Key::NumPad1 => Some(0xffb1),
        Key::NumPad2 => Some(0xffb2),
        Key::NumPad3 => Some(0xffb3),
        Key::NumPad4 => Some(0xffb4),
        Key::NumPad5 => Some(0xffb5),
        Key::NumPad6 => Some(0xffb6),
        Key::NumPad7 => Some(0xffb7),
        Key::NumPad8 => Some(0xffb8),
        Key::NumPad9 => Some(0xffb9),
        Key::NumPadDot => Some(0xffae),
        Key::NumPadSlash => Some(0xffaf),
        Key::NumPadAsterisk => Some(0xffaa),
        Key::NumPadMinus => Some(0xffad),
        Key::NumPadPlus => Some(0xffab),
        Key::NumPadEnter => Some(0xff8d),
        Key::Unknown => None,
    }
}

/// No two keys have the same keysym, so a release always names the key that was
/// pressed.
pub proof fn law_keysyms_differ(a: Key, b: Key)
    requires
        x_keysym(a) is Some,
        x_keysym(a) == x_keysym(b),
    ensures
        a == b,
{
}

// ------------------------------------------------------------ keymap

/// The keysym that key `i` of a keyboard mapping gives in column `col`.
pub open spec fn keysym_at(keysyms: Seq<u32>, per: int, i: int, col: int) -> u32 {
    keysyms[i * per + col]
}

/// Whether a mapping of `n` keys gives `ks` at key `i`, column `col`.
pub open spec fn gives(keysyms: Seq<u32>, per: int, n: int, i: int, col: int, ks: u32) -> bool {
    0 <= i < n && 0 <= col < per && keysym_at(keysyms, per, i, col) == ks
}

/// Whether key `i`, column `col` comes before key `j`, column `c`: lower columns
/// first, then lower keys.
pub open spec fn earlier(i: int, col: int, j: int, c: int) -> bool {
    col < c || (col == c && i < j)
}

/// Whether `m` maps each keysym that is given before key `j`, column `c`, to the
/// first key that gives it, and no other keysym.
pub open spec fn maps_first(
    m: Map<u32, u8>,
    keysyms: Seq<u32>,
    per: int,
    n: int,
    min: u8,
    j: int,
    c: int,
) -> bool {
    &&& forall|ks: u32, i: int, col: int|
        #[trigger] gives(keysyms, per, n, i, col, ks) && earlier(i, col, j, c) && ks != 0
            ==> m.contains_key(ks)
    &&& forall|ks: u32| #[trigger]
        m.contains_key(ks) ==> ks != 0 && exists|i: int, col: int|
            {
                &&& #[trigger] gives(keysyms, per, n, i, col, ks)
                &&& earlier(i, col, j, c)
                &&& m[ks] == min + i
                &&& forall|i2: int, c2: int| #[trigger]
                    gives(keysyms, per, n, i2, c2, ks) ==> !earlier(i2, c2, i, col)
            }
}

/// Keysym to keycode, for the keycodes `min` to `max` with `per` keysyms each,
/// preferring the lowest column (unshifted) that yields the keysym.
pub fn build_keymap(min: u8, max: u8, per: usize, keysyms: &[u32]) -> (r: HashMap<u32, u8>)
    requires
        min <= max,
        (max - min + 1) * per <= keysyms@.len(),
    ensures
        maps_first(r@, keysyms@, per as int, max - min + 1, min, 0, per as int),
{
    let n: usize = max as usize - min as usize + 1;
    let mut m: HashMap<u32, u8> = HashMap::new();
    let mut col: usize = 0;
    while col < per
        invariant
            col <= per,
            min <= max,
            n == max - min + 1,
            n * per <= keysyms@.len(),
            maps_first(m@, keysyms@, per as int, n as int, min, 0, col as int),
        decreases per - col,
    {
        let mut i: usize = 0;
        while i < n
            invariant
                col < per,
                i <= n,
                min <= max,
                n == max - min + 1,
                n * per <= keysyms@.len(),
                maps_first(m@, keysyms@, per as int, n as int, min, i as int, col as int),
            decreases n - i,
        {
            proof {
                assert(i * per + col < n * per) by (nonlinear_arith)
                    requires
                        i < n,
                        col < per,
                ;
                assert(0 <= i * per) by (nonlinear_arith);
                assert(keysyms@.len() == keysyms.len());
            }
            let ks: u32 = keysyms[i * per + col];
            let ghost before = m@;
            if ks != 0 && !m.contains_key(&ks) {
                m.insert(ks, min + i as u8);
            }
            proof {
                assert(gives(keysyms@, per as int, n as int, i as int, col as int, ks));
                assert(maps_first(
                    m@,
                    keysyms@,
                    per as int,
                    n as int,
                    min,
                    i + 1,
                    col as int,
                ));
            }
            i += 1;
        }
        proof {
            assert(maps_first(m@, keysyms@, per as int, n as int, min, 0, col + 1));
        }
        col += 1;
    }
    m
}

// ------------------------------------------------------------ laws of the tables

/// A key without the E0 prefix has the keycode that is eight above its scancode; nothing
/// has one that does not fit.
pub proof fn law_plain_scancodes_are_offset(code: u8)
    ensures
        1 <= code <= 247 ==> x_keycode(code, false) == Some((code + 8) as u8),
        code == 0 || code > 247 ==> x_keycode(code, false) is None,
{
}

/// The block of cursor keys: ten scancodes in ascending order have the ten keycodes from
/// 110 on, in the same order.
pub proof fn law_cursor_block_is_in_order(a: u8, b: u8)
    requires
        0x47 <= a < b <= 0x53,
        a != 0x4a && a != 0x4c && a != 0x4e,
        b != 0x4a && b != 0x4c && b != 0x4e,
    ensures
        x_keycode(a, true) matches Some(ka) && x_keycode(b, true) matches Some(kb) && 110 <= ka
            < kb <= 119,
        x_keycode(0x47, true) == Some(110u8),
{
}

/// The other keys with the E0 prefix, in groups whose keycodes follow each other: the
/// right-hand twins of keys, the three beside the space bar, the volume; then the player
/// and the pause key. No other scancode has a keycode with the prefix.
pub proof fn law_prefixed_scancodes(code: u8)
    ensures
        x_keycode(0x1c, true) == Some((96 + 8) as u8),
        x_keycode(0x1d, true) == Some((97 + 8) as u8),
        x_keycode(0x35, true) == Some((98 + 8) as u8),
        x_keycode(0x37, true) == Some((99 + 8) as u8),
        x_keycode(0x38, true) == Some((100 + 8) as u8),
        0x5b <= code <= 0x5d ==> x_keycode(code, true) == Some((125 + 8 + (code - 0x5b)) as u8),
        x_keycode(0x20, true) == Some((113 + 8) as u8),
        x_keycode(0x2e, true) == Some((114 + 8) as u8),
        x_keycode(0x30, true) == Some((115 + 8) as u8),
        x_keycode(0x19, true) == Some((163 + 8) as u8),
        x_keycode(0x22, true) == Some((164 + 8) as u8),
        x_keycode(0x10, true) == Some((165 + 8) as u8),
        x_keycode(0x24, true) == Some((166 + 8) as u8),
        x_keycode(0x46, true) == Some((119 + 8) as u8),
        x_keycode(code, true) is Some ==> {
            ||| code == 0x1c || code == 0x1d || code == 0x35 || code == 0x37 || code == 0x38
            ||| 0x5b <= code <= 0x5d
            ||| code == 0x20 || code == 0x2e || code == 0x30
            ||| code == 0x19 || code == 0x22 || code == 0x10 || code == 0x24 || code == 0x46
            ||| 0x47 <= code <= 0x53 && code != 0x4a && code != 0x4c && code != 0x4e
        },
{
}

/// A key that prints a character without shift has the keysym of that character.
pub proof fn law_printing_keys_have_their_characters()
    ensures
        x_keysym(Key::Key0) == Some('0' as u32),
        x_keysym(Key::Key1) == Some('1' as u32),
        x_keysym(Key::Key2) == Some('2' as u32),
        x_keysym(Key::Key3) == Some('3' as u32),
        x_keysym(Key::Key4) == Some('4' as u32),
        x_keysym(Key::Key5) == Some('5' as u32),
        x_keysym(Key::Key6) == Some('6' as u32),
        x_keysym(Key::Key7) == Some('7' as u32),
        x_keysym(Key::Key8) == Some('8' as u32),
        x_keysym(Key::Key9) == Some('9' as u32),
        x_keysym(Key::A) == Some('a' as u32),
        x_keysym(Key::B) == Some('b' as u32),
        x_keysym(Key::C) == Some('c' as u32),
        x_keysym(Key::D) == Some('d' as u32),
        x_keysym(Key::E) == Some('e' as u32),
        x_keysym(Key::F) == Some('f' as u32),
        x_keysym(Key::G) == Some('g' as u32),
        x_keysym(Key::H) == Some('h' as u32),
        x_keysym(Key::I) == Some('i' as u32),
        x_keysym(Key::J) == Some('j' as u32),
        x_keysym(Key::K) == Some('k' as u32),
        x_keysym(Key::L) == Some('l' as u32),
        x_keysym(Key::M) == Some('m' as u32),
        x_keysym(Key::N) == Some('n' as u32),
        x_keysym(Key::O) == Some('o' as u32),
        x_keysym(Key::P) == Some('p' as u32),
        x_keysym(Key::Q) == Some('q' as u32),
        x_keysym(Key::R) == Some('r' as u32),
        x_keysym(Key::S) == Some('s' as u32),
        x_keysym(Key::T) == Some('t' as u32),
        x_keysym(Key::U) == Some('u' as u32),
        x_keysym(Key::V) == Some('v' as u32),
        x_keysym(Key::W) == Some('w' as u32),
        x_keysym(Key::X) == Some('x' as u32),
        x_keysym(Key::Y) == Some('y' as u32),
        x_keysym(Key::Z) == Some('z' as u32),
        x_keysym(Key::Apostrophe) == Some('\'' as u32),
        x_keysym(Key::Backquote) == Some('`' as u32),
        x_keysym(Key::Backslash) == Some('\\' as u32),
        x_keysym(Key::Comma) == Some(',' as u32),
        x_keysym(Key::Equal) == Some('=' as u32),
        x_keysym(Key::LeftBracket) == Some('[' as u32),
        x_keysym(Key::Minus) == Some('-' as u32),
        x_keysym(Key::Period) == Some('.' as u32),
        x_keysym(Key::RightBracket) == Some(']' as u32),
        x_keysym(Key::Semicolon) == Some(';' as u32),
        x_keysym(Key::Slash) == Some('/' as u32),
        x_keysym(Key::Space) == Some(' ' as u32),
{
}

/// A key of the number pad has the keysym of its character, offset by 0xff80.
pub proof fn law_number_pad_is_offset()
    ensures
        x_keysym(Key::NumPad0) == Some((0xff80 + '0' as u32) as u32),
        x_keysym(Key::NumPad1) == Some((0xff80 + '1' as u32) as u32),
        x_keysym(Key::NumPad2) == Some((0xff80 + '2' as u32) as u32),
        x_keysym(Key::NumPad3) == Some((0xff80 + '3' as u32) as u32),
        x_keysym(Key::NumPad4) == Some((0xff80 + '4' as u32) as u32),
        x_keysym(Key::NumPad5) == Some((0xff80 + '5' as u32) as u32),
        x_keysym(Key::NumPad6) == Some((0xff80 + '6' as u32) as u32),
        x_keysym(Key::NumPad7) == Some((0xff80 + '7' as u32) as u32),
        x_keysym(Key::NumPad8) == Some((0xff80 + '8' as u32) as u32),
        x_keysym(Key::NumPad9) == Some((0xff80 + '9' as u32) as u32),
        x_keysym(Key::NumPadDot) == Some((0xff80 + '.' as u32) as u32),
        x_keysym(Key::NumPadSlash) == Some((0xff80 + '/' as u32) as u32),
        x_keysym(Key::NumPadAsterisk) == Some((0xff80 + '*' as u32) as u32),
        x_keysym(Key::NumPadMinus) == Some((0xff80 + '-' as u32) as u32),
        x_keysym(Key::NumPadPlus) == Some((0xff80 + '+' as u32) as u32),
        x_keysym(Key::NumPadEnter) == Some((0xff80 + '\r' as u32) as u32),
{
}

/// A key that sends a control character has the keysym of that character, offset by
/// 0xff00.
pub proof fn law_control_keys_are_offset()
    ensures
        x_keysym(Key::Backspace) == Some((0xff00 + 0x08) as u32),
        x_keysym(Key::Tab) == Some((0xff00 + '\t' as u32) as u32),
        x_keysym(Key::Enter) == Some((0xff00 + '\r' as u32) as u32),
        x_keysym(Key::Escape) == Some((0xff00 + 0x1b) as u32),
        x_keysym(Key::Delete) == Some((0xff00 + 0xff) as u32),
{
}

/// Keysyms that follow each other: the function keys from 0xffbe on; the cursor keys from
/// 0xff50 on, from home round to end; and of each pair of modifiers the left before the
/// right.
pub proof fn law_keys_in_rows_follow_each_other()
    ensures
        x_keysym(Key::F1) == Some(0xffbeu32),
        x_keysym(Key::F2)->0 == x_keysym(Key::F1)->0 + 1 && x_keysym(Key::F2) is Some,
        x_keysym(Key::F3)->0 == x_keysym(Key::F2)->0 + 1 && x_keysym(Key::F3) is Some,
        x_keysym(Key::F4)->0 == x_keysym(Key::F3)->0 + 1 && x_keysym(Key::F4) is Some,
        x_keysym(Key::F5)->0 == x_keysym(Key::F4)->0 + 1 && x_keysym(Key::F5) is Some,
        x_keysym(Key::F6)->0 == x_keysym(Key::F5)->0 + 1 && x_keysym(Key::F6) is Some,
        x_keysym(Key::F7)->0 == x_keysym(Key::F6)->0 + 1 && x_keysym(Key::F7) is Some,
        x_keysym(Key::F8)->0 == x_keysym(Key::F7)->0 + 1 && x_keysym(Key::F8) is Some,
        x_keysym(Key::F9)->0 == x_keysym(Key::F8)->0 + 1 && x_keysym(Key::F9) is Some,
        x_keysym(Key::F10)->0 == x_keysym(Key::F9)->0 + 1 && x_keysym(Key::F10) is Some,
        x_keysym(Key::F11)->0 == x_keysym(Key::F10)->0 + 1 && x_keysym(Key::F11) is Some,
        x_keysym(Key::F12)->0 == x_keysym(Key::F11)->0 + 1 && x_keysym(Key::F12) is Some,
        x_keysym(Key::F13)->0 == x_keysym(Key::F12)->0 + 1 && x_keysym(Key::F13) is Some,
        x_keysym(Key::F14)->0 == x_keysym(Key::F13)->0 + 1 && x_keysym(Key::F14) is Some,
        x_keysym(Key::F15)->0 == x_keysym(Key::F14)->0 + 1 && x_keysym(Key::F15) is Some,
        x_keysym(Key::Home) == Some(0xff50u32),
        x_keysym(Key::Left)->0 == x_keysym(Key::Home)->0 + 1 && x_keysym(Key::Left) is Some,
        x_keysym(Key::Up)->0 == x_keysym(Key::Left)->0 + 1 && x_keysym(Key::Up) is Some,
        x_keysym(Key::Right)->0 == x_keysym(Key::Up)->0 + 1 && x_keysym(Key::Right) is Some,
        x_keysym(Key::Down)->0 == x_keysym(Key::Right)->0 + 1 && x_keysym(Key::Down) is Some,
        x_keysym(Key::PageUp)->0 == x_keysym(Key::Down)->0 + 1 && x_keysym(Key::PageUp) is Some,
        x_keysym(Key::PageDown)->0 == x_keysym(Key::PageUp)->0 + 1 && x_keysym(Key::PageDown) is Some,
        x_keysym(Key::End)->0 == x_keysym(Key::PageDown)->0 + 1 && x_keysym(Key::End) is Some,
        x_keysym(Key::LeftShift) == Some(0xffe1u32),
        x_keysym(Key::RightShift) == Some(0xffe2u32),
        x_keysym(Key::LeftCtrl) == Some(0xffe3u32),
        x_keysym(Key::RightCtrl) == Some(0xffe4u32),
        x_keysym(Key::CapsLock) == Some(0xffe5u32),
        x_keysym(Key::LeftAlt) == Some(0xffe9u32),
        x_keysym(Key::RightAlt) == Some(0xffeau32),
        x_keysym(Key::LeftSuper) == Some(0xffebu32),
        x_keysym(Key::RightSuper) == Some(0xffecu32),
        x_keysym(Key::Pause) == Some(0xff13u32),
        x_keysym(Key::ScrollLock) == Some(0xff14u32),
        x_keysym(Key::Insert) == Some(0xff63u32),
        x_keysym(Key::Menu) == Some(0xff67u32),
        x_keysym(Key::NumLock) == Some(0xff7fu32),
        x_keysym(Key::Unknown) is None,
{
}

/// A keymap has every keysym that the mapping gives, zero aside, and no other. It has it
/// at a key that gives it in a column such that no key gives it in a lower one, and no
/// lower key in that one.
pub proof fn law_keymap_finds_the_lowest(
    m: Map<u32, u8>,
    keysyms: Seq<u32>,
    per: int,
    n: int,
    min: u8,
    ks: u32,
)
    requires
        maps_first(m, keysyms, per, n, min, 0, per),
    ensures
        m.contains_key(ks) <==> ks != 0 && exists|i: int, col: int|
            0 <= i < n && 0 <= col < per && #[trigger] keysyms[i * per + col] == ks,
        m.contains_key(ks) ==> exists|i: int, col: int|
            {
                &&& 0 <= i < n
                &&& 0 <= col < per
                &&& #[trigger] keysyms[i * per + col] == ks
                &&& m[ks] == min + i
                &&& forall|j: int, c: int|
                    0 <= j < n && 0 <= c < per && #[trigger] keysyms[j * per + c] == ks ==> c > col
                        || c == col && j >= i
            },
{
    if ks != 0 && exists|i: int, col: int|
        0 <= i < n && 0 <= col < per && #[trigger] keysyms[i * per + col] == ks {
        let (i, col) = choose|i: int, col: int|
            0 <= i < n && 0 <= col < per && #[trigger] keysyms[i * per + col] == ks;
        assert(gives(keysyms, per, n, i, col, ks) && earlier(i, col, 0, per));
    }
    if m.contains_key(ks) {
        let (i, col) = choose|i: int, col: int|
            {
                &&& #[trigger] gives(keysyms, per, n, i, col, ks)
                &&& earlier(i, col, 0, per)
                &&& m[ks] == min + i
                &&& forall|i2: int, c2: int| #[trigger]
                    gives(keysyms, per, n, i2, c2, ks) ==> !earlier(i2, c2, i, col)
            };
        assert(keysyms[i * per + col] == ks);
        assert forall|j: int, c: int|
            0 <= j < n && 0 <= c < per && #[trigger] keysyms[j * per + c] == ks implies c > col
            || c == col && j >= i by {
            assert(gives(keysyms, per, n, j, c, ks));
        }
    }
}

} // verus!
