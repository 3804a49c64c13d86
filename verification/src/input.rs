//! Pointer and keyboard events, as the X server's test extension takes them.

use crate::characters::{assemble, keysyms_of};
use crate::keys::{keycode, x_keycode};
use crate::typing::{type_events, Layout, Typing};
use crate::view::Scene;
use crate::wire::InputMessage;
use std::collections::HashMap;
use vstd::prelude::*;

verus! {

/// X event types that can be injected.
pub const KEY_PRESS: u8 = 2;

pub const KEY_RELEASE: u8 = 3;

pub const BUTTON_PRESS: u8 = 4;

pub const BUTTON_RELEASE: u8 = 5;

pub const MOTION_NOTIFY: u8 = 6;

/// An event to inject: its type, the keycode or button, and where the pointer goes.
#[derive(Clone, Copy, PartialEq, Eq, Structural, Debug)]
pub struct FakeInput {
    pub kind: u8,
    pub detail: u8,
    pub x: i16,
    pub y: i16,
}

/// A coordinate as the X protocol carries it: the sixteen bits, read as signed.
pub open spec fn signed16(v: u16) -> i16 {
    if v < 32768 {
        v as i16
    } else {
        (v - 65536) as i16
    }
}

/// A key going down or up.
pub open spec fn key_event(kc: u8, pressed: bool) -> FakeInput {
    FakeInput {
        kind: if pressed {
            KEY_PRESS
        } else {
            KEY_RELEASE
        },
        detail: kc,
        x: 0,
        y: 0,
    }
}

/// A button going down or up.
pub open spec fn button_event(b: u8, pressed: bool) -> FakeInput {
    FakeInput {
        kind: if pressed {
            BUTTON_PRESS
        } else {
            BUTTON_RELEASE
        },
        detail: b,
        x: 0,
        y: 0,
    }
}

/// The pointer going to a place on the screen.
pub open spec fn motion_event(x: u16, y: u16) -> FakeInput {
    FakeInput { kind: MOTION_NOTIFY, detail: 0, x: signed16(x), y: signed16(y) }
}

fn as_signed16(v: u16) -> (r: i16)
    ensures
        r == signed16(v),
{
    if v < 32768 {
        v as i16
    } else {
        (v as i32 - 65536) as i16
    }
}

/// Makes the event of a key going down or up.
pub fn press_key(kc: u8, pressed: bool) -> (r: FakeInput)
    ensures
        r == key_event(kc, pressed),
{
    FakeInput { kind: if pressed { KEY_PRESS } else { KEY_RELEASE }, detail: kc, x: 0, y: 0 }
}

/// Makes the event of a button going down or up.
pub fn button(b: u8, pressed: bool) -> (r: FakeInput)
    ensures
        r == button_event(b, pressed),
{
    FakeInput { kind: if pressed { BUTTON_PRESS } else { BUTTON_RELEASE }, detail: b, x: 0, y: 0 }
}

/// Makes the event of the pointer going to a place on the screen.
pub fn motion(x: u16, y: u16) -> (r: FakeInput)
    ensures
        r == motion_event(x, y),
{
    FakeInput { kind: MOTION_NOTIFY, detail: 0, x: as_signed16(x), y: as_signed16(y) }
}

/// `n` clicks of a button: it goes down and up in turn.
pub open spec fn clicks(b: u8, n: nat) -> Seq<FakeInput> {
    Seq::new(2 * n, |i: int| button_event(b, i % 2 == 0))
}

/// How often a button is clicked when `n` clicks are asked for.
pub open spec fn at_least_once(n: int) -> nat {
    if n < 1 {
        1
    } else {
        n as nat
    }
}

/// Clicks a button, once at least.
pub fn click(b: u8, n: i32) -> (r: Vec<FakeInput>)
    ensures
        r@ == clicks(b, at_least_once(n as int)),
{
    let count: i32 = if n < 1 {
        1
    } else {
        n
    };
    let mut v: Vec<FakeInput> = Vec::new();
    let mut i: i32 = 0;
    while i < count
        invariant
            0 <= i <= count,
            v@ == clicks(b, i as nat),
        decreases count - i,
    {
        v.push(button(b, true));
        v.push(button(b, false));
        proof {
            assert(v@ =~= clicks(b, (i + 1) as nat));
        }
        i += 1;
    }
    v
}

// ------------------------------------------------------------ RDP keyboard

/// A keyboard event from an RDP client.
#[derive(Clone, Copy, PartialEq, Eq, Structural, Debug)]
pub enum KeyboardEvent {
    Pressed { code: u8, extended: bool },
    Released { code: u8, extended: bool },
    UnicodePressed(u16),
    UnicodeReleased(u16),
    Synchronize,
}

/// A key that is to be given keysyms, one for each column.
#[derive(PartialEq, Eq, Debug)]
pub struct Binding {
    pub keycode: u8,
    pub row: Vec<u32>,
}

/// What is to be done about a keyboard event.
#[derive(PartialEq, Eq, Debug)]
pub enum KeyAction {
    /// Inject the event.
    Inject(FakeInput),
    /// No key has this scancode.
    Unmapped { code: u8, extended: bool },
    /// Type a character: bind a key, where one is to be bound, and inject the events.
    Type { bind: Option<Binding>, events: Vec<FakeInput> },
    /// There is no way to type this, which may be no character at all.
    Untypable { character: u32 },
    /// Nothing yet: the other half of a character is to come.
    Half,
    /// Nothing.
    Ignore,
}

/// What a scancode going down or up comes to.
pub open spec fn key_action(code: u8, extended: bool, pressed: bool) -> KeyAction {
    match x_keycode(code, extended) {
        Some(kc) => KeyAction::Inject(key_event(kc, pressed)),
        None => KeyAction::Unmapped { code, extended },
    }
}

/// Scancodes are injected as keycodes, so the server's keyboard layout applies.
pub fn key(code: u8, extended: bool, pressed: bool) -> (r: KeyAction)
    ensures
        r == key_action(code, extended, pressed),
{
    match keycode(code, extended) {
        Some(kc) => KeyAction::Inject(press_key(kc, pressed)),
        None => KeyAction::Unmapped { code, extended },
    }
}

/// Whether `bind` is what a way of typing asks to be bound, in a layout of `per` columns.
pub open spec fn binds(t: Typing, per: usize, bind: Option<Binding>) -> bool {
    match t {
        Typing::Bind { keycode, keysym } => bind matches Some(b) && b.keycode == keycode && b.row@
            == Seq::new(per as nat, |col: int| keysym),
        _ => bind is None,
    }
}

/// Whether `r` is what a character going down or up comes to on the layout `l`, which is
/// `after` from then on: it is typed through the layout.
pub open spec fn types_character(
    l: Layout,
    c: u32,
    pressed: bool,
    r: KeyAction,
    after: Layout,
) -> bool {
    let ks = crate::characters::character_keysyms(c);
    let way = l.way(ks);
    if ks.len() == 0 || way is Never {
        r == (KeyAction::Untypable { character: c }) && l.becomes(Typing::Never, after)
    } else {
        &&& r matches KeyAction::Type { bind, events }
        &&& binds(way, l.per, bind)
        &&& events@ == crate::typing::typing_events(way, pressed)
        &&& l.becomes(way, after)
    }
}

/// The server's keyboard, as it is typed on: its layout, and the first half of a character
/// whose other half is still to come, of those that go down and of those that go up.
pub struct Keyboard {
    pub layout: Layout,
    pub down: Option<u16>,
    pub up: Option<u16>,
}

impl Keyboard {
    /// Whether the layout is one, and what waits is a half.
    pub open spec fn wf(self) -> bool {
        &&& self.layout.wf()
        &&& self.down matches Some(u) ==> crate::characters::is_first(u)
        &&& self.up matches Some(u) ==> crate::characters::is_first(u)
    }

    /// A keyboard on which nothing was typed yet.
    pub fn new(layout: Layout) -> (r: Keyboard)
        requires
            layout.wf(),
        ensures
            r.wf(),
            r == (Keyboard { layout, down: None, up: None }),
    {
        Keyboard { layout, down: None, up: None }
    }
}

/// Whether `r` is what a unit of a character comes to behind what `waiting` holds: it is
/// typed once it is whole.
pub open spec fn types_unit(
    l: Layout,
    waiting: Option<u16>,
    unit: u16,
    pressed: bool,
    r: KeyAction,
    after: Layout,
) -> bool {
    match crate::characters::assembled(waiting, unit).1 {
        None => r == KeyAction::Half && l.becomes(Typing::Never, after),
        Some(c) => types_character(l, c, pressed, r, after),
    }
}

/// Whether `r` is what a keyboard event comes to on the keyboard `k`, which is `after` from
/// then on.
pub open spec fn keyboard_does(
    k: Keyboard,
    e: KeyboardEvent,
    r: KeyAction,
    after: Keyboard,
) -> bool {
    match e {
        KeyboardEvent::Pressed { code, extended } => r == key_action(code, extended, true) && after
            == k,
        KeyboardEvent::Released { code, extended } => r == key_action(code, extended, false)
            && after == k,
        KeyboardEvent::UnicodePressed(unit) => {
            &&& types_unit(k.layout, k.down, unit, true, r, after.layout)
            &&& after.down == crate::characters::assembled(k.down, unit).0
            &&& after.up == k.up
        },
        KeyboardEvent::UnicodeReleased(unit) => {
            &&& types_unit(k.layout, k.up, unit, false, r, after.layout)
            &&& after.up == crate::characters::assembled(k.up, unit).0
            &&& after.down == k.down
        },
        KeyboardEvent::Synchronize => r == KeyAction::Ignore && after == k,
    }
}

fn row_of(per: usize, keysym: u32) -> (r: Vec<u32>)
    ensures
        r@ == Seq::new(per as nat, |col: int| keysym),
{
    let mut v: Vec<u32> = Vec::new();
    let mut i: usize = 0;
    while i < per
        invariant
            i <= per,
            v@ == Seq::new(i as nat, |col: int| keysym),
        decreases per - i,
    {
        v.push(keysym);
        i += 1;
        proof {
            assert(v@ =~= Seq::new(i as nat, |col: int| keysym));
        }
    }
    v
}

fn character(layout: &mut Layout, c: u32, pressed: bool) -> (r: KeyAction)
    requires
        old(layout).wf(),
    ensures
        final(layout).wf(),
        types_character(*old(layout), c, pressed, r, *final(layout)),
{
    let ks: Vec<u32> = keysyms_of(c);
    if ks.len() == 0 {
        return KeyAction::Untypable { character: c };
    }
    let per: usize = layout.per;
    match layout.plan(ks.as_slice()) {
        Typing::Never => KeyAction::Untypable { character: c },
        Typing::Bind { keycode, keysym } => {
            let bind = Some(Binding { keycode, row: row_of(per, keysym) });
            let events = type_events(Typing::Bind { keycode, keysym }, pressed);
            KeyAction::Type { bind, events }
        },
        Typing::Press { keycode, held } => {
            let events = type_events(Typing::Press { keycode, held }, pressed);
            KeyAction::Type { bind: None, events }
        },
    }
}

/// Decides about a keyboard event. Scancodes go to their keys, and characters are typed
/// through the layout, those of two units with the second of them.
pub fn keyboard(k: &mut Keyboard, e: KeyboardEvent) -> (r: KeyAction)
    requires
        old(k).wf(),
    ensures
        final(k).wf(),
        keyboard_does(*old(k), e, r, *final(k)),
{
    match e {
        KeyboardEvent::Pressed { code, extended } => key(code, extended, true),
        KeyboardEvent::Released { code, extended } => key(code, extended, false),
        KeyboardEvent::UnicodePressed(unit) => {
            let (waiting, whole): (Option<u16>, Option<u32>) = assemble(k.down, unit);
            k.down = waiting;
            match whole {
                Some(c) => character(&mut k.layout, c, true),
                None => KeyAction::Half,
            }
        },
        KeyboardEvent::UnicodeReleased(unit) => {
            let (waiting, whole): (Option<u16>, Option<u32>) = assemble(k.up, unit);
            k.up = waiting;
            match whole {
                Some(c) => character(&mut k.layout, c, false),
                None => KeyAction::Half,
            }
        },
        KeyboardEvent::Synchronize => KeyAction::Ignore,
    }
}

/// A character of two units is typed as one, whatever was typed before: its first half
/// does nothing, and with the second all of it goes down. That halves of characters go up
/// in between changes nothing.
pub proof fn law_characters_of_two_units_are_typed(
    k: Keyboard,
    c: u32,
    first: KeyAction,
    between: Keyboard,
    then: Keyboard,
    second: KeyAction,
    after: Keyboard,
)
    requires
        k.wf(),
        0x1_0000 <= c <= 0x10_ffff,
        keyboard_does(
            k,
            KeyboardEvent::UnicodePressed(crate::characters::units(c)[0]),
            first,
            between,
        ),
        then.layout == between.layout,
        then.down == between.down,
        keyboard_does(
            then,
            KeyboardEvent::UnicodePressed(crate::characters::units(c)[1]),
            second,
            after,
        ),
    ensures
        first == KeyAction::Half,
        between.layout.keysyms@ == k.layout.keysyms@,
        types_character(then.layout, c, true, second, after.layout),
        after.down is None,
{
    crate::characters::law_characters_come_out_of_their_units(k.down, c);
}

/// The same of a character that goes up.
pub proof fn law_characters_of_two_units_are_released(
    k: Keyboard,
    c: u32,
    first: KeyAction,
    between: Keyboard,
    then: Keyboard,
    second: KeyAction,
    after: Keyboard,
)
    requires
        k.wf(),
        0x1_0000 <= c <= 0x10_ffff,
        keyboard_does(
            k,
            KeyboardEvent::UnicodeReleased(crate::characters::units(c)[0]),
            first,
            between,
        ),
        then.layout == between.layout,
        then.up == between.up,
        keyboard_does(
            then,
            KeyboardEvent::UnicodeReleased(crate::characters::units(c)[1]),
            second,
            after,
        ),
    ensures
        first == KeyAction::Half,
        between.layout.keysyms@ == k.layout.keysyms@,
        types_character(then.layout, c, false, second, after.layout),
        after.up is None,
{
    crate::characters::law_characters_come_out_of_their_units(k.up, c);
}

/// A character that a key of the layout gives, by whatever of its keysyms and in whatever
/// column, is typed with such a key while the keys of its column are held. Nothing is
/// bound for it.
pub proof fn law_characters_of_the_layout_are_pressed(
    l: Layout,
    c: u32,
    pressed: bool,
    r: KeyAction,
    after: Layout,
    i: int,
    col: int,
)
    requires
        l.wf(),
        types_character(l, c, pressed, r, after),
        0 <= i < l.keys(),
        l.reaches(col),
        crate::characters::character_keysyms(c).contains(l.at(i, col)),
    ensures
        exists|j: int, column: int|
            {
                &&& 0 <= j < l.keys()
                &&& crate::characters::character_keysyms(c).contains(#[trigger] l.at(j, column))
                &&& (r matches KeyAction::Type { bind, events } && bind is None && events@
                    == crate::typing::typing_events(
                    Typing::Press { keycode: l.code(j), held: l.held_for(column) },
                    pressed,
                ))
            },
{
    crate::typing::law_layout_comes_first(
        l,
        crate::characters::character_keysyms(c),
        i,
        col,
    );
}

// ------------------------------------------------------------ RDP mouse

/// A mouse event from an RDP client.
#[allow(inconsistent_fields)]
#[derive(Clone, Copy, PartialEq, Eq, Structural, Debug)]
pub enum MouseEvent {
    Move { x: u16, y: u16 },
    RightPressed,
    RightReleased,
    LeftPressed,
    LeftReleased,
    MiddlePressed,
    MiddleReleased,
    Button4Pressed,
    Button4Released,
    Button5Pressed,
    Button5Released,
    VerticalScroll { value: i16 },
    Scroll { x: i32, y: i32 },
    RelMove { x: i32, y: i32 },
}

/// How many notches a wheel turned: one per 120 units, one at least.
pub open spec fn notches(units: int) -> nat {
    at_least_once((if units < 0 { -units } else { units }) / 120)
}

/// The wheel turning up (button 4) or down (button 5).
pub open spec fn wheel_vertical(units: int) -> Seq<FakeInput> {
    clicks(
        if units > 0 {
            4
        } else {
            5
        },
        notches(units),
    )
}

/// The wheel turning right (button 7) or left (button 6).
pub open spec fn wheel_horizontal(units: int) -> Seq<FakeInput> {
    clicks(
        if units > 0 {
            7
        } else {
            6
        },
        notches(units),
    )
}

/// The scene after a mouse event: a pointer that is pushed against the edge of a window
/// moves it.
pub open spec fn scene_after(scene: Scene, e: MouseEvent) -> Scene {
    match e {
        MouseEvent::Move { x, y } => scene.moved(x as int, y as int),
        _ => scene,
    }
}

/// The pointer going to the place of the screen that a client sees at a place of its
/// picture.
pub open spec fn pointed(scene: Scene, x: u16, y: u16) -> FakeInput {
    let at = scene.on_screen(x as int, y as int);
    motion_event(at.0 as u16, at.1 as u16)
}

/// The events that a mouse event comes to, where the client sees `scene`.
pub open spec fn mouse_events(scene: Scene, e: MouseEvent) -> Seq<FakeInput> {
    match e {
        MouseEvent::Move { x, y } => seq![pointed(scene, x, y)],
        MouseEvent::LeftPressed => seq![button_event(1, true)],
        MouseEvent::LeftReleased => seq![button_event(1, false)],
        MouseEvent::MiddlePressed => seq![button_event(2, true)],
        MouseEvent::MiddleReleased => seq![button_event(2, false)],
        MouseEvent::RightPressed => seq![button_event(3, true)],
        MouseEvent::RightReleased => seq![button_event(3, false)],
        MouseEvent::Button4Pressed => seq![button_event(8, true)],
        MouseEvent::Button4Released => seq![button_event(8, false)],
        MouseEvent::Button5Pressed => seq![button_event(9, true)],
        MouseEvent::Button5Released => seq![button_event(9, false)],
        MouseEvent::VerticalScroll { value } => wheel_vertical(value as int),
        MouseEvent::Scroll { x, y } => (if y == 0 {
            Seq::empty()
        } else {
            wheel_vertical(y as int)
        }) + (if x == 0 {
            Seq::empty()
        } else {
            wheel_horizontal(x as int)
        }),
        MouseEvent::RelMove { x: _, y: _ } => Seq::empty(),
    }
}

/// Whether the wheel's units can be negated.
pub open spec fn scroll_in_range(e: MouseEvent) -> bool {
    match e {
        MouseEvent::VerticalScroll { value } => value != i16::MIN,
        MouseEvent::Scroll { x, y } => x != i32::MIN && y != i32::MIN,
        _ => true,
    }
}

fn turn(units: i32, up: u8, down: u8) -> (r: Vec<FakeInput>)
    requires
        units != i32::MIN,
    ensures
        r@ == clicks(
            if units > 0 {
                up
            } else {
                down
            },
            notches(units as int),
        ),
{
    let size: i32 = if units < 0 {
        -units
    } else {
        units
    };
    click(if units > 0 { up } else { down }, size / 120)
}

fn one(e: FakeInput) -> (r: Vec<FakeInput>)
    ensures
        r@ == seq![e],
{
    let mut v: Vec<FakeInput> = Vec::new();
    v.push(e);
    v
}

/// Turns a mouse event of a client that sees `scene` into events to inject.
pub fn mouse(scene: &mut Scene, e: MouseEvent) -> (r: Vec<FakeInput>)
    requires
        old(scene).wf(),
        scroll_in_range(e),
    ensures
        final(scene).wf(),
        *final(scene) == scene_after(*old(scene), e),
        r@ == mouse_events(*final(scene), e),
{
    match e {
        MouseEvent::Move { x, y } => {
            let at: (u16, u16) = scene.pointer(x, y);
            one(motion(at.0, at.1))
        },
        MouseEvent::LeftPressed => one(button(1, true)),
        MouseEvent::LeftReleased => one(button(1, false)),
        MouseEvent::MiddlePressed => one(button(2, true)),
        MouseEvent::MiddleReleased => one(button(2, false)),
        MouseEvent::RightPressed => one(button(3, true)),
        MouseEvent::RightReleased => one(button(3, false)),
        MouseEvent::Button4Pressed => one(button(8, true)),
        MouseEvent::Button4Released => one(button(8, false)),
        MouseEvent::Button5Pressed => one(button(9, true)),
        MouseEvent::Button5Released => one(button(9, false)),
        MouseEvent::VerticalScroll { value } => turn(value as i32, 4, 5),
        MouseEvent::Scroll { x, y } => {
            let mut v: Vec<FakeInput> = Vec::new();
            if y != 0 {
                v = turn(y, 4, 5);
            }
            if x != 0 {
                let mut h: Vec<FakeInput> = turn(x, 7, 6);
                v.append(&mut h);
            }
            v
        },
        MouseEvent::RelMove { x: _, y: _ } => Vec::new(),
    }
}

/// A turn of the wheel leaves no button down: every press is followed by its
/// release.
pub proof fn law_wheel_leaves_no_button_down(scene: Scene, e: MouseEvent, i: int)
    requires
        e is VerticalScroll || e is Scroll,
        0 <= i,
        2 * i + 1 < mouse_events(scene, e).len(),
    ensures
        mouse_events(scene, e).len() % 2 == 0,
        mouse_events(scene, e)[2 * i].kind == BUTTON_PRESS,
        mouse_events(scene, e)[2 * i + 1].kind == BUTTON_RELEASE,
        mouse_events(scene, e)[2 * i].detail == mouse_events(scene, e)[2 * i + 1].detail,
{
}

/// The event that undoes a button's press.
pub open spec fn release_of(e: MouseEvent) -> Option<MouseEvent> {
    match e {
        MouseEvent::LeftPressed => Some(MouseEvent::LeftReleased),
        MouseEvent::MiddlePressed => Some(MouseEvent::MiddleReleased),
        MouseEvent::RightPressed => Some(MouseEvent::RightReleased),
        MouseEvent::Button4Pressed => Some(MouseEvent::Button4Released),
        MouseEvent::Button5Pressed => Some(MouseEvent::Button5Released),
        _ => None,
    }
}

/// A button that is pressed and released is the same button.
pub proof fn law_buttons_pair_up(scene: Scene, e: MouseEvent)
    ensures
        release_of(e) matches Some(up) ==> exists|b: u8|
            mouse_events(scene, e) == seq![#[trigger] button_event(b, true)] && mouse_events(scene, up)
                == seq![button_event(b, false)],
{
    let b: u8 = match e {
        MouseEvent::LeftPressed => 1,
        MouseEvent::MiddlePressed => 2,
        MouseEvent::RightPressed => 3,
        MouseEvent::Button4Pressed => 8,
        _ => 9,
    };
    assert(button_event(b, true).detail == b);
}

/// The pointer lands on the pixel that is drawn where the client points: the event is at
/// the place of the screen whose pixel the picture then shows there. Screens are at most
/// 32768 pixels long, as the X protocol has signed coordinates.
pub proof fn law_pointer_lands_on_what_is_drawn(
    scene: Scene,
    screen: Seq<u8>,
    x: u16,
    y: u16,
    c: int,
)
    requires
        scene.wf(),
        scene.sw <= 32768,
        scene.sh <= 32768,
        scene.shows(x as int, y as int),
        0 <= c < 4,
    ensures
        ({
            let e = MouseEvent::Move { x, y };
            let after = scene_after(scene, e);
            let events = mouse_events(after, e);
            &&& events.len() == 1
            &&& events[0].kind == MOTION_NOTIFY
            &&& 0 <= events[0].x < scene.sw
            &&& 0 <= events[0].y < scene.sh
            &&& after.picture(screen)[(y * scene.cw + x) * 4 + c] == screen[(events[0].y
                * scene.sw + events[0].x) * 4 + c]
        }),
{
    let after = scene.moved(x as int, y as int);
    if scene.window {
        crate::view::law_pushing_pans(scene, x as int, y as int);
    }
    assert(after.frame() == scene.frame());
    crate::view::law_pointer_hits_what_is_shown(after, screen, x as int, y as int, c);
}

/// Where the picture has the size of the screen, the pointer goes where the client says.
pub proof fn law_same_size_leaves_the_pointer(scene: Scene, x: u16, y: u16)
    requires
        scene.wf(),
        scene.cw == scene.sw,
        scene.ch == scene.sh,
        x < scene.sw,
        y < scene.sh,
    ensures
        ({
            let e = MouseEvent::Move { x, y };
            mouse_events(scene_after(scene, e), e) == seq![motion_event(x, y)]
        }),
{
    crate::view::lemma_same_size(scene, x as int, y as int);
}

/// A key that goes down and up again is the same key.
pub proof fn law_keys_pair_up(code: u8, extended: bool)
    ensures
        match (key_action(code, extended, true), key_action(code, extended, false)) {
            (KeyAction::Inject(down), KeyAction::Inject(up)) => down.kind == KEY_PRESS && up.kind
                == KEY_RELEASE && down.detail == up.detail,
            (KeyAction::Unmapped { .. }, KeyAction::Unmapped { .. }) => true,
            _ => false,
        },
{
}

// ------------------------------------------------------------ wire protocol

/// What a message from a client comes to.
#[derive(Clone, Copy, PartialEq, Eq, Structural, Debug)]
pub enum Injection {
    /// Inject the event.
    Input(FakeInput),
    /// No key of the server's keyboard gives this keysym.
    NoKeycode(u32),
    /// The message makes no sense; the client is dropped.
    Bad { kind: u8, len: usize },
}

/// What a message comes to, with the server's keymap.
pub open spec fn injection(m: Seq<u8>, keymap: Map<u32, u8>) -> Injection {
    match InputMessage::decoded(m) {
        Some(InputMessage::MouseMove { x, y }) => Injection::Input(motion_event(x, y)),
        Some(InputMessage::MouseButton { button, pressed }) => Injection::Input(
            button_event(button, pressed),
        ),
        Some(InputMessage::Key { keysym, pressed }) => if keymap.contains_key(keysym) {
            Injection::Input(key_event(keymap[keysym], pressed))
        } else {
            Injection::NoKeycode(keysym)
        },
        None => Injection::Bad { kind: m[0], len: m.len() as usize },
    }
}

/// Decides about a message from a client.
pub fn handle_input(m: &[u8], keymap: &HashMap<u32, u8>) -> (r: Injection)
    requires
        m@.len() > 0,
    ensures
        r == injection(m@, keymap@),
{
    match InputMessage::decode(m) {
        Some(InputMessage::MouseMove { x, y }) => Injection::Input(motion(x, y)),
        Some(InputMessage::MouseButton { button: b, pressed }) => Injection::Input(
            button(b, pressed),
        ),
        Some(InputMessage::Key { keysym, pressed }) => match keymap.get(&keysym) {
            Some(kc) => Injection::Input(press_key(*kc, pressed)),
            None => Injection::NoKeycode(keysym),
        },
        None => Injection::Bad { kind: m[0], len: m.len() },
    }
}

/// A message that a viewer sends does at the server what it says.
pub proof fn law_message_is_what_is_injected(msg: InputMessage, keymap: Map<u32, u8>)
    ensures
        injection(msg.bytes(), keymap) == match msg {
            InputMessage::MouseMove { x, y } => Injection::Input(motion_event(x, y)),
            InputMessage::MouseButton { button, pressed } => Injection::Input(
                button_event(button, pressed),
            ),
            InputMessage::Key { keysym, pressed } => if keymap.contains_key(keysym) {
                Injection::Input(key_event(keymap[keysym], pressed))
            } else {
                Injection::NoKeycode(keysym)
            },
        },
{
    crate::wire::law_input_round_trip(msg);
}

// ------------------------------------------------------------ laws of the events

/// Events as the X protocol has them: two and three for a key going down and up, four and
/// five for a button, and six for the pointer, with what or where it is. A coordinate is
/// the sixteen bits that were sent.
pub proof fn law_events_of_the_x_protocol(n: u8, x: u16, y: u16)
    ensures
        key_event(n, true) == (FakeInput { kind: 2, detail: n, x: 0, y: 0 }),
        key_event(n, false) == (FakeInput { kind: 3, detail: n, x: 0, y: 0 }),
        button_event(n, true) == (FakeInput { kind: 4, detail: n, x: 0, y: 0 }),
        button_event(n, false) == (FakeInput { kind: 5, detail: n, x: 0, y: 0 }),
        motion_event(x, y).kind == 6,
        motion_event(x, y).detail == 0,
        x < 0x8000 ==> motion_event(x, y).x == x,
        x >= 0x8000 ==> motion_event(x, y).x == x - 0x1_0000,
        y < 0x8000 ==> motion_event(x, y).y == y,
        y >= 0x8000 ==> motion_event(x, y).y == y - 0x1_0000,
{
}

/// A scancode without the prefix is injected as the keycode that is eight above it, going
/// down or up as the client's key does; one that has no keycode is told as it came.
pub proof fn law_scancodes_are_injected_as_keycodes(code: u8, pressed: bool)
    ensures
        1 <= code <= 247 ==> key_action(code, false, pressed) == KeyAction::Inject(
            FakeInput {
                kind: if pressed {
                    2
                } else {
                    3
                },
                detail: (code + 8) as u8,
                x: 0,
                y: 0,
            },
        ),
        code == 0 || code > 247 ==> key_action(code, false, pressed) == (KeyAction::Unmapped {
            code,
            extended: false,
        }),
{
}

/// A turn of the wheel is clicks of one button, down and up in turn: one for each 120 units
/// that are complete, and one at least. Up is button 4 and down 5, right 7 and left 6; of a
/// turn both ways the vertical one comes first.
pub proof fn law_wheel_clicks_by_its_units(scene: Scene, value: i16, x: i32, y: i32, i: int)
    ensures
        ({
            let m = mouse_events(scene, MouseEvent::VerticalScroll { value });
            let n = if value >= 240 || value <= -240 {
                (if value > 0 {
                    value as int
                } else {
                    -value
                }) / 120
            } else {
                1
            };
            &&& m.len() == 2 * n
            &&& 0 <= i < m.len() ==> m[i] == (FakeInput {
                kind: if i % 2 == 0 {
                    4
                } else {
                    5
                },
                detail: if value > 0 {
                    4
                } else {
                    5
                },
                x: 0,
                y: 0,
            })
        }),
        ({
            let m = mouse_events(scene, MouseEvent::Scroll { x, y });
            let steps = |u: int|
                if u == 0 {
                    0
                } else if u >= 240 || u <= -240 {
                    (if u > 0 {
                        u
                    } else {
                        -u
                    }) / 120
                } else {
                    1
                };
            let (v, h) = (steps(y as int), steps(x as int));
            &&& m.len() == 2 * v + 2 * h
            &&& 0 <= i < m.len() ==> m[i] == (FakeInput {
                kind: if i % 2 == 0 {
                    4
                } else {
                    5
                },
                detail: if i < 2 * v {
                    if y > 0 {
                        4
                    } else {
                        5
                    }
                } else {
                    if x > 0 {
                        7
                    } else {
                        6
                    }
                },
                x: 0,
                y: 0,
            })
        }),
{
}

/// The buttons of the mouse, by their X numbers: left, middle and right are one to three,
/// and the two at the side eight and nine, as four to seven are the wheel. A relative
/// movement does nothing.
pub proof fn law_buttons_have_x_numbers(scene: Scene, dx: i32, dy: i32)
    ensures
        mouse_events(scene, MouseEvent::LeftPressed) == seq![button_event(1, true)],
        mouse_events(scene, MouseEvent::LeftReleased) == seq![button_event(1, false)],
        mouse_events(scene, MouseEvent::MiddlePressed) == seq![button_event(2, true)],
        mouse_events(scene, MouseEvent::MiddleReleased) == seq![button_event(2, false)],
        mouse_events(scene, MouseEvent::RightPressed) == seq![button_event(3, true)],
        mouse_events(scene, MouseEvent::RightReleased) == seq![button_event(3, false)],
        mouse_events(scene, MouseEvent::Button4Pressed) == seq![button_event(8, true)],
        mouse_events(scene, MouseEvent::Button4Released) == seq![button_event(8, false)],
        mouse_events(scene, MouseEvent::Button5Pressed) == seq![button_event(9, true)],
        mouse_events(scene, MouseEvent::Button5Released) == seq![button_event(9, false)],
        mouse_events(scene, MouseEvent::RelMove { x: dx, y: dy }).len() == 0,
{
}

/// Nothing but the pointer moves the window, and only the pointer's event has a place.
pub proof fn law_only_the_pointer_moves_things(scene: Scene, e: MouseEvent, i: int)
    requires
        !(e is Move),
        0 <= i < mouse_events(scene, e).len(),
    ensures
        scene_after(scene, e) == scene,
        mouse_events(scene, e)[i].x == 0 && mouse_events(scene, e)[i].y == 0,
        mouse_events(scene, e)[i].kind == 4 || mouse_events(scene, e)[i].kind == 5,
{
}

/// The pointer goes to the place of the screen that the client points at, across and along:
/// in a window as far from its corner as in the picture, and else in proportion. Beside the
/// frame it goes to the frame's edge.
pub proof fn law_pointer_goes_in_proportion(scene: Scene, x: u16, y: u16)
    requires
        scene.wf(),
        scene.sw <= 32768,
        scene.sh <= 32768,
    ensures
        ({
            let e = MouseEvent::Move { x, y };
            let after = scene_after(scene, e);
            let f = after.frame();
            let m = mouse_events(after, e);
            let i = if x < f.left {
                0
            } else if x >= f.left + f.width {
                f.width - 1
            } else {
                x - f.left
            };
            let j = if y < f.top {
                0
            } else if y >= f.top + f.height {
                f.height - 1
            } else {
                y - f.top
            };
            &&& m.len() == 1
            &&& m[0].kind == 6
            &&& scene.window ==> m[0].x == after.x + i && m[0].y == after.y + j
            &&& !scene.window ==> m[0].x * f.width <= i * scene.sw < (m[0].x + 1) * f.width
            &&& !scene.window ==> m[0].y * f.height <= j * scene.sh < (m[0].y + 1) * f.height
        }),
{
    let after = scene.moved(x as int, y as int);
    crate::view::law_window_moves_by_the_push(scene, x as int, y as int);
    assert(after.frame() == scene.frame());
    crate::view::law_places_correspond(after, x as int, y as int);
}

/// A scancode is injected as the keycode that it has, with the prefix as without.
pub proof fn law_keycodes_are_injected(code: u8, extended: bool, pressed: bool)
    ensures
        x_keycode(code, extended) matches Some(kc) ==> key_action(code, extended, pressed)
            == KeyAction::Inject(
            FakeInput {
                kind: if pressed {
                    2
                } else {
                    3
                },
                detail: kc,
                x: 0,
                y: 0,
            },
        ),
        x_keycode(code, extended) is None ==> key_action(code, extended, pressed) == (
        KeyAction::Unmapped { code, extended }),
{
}

/// A keyboard takes a key going down for one that goes down, and one that goes up for one
/// that goes up, and is the same afterwards. So it is with characters of one unit, which
/// wait for nothing.
pub proof fn law_keyboard_does_what_it_is_told(
    k: Keyboard,
    code: u8,
    extended: bool,
    unit: u16,
    r: KeyAction,
    after: Keyboard,
)
    requires
        unit < 0xd800 || unit >= 0xe000,
    ensures
        keyboard_does(k, KeyboardEvent::Pressed { code, extended }, r, after) ==> r == key_action(
            code,
            extended,
            true,
        ) && after == k,
        keyboard_does(k, KeyboardEvent::Released { code, extended }, r, after) ==> r == key_action(
            code,
            extended,
            false,
        ) && after == k,
        keyboard_does(k, KeyboardEvent::UnicodePressed(unit), r, after) ==> types_character(
            k.layout,
            unit as u32,
            true,
            r,
            after.layout,
        ) && after.down is None && after.up == k.up,
        keyboard_does(k, KeyboardEvent::UnicodeReleased(unit), r, after) ==> types_character(
            k.layout,
            unit as u32,
            false,
            r,
            after.layout,
        ) && after.up is None && after.down == k.down,
        keyboard_does(k, KeyboardEvent::Synchronize, r, after) ==> r == KeyAction::Ignore && after
            == k,
{
}

/// A character for which a key is bound gets that key: it has the character's own keysym in
/// every column, on the server and in the layout that is kept here, and it alone goes down
/// or up.
pub proof fn law_bound_key_types_the_character(
    l: Layout,
    c: u32,
    pressed: bool,
    r: KeyAction,
    after: Layout,
    col: int,
)
    requires
        l.wf(),
        types_character(l, c, pressed, r, after),
        r is Type,
        r->bind is Some,
        0 <= col < l.per,
    ensures
        ({
            let b = r->bind->0;
            let own = crate::characters::character_keysyms(c)[0];
            let i = b.keycode - l.min;
            &&& b.row@.len() == l.per
            &&& b.row@[col] == own
            &&& 0 <= i < l.keysyms@.len() as int / l.per as int
            &&& l.keysyms@[i * l.per + col] == 0
            &&& after.keysyms@[i * l.per + col] == own
            &&& r->events@ == seq![
                FakeInput {
                    kind: if pressed {
                        2
                    } else {
                        3
                    },
                    detail: b.keycode,
                    x: 0,
                    y: 0,
                },
            ]
        }),
{
    let ks = crate::characters::character_keysyms(c);
    let b = r->bind->0;
    let i = b.keycode - l.min;
    crate::typing::lemma_bound_key(l, ks);
    crate::typing::lemma_bound_row(l, ks, after, col);
}

/// What cannot be typed is told by its number, and leaves the layout as it was.
pub proof fn law_untypable_is_told(
    l: Layout,
    c: u32,
    pressed: bool,
    r: KeyAction,
    after: Layout,
)
    requires
        types_character(l, c, pressed, r, after),
        crate::characters::character_keysyms(c).len() == 0,
    ensures
        r == (KeyAction::Untypable { character: c }),
        after.keysyms@ == l.keysyms@,
        after.min == l.min,
        after.per == l.per,
{
}

} // verus!
