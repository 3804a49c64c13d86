//! The viewer's side of the older protocol: what its window reports, as messages to
//! the server.

use crate::keys::{keysym, x_keysym, Key};
use crate::wire::InputMessage;
use vstd::prelude::*;

verus! {

/// Which of the three mouse buttons are down.
#[derive(Clone, Copy, PartialEq, Eq, Structural, Debug)]
pub struct Buttons {
    pub left: bool,
    pub middle: bool,
    pub right: bool,
}

/// What the server was last told about the mouse.
#[derive(Clone, Copy, PartialEq, Eq, Structural, Debug)]
pub struct Mouse {
    pub x: u16,
    pub y: u16,
    pub buttons: Buttons,
}

/// The message about one button, if it changed.
pub open spec fn change(button: u8, was: bool, is: bool) -> Seq<InputMessage> {
    if was == is {
        Seq::empty()
    } else {
        seq![InputMessage::MouseButton { button, pressed: is }]
    }
}

/// The messages that lead from one state of the buttons to another. X numbers them
/// left, middle, right from 1 on.
pub open spec fn changes(was: Buttons, is: Buttons) -> Seq<InputMessage> {
    change(1, was.left, is.left) + change(2, was.middle, is.middle) + change(
        3,
        was.right,
        is.right,
    )
}

/// The X button of a turn of the wheel, of which only the signs count: 4 is up, 5 down,
/// 6 left and 7 right. The vertical turn goes first.
pub open spec fn wheel_button(sx: int, sy: int) -> Option<u8> {
    if sy > 0 {
        Some(4)
    } else if sy < 0 {
        Some(5)
    } else if sx < 0 {
        Some(6)
    } else if sx > 0 {
        Some(7)
    } else {
        None
    }
}

/// A button going down and up again.
pub open spec fn notch(button: u8) -> Seq<InputMessage> {
    seq![
        InputMessage::MouseButton { button, pressed: true },
        InputMessage::MouseButton { button, pressed: false },
    ]
}

/// The messages of a turn of the wheel: one notch, whatever its size.
pub open spec fn wheel_messages(sx: int, sy: int) -> Seq<InputMessage> {
    match wheel_button(sx, sy) {
        Some(button) => notch(button),
        None => Seq::empty(),
    }
}

impl Mouse {
    /// The server was told nothing yet. No place on a screen is at the largest
    /// coordinates, so the first place is always sent.
    pub fn new() -> (r: Mouse)
        ensures
            r.x == u16::MAX,
            r.y == u16::MAX,
            r.buttons == (Buttons { left: false, middle: false, right: false }),
    {
        Mouse {
            x: u16::MAX,
            y: u16::MAX,
            buttons: Buttons { left: false, middle: false, right: false },
        }
    }

    /// The pointer is at a place in server pixels: tells the server, unless it is where
    /// it was.
    pub fn moved(&mut self, x: u16, y: u16) -> (r: Option<InputMessage>)
        ensures
            r == if x == old(self).x && y == old(self).y {
                None
            } else {
                Some(InputMessage::MouseMove { x, y })
            },
            *final(self) == (Mouse { x, y, ..*old(self) }),
            r is None <==> *final(self) == *old(self),
            r matches Some(m) ==> m is MouseMove && m->x == x && m->y == y,
    {
        if x == self.x && y == self.y {
            return None;
        }
        self.x = x;
        self.y = y;
        Some(InputMessage::MouseMove { x, y })
    }

    /// The buttons are in this state: tells the server about those that changed.
    pub fn buttons(&mut self, now: Buttons) -> (r: Vec<InputMessage>)
        ensures
            r@ == changes(old(self).buttons, now),
            *final(self) == (Mouse { buttons: now, ..*old(self) }),
    {
        let was: Buttons = self.buttons;
        let mut v: Vec<InputMessage> = Vec::new();
        if was.left != now.left {
            v.push(InputMessage::MouseButton { button: 1, pressed: now.left });
        }
        if was.middle != now.middle {
            v.push(InputMessage::MouseButton { button: 2, pressed: now.middle });
        }
        if was.right != now.right {
            v.push(InputMessage::MouseButton { button: 3, pressed: now.right });
        }
        self.buttons = now;
        proof {
            assert(v@ =~= changes(was, now));
        }
        v
    }
}

/// The wheel turned, by the signs of `sx` to the right and of `sy` up.
pub fn wheel(sx: i32, sy: i32) -> (r: Vec<InputMessage>)
    ensures
        r@ == wheel_messages(sx as int, sy as int),
{
    let mut v: Vec<InputMessage> = Vec::new();
    let button: u8 = if sy > 0 {
        4
    } else if sy < 0 {
        5
    } else if sx < 0 {
        6
    } else if sx > 0 {
        7
    } else {
        return v;
    };
    v.push(InputMessage::MouseButton { button, pressed: true });
    v.push(InputMessage::MouseButton { button, pressed: false });
    proof {
        assert(v@ =~= notch(button));
    }
    v
}

/// A key went down or up: the message, for a key that has a keysym.
pub fn key_message(k: Key, pressed: bool) -> (r: Option<InputMessage>)
    ensures
        r == match x_keysym(k) {
            Some(keysym) => Some(InputMessage::Key { keysym, pressed }),
            None => None,
        },
        r is Some <==> x_keysym(k) is Some,
        r matches Some(m) ==> m is Key && m->keysym == x_keysym(k)->0 && m->Key_pressed == pressed,
{
    match keysym(k) {
        Some(keysym) => Some(InputMessage::Key { keysym, pressed }),
        None => None,
    }
}

/// The state of the buttons after a message.
pub open spec fn after(b: Buttons, m: InputMessage) -> Buttons {
    match m {
        InputMessage::MouseButton { button, pressed } => if button == 1 {
            Buttons { left: pressed, ..b }
        } else if button == 2 {
            Buttons { middle: pressed, ..b }
        } else if button == 3 {
            Buttons { right: pressed, ..b }
        } else {
            b
        },
        _ => b,
    }
}

/// The state of the buttons after a row of messages.
pub open spec fn replayed(b: Buttons, ms: Seq<InputMessage>) -> Buttons
    decreases ms.len(),
{
    if ms.len() == 0 {
        b
    } else {
        after(replayed(b, ms.drop_last()), ms.last())
    }
}

proof fn lemma_replay_joins(b: Buttons, first: Seq<InputMessage>, more: Seq<InputMessage>)
    ensures
        replayed(b, first + more) == replayed(replayed(b, first), more),
    decreases more.len(),
{
    if more.len() == 0 {
        assert(first + more =~= first);
    } else {
        lemma_replay_joins(b, first, more.drop_last());
        assert((first + more).drop_last() =~= first + more.drop_last());
        assert((first + more).last() == more.last());
    }
}

proof fn lemma_replay_one(b: Buttons, m: InputMessage)
    ensures
        replayed(b, seq![m]) == after(b, m),
{
    assert(seq![m].drop_last() =~= Seq::empty());
    assert(replayed(b, seq![m].drop_last()) == b);
}

proof fn lemma_replay_change(b: Buttons, button: u8, was: bool, is: bool)
    requires
        was == is ==> after(b, InputMessage::MouseButton { button, pressed: is }) == b,
    ensures
        replayed(b, change(button, was, is)) == after(
            b,
            InputMessage::MouseButton { button, pressed: is },
        ),
{
    if was != is {
        lemma_replay_one(b, InputMessage::MouseButton { button, pressed: is });
    }
}

/// A server that starts from the same state and follows the messages ends with the
/// buttons as they are at the viewer.
pub proof fn law_buttons_stay_in_step(was: Buttons, is: Buttons)
    ensures
        replayed(was, changes(was, is)) == is,
{
    let left = change(1, was.left, is.left);
    let middle = change(2, was.middle, is.middle);
    let right = change(3, was.right, is.right);
    let one = Buttons { left: is.left, ..was };
    let two = Buttons { middle: is.middle, ..one };
    lemma_replay_joins(was, left + middle, right);
    lemma_replay_joins(was, left, middle);
    lemma_replay_change(was, 1, was.left, is.left);
    lemma_replay_change(one, 2, was.middle, is.middle);
    lemma_replay_change(two, 3, was.right, is.right);
}

/// A turn of the wheel leaves the other buttons as they are.
pub proof fn law_wheel_touches_no_button(b: Buttons, sx: int, sy: int)
    ensures
        replayed(b, wheel_messages(sx, sy)) == b,
{
    if wheel_button(sx, sy) is Some {
        let button = wheel_button(sx, sy)->0;
        let down = InputMessage::MouseButton { button, pressed: true };
        let up = InputMessage::MouseButton { button, pressed: false };
        lemma_replay_one(b, down);
        lemma_replay_one(b, up);
        lemma_replay_joins(b, seq![down], seq![up]);
        assert(seq![down] + seq![up] =~= notch(button));
    }
}

/// The server is told of a button exactly if its state changed, and of its new state: one
/// is the left button, two the middle and three the right, and they come in this order.
pub proof fn law_changed_buttons_are_told(was: Buttons, is: Buttons, m: InputMessage)
    ensures
        changes(was, is).contains(m) <==> {
            ||| was.left != is.left && m == (InputMessage::MouseButton {
                button: 1,
                pressed: is.left,
            })
            ||| was.middle != is.middle && m == (InputMessage::MouseButton {
                button: 2,
                pressed: is.middle,
            })
            ||| was.right != is.right && m == (InputMessage::MouseButton {
                button: 3,
                pressed: is.right,
            })
        },
        changes(was, is).no_duplicates(),
        forall|i: int, j: int|
            0 <= i < j < changes(was, is).len() ==> (#[trigger] changes(was, is)[i])->button < (
            #[trigger] changes(was, is)[j])->button,
{
    let all = changes(was, is);
    let n1: int = if was.left != is.left {
        1
    } else {
        0
    };
    let n2: int = if was.middle != is.middle {
        1
    } else {
        0
    };
    if was.left != is.left {
        assert(all[0] == (InputMessage::MouseButton { button: 1, pressed: is.left }));
    }
    if was.middle != is.middle {
        assert(all[n1] == (InputMessage::MouseButton { button: 2, pressed: is.middle }));
    }
    if was.right != is.right {
        assert(all[n1 + n2] == (InputMessage::MouseButton { button: 3, pressed: is.right }));
    }
}

/// A turn of the wheel is one click: up is button 4 and down 5, whatever the horizontal
/// turn; left is 6 and right 7.
pub proof fn law_wheel_is_one_click(sx: int, sy: int)
    ensures
        ({
            let ms = wheel_messages(sx, sy);
            let click = |b: u8|
                ms.len() == 2 && ms[0] == (InputMessage::MouseButton { button: b, pressed: true })
                    && ms[1] == (InputMessage::MouseButton { button: b, pressed: false });
            &&& sy > 0 ==> click(4)
            &&& sy < 0 ==> click(5)
            &&& sy == 0 && sx < 0 ==> click(6)
            &&& sy == 0 && sx > 0 ==> click(7)
            &&& sy == 0 && sx == 0 ==> ms.len() == 0
        }),
{
}

} // verus!
