//! The server's side of the older protocol, the other way: a client's messages are taken
//! one after the other, up to the first that makes no sense.

use crate::input::{handle_input, FakeInput, Injection};
use std::collections::HashMap;
use vstd::prelude::*;

verus! {

/// Where the session stands.
#[derive(Clone, Copy, PartialEq, Eq, Structural, Debug)]
pub enum ListenAt {
    /// It waits for a message.
    Receiving,
    Over,
}

/// What is to be done about what was received.
#[derive(Clone, Copy, PartialEq, Eq, Structural, Debug)]
pub enum ListenAction {
    /// Inject the event, flush, and receive the next message.
    Inject(FakeInput),
    /// No key gives this keysym: report it, and receive the next message.
    NoKeycode(u32),
    /// The message makes no sense: report it and end. The session is over.
    Bad { kind: u8, len: usize },
    /// End with the failure that came in place of a message. The session is over.
    Fail,
}

/// The session of a client that sends its input.
#[derive(Clone, Copy, PartialEq, Eq, Structural, Debug)]
pub struct Listen {
    pub at: ListenAt,
}

/// What was received: a message, or nothing if that failed.
pub open spec fn received(r: Option<&[u8]>) -> Option<Seq<u8>> {
    match r {
        Some(m) => Some(m@),
        None => None,
    }
}

/// What is to be done about a message.
pub open spec fn about(m: Seq<u8>, keymap: Map<u32, u8>) -> ListenAction {
    match crate::input::injection(m, keymap) {
        Injection::Input(e) => ListenAction::Inject(e),
        Injection::NoKeycode(keysym) => ListenAction::NoKeycode(keysym),
        Injection::Bad { kind, len } => ListenAction::Bad { kind, len },
    }
}

impl Listen {
    /// Whether the session waits for this. A message has a kind.
    pub open spec fn takes(self, r: Option<Seq<u8>>) -> bool {
        self.at is Receiving && (r matches Some(m) ==> m.len() > 0)
    }

    /// The session after what was received, and what is to be done about that.
    pub open spec fn advance(
        self,
        r: Option<Seq<u8>>,
        keymap: Map<u32, u8>,
    ) -> (Listen, ListenAction) {
        let action = match r {
            Some(m) => about(m, keymap),
            None => ListenAction::Fail,
        };
        if action is Bad || action is Fail {
            (Listen { at: ListenAt::Over }, action)
        } else {
            (self, action)
        }
    }

    /// A session that waits for its first message.
    pub fn new() -> (r: Listen)
        ensures
            r.at is Receiving,
    {
        Listen { at: ListenAt::Receiving }
    }

    /// Takes a message, or that there is none, and says what is to be done.
    pub fn step(&mut self, r: Option<&[u8]>, keymap: &HashMap<u32, u8>) -> (a: ListenAction)
        requires
            old(self).takes(received(r)),
        ensures
            (*final(self), a) == old(self).advance(received(r), keymap@),
    {
        match r {
            Some(m) => match handle_input(m, keymap) {
                Injection::Input(e) => ListenAction::Inject(e),
                Injection::NoKeycode(keysym) => ListenAction::NoKeycode(keysym),
                Injection::Bad { kind, len } => {
                    self.at = ListenAt::Over;
                    ListenAction::Bad { kind, len }
                },
            },
            None => {
                self.at = ListenAt::Over;
                ListenAction::Fail
            },
        }
    }
}

// ------------------------------------------------------------ whole sessions

/// What a session has done: where it stands, what was injected, and how it ended.
pub struct Heard {
    pub listen: Listen,
    pub injected: Seq<FakeInput>,
    pub end: Option<ListenAction>,
}

/// What a session does about a row of messages, as far as it takes them.
pub open spec fn heard(rs: Seq<Option<Seq<u8>>>, keymap: Map<u32, u8>) -> Heard
    decreases rs.len(),
{
    if rs.len() == 0 {
        Heard {
            listen: Listen { at: ListenAt::Receiving },
            injected: Seq::empty(),
            end: None,
        }
    } else {
        let h = heard(rs.drop_last(), keymap);
        if !h.listen.takes(rs.last()) {
            h
        } else {
            let (listen, action) = h.listen.advance(rs.last(), keymap);
            Heard {
                listen,
                injected: match action {
                    ListenAction::Inject(e) => h.injected.push(e),
                    _ => h.injected,
                },
                end: if listen.at is Over {
                    Some(action)
                } else {
                    None
                },
            }
        }
    }
}

/// Whether kind and length of a message go together.
pub open spec fn makes_sense(m: Seq<u8>) -> bool {
    m.len() > 0 && ((m[0], m.len()) == (crate::wire::MSG_MOUSE_MOVE, 5nat) || (m[0], m.len()) == (
        crate::wire::MSG_MOUSE_BTN,
        3nat,
    ) || (m[0], m.len()) == (crate::wire::MSG_KEY, 6nat))
}

/// The event of a message that makes sense, out of its bytes: a place, a button, or a
/// keysym, which has none if no key gives it.
pub open spec fn events_of(m: Seq<u8>, keymap: Map<u32, u8>) -> Seq<FakeInput> {
    if m[0] == crate::wire::MSG_MOUSE_MOVE {
        seq![
            crate::input::motion_event(
                crate::wire::from_be16(m[1], m[2]),
                crate::wire::from_be16(m[3], m[4]),
            ),
        ]
    } else if m[0] == crate::wire::MSG_MOUSE_BTN {
        seq![crate::input::button_event(m[1], m[2] != 0)]
    } else {
        let keysym = crate::wire::from_be32(m[1], m[2], m[3], m[4]);
        if keymap.contains_key(keysym) {
            seq![crate::input::key_event(keymap[keysym], m[5] != 0)]
        } else {
            Seq::empty()
        }
    }
}

/// The events of a row of messages, in order.
pub open spec fn row_events(ms: Seq<Seq<u8>>, keymap: Map<u32, u8>) -> Seq<FakeInput>
    decreases ms.len(),
{
    if ms.len() == 0 {
        Seq::empty()
    } else {
        row_events(ms.drop_last(), keymap) + events_of(ms.last(), keymap)
    }
}

/// A row of messages as it is received.
pub open spec fn arrives(ms: Seq<Seq<u8>>) -> Seq<Option<Seq<u8>>> {
    ms.map_values(|m: Seq<u8>| Some(m))
}

/// Messages that make sense are injected one after the other, and the session goes on.
pub proof fn law_messages_are_injected_in_order(ms: Seq<Seq<u8>>, keymap: Map<u32, u8>)
    requires
        forall|i: int| 0 <= i < ms.len() ==> makes_sense(#[trigger] ms[i]),
    ensures
        heard(arrives(ms), keymap) == (Heard {
            listen: Listen { at: ListenAt::Receiving },
            injected: row_events(ms, keymap),
            end: None,
        }),
    decreases ms.len(),
{
    if ms.len() > 0 {
        law_messages_are_injected_in_order(ms.drop_last(), keymap);
        assert(arrives(ms).drop_last() =~= arrives(ms.drop_last()));
        assert(makes_sense(ms.last()));
        let before = row_events(ms.drop_last(), keymap);
        match about(ms.last(), keymap) {
            ListenAction::Inject(e) => {
                assert(before + events_of(ms.last(), keymap) =~= before.push(e));
            },
            _ => {
                assert(before + events_of(ms.last(), keymap) =~= before);
            },
        }
    }
}

/// Behind messages that make sense, one that makes none ends the session, and so does a
/// failure: whatever follows, nothing more is injected, and the end is told.
pub proof fn law_nothing_is_injected_after_the_end(
    ms: Seq<Seq<u8>>,
    last: Option<Seq<u8>>,
    more: Seq<Option<Seq<u8>>>,
    keymap: Map<u32, u8>,
)
    requires
        forall|i: int| 0 <= i < ms.len() ==> makes_sense(#[trigger] ms[i]),
        last matches Some(m) ==> m.len() > 0 && !makes_sense(m),
    ensures
        heard(arrives(ms).push(last) + more, keymap) == (Heard {
            listen: Listen { at: ListenAt::Over },
            injected: row_events(ms, keymap),
            end: Some(
                match last {
                    Some(m) => ListenAction::Bad { kind: m[0], len: m.len() as usize },
                    None => ListenAction::Fail,
                },
            ),
        }),
    decreases more.len(),
{
    let rs = arrives(ms).push(last) + more;
    if more.len() == 0 {
        law_messages_are_injected_in_order(ms, keymap);
        assert(rs.drop_last() =~= arrives(ms));
    } else {
        law_nothing_is_injected_after_the_end(ms, last, more.drop_last(), keymap);
        assert(rs.drop_last() =~= arrives(ms).push(last) + more.drop_last());
    }
}

/// A session that is over takes nothing more.
pub proof fn law_over_takes_nothing(l: Listen, r: Option<Seq<u8>>)
    requires
        l.at is Over,
    ensures
        !l.takes(r),
{
}

/// What each message does, by its first byte: 2 moves the pointer to the place in the next
/// four, 3 presses or releases the button in the next, and 4 the key that gives the keysym
/// in the next four; the high byte of a number comes first. A message that begins otherwise
/// or has another length is told by those two, and ends the session.
pub proof fn law_bytes_are_what_is_done(l: Listen, m: Seq<u8>, keymap: Map<u32, u8>)
    requires
        m.len() > 0,
        m.len() <= usize::MAX,
    ensures
        ({
            let (next, a) = l.advance(Some(m), keymap);
            if m[0] == 2 && m.len() == 5 {
                let (x, y) = (m[1] * 0x100 + m[2], m[3] * 0x100 + m[4]);
                &&& next == l
                &&& a is Inject
                &&& a->Inject_0.kind == 6
                &&& a->Inject_0.detail == 0
                &&& x < 0x8000 ==> a->Inject_0.x == x
                &&& y < 0x8000 ==> a->Inject_0.y == y
            } else if m[0] == 3 && m.len() == 3 {
                &&& next == l
                &&& a == ListenAction::Inject(
                    FakeInput {
                        kind: if m[2] != 0 {
                            4
                        } else {
                            5
                        },
                        detail: m[1],
                        x: 0,
                        y: 0,
                    },
                )
            } else if m[0] == 4 && m.len() == 6 {
                let keysym = (m[1] * 0x100_0000 + m[2] * 0x1_0000 + m[3] * 0x100 + m[4]) as u32;
                &&& next == l
                &&& a == if keymap.contains_key(keysym) {
                    ListenAction::Inject(
                        FakeInput {
                            kind: if m[5] != 0 {
                                2
                            } else {
                                3
                            },
                            detail: keymap[keysym],
                            x: 0,
                            y: 0,
                        },
                    )
                } else {
                    ListenAction::NoKeycode(keysym)
                }
            } else {
                &&& next.at is Over
                &&& a == (ListenAction::Bad { kind: m[0], len: m.len() as usize })
            }
        }),
        l.advance(None, keymap).0.at is Over,
        l.advance(None, keymap).1 == ListenAction::Fail,
{
    crate::wire::law_meaning_of_bytes(m);
}

} // verus!
