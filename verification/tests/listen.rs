use rdesk::input::FakeInput;
use rdesk::listen::{Listen, ListenAction, ListenAt};
use std::collections::HashMap;

fn ev(kind: u8, detail: u8, x: i16, y: i16) -> ListenAction {
    ListenAction::Inject(FakeInput { kind, detail, x, y })
}

#[test]
fn messages_are_taken_one_after_the_other() {
    let keymap = HashMap::from([(0x61, 38)]);
    let mut l = Listen::new();
    let row: [(&[u8], ListenAction); 6] = [
        (&[2, 0, 100, 0xff, 0xff], ev(6, 0, 100, -1)),
        (&[3, 1, 1], ev(4, 1, 0, 0)),
        (&[3, 1, 0], ev(5, 1, 0, 0)),
        (&[4, 0, 0, 0, 0x61, 7], ev(2, 38, 0, 0)),
        (&[4, 0, 0, 0, 0x61, 0], ev(3, 38, 0, 0)),
        (&[4, 0, 0, 0, 0x62, 1], ListenAction::NoKeycode(0x62)),
    ];
    for (m, want) in row {
        assert_eq!(l.step(Some(m), &keymap), want);
        assert_eq!(l.at, ListenAt::Receiving);
    }
    assert_eq!(l.step(None, &keymap), ListenAction::Fail);
    assert_eq!(l.at, ListenAt::Over);
}

#[test]
fn message_that_makes_no_sense_ends_the_session() {
    let bad: [&[u8]; 5] = [&[9], &[2, 0, 0, 0], &[3, 1, 1, 1], &[4, 0, 0, 0, 0x61], &[0, 1, 2, 3, 4]];
    for m in bad {
        let mut l = Listen::new();
        assert_eq!(l.step(Some(&[3, 1, 1]), &HashMap::new()), ev(4, 1, 0, 0));
        assert_eq!(
            l.step(Some(m), &HashMap::new()),
            ListenAction::Bad { kind: m[0], len: m.len() }
        );
        assert_eq!(l.at, ListenAt::Over);
    }
}
