use rdesk::link::Link;
use rdesk::serve::{Serve, ServeAction, ServeEvent};
use rdesk::wire::{parse_hello, parse_video, read_frame, FrameStep};

fn body(bytes: &[u8]) -> Vec<u8> {
    match read_frame(bytes) {
        FrameStep::Frame(ct) => ct,
        FrameStep::Need(_) => panic!("not a whole frame"),
    }
}

fn linked() -> (Link, Link) {
    let (end, first) = match Link::client("k") {
        Ok(r) => r,
        Err(e) => panic!("{}", e.message()),
    };
    let (server, answer) = match Link::server("k", &body(&first)) {
        Ok(r) => r,
        Err(e) => panic!("{}", e.message()),
    };
    match end.finish(&body(&answer)) {
        Ok(client) => (client, server),
        Err(e) => panic!("{}", e.message()),
    }
}

fn read(link: &mut Link, a: ServeAction) -> Vec<u8> {
    match a {
        ServeAction::Write(bytes) => match link.recv(&body(&bytes)) {
            Ok(plain) => plain,
            Err(e) => panic!("{}", e.message()),
        },
        _ => panic!("nothing is sent"),
    }
}

#[test]
fn session_greets_and_relays() {
    let (mut client, mut server) = linked();
    let (mut s, a) = Serve::greet(&mut server, 800, 600);
    assert_eq!(parse_hello(&read(&mut client, a)), Some((800, 600)));
    assert!(matches!(s.step(&mut server, ServeEvent::Wrote(true)), ServeAction::Start));
    assert!(matches!(s.step(&mut server, ServeEvent::Started), ServeAction::CheckStop));
    for chunk in [vec![1, 2, 3], vec![4]] {
        assert!(matches!(
            s.step(&mut server, ServeEvent::Stop(false)),
            ServeAction::ReadEncoder { max: 32768 }
        ));
        let a = s.step(&mut server, ServeEvent::Encoded(Some(chunk.clone())));
        assert_eq!(parse_video(&read(&mut client, a)), Some(chunk));
        assert!(matches!(s.step(&mut server, ServeEvent::Wrote(true)), ServeAction::CheckStop));
    }
    assert!(matches!(s.step(&mut server, ServeEvent::Stop(true)), ServeAction::TearDown));
}

#[test]
fn session_leaves_when_the_greeting_fails() {
    let (_, mut server) = linked();
    let (mut s, _) = Serve::greet(&mut server, 1, 1);
    assert!(matches!(s.step(&mut server, ServeEvent::Wrote(false)), ServeAction::Leave));
}

#[test]
fn session_is_torn_down_when_the_encoder_or_the_client_is_gone() {
    for encoded in [None, Some(vec![])] {
        let (_, mut server) = linked();
        let (mut s, _) = Serve::greet(&mut server, 1, 1);
        s.step(&mut server, ServeEvent::Wrote(true));
        s.step(&mut server, ServeEvent::Started);
        s.step(&mut server, ServeEvent::Stop(false));
        assert!(matches!(
            s.step(&mut server, ServeEvent::Encoded(encoded)),
            ServeAction::TearDown
        ));
    }
    let (_, mut server) = linked();
    let (mut s, _) = Serve::greet(&mut server, 1, 1);
    s.step(&mut server, ServeEvent::Wrote(true));
    s.step(&mut server, ServeEvent::Started);
    s.step(&mut server, ServeEvent::Stop(false));
    s.step(&mut server, ServeEvent::Encoded(Some(vec![1])));
    assert!(matches!(s.step(&mut server, ServeEvent::Wrote(false)), ServeAction::TearDown));
}
