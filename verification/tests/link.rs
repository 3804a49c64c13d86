use rdesk::link::{psk, ClientHandshake, Link, LinkError};
use rdesk::wire::{read_frame, FrameStep, MAX_PLAIN};

fn unframe(bytes: &[u8]) -> Vec<u8> {
    match read_frame(bytes) {
        FrameStep::Frame(ct) => ct,
        FrameStep::Need(_) => panic!("not a whole frame"),
    }
}

fn begin(pass: &str) -> (ClientHandshake, Vec<u8>) {
    match Link::client(pass) {
        Ok((end, first)) => (end, unframe(&first)),
        Err(e) => panic!("{}", e.message()),
    }
}

fn pair(pass: &str) -> (Link, Link) {
    let (end, first) = begin(pass);
    let (server, answer) = match Link::server(pass, &first) {
        Ok(r) => r,
        Err(e) => panic!("{}", e.message()),
    };
    let client = match end.finish(&unframe(&answer)) {
        Ok(l) => l,
        Err(e) => panic!("{}", e.message()),
    };
    (client, server)
}

fn sealed(link: &mut Link, plain: &[u8]) -> Vec<u8> {
    match link.send(plain) {
        Ok(bytes) => unframe(&bytes),
        Err(e) => panic!("{}", e.message()),
    }
}

#[test]
fn key_is_a_digest_of_the_passphrase() {
    assert_eq!(
        psk("secret"),
        [
            251, 81, 146, 64, 144, 251, 166, 191, 204, 190, 28, 23, 233, 110, 244, 108, 127, 184,
            108, 45, 50, 160, 160, 85, 44, 182, 244, 103, 94, 136, 98, 250,
        ]
    );
    assert_eq!(psk("\u{e6}\u{f8}\u{e5}")[..4], [0x4e, 0x17, 0xa4, 0x4f]);
}

#[test]
fn handshake_messages_have_their_size() {
    let (_, first) = begin("k");
    assert_eq!(first.len(), 48);
    match Link::server("k", &first) {
        Ok((_, answer)) => assert_eq!(unframe(&answer).len(), 48),
        Err(e) => panic!("{}", e.message()),
    }
}

#[test]
fn messages_pass_both_ways() {
    let (mut client, mut server) = pair("correct horse");
    let ct = sealed(&mut client, b"up");
    assert_eq!(ct.len(), 2 + 16);
    assert_ne!(ct[..2], *b"up");
    assert_eq!(server.recv(&ct), Ok(b"up".to_vec()));
    let ct = sealed(&mut server, b"down");
    assert_eq!(client.recv(&ct), Ok(b"down".to_vec()));
}

#[test]
fn messages_arrive_in_order() {
    let (mut client, mut server) = pair("k");
    let plains: Vec<Vec<u8>> = (0..20u8).map(|n| vec![n; n as usize * 7]).collect();
    let cts: Vec<Vec<u8>> = plains.iter().map(|p| sealed(&mut server, p)).collect();
    for (p, ct) in plains.iter().zip(&cts) {
        assert_eq!(client.recv(ct), Ok(p.clone()));
    }
}

#[test]
fn directions_do_not_interfere() {
    let (mut client, mut server) = pair("k");
    let up = sealed(&mut client, b"up");
    let down = sealed(&mut server, b"down");
    let more = sealed(&mut client, b"more");
    assert_eq!(client.recv(&down), Ok(b"down".to_vec()));
    assert_eq!(server.recv(&up), Ok(b"up".to_vec()));
    assert_eq!(server.recv(&more), Ok(b"more".to_vec()));
}

#[test]
fn messages_may_be_empty_or_full() {
    let (mut client, mut server) = pair("k");
    let ct = sealed(&mut client, &[]);
    assert_eq!(server.recv(&ct), Ok(vec![]));
    let full = vec![0x5a; MAX_PLAIN];
    let ct = sealed(&mut client, &full);
    assert_eq!(ct.len(), 65535);
    assert_eq!(server.recv(&ct), Ok(full));
}

#[test]
fn same_message_is_sealed_anew() {
    let (mut client, _) = pair("k");
    let a = sealed(&mut client, b"again");
    let b = sealed(&mut client, b"again");
    assert_ne!(a, b);
}

#[test]
fn server_refuses_another_passphrase() {
    let (_, first) = begin("right");
    match Link::server("wrong", &first) {
        Ok(_) => panic!("accepted"),
        Err(e) => {
            assert_eq!(e, LinkError::Handshake);
            assert_eq!(e.message(), "handshake failed: wrong key?");
        }
    }
}

#[test]
fn client_refuses_an_answer_that_is_not_its_own() {
    let (end, _) = begin("k");
    let (_, other) = begin("k");
    let answer = match Link::server("k", &other) {
        Ok((_, answer)) => unframe(&answer),
        Err(e) => panic!("{}", e.message()),
    };
    assert_eq!(end.finish(&answer).err(), Some(LinkError::Handshake));
}

#[test]
fn garbage_is_no_handshake() {
    assert_eq!(Link::server("k", &[]).err(), Some(LinkError::Handshake));
    assert_eq!(Link::server("k", &[0; 48]).err(), Some(LinkError::Handshake));
    assert_eq!(Link::server("k", &[0; 2000]).err(), Some(LinkError::Handshake));
}

#[test]
fn tampered_message_is_refused_and_the_next_one_opens() {
    let (mut client, mut server) = pair("k");
    let ct = sealed(&mut client, b"hello");
    let mut bad = ct.clone();
    bad[0] ^= 1;
    assert_eq!(server.recv(&bad), Err(LinkError::BadMac));
    assert_eq!(LinkError::BadMac.message(), "bad MAC");
    assert_eq!(server.recv(&ct[..15]), Err(LinkError::BadMac));
    assert_eq!(server.recv(&[]), Err(LinkError::BadMac));
    assert_eq!(server.recv(&ct), Ok(b"hello".to_vec()));
}

#[test]
fn replayed_message_is_refused() {
    let (mut client, mut server) = pair("k");
    let ct = sealed(&mut client, b"once");
    assert_eq!(server.recv(&ct), Ok(b"once".to_vec()));
    assert_eq!(server.recv(&ct), Err(LinkError::BadMac));
}

#[test]
fn exhausted_link_says_so() {
    assert_eq!(LinkError::Exhausted.message(), "state error: Exhausted");
}
