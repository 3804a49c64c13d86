//! Encrypted, authenticated message channel between client and server.
//!
//! A Noise handshake keyed by a shared passphrase sets the channel up; after it
//! every message is sealed and framed. Both ends hand out the bytes to send and
//! take the bytes that arrived: whoever owns the socket moves them.

use crate::noise::{
    build_initiator, build_responder, handshake_read, handshake_write, into_transport, sha256,
    transport_read, transport_write, PATTERN, PSK_SLOT,
};
use crate::wire::{write_frame, MAX_FRAME, MAX_PLAIN, TAG_LEN};
use vstd::prelude::*;
use vstd::slice::slice_subrange;
use vstd::string::*;

verus! {

/// Bytes set aside for a handshake message.
const HANDSHAKE_BUFFER: usize = 1024;

/// Longest handshake message that an end takes.
pub const MAX_HANDSHAKE: usize = 1024 + 48;

/// The shared key that a passphrase stands for.
pub open spec fn psk_of(pass: Seq<char>) -> Seq<u8> {
    crate::noise::sha256_digest(
        vstd::utf8::encode_utf8("rdesk-psk-v1\0"@) + vstd::utf8::encode_utf8(pass),
    )
}

/// Derives the shared key from the passphrase.
pub fn psk(pass: &str) -> (r: [u8; 32])
    ensures
        r@ == psk_of(pass@),
{
    let mut data: Vec<u8> = "rdesk-psk-v1\0".as_bytes_vec();
    data.extend_from_slice(pass.as_bytes());
    proof {
        assert(data@ =~= vstd::utf8::encode_utf8("rdesk-psk-v1\0"@) + vstd::utf8::encode_utf8(pass@));
    }
    sha256(data.as_slice())
}

/// Why a link could not be set up or used.
#[derive(Clone, Copy, PartialEq, Eq, Structural, Debug)]
pub enum LinkError {
    /// The other end's handshake message was not accepted.
    Handshake,
    /// A message did not open under the session's key.
    BadMac,
    /// The session has no message number left.
    Exhausted,
}

impl LinkError {
    /// What to tell the user.
    pub open spec fn text(self) -> Seq<char> {
        match self {
            LinkError::Handshake => "handshake failed: wrong key?"@,
            LinkError::BadMac => "bad MAC"@,
            LinkError::Exhausted => "state error: Exhausted"@,
        }
    }

    /// The text for the user.
    pub fn message(self) -> (r: String)
        ensures
            r@ == self.text(),
    {
        match self {
            LinkError::Handshake => "handshake failed: wrong key?".to_owned(),
            LinkError::BadMac => "bad MAC".to_owned(),
            LinkError::Exhausted => "state error: Exhausted".to_owned(),
        }
    }
}

fn zeroes(n: usize) -> (r: Vec<u8>)
    ensures
        r@.len() == n,
{
    let mut v: Vec<u8> = Vec::new();
    v.resize(n, 0);
    v
}

/// A client that has written its handshake message and waits for the answer.
pub struct ClientHandshake {
    hs: snow::HandshakeState,
}

impl ClientHandshake {
    /// The client has spoken and nobody else has.
    #[verifier::type_invariant]
    spec fn waiting(&self) -> bool {
        &&& crate::noise::handshake(self.hs).initiator
        &&& crate::noise::handshake(self.hs).transcript.len() == 1
    }

    /// What the client's end of the handshake holds.
    pub closed spec fn end(&self) -> crate::noise::Handshake {
        crate::noise::handshake(self.hs)
    }

    /// Whether this is a handshake begun with `pass` and the message `first`.
    pub open spec fn begun(&self, pass: Seq<char>, first: Seq<u8>) -> bool {
        &&& self.end().psk == psk_of(pass)
        &&& self.end().transcript == seq![first]
        &&& first.len() == 48
        &&& first == crate::noise::handshake_message(
            psk_of(pass),
            self.end().secret,
            Seq::empty(),
            Seq::empty(),
        )
    }

    /// Whether this is a handshake begun with `pass` whose first message is in the
    /// frame `sent`.
    pub open spec fn begun_with(&self, pass: Seq<char>, sent: Seq<u8>) -> bool {
        exists|first: Seq<u8>| #[trigger]
            self.begun(pass, first) && sent == crate::wire::frame(first)
    }

    /// Whether the client takes `answer` from the server.
    pub open spec fn accepts(&self, answer: Seq<u8>) -> bool {
        &&& answer.len() <= MAX_HANDSHAKE
        &&& crate::noise::handshake_accepts(
            self.end().psk,
            self.end().secret,
            self.end().transcript,
            answer,
        )
    }

    /// Whether a server with the client's passphrase wrote `answer` to the client's
    /// message.
    pub open spec fn answered_by_peer(&self, answer: Seq<u8>) -> bool {
        exists|secret: Seq<u8>|
            answer == #[trigger] crate::noise::handshake_message(
                self.end().psk,
                secret,
                self.end().transcript,
                Seq::empty(),
            )
    }

    /// The keys that the client computes from `answer`.
    pub open spec fn keys_after(&self, answer: Seq<u8>) -> (Seq<u8>, Seq<u8>) {
        crate::noise::session_keys(
            self.end().psk,
            self.end().secret,
            self.end().transcript.push(answer),
            true,
        )
    }

    /// Whether `link` is what this handshake comes to with `answer`.
    pub open spec fn finished(&self, answer: Seq<u8>, link: Link) -> bool {
        link.channel() == crate::noise::fresh_channel(true, self.keys_after(answer))
    }

    /// Takes the server's answer, the ciphertext of the first frame from it. It
    /// fails exactly when the answer is not accepted; what a server with the same
    /// passphrase answers to this client's message is accepted.
    pub fn finish(self, answer: &[u8]) -> (r: Result<Link, LinkError>)
        ensures
            r is Ok <==> self.accepts(answer@),
            answer@.len() <= MAX_HANDSHAKE && self.answered_by_peer(answer@) ==> r is Ok,
            r matches Ok(link) ==> self.finished(answer@, link),
            r matches Err(e) ==> e == LinkError::Handshake,
    {
        proof {
            use_type_invariant(&self);
        }
        let mut hs = self.hs;
        let mut buf: Vec<u8> = zeroes(HANDSHAKE_BUFFER);
        match handshake_read(&mut hs, answer, &mut buf) {
            Ok(_) => match into_transport(hs) {
                Ok(ts) => Ok(Link { ts }),
                Err(_) => Err(LinkError::Handshake),
            },
            Err(_) => Err(LinkError::Handshake),
        }
    }
}

/// Encrypted, authenticated message channel.
pub struct Link {
    ts: snow::TransportState,
}

impl Link {
    /// The keys and message numbers of this end.
    pub closed spec fn channel(&self) -> crate::noise::Channel {
        crate::noise::transport(self.ts)
    }

    /// Begins the handshake from the client's side: the client's end, and the frame
    /// to send to the server.
    pub fn client(pass: &str) -> (r: Result<(ClientHandshake, Vec<u8>), LinkError>)
        ensures
            r matches Ok((end, sent)) && end.begun_with(pass@, sent@),
    {
        let key: [u8; 32] = psk(pass);
        let mut hs = match build_initiator(PATTERN, PSK_SLOT, key.as_slice()) {
            Ok(hs) => hs,
            Err(_) => return Err(LinkError::Handshake),
        };
        let mut buf: Vec<u8> = zeroes(HANDSHAKE_BUFFER);
        let nothing: Vec<u8> = Vec::new();
        let n: usize = match handshake_write(&mut hs, nothing.as_slice(), &mut buf) {
            Ok(n) => n,
            Err(_) => return Err(LinkError::Handshake),
        };
        let sent: Vec<u8> = write_frame(slice_subrange(buf.as_slice(), 0, n));
        let end = ClientHandshake { hs };
        proof {
            let first = buf@.take(n as int);
            assert(buf@.subrange(0, n as int) =~= first);
            assert(end.end().transcript =~= seq![first]);
            assert(end.begun(pass@, first));
        }
        Ok((end, sent))
    }

    /// Whether a server with `pass` takes the message `first` from a client.
    pub open spec fn admits(pass: Seq<char>, first: Seq<u8>) -> bool {
        &&& first.len() <= MAX_HANDSHAKE
        &&& crate::noise::handshake_accepts(psk_of(pass), Seq::empty(), Seq::empty(), first)
    }

    /// Whether a client with `pass` wrote `first` to begin a handshake.
    pub open spec fn begun_by_peer(pass: Seq<char>, first: Seq<u8>) -> bool {
        exists|secret: Seq<u8>|
            first == #[trigger] crate::noise::handshake_message(
                psk_of(pass),
                secret,
                Seq::empty(),
                Seq::empty(),
            )
    }

    /// Whether `link` is a server's end after it took `first` and wrote `answer`: the
    /// answer is its own, and its keys are those that any client which wrote `first`
    /// with the same passphrase computes too.
    pub open spec fn answered(
        pass: Seq<char>,
        first: Seq<u8>,
        answer: Seq<u8>,
        link: Link,
    ) -> bool {
        &&& answer.len() == 48
        &&& exists|secret: Seq<u8>|
            {
                &&& answer == #[trigger] crate::noise::handshake_message(
                    psk_of(pass),
                    secret,
                    seq![first],
                    Seq::empty(),
                )
                &&& link.channel() == crate::noise::fresh_channel(
                    false,
                    crate::noise::session_keys(psk_of(pass), secret, seq![first, answer], false),
                )
            }
        &&& forall|other: Seq<u8>|
            first == #[trigger] crate::noise::handshake_message(
                psk_of(pass),
                other,
                Seq::empty(),
                Seq::empty(),
            ) ==> link.channel() == crate::noise::fresh_channel(
                false,
                crate::noise::session_keys(psk_of(pass), other, seq![first, answer], true),
            )
    }

    /// Whether `link` is a server's end after it took `first`, with its answer in the
    /// frame `sent`.
    pub open spec fn answered_with(
        pass: Seq<char>,
        first: Seq<u8>,
        sent: Seq<u8>,
        link: Link,
    ) -> bool {
        exists|answer: Seq<u8>| #[trigger]
            Self::answered(pass, first, answer, link) && sent == crate::wire::frame(answer)
    }

    /// Takes a client's handshake message, the ciphertext of the first frame from it:
    /// the server's end, and the frame to send in answer. It fails exactly when the
    /// message is not accepted; what a client with the same passphrase begins with is
    /// accepted.
    pub fn server(pass: &str, first: &[u8]) -> (r: Result<(Link, Vec<u8>), LinkError>)
        ensures
            r is Ok <==> Self::admits(pass@, first@),
            first@.len() <= MAX_HANDSHAKE && Self::begun_by_peer(pass@, first@) ==> r is Ok,
            r matches Ok((link, sent)) ==> Self::answered_with(pass@, first@, sent@, link),
            r matches Err(e) ==> e == LinkError::Handshake,
    {
        let key: [u8; 32] = psk(pass);
        let mut hs = match build_responder(PATTERN, PSK_SLOT, key.as_slice()) {
            Ok(hs) => hs,
            Err(_) => return Err(LinkError::Handshake),
        };
        let mut buf: Vec<u8> = zeroes(HANDSHAKE_BUFFER);
        match handshake_read(&mut hs, first, &mut buf) {
            Ok(_) => {},
            Err(_) => return Err(LinkError::Handshake),
        }
        let nothing: Vec<u8> = Vec::new();
        let n: usize = match handshake_write(&mut hs, nothing.as_slice(), &mut buf) {
            Ok(n) => n,
            Err(_) => return Err(LinkError::Handshake),
        };
        let sent: Vec<u8> = write_frame(slice_subrange(buf.as_slice(), 0, n));
        let ghost end = crate::noise::handshake(hs);
        let ts = match into_transport(hs) {
            Ok(ts) => ts,
            Err(_) => return Err(LinkError::Handshake),
        };
        let link = Link { ts };
        proof {
            let answer = buf@.take(n as int);
            assert(buf@.subrange(0, n as int) =~= answer);
            assert(end.transcript =~= seq![first@, answer]);
            assert(end.transcript.take(end.read_index()) =~= Seq::empty());
            assert(end.transcript[end.read_index()] == first@);
            assert(seq![first@] =~= Seq::<Seq<u8>>::empty().push(first@));
            assert(Self::answered(pass@, first@, answer, link));
        }
        Ok((link, sent))
    }

    /// Seals `plain` and puts it into the frame to send. It fails only when the
    /// message numbers are used up.
    pub fn send(&mut self, plain: &[u8]) -> (r: Result<Vec<u8>, LinkError>)
        requires
            plain@.len() <= MAX_PLAIN,
        ensures
            match r {
                Ok(sent) => exists|ct: Seq<u8>| #[trigger]
                    old(self).channel().seals(plain@, ct, final(self).channel()) && sent@
                        == crate::wire::frame(ct),
                Err(e) => e == LinkError::Exhausted && old(self).channel().send_nonce == u64::MAX
                    && final(self).channel() == old(self).channel(),
            },
    {
        let mut out: Vec<u8> = zeroes(plain.len() + TAG_LEN);
        match transport_write(&mut self.ts, plain, &mut out) {
            Ok(n) => {
                proof {
                    let ct = out@.take(n as int);
                    assert(out@.subrange(0, n as int) =~= ct);
                    assert(old(self).channel().seals(plain@, ct, self.channel()));
                }
                Ok(write_frame(slice_subrange(out.as_slice(), 0, n)))
            },
            Err(_) => Err(LinkError::Exhausted),
        }
    }

    /// Opens the ciphertext of a frame.
    pub fn recv(&mut self, ct: &[u8]) -> (r: Result<Vec<u8>, LinkError>)
        ensures
            match r {
                Ok(plain) => old(self).channel().opens(
                    ct@,
                    Some(plain@),
                    final(self).channel(),
                ),
                Err(e) => e == LinkError::BadMac && old(self).channel().opens(
                    ct@,
                    None,
                    final(self).channel(),
                ),
            },
    {
        let mut plain: Vec<u8> = zeroes(ct.len());
        match transport_read(&mut self.ts, ct, &mut plain) {
            Ok(n) => {
                plain.truncate(n);
                Ok(plain)
            },
            Err(_) => Err(LinkError::BadMac),
        }
    }
}

impl crate::noise::Channel {
    /// Whether sealing `plain` on this channel gives `ct` and leaves `after`: a
    /// ciphertext of one tag more than the plaintext, which belongs to no other
    /// plaintext, and the next message number.
    pub open spec fn seals(self, plain: Seq<u8>, ct: Seq<u8>, after: Self) -> bool {
        &&& self.send_nonce < u64::MAX
        &&& ct == crate::noise::seal(self.send_key, self.send_nonce, plain)
        &&& ct.len() == plain.len() + TAG_LEN
        &&& forall|other: Seq<u8>|
            #[trigger] crate::noise::seal(self.send_key, self.send_nonce, other) == ct ==> other
                == plain
        &&& after == (crate::noise::Channel {
            send_nonce: (self.send_nonce + 1) as u64,
            ..self
        })
    }

    /// Whether opening `ct` on this channel gives `plain`, or fails, and leaves
    /// `after`. What opens is the ciphertext of what comes out, and only then is the
    /// message number used up.
    pub open spec fn opens(self, ct: Seq<u8>, plain: Option<Seq<u8>>, after: Self) -> bool {
        match plain {
            Some(p) => {
                &&& self.recv_nonce < u64::MAX
                &&& ct == crate::noise::seal(self.recv_key, self.recv_nonce, p)
                &&& ct.len() == p.len() + TAG_LEN
                &&& ct.len() <= MAX_FRAME
                &&& after == (crate::noise::Channel {
                    recv_nonce: (self.recv_nonce + 1) as u64,
                    ..self
                })
            },
            None => {
                &&& after == self
                &&& (self.recv_nonce == u64::MAX || ct.len() > MAX_FRAME || forall|p: Seq<u8>|
                    ct != #[trigger] crate::noise::seal(self.recv_key, self.recv_nonce, p))
            },
        }
    }

    /// Whether what `self` seals next is what `other` opens next.
    pub open spec fn feeds(self, other: Self) -> bool {
        self.send_key == other.recv_key && self.send_nonce == other.recv_nonce
    }
}

/// What one end sends the other end reads back, and the two stay in step.
pub proof fn law_recv_gives_back_send(
    a: crate::noise::Channel,
    b: crate::noise::Channel,
    plain: Seq<u8>,
    ct: Seq<u8>,
    a_after: crate::noise::Channel,
    got: Option<Seq<u8>>,
    b_after: crate::noise::Channel,
)
    requires
        a.feeds(b),
        plain.len() <= MAX_PLAIN,
        a.seals(plain, ct, a_after),
        b.opens(ct, got, b_after),
    ensures
        got == Some(plain),
        a_after.feeds(b_after),
{
}

/// Whether sealing `plains` one after another gives `cts`, with the channel in the states
/// `states`.
pub open spec fn seals_all(
    states: Seq<crate::noise::Channel>,
    plains: Seq<Seq<u8>>,
    cts: Seq<Seq<u8>>,
) -> bool {
    &&& states.len() == plains.len() + 1
    &&& cts.len() == plains.len()
    &&& forall|i: int|
        0 <= i < plains.len() ==> #[trigger] states[i].seals(plains[i], cts[i], states[i + 1])
}

/// Whether opening `cts` one after another gives `got`, with the channel in the states
/// `states`.
pub open spec fn opens_all(
    states: Seq<crate::noise::Channel>,
    cts: Seq<Seq<u8>>,
    got: Seq<Option<Seq<u8>>>,
) -> bool {
    &&& states.len() == cts.len() + 1
    &&& got.len() == cts.len()
    &&& forall|i: int|
        0 <= i < cts.len() ==> #[trigger] states[i].opens(cts[i], got[i], states[i + 1])
}

/// Everything that one end sends the other end reads back, in order and whole, and the
/// two stay in step.
pub proof fn law_messages_arrive_in_order(
    a: Seq<crate::noise::Channel>,
    b: Seq<crate::noise::Channel>,
    plains: Seq<Seq<u8>>,
    cts: Seq<Seq<u8>>,
    got: Seq<Option<Seq<u8>>>,
)
    requires
        seals_all(a, plains, cts),
        opens_all(b, cts, got),
        a[0].feeds(b[0]),
        forall|i: int| 0 <= i < plains.len() ==> (#[trigger] plains[i]).len() <= MAX_PLAIN,
    ensures
        got.len() == plains.len(),
        forall|i: int| 0 <= i < plains.len() ==> #[trigger] got[i] == Some(plains[i]),
        a.last().feeds(b.last()),
{
    assert forall|i: int| 0 <= i < plains.len() implies #[trigger] got[i] == Some(
        plains[i],
    ) by {
        lemma_in_step(a, b, plains, cts, got, i);
        law_recv_gives_back_send(a[i], b[i], plains[i], cts[i], a[i + 1], got[i], b[i + 1]);
    }
    lemma_in_step(a, b, plains, cts, got, plains.len() as int);
}

/// The ends are in step before message `n`.
proof fn lemma_in_step(
    a: Seq<crate::noise::Channel>,
    b: Seq<crate::noise::Channel>,
    plains: Seq<Seq<u8>>,
    cts: Seq<Seq<u8>>,
    got: Seq<Option<Seq<u8>>>,
    n: int,
)
    requires
        seals_all(a, plains, cts),
        opens_all(b, cts, got),
        a[0].feeds(b[0]),
        forall|i: int| 0 <= i < plains.len() ==> (#[trigger] plains[i]).len() <= MAX_PLAIN,
        0 <= n <= plains.len(),
    ensures
        a[n].feeds(b[n]),
        n < plains.len() ==> a[n].seals(plains[n], cts[n], a[n + 1]),
        n < plains.len() ==> b[n].opens(cts[n], got[n], b[n + 1]),
    decreases n,
{
    if n > 0 {
        let m = n - 1;
        lemma_in_step(a, b, plains, cts, got, m);
        law_recv_gives_back_send(a[m], b[m], plains[m], cts[m], a[n], got[m], b[n]);
    }
}

/// The two directions do not touch each other: sending and then receiving comes to the
/// same as receiving and then sending, so one thread may send while another receives.
pub proof fn law_directions_do_not_interfere(
    a: crate::noise::Channel,
    plain: Seq<u8>,
    ct: Seq<u8>,
    sent: crate::noise::Channel,
    incoming: Seq<u8>,
    got: Option<Seq<u8>>,
    after: crate::noise::Channel,
)
    requires
        a.seals(plain, ct, sent),
        sent.opens(incoming, got, after),
    ensures
        ({
            let received = crate::noise::Channel { recv_nonce: after.recv_nonce, ..a };
            a.opens(incoming, got, received) && received.seals(plain, ct, after)
        }),
{
}

/// A frame that does not open leaves the link as it was, so the message that the
/// other end did send still opens afterwards.
pub proof fn law_bad_mac_keeps_step(
    a: crate::noise::Channel,
    b: crate::noise::Channel,
    ct: Seq<u8>,
    b_after: crate::noise::Channel,
)
    requires
        a.feeds(b),
        b.opens(ct, None, b_after),
    ensures
        a.feeds(b_after),
{
}

/// Two ends with one passphrase whose handshake messages reach each other hold
/// links that feed each other, both ways.
pub proof fn law_handshake_links_both_ends(
    pass: Seq<char>,
    client: ClientHandshake,
    first: Seq<u8>,
    answer: Seq<u8>,
    client_link: Link,
    server_link: Link,
)
    requires
        client.begun(pass, first),
        Link::answered(pass, first, answer, server_link),
        client.finished(answer, client_link),
    ensures
        Link::begun_by_peer(pass, first),
        client.answered_by_peer(answer),
        client_link.channel().feeds(server_link.channel()),
        server_link.channel().feeds(client_link.channel()),
{
    assert(client.end().transcript.push(answer) =~= seq![first, answer]);
}

/// The shared key is the digest of the letters "rdesk-psk-v1", a zero byte, and the
/// passphrase, in this order.
pub proof fn law_key_is_of_the_passphrase(pass: Seq<char>)
    ensures
        psk_of(pass) == crate::noise::sha256_digest(
            seq![
                0x72u8,
                0x64u8,
                0x65u8,
                0x73u8,
                0x6bu8,
                0x2du8,
                0x70u8,
                0x73u8,
                0x6bu8,
                0x2du8,
                0x76u8,
                0x31u8,
                0u8,
            ] + vstd::utf8::encode_utf8(pass),
        ),
{
    reveal_strlit("rdesk-psk-v1\0");
    let chars = "rdesk-psk-v1\0"@;
    assert(vstd::utf8::is_ascii_chars(chars));
    vstd::utf8::is_ascii_chars_encode_utf8(chars);
    assert(vstd::utf8::encode_utf8(chars) =~= seq![
        0x72u8,
        0x64u8,
        0x65u8,
        0x73u8,
        0x6bu8,
        0x2du8,
        0x70u8,
        0x73u8,
        0x6bu8,
        0x2du8,
        0x76u8,
        0x31u8,
        0u8,
    ]);
}

/// A sealed message is sixteen bytes longer than what is in it, one that opens sixteen bytes
/// longer than what comes out, and each uses up one number of its own direction.
pub proof fn law_messages_use_up_one_number(
    a: crate::noise::Channel,
    plain: Seq<u8>,
    ct: Seq<u8>,
    after: crate::noise::Channel,
)
    ensures
        a.seals(plain, ct, after) ==> ct.len() == plain.len() + 16 && after.send_nonce
            == a.send_nonce + 1 && after.recv_nonce == a.recv_nonce && after.send_key == a.send_key
            && after.recv_key == a.recv_key,
        a.opens(ct, Some(plain), after) ==> ct.len() == plain.len() + 16 && after.recv_nonce
            == a.recv_nonce + 1 && after.send_nonce == a.send_nonce && after.send_key == a.send_key
            && after.recv_key == a.recv_key,
        a.opens(ct, None, after) ==> after == a,
{
}

/// What the user is told.
pub proof fn law_errors_are_told(e: LinkError)
    ensures
        e is Handshake ==> e.text() == "handshake failed: wrong key?"@,
        e is BadMac ==> e.text() == "bad MAC"@,
        e is Exhausted ==> e.text() == "state error: Exhausted"@,
{
}

} // verus!
