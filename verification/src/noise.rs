//! The outside cryptography: the `snow` Noise implementation and SHA-256.
//!
//! Each item here calls one outside function (or, for a handshake state, one
//! builder chain) and states what its source shows, for the one protocol that
//! this library speaks. Nothing is claimed about secrecy.

use vstd::prelude::*;

verus! {

/// Name of the protocol: no static keys, a shared key mixed in first.
pub const PATTERN: &'static str = "Noise_NNpsk0_25519_ChaChaPoly_BLAKE2s";

/// Slot of the shared key in `PATTERN`.
pub const PSK_SLOT: u8 = 0;

/// Bytes of a handshake message around its payload: a public key and a tag.
pub const HANDSHAKE_OVERHEAD: usize = 48;

// ------------------------------------------------------------ SHA-256

/// The SHA-256 digest of `data`.
pub uninterp spec fn sha256_digest(data: Seq<u8>) -> Seq<u8>;

/// `sha2::Sha256::digest`: the digest of the bytes, which depends on nothing but
/// them.
#[verifier::external_body]
pub(crate) fn sha256(data: &[u8]) -> (r: [u8; 32])
    ensures
        r@ == sha256_digest(data@),
{
    <sha2::Sha256 as sha2::Digest>::digest(data).into()
}

// ------------------------------------------------------------ handshake

/// `snow::HandshakeState`: one end of a handshake that is under way.
#[verifier::external_type_specification]
#[verifier::external_body]
pub struct ExHandshakeState(snow::HandshakeState);

/// `snow::TransportState`: one end of an established session.
#[verifier::external_type_specification]
#[verifier::external_body]
pub struct ExTransportState(snow::TransportState);

/// `snow::Error`: why a call failed, which nothing here looks into.
#[verifier::external_type_specification]
#[verifier::external_body]
pub struct ExSnowError(snow::Error);

/// One end of a handshake.
pub struct Handshake {
    /// The shared key.
    pub psk: Seq<u8>,
    /// Whether this end speaks first.
    pub initiator: bool,
    /// The ephemeral private key that this end drew for the message it wrote; empty
    /// before that.
    pub secret: Seq<u8>,
    /// The messages that went over the wire so far, both ways.
    pub transcript: Seq<Seq<u8>>,
}

impl Handshake {
    /// Whether the next message is one that this end writes: the first is the
    /// initiator's, the second the responder's.
    pub open spec fn writes_next(self) -> bool {
        if self.initiator {
            self.transcript.len() == 0
        } else {
            self.transcript.len() == 1
        }
    }

    /// Which message of a whole handshake this end reads.
    pub open spec fn read_index(self) -> int {
        if self.initiator {
            1
        } else {
            0
        }
    }

    /// Whether the next message is one that this end reads.
    pub open spec fn reads_next(self) -> bool {
        if self.initiator {
            self.transcript.len() == 1
        } else {
            self.transcript.len() == 0
        }
    }
}

/// What a `snow::HandshakeState` holds.
pub uninterp spec fn handshake(hs: snow::HandshakeState) -> Handshake;

/// The handshake message that an end with this shared key and ephemeral private
/// key writes after `transcript`.
pub uninterp spec fn handshake_message(
    psk: Seq<u8>,
    secret: Seq<u8>,
    transcript: Seq<Seq<u8>>,
    payload: Seq<u8>,
) -> Seq<u8>;

/// Whether an end with this shared key and ephemeral private key takes `message`
/// as the one that follows `transcript`.
pub uninterp spec fn handshake_accepts(
    psk: Seq<u8>,
    secret: Seq<u8>,
    transcript: Seq<Seq<u8>>,
    message: Seq<u8>,
) -> bool;

/// The two keys that an end computes once both messages have passed: the one for
/// what the initiator sends, then the one for what the responder sends.
pub uninterp spec fn session_keys(
    psk: Seq<u8>,
    secret: Seq<u8>,
    transcript: Seq<Seq<u8>>,
    initiator: bool,
) -> (Seq<u8>, Seq<u8>);

/// `snow::Builder::build_initiator`, after `Builder::new` and `Builder::psk`: for
/// this protocol and a key of thirty-two bytes it cannot fail, and the state that
/// comes back has seen no message.
#[verifier::external_body]
pub(crate) fn build_initiator(pattern: &str, slot: u8, psk: &[u8]) -> (r: Result<
    snow::HandshakeState,
    snow::Error,
>)
    requires
        pattern@ == PATTERN@,
        slot == PSK_SLOT,
        psk@.len() == 32,
    ensures
        r is Ok,
        handshake(r->Ok_0).psk == psk@,
        handshake(r->Ok_0).initiator,
        handshake(r->Ok_0).secret == Seq::<u8>::empty(),
        handshake(r->Ok_0).transcript == Seq::<Seq<u8>>::empty(),
{
    snow::Builder::new(pattern.parse().unwrap()).psk(slot, psk).build_initiator()
}

/// `snow::Builder::build_responder`: as `build_initiator`, for the other end.
#[verifier::external_body]
pub(crate) fn build_responder(pattern: &str, slot: u8, psk: &[u8]) -> (r: Result<
    snow::HandshakeState,
    snow::Error,
>)
    requires
        pattern@ == PATTERN@,
        slot == PSK_SLOT,
        psk@.len() == 32,
    ensures
        r is Ok,
        handshake(r->Ok_0).psk == psk@,
        !handshake(r->Ok_0).initiator,
        handshake(r->Ok_0).secret == Seq::<u8>::empty(),
        handshake(r->Ok_0).transcript == Seq::<Seq<u8>>::empty(),
{
    snow::Builder::new(pattern.parse().unwrap()).psk(slot, psk).build_responder()
}

/// `snow::HandshakeState::write_message`: draws a fresh ephemeral key and writes
/// the message for it to the front of `out`. It succeeds exactly when it is this
/// end's turn and the message fits both `out` and the protocol. Which key is drawn
/// rests on chance and is left open.
#[verifier::external_body]
pub(crate) fn handshake_write(
    hs: &mut snow::HandshakeState,
    payload: &[u8],
    out: &mut Vec<u8>,
) -> (r: Result<usize, snow::Error>)
    ensures
        final(out)@.len() == old(out)@.len(),
        r is Ok <==> (handshake(*old(hs)).writes_next() && payload@.len() + HANDSHAKE_OVERHEAD
            <= old(out)@.len() && payload@.len() + HANDSHAKE_OVERHEAD <= 65535),
        r matches Ok(n) ==> {
            let before = handshake(*old(hs));
            let after = handshake(*final(hs));
            let message = final(out)@.take(n as int);
            &&& n == payload@.len() + HANDSHAKE_OVERHEAD
            &&& after.psk == before.psk
            &&& after.initiator == before.initiator
            &&& after.transcript == before.transcript.push(message)
            &&& message == handshake_message(
                before.psk,
                after.secret,
                before.transcript,
                payload@,
            )
        },
{
    hs.write_message(payload, out)
}

/// `snow::HandshakeState::read_message`: takes the other end's message and writes
/// its payload to the front of `buf`. It succeeds exactly when it is the other
/// end's turn, the message fits, and it is accepted; a message that an end with
/// the same shared key wrote after the same messages is accepted. That a message
/// written under another shared key is refused is left unsaid: it holds only as far
/// as the cryptography does.
#[verifier::external_body]
pub(crate) fn handshake_read(
    hs: &mut snow::HandshakeState,
    message: &[u8],
    buf: &mut Vec<u8>,
) -> (r: Result<usize, snow::Error>)
    ensures
        final(buf)@.len() == old(buf)@.len(),
        r is Ok <==> (handshake(*old(hs)).reads_next() && message@.len() <= 65535
            && message@.len() <= old(buf)@.len() + HANDSHAKE_OVERHEAD && handshake_accepts(
            handshake(*old(hs)).psk,
            handshake(*old(hs)).secret,
            handshake(*old(hs)).transcript,
            message@,
        )),
        handshake(*old(hs)).reads_next() && message@.len() <= 65535 && message@.len()
            <= old(buf)@.len() + HANDSHAKE_OVERHEAD && (exists|secret: Seq<u8>, payload: Seq<u8>|
            message@ == #[trigger] handshake_message(
                handshake(*old(hs)).psk,
                secret,
                handshake(*old(hs)).transcript,
                payload,
            )) ==> r is Ok,
        r matches Ok(n) ==> {
            let before = handshake(*old(hs));
            let after = handshake(*final(hs));
            &&& n + HANDSHAKE_OVERHEAD == message@.len()
            &&& after.psk == before.psk
            &&& after.initiator == before.initiator
            &&& after.secret == before.secret
            &&& after.transcript == before.transcript.push(message@)
        },
{
    hs.read_message(message, buf)
}

// ------------------------------------------------------------ transport

/// One end of an established session: the key and the next message number each
/// way.
pub struct Channel {
    pub send_key: Seq<u8>,
    pub send_nonce: u64,
    pub recv_key: Seq<u8>,
    pub recv_nonce: u64,
}

/// The channel of an end that no message has passed yet.
pub open spec fn fresh_channel(initiator: bool, keys: (Seq<u8>, Seq<u8>)) -> Channel {
    if initiator {
        Channel { send_key: keys.0, send_nonce: 0, recv_key: keys.1, recv_nonce: 0 }
    } else {
        Channel { send_key: keys.1, send_nonce: 0, recv_key: keys.0, recv_nonce: 0 }
    }
}

/// What a `snow::TransportState` holds.
pub uninterp spec fn transport(ts: snow::TransportState) -> Channel;

/// The ciphertext of `plain` under this key and message number.
pub uninterp spec fn seal(key: Seq<u8>, nonce: u64, plain: Seq<u8>) -> Seq<u8>;

/// `snow::HandshakeState::into_transport_mode`: succeeds exactly when both
/// messages have passed. The initiator sends with the first key and receives with
/// the second, the responder the other way round, both from message number zero.
/// An end with the same shared key that wrote the message which this end read,
/// after the same messages, computes the same two keys.
#[verifier::external_body]
pub(crate) fn into_transport(hs: snow::HandshakeState) -> (r: Result<
    snow::TransportState,
    snow::Error,
>)
    ensures
        r is Ok <==> handshake(hs).transcript.len() == 2,
        r matches Ok(ts) ==> {
            let end = handshake(hs);
            let keys = session_keys(end.psk, end.secret, end.transcript, end.initiator);
            &&& transport(ts) == fresh_channel(end.initiator, keys)
            &&& forall|other: Seq<u8>, payload: Seq<u8>|
                end.transcript[end.read_index()] == #[trigger] handshake_message(
                    end.psk,
                    other,
                    end.transcript.take(end.read_index()),
                    payload,
                ) ==> session_keys(end.psk, other, end.transcript, !end.initiator) == keys
        },
{
    hs.into_transport_mode()
}

/// `snow::TransportState::write_message`: seals `plain` under the sending key and
/// the next number, to the front of `out`. It fails only when the message is too
/// long for the protocol or for `out`, or the numbers are used up, and then
/// changes nothing. No other plaintext has the same ciphertext.
#[verifier::external_body]
pub(crate) fn transport_write(
    ts: &mut snow::TransportState,
    plain: &[u8],
    out: &mut Vec<u8>,
) -> (r: Result<usize, snow::Error>)
    ensures
        final(out)@.len() == old(out)@.len(),
        r is Ok <==> (plain@.len() + 16 <= 65535 && plain@.len() + 16 <= old(out)@.len()
            && transport(*old(ts)).send_nonce < u64::MAX),
        r matches Ok(n) ==> {
            let before = transport(*old(ts));
            let ct = final(out)@.take(n as int);
            &&& n == plain@.len() + 16
            &&& ct == seal(before.send_key, before.send_nonce, plain@)
            &&& forall|other: Seq<u8>|
                #[trigger] seal(before.send_key, before.send_nonce, other) == ct ==> other == plain@
            &&& transport(*final(ts)) == (Channel {
                send_nonce: (before.send_nonce + 1) as u64,
                ..before
            })
        },
        r is Err ==> transport(*final(ts)) == transport(*old(ts)),
{
    ts.write_message(plain, out)
}

/// `snow::TransportState::read_message`: opens `ct` with the receiving key and the
/// next number, to the front of `out`. What it opens is the ciphertext of what
/// comes out. It fails only when no plaintext has this ciphertext, when the message
/// is too long for the protocol or for `out`, or when the numbers are used up, and
/// then keeps the keys and the numbers. That nobody without the key can make a
/// ciphertext that opens is left unsaid: it holds only as far as the cryptography
/// does.
#[verifier::external_body]
pub(crate) fn transport_read(
    ts: &mut snow::TransportState,
    ct: &[u8],
    out: &mut Vec<u8>,
) -> (r: Result<usize, snow::Error>)
    ensures
        final(out)@.len() == old(out)@.len(),
        r matches Ok(n) ==> {
            let before = transport(*old(ts));
            &&& ct@.len() == n + 16
            &&& ct@.len() <= 65535
            &&& n <= old(out)@.len()
            &&& before.recv_nonce < u64::MAX
            &&& ct@ == seal(before.recv_key, before.recv_nonce, final(out)@.take(n as int))
            &&& transport(*final(ts)) == (Channel {
                recv_nonce: (before.recv_nonce + 1) as u64,
                ..before
            })
        },
        r is Err ==> {
            let before = transport(*old(ts));
            &&& transport(*final(ts)) == before
            &&& (ct@.len() > 65535 || ct@.len() > old(out)@.len() + 16 || before.recv_nonce
                == u64::MAX || forall|plain: Seq<u8>|
                ct@ != #[trigger] seal(before.recv_key, before.recv_nonce, plain))
        },
{
    ts.read_message(ct, out)
}

} // verus!
