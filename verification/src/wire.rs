//! Wire format between the server and the client.
//!
//! Every message travels in a frame: a big-endian `u16` length, then that many
//! bytes of ciphertext. The plaintext starts with a kind byte; integers are
//! big-endian.
//!
//! Server to client:
//!   HELLO       u16 width, u16 height
//!   VIDEO       H.264 Annex-B bytes (arbitrary chunking)
//!
//! Client to server:
//!   MOUSE_MOVE  u16 x, u16 y            absolute, in server pixels
//!   MOUSE_BTN   u8 button, u8 pressed   X11 button numbers (1..7)
//!   KEY         u32 keysym, u8 pressed  X11 keysym

use vstd::prelude::*;
use vstd::slice::{slice_subrange, slice_to_vec};

verus! {

pub const MSG_HELLO: u8 = 0;

pub const MSG_VIDEO: u8 = 1;

pub const MSG_MOUSE_MOVE: u8 = 2;

pub const MSG_MOUSE_BTN: u8 = 3;

pub const MSG_KEY: u8 = 4;

/// Largest ciphertext that a frame's length field can announce.
pub const MAX_FRAME: usize = 65535;

/// Bytes of authentication tag that sealing adds to a plaintext.
pub const TAG_LEN: usize = 16;

/// Largest plaintext that fits one sealed message.
pub const MAX_PLAIN: usize = 65535 - 16;

// ------------------------------------------------------------ integers

/// Big-endian bytes of `v`.
pub open spec fn be16(v: u16) -> Seq<u8> {
    seq![(v / 256) as u8, (v % 256) as u8]
}

/// Big-endian bytes of `v`.
pub open spec fn be32(v: u32) -> Seq<u8> {
    seq![
        (v / 16777216) as u8,
        (v / 65536 % 256) as u8,
        (v / 256 % 256) as u8,
        (v % 256) as u8,
    ]
}

/// The number whose big-endian bytes are `hi` and `lo`.
pub open spec fn from_be16(hi: u8, lo: u8) -> u16 {
    (hi * 256 + lo) as u16
}

/// The number whose big-endian bytes are `a`, `b`, `c` and `d`.
pub open spec fn from_be32(a: u8, b: u8, c: u8, d: u8) -> u32 {
    (a * 16777216 + b * 65536 + c * 256 + d) as u32
}

/// The big-endian `u16` at byte `i` of `m`.
pub fn u16_at(m: &[u8], i: usize) -> (r: u16)
    requires
        i + 2 <= m@.len(),
    ensures
        r == from_be16(m@[i as int], m@[i + 1]),
        m@.subrange(i as int, i + 2) == be16(r),
{
    let hi: u16 = m[i] as u16;
    let lo: u16 = m[i + 1] as u16;
    hi * 256 + lo
}

/// The big-endian `u32` at byte `i` of `m`.
pub fn u32_at(m: &[u8], i: usize) -> (r: u32)
    requires
        i + 4 <= m@.len(),
    ensures
        r == from_be32(m@[i as int], m@[i + 1], m@[i + 2], m@[i + 3]),
        m@.subrange(i as int, i + 4) == be32(r),
{
    let a: u32 = m[i] as u32;
    let b: u32 = m[i + 1] as u32;
    let c: u32 = m[i + 2] as u32;
    let d: u32 = m[i + 3] as u32;
    proof {
        lemma_be32(m@[i as int], m@[i + 1], m@[i + 2], m@[i + 3]);
        assert(m@.subrange(i as int, i + 4) =~= seq![
            m@[i as int],
            m@[i + 1],
            m@[i + 2],
            m@[i + 3],
        ]);
    }
    a * 16777216 + b * 65536 + c * 256 + d
}

/// The bytes of the number that two bytes make are those bytes.
proof fn lemma_be16(hi: u8, lo: u8)
    ensures
        be16(from_be16(hi, lo)) == seq![hi, lo],
{
    let v = from_be16(hi, lo);
    assert(v == hi * 256 + lo);
    assert(be16(v) =~= seq![hi, lo]);
}

/// The number that the bytes of a number make is that number.
proof fn lemma_from_be32(v: u32)
    ensures
        ({
            let b = be32(v);
            from_be32(b[0], b[1], b[2], b[3]) == v
        }),
{
    let high = v / 256;
    let higher = high / 256;
    assert(higher == v / 65536);
    assert(higher / 256 == v / 16777216);
    assert(v == high * 256 + v % 256);
    assert(high == higher * 256 + high % 256);
    assert(higher == higher / 256 * 256 + higher % 256);
}

/// The bytes of the number that four bytes make are those bytes.
proof fn lemma_be32(a: u8, b: u8, c: u8, d: u8)
    ensures
        be32(from_be32(a, b, c, d)) == seq![a, b, c, d],
{
    let v = from_be32(a, b, c, d);
    assert(v == a * 16777216 + b * 65536 + c * 256 + d);
    assert(v / 16777216 == a);
    assert(v / 65536 == a * 256 + b);
    assert(v / 256 == a * 65536 + b * 256 + c);
    assert(be32(v) =~= seq![a, b, c, d]);
}

/// Appends the big-endian bytes of `v`.
fn push_be16(out: &mut Vec<u8>, v: u16)
    ensures
        final(out)@ == old(out)@ + be16(v),
{
    out.push((v / 256) as u8);
    out.push((v % 256) as u8);
}

/// Appends the big-endian bytes of `v`.
fn push_be32(out: &mut Vec<u8>, v: u32)
    ensures
        final(out)@ == old(out)@ + be32(v),
{
    out.push((v / 16777216) as u8);
    out.push((v / 65536 % 256) as u8);
    out.push((v / 256 % 256) as u8);
    out.push((v % 256) as u8);
}

// ------------------------------------------------------------ messages

/// Plaintext of the HELLO message for a screen of `width` by `height`.
pub open spec fn hello(width: u16, height: u16) -> Seq<u8> {
    seq![MSG_HELLO] + be16(width) + be16(height)
}

/// Builds the HELLO message.
pub fn hello_message(width: u16, height: u16) -> (r: Vec<u8>)
    ensures
        r@ == hello(width, height),
{
    let mut m: Vec<u8> = Vec::new();
    m.push(MSG_HELLO);
    push_be16(&mut m, width);
    push_be16(&mut m, height);
    m
}

/// Width and height out of a HELLO message; `None` for any other message.
pub fn parse_hello(m: &[u8]) -> (r: Option<(u16, u16)>)
    ensures
        r matches Some((w, h)) ==> m@ == hello(w, h),
        r is None ==> forall|w: u16, h: u16| m@ != #[trigger] hello(w, h),
{
    if m.len() == 5 && m[0] == MSG_HELLO {
        let w: u16 = u16_at(m, 1);
        let h: u16 = u16_at(m, 3);
        proof {
            assert(m@ =~= seq![m@[0]] + m@.subrange(1, 3) + m@.subrange(3, 5));
        }
        Some((w, h))
    } else {
        proof {
            assert forall|w: u16, h: u16| m@ != #[trigger] hello(w, h) by {
                assert(hello(w, h).len() == 5);
                assert(hello(w, h)[0] == MSG_HELLO);
            }
        }
        None
    }
}

/// Most encoder output that one VIDEO message carries.
pub const VIDEO_CHUNK: usize = 32 * 1024;

/// Plaintext of the VIDEO message that carries `chunk`.
pub open spec fn video(chunk: Seq<u8>) -> Seq<u8> {
    seq![MSG_VIDEO] + chunk
}

/// Builds the VIDEO message that carries `chunk`.
pub fn video_message(chunk: &[u8]) -> (r: Vec<u8>)
    ensures
        r@ == video(chunk@),
{
    let mut m: Vec<u8> = Vec::new();
    m.push(MSG_VIDEO);
    m.extend_from_slice(chunk);
    m
}

/// What a VIDEO message carries; `None` for any other message.
pub fn parse_video(m: &[u8]) -> (r: Option<Vec<u8>>)
    ensures
        r matches Some(chunk) ==> m@ == video(chunk@),
        r is None ==> forall|chunk: Seq<u8>| m@ != #[trigger] video(chunk),
{
    if m.len() == 0 || m[0] != MSG_VIDEO {
        proof {
            assert forall|chunk: Seq<u8>| m@ != #[trigger] video(chunk) by {
                assert(video(chunk)[0] == MSG_VIDEO);
            }
        }
        None
    } else {
        proof {
            assert(m@ =~= video(m@.subrange(1, m@.len() as int)));
        }
        Some(slice_to_vec(slice_subrange(m, 1, m.len())))
    }
}

/// What a client tells the server to do with its pointer and keyboard.
#[derive(Clone, Copy, PartialEq, Eq, Structural, Debug)]
pub enum InputMessage {
    MouseMove { x: u16, y: u16 },
    MouseButton { button: u8, pressed: bool },
    Key { keysym: u32, pressed: bool },
}

/// A flag as it stands in a message.
pub open spec fn flag(b: bool) -> u8 {
    if b {
        1
    } else {
        0
    }
}

impl InputMessage {
    /// Plaintext of the message.
    pub open spec fn bytes(self) -> Seq<u8> {
        match self {
            InputMessage::MouseMove { x, y } => seq![MSG_MOUSE_MOVE] + be16(x) + be16(y),
            InputMessage::MouseButton { button, pressed } => seq![
                MSG_MOUSE_BTN,
                button,
                flag(pressed),
            ],
            InputMessage::Key { keysym, pressed } => seq![MSG_KEY] + be32(keysym) + seq![
                flag(pressed),
            ],
        }
    }

    /// Builds the plaintext of the message.
    pub fn encode(self) -> (r: Vec<u8>)
        ensures
            r@ == self.bytes(),
    {
        let mut m: Vec<u8> = Vec::new();
        match self {
            InputMessage::MouseMove { x, y } => {
                m.push(MSG_MOUSE_MOVE);
                push_be16(&mut m, x);
                push_be16(&mut m, y);
            },
            InputMessage::MouseButton { button, pressed } => {
                m.push(MSG_MOUSE_BTN);
                m.push(button);
                m.push(if pressed { 1 } else { 0 });
            },
            InputMessage::Key { keysym, pressed } => {
                m.push(MSG_KEY);
                push_be32(&mut m, keysym);
                m.push(if pressed { 1 } else { 0 });
            },
        }
        m
    }

    /// The message that `m` stands for: its kind and its length decide, and any
    /// flag but zero means pressed.
    pub open spec fn decoded(m: Seq<u8>) -> Option<InputMessage> {
        if m[0] == MSG_MOUSE_MOVE && m.len() == 5 {
            Some(
                InputMessage::MouseMove {
                    x: from_be16(m[1], m[2]),
                    y: from_be16(m[3], m[4]),
                },
            )
        } else if m[0] == MSG_MOUSE_BTN && m.len() == 3 {
            Some(InputMessage::MouseButton { button: m[1], pressed: m[2] != 0 })
        } else if m[0] == MSG_KEY && m.len() == 6 {
            Some(
                InputMessage::Key {
                    keysym: from_be32(m[1], m[2], m[3], m[4]),
                    pressed: m[5] != 0,
                },
            )
        } else {
            None
        }
    }

    /// Reads a plaintext from a client.
    pub fn decode(m: &[u8]) -> (r: Option<InputMessage>)
        requires
            m@.len() > 0,
        ensures
            r == Self::decoded(m@),
    {
        if m[0] == MSG_MOUSE_MOVE && m.len() == 5 {
            Some(InputMessage::MouseMove { x: u16_at(m, 1), y: u16_at(m, 3) })
        } else if m[0] == MSG_MOUSE_BTN && m.len() == 3 {
            Some(InputMessage::MouseButton { button: m[1], pressed: m[2] != 0 })
        } else if m[0] == MSG_KEY && m.len() == 6 {
            Some(InputMessage::Key { keysym: u32_at(m, 1), pressed: m[5] != 0 })
        } else {
            None
        }
    }
}

/// The server reads every message as the client meant it.
pub proof fn law_input_round_trip(msg: InputMessage)
    ensures
        msg.bytes().len() > 0,
        InputMessage::decoded(msg.bytes()) == Some(msg),
{
    match msg {
        InputMessage::MouseMove { x, y } => {
            assert(from_be16(be16(x)[0], be16(x)[1]) == x);
            assert(from_be16(be16(y)[0], be16(y)[1]) == y);
        },
        InputMessage::MouseButton { button: _, pressed: _ } => {},
        InputMessage::Key { keysym, pressed: _ } => {
            lemma_from_be32(keysym);
        },
    }
}

/// A message that decodes is the encoding of what it decodes to, unless its flag
/// is a byte other than zero and one.
pub proof fn law_input_canonical(m: Seq<u8>)
    requires
        m.len() > 0,
        InputMessage::decoded(m) is Some,
        m[0] != MSG_MOUSE_MOVE ==> m.last() <= 1,
    ensures
        InputMessage::decoded(m)->0.bytes() == m,
{
    if m[0] == MSG_MOUSE_MOVE {
        lemma_be16(m[1], m[2]);
        lemma_be16(m[3], m[4]);
        assert(m =~= seq![m[0]] + seq![m[1], m[2]] + seq![m[3], m[4]]);
    } else if m[0] == MSG_MOUSE_BTN {
        assert(m =~= seq![m[0], m[1], m[2]]);
    } else {
        lemma_be32(m[1], m[2], m[3], m[4]);
        assert(m =~= seq![m[0]] + seq![m[1], m[2], m[3], m[4]] + seq![m[5]]);
    }
}

/// Different screens have different HELLO messages.
pub proof fn law_hello_round_trip(w1: u16, h1: u16, w2: u16, h2: u16)
    ensures
        hello(w1, h1) == hello(w2, h2) <==> (w1 == w2 && h1 == h2),
{
    if hello(w1, h1) == hello(w2, h2) {
        assert(hello(w1, h1)[1] == hello(w2, h2)[1]);
        assert(hello(w1, h1)[2] == hello(w2, h2)[2]);
        assert(hello(w1, h1)[3] == hello(w2, h2)[3]);
        assert(hello(w1, h1)[4] == hello(w2, h2)[4]);
    }
}

/// Video bytes come out of a VIDEO message as they went in.
pub proof fn law_video_round_trip(a: Seq<u8>, b: Seq<u8>)
    ensures
        video(a) == video(b) <==> a == b,
{
    if video(a) == video(b) {
        assert(a =~= video(a).skip(1));
        assert(b =~= video(b).skip(1));
    }
}

/// Every message that the two programs build fits one sealed message.
pub proof fn law_messages_fit(w: u16, h: u16, chunk: Seq<u8>, msg: InputMessage)
    requires
        chunk.len() <= VIDEO_CHUNK,
    ensures
        hello(w, h).len() <= MAX_PLAIN,
        video(chunk).len() <= MAX_PLAIN,
        msg.bytes().len() <= MAX_PLAIN,
{
}

// ------------------------------------------------------------ frames

/// The bytes of the frame around `ct`. The length field holds the low sixteen
/// bits of the length.
pub open spec fn frame(ct: Seq<u8>) -> Seq<u8> {
    be16((ct.len() % 65536) as u16) + ct
}

/// Puts `ct` into a frame.
pub fn write_frame(ct: &[u8]) -> (r: Vec<u8>)
    ensures
        r@ == frame(ct@),
{
    let mut v: Vec<u8> = Vec::new();
    let len: u16 = (ct.len() % 65536) as u16;
    push_be16(&mut v, len);
    v.extend_from_slice(ct);
    v
}

/// What the bytes of a stream read so far amount to.
pub enum FrameStep {
    /// Read exactly this many more bytes.
    Need(usize),
    /// The ciphertext of the first frame.
    Frame(Vec<u8>),
}

/// How many bytes the frame at the start of `got` takes, as far as `got` tells:
/// the length field first, then what it announces.
pub open spec fn frame_size(got: Seq<u8>) -> nat {
    if got.len() < 2 {
        2
    } else {
        (2 + from_be16(got[0], got[1])) as nat
    }
}

/// Reads the frame at the start of `got`, or tells how many bytes to read next.
pub fn read_frame(got: &[u8]) -> (r: FrameStep)
    ensures
        match r {
            FrameStep::Need(n) => got@.len() < frame_size(got@) && n == frame_size(got@)
                - got@.len(),
            FrameStep::Frame(ct) => got@.len() >= frame_size(got@) && ct@ == got@.subrange(
                2,
                frame_size(got@) as int,
            ),
        },
{
    if got.len() < 2 {
        return FrameStep::Need(2 - got.len());
    }
    let total: usize = 2 + u16_at(got, 0) as usize;
    if got.len() < total {
        FrameStep::Need(total - got.len())
    } else {
        FrameStep::Frame(slice_to_vec(slice_subrange(got, 2, total)))
    }
}

/// What was put into a frame is read back from the front of a stream, whatever
/// follows it, and exactly the frame is used up.
pub proof fn law_frame_round_trip(ct: Seq<u8>, rest: Seq<u8>)
    requires
        ct.len() <= MAX_FRAME,
    ensures
        frame_size(frame(ct) + rest) == frame(ct).len(),
        (frame(ct) + rest).subrange(2, frame_size(frame(ct) + rest) as int) == ct,
{
    let s = frame(ct) + rest;
    assert(s[0] == be16(ct.len() as u16)[0]);
    assert(s[1] == be16(ct.len() as u16)[1]);
    assert(s.subrange(2, 2 + ct.len() as int) =~= ct);
}

/// Reading a frame piece by piece asks for the two length bytes first and then
/// for the ciphertext alone: no byte of the next frame is ever asked for.
pub proof fn law_frame_reads_no_further(ct: Seq<u8>, k: int)
    requires
        ct.len() <= MAX_FRAME,
        0 <= k < frame(ct).len(),
    ensures
        k < frame_size(frame(ct).take(k)) <= frame(ct).len(),
{
    let f = frame(ct);
    if k >= 2 {
        assert(f.take(k)[0] == f[0]);
        assert(f.take(k)[1] == f[1]);
    }
}

// ------------------------------------------------------------ laws of the bytes

/// A number of two bytes has its high byte first, and one of four bytes its highest.
pub proof fn law_high_bytes_come_first(v: u16, w: u32, a: u8, b: u8, c: u8, d: u8)
    ensures
        be16(v).len() == 2,
        be16(v)[0] * 0x100 + be16(v)[1] == v,
        be32(w).len() == 4,
        be32(w)[0] * 0x100_0000 + be32(w)[1] * 0x1_0000 + be32(w)[2] * 0x100 + be32(w)[3] == w,
        from_be16(a, b) == a * 0x100 + b,
        from_be32(a, b, c, d) == a * 0x100_0000 + b * 0x1_0000 + c * 0x100 + d,
{
    lemma_from_be32(w);
}

/// The bytes of every message: its kind, and then what it says, number by number.
pub proof fn law_bytes_of_messages(
    x: u16,
    y: u16,
    button: u8,
    keysym: u32,
    pressed: bool,
    chunk: Seq<u8>,
)
    ensures
        ({
            let m = hello(x, y);
            m.len() == 5 && m[0] == 0 && m[1] * 0x100 + m[2] == x && m[3] * 0x100 + m[4] == y
        }),
        video(chunk).len() == chunk.len() + 1,
        video(chunk)[0] == 1,
        video(chunk).skip(1) == chunk,
        ({
            let m = InputMessage::MouseMove { x, y }.bytes();
            m.len() == 5 && m[0] == 2 && m[1] * 0x100 + m[2] == x && m[3] * 0x100 + m[4] == y
        }),
        ({
            let m = InputMessage::MouseButton { button, pressed }.bytes();
            m.len() == 3 && m[0] == 3 && m[1] == button && m[2] == if pressed {
                1u8
            } else {
                0u8
            }
        }),
        ({
            let m = InputMessage::Key { keysym, pressed }.bytes();
            m.len() == 6 && m[0] == 4 && m[1] * 0x100_0000 + m[2] * 0x1_0000 + m[3] * 0x100 + m[4]
                == keysym && m[5] == if pressed {
                1u8
            } else {
                0u8
            }
        }),
{
    law_high_bytes_come_first(x, keysym, 0, 0, 0, 0);
    law_high_bytes_come_first(y, keysym, 0, 0, 0, 0);
    assert(video(chunk).skip(1) =~= chunk);
}

/// What a message of a client says, by its bytes: kind and length have to go together, and
/// any flag but zero means pressed.
pub proof fn law_meaning_of_bytes(m: Seq<u8>)
    requires
        m.len() > 0,
    ensures
        match InputMessage::decoded(m) {
            Some(InputMessage::MouseMove { x, y }) => m[0] == 2 && m.len() == 5 && x == m[1] * 0x100
                + m[2] && y == m[3] * 0x100 + m[4],
            Some(InputMessage::MouseButton { button, pressed }) => m[0] == 3 && m.len() == 3
                && button == m[1] && pressed == (m[2] != 0),
            Some(InputMessage::Key { keysym, pressed }) => m[0] == 4 && m.len() == 6 && keysym
                == m[1] * 0x100_0000 + m[2] * 0x1_0000 + m[3] * 0x100 + m[4] && pressed == (m[5]
                != 0),
            None => !(m[0] == 2 && m.len() == 5) && !(m[0] == 3 && m.len() == 3) && !(m[0] == 4
                && m.len() == 6),
        },
{
}

/// A frame begins with the length of what follows, high byte first, and is read by it: two
/// bytes are needed to know the length, and then exactly that many.
pub proof fn law_frame_begins_with_its_length(ct: Seq<u8>, got: Seq<u8>)
    ensures
        frame(ct).len() == ct.len() + 2,
        ct.len() <= 65535 ==> frame(ct)[0] * 0x100 + frame(ct)[1] == ct.len(),
        frame(ct).skip(2) == ct,
        got.len() < 2 ==> frame_size(got) == 2,
        got.len() >= 2 ==> frame_size(got) == 2 + got[0] * 0x100 + got[1],
{
    assert(frame(ct).skip(2) =~= ct);
}

} // verus!
