//! A frame of rectangles on the graphics channel: its messages, and the segments that they
//! travel in.

use crate::coding::Coding;
use crate::stream::{stamp, Stamp};
use crate::tiles::{Canvas, Patch, Rect};
use ironrdp_dvc::ironrdp_pdu::geometry::ExclusiveRectangle;
use ironrdp_dvc::ironrdp_pdu::ironrdp_core::encode_vec;
use ironrdp_egfx::pdu::{
    Codec1Type, EndFramePdu, GfxPdu, PixelFormat, StartFramePdu, Timestamp, WireToSurface1Pdu,
};
use vstd::prelude::*;

verus! {

/// What a rectangle on the channel is written in.
#[derive(Clone, Copy, PartialEq, Eq, Structural, Debug)]
pub enum Codec {
    Uncompressed,
    Planar,
}

/// The pixels of a surface: with a byte that does not count, or with one for the alpha
/// channel.
#[derive(Clone, Copy, PartialEq, Eq, Structural, Debug)]
pub enum Pixels {
    Xrgb,
    Argb,
}

/// The codec that goes with a coding.
pub open spec fn codec_of(coding: Coding) -> Codec {
    match coding {
        Coding::Rle | Coding::Raw => Codec::Planar,
        Coding::Off => Codec::Uncompressed,
    }
}

/// Finds the codec that goes with a coding.
pub fn codec(coding: Coding) -> (r: Codec)
    ensures
        r == codec_of(coding),
{
    match coding {
        Coding::Rle | Coding::Raw => Codec::Planar,
        Coding::Off => Codec::Uncompressed,
    }
}

// ------------------------------------------------------------ messages

/// The little-endian bytes of a number of sixteen bits.
pub open spec fn le16(v: u16) -> Seq<u8> {
    seq![(v % 256) as u8, (v / 256) as u8]
}

/// A message: its command, no flags, its length, and the rest.
pub open spec fn message(command: u16, body: Seq<u8>) -> Seq<u8> {
    le16(command) + le16(0) + crate::avi::le_bytes(body.len() as int + 8) + body
}

/// Commands.
pub const WIRE_TO_SURFACE: u16 = 0x1;

pub const START_FRAME: u16 = 0xb;

pub const END_FRAME: u16 = 0xc;

/// A time, packed: ten bits of milliseconds, then six of seconds, six of minutes, and ten
/// of hours.
pub open spec fn packed_time(at: Stamp) -> int {
    at.milliseconds + at.seconds * 0x400 + at.minutes * 0x1_0000 + at.hours * 0x40_0000
}

/// The message that begins a frame.
pub open spec fn start_message(at: Stamp, frame: u32) -> Seq<u8> {
    message(
        START_FRAME,
        crate::avi::le_bytes(packed_time(at)) + crate::avi::le_bytes(frame as int),
    )
}

/// The message that ends a frame.
pub open spec fn end_message(frame: u32) -> Seq<u8> {
    message(END_FRAME, crate::avi::le_bytes(frame as int))
}

/// The number of a codec.
pub open spec fn codec_number(codec: Codec) -> u16 {
    match codec {
        Codec::Uncompressed => 0x0,
        Codec::Planar => 0xa,
    }
}

/// The number of a format of pixels.
pub open spec fn pixels_number(pixels: Pixels) -> u8 {
    match pixels {
        Pixels::Xrgb => 0x20,
        Pixels::Argb => 0x21,
    }
}

/// The message that draws a rectangle on a surface.
#[verifier::opaque]
pub open spec fn rectangle_message(
    surface: u16,
    codec: Codec,
    pixels: Pixels,
    r: Rect,
    data: Seq<u8>,
) -> Seq<u8> {
    message(
        WIRE_TO_SURFACE,
        le16(surface) + le16(codec_number(codec)) + seq![pixels_number(pixels)] + le16(r.left)
            + le16(r.top) + le16(r.right) + le16(r.bottom) + crate::avi::le_bytes(
            data.len() as int,
        ) + data,
    )
}

/// The largest rectangle, in bytes, that is written here. A row of tiles across the widest
/// picture takes less.
pub const PATCH_MAX: usize = 0x0200_0000;

/// `encode_vec` of an `ironrdp_egfx::pdu::StartFramePdu`: the bytes of the message, for a
/// time whose parts fit into their bits. It cannot fail.
#[verifier::external_body]
fn encode_start(at: Stamp, frame: u32) -> (r: Option<Vec<u8>>)
    requires
        at.milliseconds < 0x400,
        at.seconds < 0x40,
        at.minutes < 0x40,
        at.hours < 0x400,
    ensures
        r is Some,
        r->0@ == start_message(at, frame),
{
    let timestamp = Timestamp {
        milliseconds: at.milliseconds,
        seconds: at.seconds,
        minutes: at.minutes,
        hours: at.hours,
    };
    encode_vec(&GfxPdu::StartFrame(StartFramePdu { timestamp, frame_id: frame })).ok()
}

/// `encode_vec` of an `ironrdp_egfx::pdu::EndFramePdu`: the bytes of the message. It cannot
/// fail.
#[verifier::external_body]
fn encode_end(frame: u32) -> (r: Option<Vec<u8>>)
    ensures
        r is Some,
        r->0@ == end_message(frame),
{
    encode_vec(&GfxPdu::EndFrame(EndFramePdu { frame_id: frame })).ok()
}

/// `encode_vec` of an `ironrdp_egfx::pdu::WireToSurface1Pdu`: the bytes of the message. It
/// cannot fail on data of this size.
#[verifier::external_body]
fn encode_rectangle(
    surface: u16,
    codec: Codec,
    pixels: Pixels,
    rect: Rect,
    data: &[u8],
) -> (r: Option<Vec<u8>>)
    requires
        data@.len() <= PATCH_MAX,
    ensures
        r is Some,
        r->0@ == rectangle_message(surface, codec, pixels, rect, data@),
{
    let codec_id = match codec {
        Codec::Uncompressed => Codec1Type::Uncompressed,
        Codec::Planar => Codec1Type::Planar,
    };
    let pixel_format = match pixels {
        Pixels::Xrgb => PixelFormat::XRgb,
        Pixels::Argb => PixelFormat::ARgb,
    };
    let Rect { left, top, right, bottom } = rect;
    let destination_rectangle = ExclusiveRectangle { left, top, right, bottom };
    let (surface_id, bitmap_data) = (surface, data.to_vec());
    let pdu = WireToSurface1Pdu { surface_id, codec_id, pixel_format, destination_rectangle, bitmap_data };
    encode_vec(&GfxPdu::WireToSurface1(pdu)).ok()
}

// ------------------------------------------------------------ segments

/// How many bytes go into a segment.
pub const SEGMENT_MAX: usize = 65535;

/// How many segments some bytes take.
pub open spec fn segment_count(n: nat) -> nat
    decreases n,
{
    if n == 0 {
        0
    } else if n <= SEGMENT_MAX {
        1
    } else {
        1 + segment_count((n - SEGMENT_MAX) as nat)
    }
}

/// Bytes in segments that follow each other: each has its length, counting its flags, then
/// the flags, which say that it is not compressed, and its bytes.
pub open spec fn segments(data: Seq<u8>) -> Seq<u8>
    decreases data.len(),
{
    if data.len() == 0 {
        Seq::empty()
    } else {
        let n = if data.len() < SEGMENT_MAX {
            data.len() as int
        } else {
            SEGMENT_MAX as int
        };
        crate::avi::le_bytes(n + 1) + seq![0x04u8] + data.take(n) + segments(data.skip(n))
    }
}

/// Bytes as they travel on the channel: in one segment, or in as many as it takes, behind
/// their number and the length of it all.
pub open spec fn segmented(data: Seq<u8>) -> Seq<u8> {
    if data.len() <= SEGMENT_MAX {
        seq![0xe0u8, 0x04u8] + data
    } else {
        seq![0xe1u8] + le16(segment_count(data.len()) as u16) + crate::avi::le_bytes(
            data.len() as int,
        ) + segments(data)
    }
}

/// `ironrdp_graphics::zgfx::wrap_uncompressed`: the bytes in segments. The number of
/// segments has sixteen bits, which bytes of this length keep within.
#[verifier::external_body]
fn segment(data: &[u8]) -> (r: Vec<u8>)
    requires
        data@.len() <= PATCH_MAX + 25,
    ensures
        r@ == segmented(data@),
{
    ironrdp_graphics::zgfx::wrap_uncompressed(data)
}

// ------------------------------------------------------------ frames

/// The messages of a frame of rectangles: its start, the rectangles in order, and its end.
pub open spec fn frame_messages(
    surface: u16,
    pixels: Pixels,
    frame: u32,
    ms: u32,
    coding: Coding,
    patches: Seq<Patch>,
) -> Seq<Seq<u8>> {
    seq![start_message(crate::stream::stamp_of(ms), frame)] + Seq::new(
        patches.len(),
        |i: int|
            rectangle_message(
                surface,
                codec_of(coding),
                pixels,
                patches[i].rect,
                patches[i].data@,
            ),
    ) + seq![end_message(frame)]
}

/// Messages, each in segments of its own.
pub open spec fn all_segmented(ms: Seq<Seq<u8>>) -> Seq<Seq<u8>> {
    ms.map_values(|m: Seq<u8>| segmented(m))
}

/// Some messages, by their bytes.
pub open spec fn contents(ms: Seq<Vec<u8>>) -> Seq<Seq<u8>> {
    ms.map_values(|m: Vec<u8>| m@)
}

proof fn lemma_rectangle_len(surface: u16, codec: Codec, pixels: Pixels, r: Rect, data: Seq<u8>)
    ensures
        rectangle_message(surface, codec, pixels, r, data).len() == 25 + data.len(),
{
    reveal(rectangle_message);
}

/// Makes the messages of a frame of rectangles, in their segments.
#[verifier::spinoff_prover]
#[verifier::rlimit(40)]
pub fn messages(
    surface: u16,
    pixels: Pixels,
    frame: u32,
    ms: u32,
    coding: Coding,
    patches: &[Patch],
) -> (r: Vec<Vec<u8>>)
    requires
        forall|i: int|
            0 <= i < patches@.len() ==> (#[trigger] patches@[i]).data@.len() <= PATCH_MAX,
    ensures
        contents(r@) == all_segmented(
            frame_messages(surface, pixels, frame, ms, coding, patches@),
        ),
{
    let ghost all = frame_messages(surface, pixels, frame, ms, coding, patches@);
    let mut v: Vec<Vec<u8>> = Vec::new();
    v.push(segment(encode_start(stamp(ms), frame).unwrap().as_slice()));
    let mut i: usize = 0;
    while i < patches.len()
        invariant
            i <= patches@.len(),
            forall|k: int|
                0 <= k < patches@.len() ==> (#[trigger] patches@[k]).data@.len() <= PATCH_MAX,
            all == frame_messages(surface, pixels, frame, ms, coding, patches@),
            contents(v@) == all_segmented(all.take(i + 1)),
        decreases patches.len() - i,
    {
        let p: &Patch = &patches[i];
        let m: Vec<u8> = encode_rectangle(
            surface,
            codec(coding),
            pixels,
            p.rect,
            p.data.as_slice(),
        ).unwrap();
        proof {
            lemma_rectangle_len(surface, codec_of(coding), pixels, p.rect, p.data@);
        }
        let ghost before = v@;
        v.push(segment(m.as_slice()));
        i += 1;
        proof {
            assert(contents(v@) =~= contents(before).push(segmented(m@)));
            assert(contents(v@) =~= all_segmented(all.take(i + 1)));
        }
    }
    let ghost before = v@;
    v.push(segment(encode_end(frame).unwrap().as_slice()));
    proof {
        assert(contents(v@) =~= contents(before).push(segmented(end_message(frame))));
        assert(contents(v@) =~= all_segmented(all));
    }
    v
}

// ------------------------------------------------------------ laws

/// What is in segments that follow each other.
pub open spec fn payload(s: Seq<u8>) -> Seq<u8>
    decreases s.len(),
{
    if s.len() < 5 {
        Seq::empty()
    } else {
        let n = crate::avi::le32(s, 0) - 1;
        if n < 0 || s.len() < 5 + n {
            Seq::empty()
        } else {
            s.subrange(5, 5 + n) + payload(s.skip(5 + n))
        }
    }
}

/// What a client takes out of the segments that it gets.
pub open spec fn unwrapped(s: Seq<u8>) -> Seq<u8> {
    if s[0] == 0xe0 {
        s.skip(2)
    } else {
        payload(s.skip(7))
    }
}

proof fn lemma_payload(data: Seq<u8>)
    ensures
        payload(segments(data)) == data,
    decreases data.len(),
{
    if data.len() > 0 {
        let n = if data.len() < SEGMENT_MAX {
            data.len() as int
        } else {
            SEGMENT_MAX as int
        };
        let s = segments(data);
        lemma_payload(data.skip(n));
        assert(s.subrange(0, 4) =~= crate::avi::le_bytes(n + 1));
        crate::avi::lemma_reads(s, 0, n + 1);
        assert(s.subrange(5, 5 + n) =~= data.take(n));
        assert(s.skip(5 + n) =~= segments(data.skip(n)));
        assert(data.take(n) + data.skip(n) =~= data);
    }
}

/// What travels in segments comes out of them as it went in.
#[verifier::spinoff_prover]
pub proof fn law_segments_carry_the_message(data: Seq<u8>)
    ensures
        unwrapped(segmented(data)) == data,
{
    let s = segmented(data);
    if data.len() <= SEGMENT_MAX {
        assert(s[0] == 0xe0);
        assert(s.skip(2) =~= data);
    } else {
        lemma_payload(data);
        let head = seq![0xe1u8] + le16(segment_count(data.len()) as u16) + crate::avi::le_bytes(
            data.len() as int,
        );
        assert(head.len() == 7);
        assert(s == head + segments(data));
        assert(s[0] == head[0]);
        assert(s.skip(7) =~= segments(data));
    }
}

/// A client takes out of the segments of a row of messages, such as those of a frame, those
/// messages, in order.
pub proof fn law_client_gets_the_messages(ms: Seq<Seq<u8>>, i: int)
    requires
        0 <= i < ms.len(),
    ensures
        all_segmented(ms).len() == ms.len(),
        unwrapped(all_segmented(ms)[i]) == ms[i],
{
    law_segments_carry_the_message(ms[i]);
}

/// The number of two bytes, low byte first, at a place of a message.
pub open spec fn word_at(m: Seq<u8>, i: int) -> int {
    m[i] + m[i + 1] * 0x100
}

/// The number of four bytes, low byte first, at a place of a message.
pub open spec fn long_at(m: Seq<u8>, i: int) -> int {
    m[i] + m[i + 1] * 0x100 + m[i + 2] * 0x1_0000 + m[i + 3] * 0x100_0000
}

proof fn lemma_word(v: u16)
    ensures
        le16(v).len() == 2,
        le16(v)[0] + le16(v)[1] * 0x100 == v,
{
}

proof fn lemma_long(n: int)
    requires
        0 <= n <= u32::MAX,
    ensures
        crate::avi::le_bytes(n).len() == 4,
        long_at(crate::avi::le_bytes(n), 0) == n,
{
    let b = crate::avi::le_bytes(n);
    assert(b.subrange(0, 4) =~= b);
    crate::avi::lemma_reads(b, 0, n);
}

/// The message that draws a rectangle says so in its first two bytes and has its length in
/// the second four. Then come the surface, the codec, which is 10 for planes and 0 for
/// none, the format of the pixels, and left, top, right and bottom; and behind the length
/// of the data the data itself.
#[verifier::rlimit(30)]
pub proof fn law_rectangle_says_where_it_goes(
    surface: u16,
    codec: Codec,
    pixels: Pixels,
    r: Rect,
    data: Seq<u8>,
)
    requires
        data.len() <= PATCH_MAX,
    ensures
        ({
            let m = rectangle_message(surface, codec, pixels, r, data);
            &&& m.len() == 25 + data.len()
            &&& word_at(m, 0) == 1
            &&& word_at(m, 2) == 0
            &&& long_at(m, 4) == m.len()
            &&& word_at(m, 8) == surface
            &&& word_at(m, 10) == if codec is Planar {
                10int
            } else {
                0int
            }
            &&& m[12] == if pixels is Xrgb {
                0x20u8
            } else {
                0x21u8
            }
            &&& word_at(m, 13) == r.left
            &&& word_at(m, 15) == r.top
            &&& word_at(m, 17) == r.right
            &&& word_at(m, 19) == r.bottom
            &&& long_at(m, 21) == data.len()
            &&& m.skip(25) == data
        }),
{
    reveal(rectangle_message);
    let m = rectangle_message(surface, codec, pixels, r, data);
    let n = data.len() as int;
    lemma_word(surface);
    lemma_word(codec_number(codec));
    lemma_word(r.left);
    lemma_word(r.top);
    lemma_word(r.right);
    lemma_word(r.bottom);
    lemma_word(WIRE_TO_SURFACE);
    lemma_long(n);
    lemma_long(n + 25);
    assert(m.subrange(0, 2) =~= le16(WIRE_TO_SURFACE));
    assert(m.subrange(2, 4) =~= le16(0));
    assert(m.subrange(4, 8) =~= crate::avi::le_bytes(n + 25));
    assert(m.subrange(8, 10) =~= le16(surface));
    assert(m.subrange(10, 12) =~= le16(codec_number(codec)));
    assert(m.subrange(13, 15) =~= le16(r.left));
    assert(m.subrange(15, 17) =~= le16(r.top));
    assert(m.subrange(17, 19) =~= le16(r.right));
    assert(m.subrange(19, 21) =~= le16(r.bottom));
    assert(m.subrange(21, 25) =~= crate::avi::le_bytes(n));
    assert(m.skip(25) =~= data);
    lemma_at(m, 0, 2);
    lemma_at(m, 2, 4);
    lemma_at(m, 4, 8);
    lemma_at(m, 8, 10);
    lemma_at(m, 10, 12);
    lemma_at(m, 13, 15);
    lemma_at(m, 15, 17);
    lemma_at(m, 17, 19);
    lemma_at(m, 19, 21);
    lemma_at(m, 21, 25);
}

proof fn lemma_at(m: Seq<u8>, i: int, j: int)
    requires
        0 <= i <= j <= m.len(),
    ensures
        j - i >= 2 ==> word_at(m.subrange(i, j), 0) == word_at(m, i),
        j - i >= 4 ==> long_at(m.subrange(i, j), 0) == long_at(m, i),
{
}

/// The bytes of a message that has nothing but its command and one number or two.
proof fn lemma_short(command: u16, a: int, b: int)
    requires
        0 <= a <= u32::MAX,
        0 <= b <= u32::MAX,
    ensures
        ({
            let m = message(command, crate::avi::le_bytes(a) + crate::avi::le_bytes(b));
            &&& m.len() == 16
            &&& word_at(m, 0) == command
            &&& word_at(m, 2) == 0
            &&& long_at(m, 4) == 16
            &&& long_at(m, 8) == a
            &&& long_at(m, 12) == b
        }),
        ({
            let m = message(command, crate::avi::le_bytes(a));
            &&& m.len() == 12
            &&& word_at(m, 0) == command
            &&& word_at(m, 2) == 0
            &&& long_at(m, 4) == 12
            &&& long_at(m, 8) == a
        }),
{
    let m = message(command, crate::avi::le_bytes(a) + crate::avi::le_bytes(b));
    let e = message(command, crate::avi::le_bytes(a));
    lemma_long(a);
    lemma_long(b);
    lemma_long(16);
    lemma_long(12);
    lemma_word(command);
    assert(m.subrange(0, 2) =~= le16(command));
    assert(m.subrange(2, 4) =~= le16(0));
    assert(m.subrange(4, 8) =~= crate::avi::le_bytes(16));
    assert(m.subrange(8, 12) =~= crate::avi::le_bytes(a));
    assert(m.subrange(12, 16) =~= crate::avi::le_bytes(b));
    assert(e.subrange(0, 2) =~= le16(command));
    assert(e.subrange(2, 4) =~= le16(0));
    assert(e.subrange(4, 8) =~= crate::avi::le_bytes(12));
    assert(e.subrange(8, 12) =~= crate::avi::le_bytes(a));
    lemma_at(m, 0, 2);
    lemma_at(m, 2, 4);
    lemma_at(m, 4, 8);
    lemma_at(m, 8, 12);
    lemma_at(m, 12, 16);
    lemma_at(e, 0, 2);
    lemma_at(e, 2, 4);
    lemma_at(e, 4, 8);
    lemma_at(e, 8, 12);
}

/// A packed time comes apart again.
proof fn lemma_time(ms: u32)
    ensures
        ({
            let t = packed_time(crate::stream::stamp_of(ms));
            &&& 0 <= t <= u32::MAX
            &&& t % 1024 == ms % 1000
            &&& t / 1024 % 64 == ms / 1000 % 60
            &&& t / 65536 % 64 == ms / 1000 / 60 % 60
            &&& t / 4194304 == ms / 1000 / 60 / 60 % 24
        }),
{
    let at = crate::stream::stamp_of(ms);
    let t = packed_time(at);
    let (a, b, c, d) = (
        at.milliseconds as int,
        at.seconds as int,
        at.minutes as int,
        at.hours as int,
    );
    assert(a == ms % 1000);
    assert(b == ms / 1000 % 60);
    assert(c == ms / 1000 / 60 % 60);
    assert(d == ms / 1000 / 60 / 60 % 24);
    assert(t == a + b * 1024 + c * 65536 + d * 4194304);
    assert(t / 1024 == b + c * 64 + d * 4096);
    assert(t / 65536 == c + d * 64);
}

/// A frame begins with a message whose command is 11, which has the time and the frame's
/// number, and ends with one whose command is 12, which has the number again. The time is
/// packed: milliseconds in the low ten bits, above them seconds and minutes in six bits
/// each, and the hours; it starts again after a day.
pub proof fn law_frame_has_its_number_and_time(
    surface: u16,
    pixels: Pixels,
    frame: u32,
    ms: u32,
    coding: Coding,
    patches: Seq<Patch>,
)
    ensures
        ({
            let m = frame_messages(surface, pixels, frame, ms, coding, patches)[0];
            let t = long_at(m, 8);
            &&& m.len() == 16
            &&& word_at(m, 0) == 11
            &&& word_at(m, 2) == 0
            &&& long_at(m, 4) == 16
            &&& t % 1024 == ms % 1000
            &&& t / 1024 % 64 == ms / 1000 % 60
            &&& t / 65536 % 64 == ms / 1000 / 60 % 60
            &&& t / 4194304 == ms / 1000 / 60 / 60 % 24
            &&& long_at(m, 12) == frame
        }),
        ({
            let all = frame_messages(surface, pixels, frame, ms, coding, patches);
            let m = all[patches.len() as int + 1];
            &&& all.len() == patches.len() + 2
            &&& m.len() == 12
            &&& word_at(m, 0) == 12
            &&& word_at(m, 2) == 0
            &&& long_at(m, 4) == 12
            &&& long_at(m, 8) == frame
        }),
{
    let t = packed_time(crate::stream::stamp_of(ms));
    lemma_time(ms);
    lemma_short(START_FRAME, t, frame as int);
    lemma_short(END_FRAME, frame as int, 0);
}

// ------------------------------------------------------------ the client's picture

/// Whether a message draws a rectangle that a place is in.
pub open spec fn draws_at(m: Seq<u8>, x: int, y: int) -> bool {
    &&& word_at(m, 0) == 1
    &&& word_at(m, 13) <= x < word_at(m, 17)
    &&& word_at(m, 15) <= y < word_at(m, 19)
}

/// The colour that a message draws at a place: blue, green or red, for `c` zero, one and
/// two. Planes come red first, behind a byte that says there are no others and no runs;
/// without planes there are four bytes for a pixel, blue first.
pub open spec fn drawn_colour(m: Seq<u8>, x: int, y: int, c: int) -> u8 {
    let width = word_at(m, 17) - word_at(m, 13);
    let height = word_at(m, 19) - word_at(m, 15);
    let k = (y - word_at(m, 15)) * width + (x - word_at(m, 13));
    if word_at(m, 10) == 10 {
        m[25 + 1 + (2 - c) * (width * height) + k]
    } else {
        m[25 + 4 * k + c]
    }
}

/// The colour that a client has at a place of the picture, once it has drawn a row of
/// messages over what was there: the last that draws at the place decides.
pub open spec fn client_colour(
    was: u8,
    ms: Seq<Seq<u8>>,
    x: int,
    y: int,
    c: int,
) -> u8
    decreases ms.len(),
{
    if ms.len() == 0 {
        was
    } else if draws_at(ms.last(), x, y) {
        drawn_colour(ms.last(), x, y, c)
    } else {
        client_colour(was, ms.drop_last(), x, y, c)
    }
}

/// Messages as a client takes them out of their segments.
pub open spec fn all_unwrapped(ms: Seq<Seq<u8>>) -> Seq<Seq<u8>> {
    ms.map_values(|m: Seq<u8>| unwrapped(m))
}

/// What the message of a patch draws is what is kept.
#[verifier::rlimit(30)]
proof fn lemma_patch_is_drawn(
    before: Canvas,
    new: Seq<u8>,
    coding: Coding,
    budget: usize,
    patches: Seq<Patch>,
    after: Canvas,
    surface: u16,
    pixels: Pixels,
    x: int,
    y: int,
    c: int,
    i: int,
)
    requires
        before.updated(new, coding, budget, patches, after),
        coding != Coding::Rle,
        0 <= i < patches.len(),
        0 <= c < 3,
    ensures
        ({
            let r = patches[i].rect;
            let m = rectangle_message(surface, codec_of(coding), pixels, r, patches[i].data@);
            &&& draws_at(m, x, y) == (r.left <= x < r.right && r.top <= y < r.bottom)
            &&& draws_at(m, x, y) ==> drawn_colour(m, x, y, c) == after.shown@[(y * before.w + x)
                * 4 + c]
        }),
{
    let p = (y * before.w + x) * 4 + c;
    let r = patches[i].rect;
    let data = patches[i].data@;
    let m = rectangle_message(surface, codec_of(coding), pixels, r, data);
    assert(crate::tiles::whole_span(before.shown@, new, before.w, before.h, r));
    assert(data == crate::coding::coded_as(coding, new, before.w, r));
    let area = r.width() * r.height();
    assert(0 <= area <= 64 * 65535) by (nonlinear_arith)
        requires
            area == r.width() * r.height(),
            0 <= r.width() <= 65535,
            0 <= r.height() <= 64,
    ;
    assert(data.len() == if coding == Coding::Raw {
        3 * area + 2
    } else {
        4 * area
    });
    law_rectangle_says_where_it_goes(surface, codec_of(coding), pixels, r, data);
    if r.contains(x, y) {
        crate::tiles::law_client_has_what_is_kept(
            before,
            new,
            coding,
            budget,
            patches,
            after,
            i,
            x,
            y,
            c,
        );
        let k = (y - r.top) * r.width() + (x - r.left);
        assert(0 <= k < area) by (nonlinear_arith)
            requires
                k == (y - r.top) * r.width() + (x - r.left),
                0 <= x - r.left < r.width(),
                0 <= y - r.top < r.height(),
                area == r.width() * r.height(),
        ;
        if coding == Coding::Raw {
            let at = 1 + (2 - c) * area + k;
            assert(0 <= (2 - c) * area <= 2 * area) by (nonlinear_arith)
                requires
                    0 <= c < 3,
                    0 <= area,
            ;
            assert(m.skip(25)[at] == m[25 + at]);
            assert(data[at] == after.shown@[p]);
        } else {
            assert(m.skip(25)[4 * k + c] == m[25 + 4 * k + c]);
            assert(data[4 * k + c] == after.shown@[p]);
        }
    }
}

/// What a client draws from the first messages of a frame, up to patch `n`.
#[verifier::rlimit(30)]
proof fn lemma_drawn_so_far(
    before: Canvas,
    new: Seq<u8>,
    coding: Coding,
    budget: usize,
    patches: Seq<Patch>,
    after: Canvas,
    surface: u16,
    pixels: Pixels,
    frame: u32,
    ms: u32,
    x: int,
    y: int,
    c: int,
    n: int,
)
    requires
        before.updated(new, coding, budget, patches, after),
        coding != Coding::Rle,
        0 <= c < 3,
        0 <= n <= patches.len(),
    ensures
        ({
            let p = (y * before.w + x) * 4 + c;
            let all = frame_messages(surface, pixels, frame, ms, coding, patches);
            client_colour(before.shown@[p], all.take(n + 1), x, y, c) == if crate::tiles::covered(
                patches.take(n),
                x,
                y,
            ) {
                after.shown@[p]
            } else {
                before.shown@[p]
            }
        }),
    decreases n,
{
    let p = (y * before.w + x) * 4 + c;
    let all = frame_messages(surface, pixels, frame, ms, coding, patches);
    let some = all.take(n + 1);
    if n == 0 {
        law_frame_has_its_number_and_time(surface, pixels, frame, ms, coding, patches);
        assert(some.last() == all[0]);
        assert(some.drop_last() =~= Seq::empty());
        assert(client_colour(before.shown@[p], some.drop_last(), x, y, c) == before.shown@[p]);
        assert(patches.take(0) =~= Seq::empty());
    } else {
        let i = n - 1;
        lemma_drawn_so_far(
            before,
            new,
            coding,
            budget,
            patches,
            after,
            surface,
            pixels,
            frame,
            ms,
            x,
            y,
            c,
            i,
        );
        lemma_patch_is_drawn(
            before,
            new,
            coding,
            budget,
            patches,
            after,
            surface,
            pixels,
            x,
            y,
            c,
            i,
        );
        assert(some.last() == all[i + 1]);
        assert(some.drop_last() =~= all.take(i + 1));
        lemma_covered_by_one_more(patches, n, x, y);
    }
}

/// A place is in one of the first patches if it is in the last of them or in one before it.
proof fn lemma_covered_by_one_more(patches: Seq<Patch>, n: int, x: int, y: int)
    requires
        0 < n <= patches.len(),
    ensures
        crate::tiles::covered(patches.take(n), x, y) == (crate::tiles::covered(
            patches.take(n - 1),
            x,
            y,
        ) || patches[n - 1].rect.contains(x, y)),
{
    let now = patches.take(n);
    let earlier = patches.take(n - 1);
    if patches[n - 1].rect.contains(x, y) {
        assert(now[n - 1].rect.contains(x, y));
    }
    if crate::tiles::covered(earlier, x, y) {
        let q = choose|q: int|
            0 <= q < earlier.len() && (#[trigger] earlier[q]).rect.contains(x, y);
        assert(now[q].rect.contains(x, y));
    }
    if crate::tiles::covered(now, x, y) && !patches[n - 1].rect.contains(x, y) {
        let q = choose|q: int| 0 <= q < now.len() && (#[trigger] now[q]).rect.contains(x, y);
        assert(earlier[q].rect.contains(x, y));
    }
}

/// A client that takes the messages of a frame out of their segments and draws each
/// rectangle's pixels where its message says ends with the picture that is kept for it
/// here: at every place, with every colour. Of run-length planes a decoder's result is not
/// known here.
#[verifier::rlimit(30)]
pub proof fn law_client_draws_the_picture_that_is_kept(
    before: Canvas,
    new: Seq<u8>,
    coding: Coding,
    budget: usize,
    patches: Seq<Patch>,
    after: Canvas,
    surface: u16,
    pixels: Pixels,
    frame: u32,
    ms: u32,
    x: int,
    y: int,
    c: int,
)
    requires
        before.updated(new, coding, budget, patches, after),
        coding != Coding::Rle,
        0 <= x < before.w,
        0 <= y < before.h,
        0 <= c < 3,
    ensures
        ({
            let p = (y * before.w + x) * 4 + c;
            let sent = all_segmented(
                frame_messages(surface, pixels, frame, ms, coding, patches),
            );
            client_colour(before.shown@[p], all_unwrapped(sent), x, y, c) == after.shown@[p]
        }),
{
    let p = (y * before.w + x) * 4 + c;
    let all = frame_messages(surface, pixels, frame, ms, coding, patches);
    let n = patches.len() as int;
    assert forall|i: int| 0 <= i < all.len() implies unwrapped(#[trigger] all_segmented(all)[i])
        == all[i] by {
        law_client_gets_the_messages(all, i);
    }
    assert(all_unwrapped(all_segmented(all)) =~= all);
    lemma_drawn_so_far(
        before,
        new,
        coding,
        budget,
        patches,
        after,
        surface,
        pixels,
        frame,
        ms,
        x,
        y,
        c,
        n,
    );
    law_frame_has_its_number_and_time(surface, pixels, frame, ms, coding, patches);
    assert(all.last() == all[n + 1]);
    assert(all.drop_last() =~= all.take(n + 1));
    assert(patches.take(n) =~= patches);
    assert(crate::tiles::inside(before.w, before.h, x, y));
    if !crate::tiles::covered(patches, x, y) {
        assert(crate::tiles::same_at(after.shown@, before.shown@, before.w, x, y));
        crate::tiles::law_pixels_are_compared_whole(
            after.shown@,
            before.shown@,
            before.w,
            x,
            y,
        );
        assert(after.shown@[(y * before.w + x) * 4 + c] == before.shown@[(y * before.w + x) * 4
            + c]);
    }
}

/// Message `i + 1` of a frame has the place and the data of patch `i`, and there is one for
/// each.
pub proof fn law_each_patch_has_its_message(
    surface: u16,
    pixels: Pixels,
    frame: u32,
    ms: u32,
    coding: Coding,
    patches: Seq<Patch>,
    i: int,
)
    requires
        0 <= i < patches.len(),
        patches[i].data@.len() <= PATCH_MAX,
    ensures
        ({
            let all = frame_messages(surface, pixels, frame, ms, coding, patches);
            let m = all[i + 1];
            &&& all.len() == patches.len() + 2
            &&& word_at(m, 8) == surface
            &&& word_at(m, 10) == if coding == Coding::Off {
                0int
            } else {
                10int
            }
            &&& word_at(m, 13) == patches[i].rect.left
            &&& word_at(m, 15) == patches[i].rect.top
            &&& word_at(m, 17) == patches[i].rect.right
            &&& word_at(m, 19) == patches[i].rect.bottom
            &&& m.skip(25) == patches[i].data@
        }),
{
    law_rectangle_says_where_it_goes(
        surface,
        codec_of(coding),
        pixels,
        patches[i].rect,
        patches[i].data@,
    );
}

/// With run-length planes, too, a message has what is kept: its data is what the coder makes
/// of the pixels that the picture has where the message says.
pub proof fn law_coded_messages_have_the_picture_that_is_kept(
    before: Canvas,
    new: Seq<u8>,
    budget: usize,
    patches: Seq<Patch>,
    after: Canvas,
    surface: u16,
    pixels: Pixels,
    frame: u32,
    ms: u32,
    i: int,
)
    requires
        before.updated(new, Coding::Rle, budget, patches, after),
        0 <= i < patches.len(),
    ensures
        ({
            let m = frame_messages(surface, pixels, frame, ms, Coding::Rle, patches)[i + 1];
            let (left, top) = (word_at(m, 13), word_at(m, 15));
            let (w, h) = (word_at(m, 17) - left, word_at(m, 19) - top);
            &&& word_at(m, 10) == 10
            &&& m.skip(25) == crate::coding::rle_planes(
                w as usize,
                h as usize,
                Seq::new(
                    (4 * (w * h)) as nat,
                    |k: int|
                        after.shown@[((top + k / 4 / w) * before.w + (left + k / 4 % w)) * 4 + k
                            % 4],
                ),
            )
        }),
{
    let r = patches[i].rect;
    let (w, h) = (r.right - r.left, r.bottom - r.top);
    assert(crate::tiles::whole_span(before.shown@, new, before.w, before.h, r));
    law_each_patch_has_its_message(surface, pixels, frame, ms, Coding::Rle, patches, i);
    crate::coding::law_coder_gets_the_rectangle(new, before.w, r);
    let n = (4 * (w * h)) as nat;
    let ours = Seq::new(
        n,
        |k: int| after.shown@[((r.top + k / 4 / w) * before.w + (r.left + k / 4 % w)) * 4 + k % 4],
    );
    let theirs = Seq::new(
        n,
        |k: int| new[((r.top + k / 4 / w) * before.w + (r.left + k / 4 % w)) * 4 + k % 4],
    );
    assert forall|k: int| 0 <= k < n implies ours[k] == theirs[k] by {
        let (x, y) = (r.left + k / 4 % w, r.top + k / 4 / w);
        lemma_in_rows(k / 4, w, h);
        assert(r.contains(x, y));
        assert(crate::tiles::covered(patches, x, y));
        assert(crate::tiles::inside(before.w, before.h, x, y));
        assert(crate::tiles::same_at(after.shown@, new, before.w, x, y));
        crate::tiles::law_pixels_are_compared_whole(after.shown@, new, before.w, x, y);
        let c = k % 4;
        assert(after.shown@[(y * before.w + x) * 4 + c] == new[(y * before.w + x) * 4 + c]);
    }
    assert(ours =~= theirs);
}

/// A place in rows of `w` that are `h` is in one of them.
proof fn lemma_in_rows(k: int, w: int, h: int)
    requires
        0 <= k < w * h,
        0 < w,
    ensures
        0 <= k % w < w,
        0 <= k / w < h,
{
    let (q, s) = (k / w, k % w);
    vstd::arithmetic::div_mod::lemma_fundamental_div_mod(k, w);
    assert(0 <= q < h) by (nonlinear_arith)
        requires
            k == w * q + s,
            0 <= s < w,
            0 <= k < w * h,
            0 < w,
    ;
}

} // verus!
