//! Minimal reader for a streamed AVI file: yields each `00dc` chunk, one H.264
//! access unit.
//!
//! The reader owns no stream. It says what to read or skip next, and takes what
//! came of it.

use vstd::prelude::*;

verus! {

/// Four-character codes, as the little-endian number that their bytes make.
pub const TAG_RIFF: u32 = 0x4646_4952;

pub const TAG_AVI: u32 = 0x2049_5641;

pub const TAG_LIST: u32 = 0x5453_494c;

pub const TAG_MOVI: u32 = 0x6976_6f6d;

pub const TAG_00DC: u32 = 0x6364_3030;

/// Bytes of the file header, of a chunk header, and of a list's kind.
pub const FILE_HEADER: usize = 12;

pub const CHUNK_HEADER: usize = 8;

pub const LIST_KIND: usize = 4;

/// The little-endian number at byte `i` of `s`.
pub open spec fn le32(s: Seq<u8>, i: int) -> u32 {
    (s[i] + s[i + 1] * 256 + s[i + 2] * 65536 + s[i + 3] * 16777216) as u32
}

fn le32_at(m: &[u8], i: usize) -> (r: u32)
    requires
        i + 4 <= m@.len(),
    ensures
        r == le32(m@, i as int),
{
    let a: u32 = m[i] as u32;
    let b: u32 = m[i + 1] as u32;
    let c: u32 = m[i + 2] as u32;
    let d: u32 = m[i + 3] as u32;
    a + b * 256 + c * 65536 + d * 16777216
}

/// Where in the stream a reader stands.
pub enum At {
    /// Before a chunk header.
    Chunk,
    /// Before the kind of a list of this size.
    Kind(u32),
    /// Before the contents of a frame of this size.
    Body(u32),
    /// Behind a frame of odd size, before its padding.
    Pad(Seq<u8>),
    /// Before this many bytes that hold no frame.
    Pass(u64),
}

/// What a reader asks for.
#[derive(Clone, Copy, PartialEq, Eq, Structural, Debug)]
pub enum Want {
    /// Read exactly this many bytes.
    Read(usize),
    /// Skip this many bytes, or what is left of the stream if that is less.
    Skip(u64),
}

/// What came of a request.
pub enum Input {
    /// The bytes that were asked for.
    Bytes(Vec<u8>),
    /// The stream ended before them.
    Eof,
    /// The skip is done.
    Skipped,
    /// The skip failed.
    Failed,
}

/// What a reader makes of an input.
pub enum Step {
    /// Nothing yet; go on with the next request.
    More,
    /// A frame.
    Frame(Vec<u8>),
    /// The stream ended between two chunks.
    End,
    /// The stream ended or failed inside a chunk.
    Truncated,
}

/// An input, by its contents.
pub enum InputView {
    Bytes(Seq<u8>),
    Eof,
    Skipped,
    Failed,
}

/// A step, by its contents.
pub enum StepView {
    More,
    Frame(Seq<u8>),
    End,
    Truncated,
}

impl View for Input {
    type V = InputView;

    open spec fn view(&self) -> InputView {
        match *self {
            Input::Bytes(b) => InputView::Bytes(b@),
            Input::Eof => InputView::Eof,
            Input::Skipped => InputView::Skipped,
            Input::Failed => InputView::Failed,
        }
    }
}

impl View for Step {
    type V = StepView;

    open spec fn view(&self) -> StepView {
        match *self {
            Step::More => StepView::More,
            Step::Frame(f) => StepView::Frame(f@),
            Step::End => StepView::End,
            Step::Truncated => StepView::Truncated,
        }
    }
}

/// What is asked for at each place.
pub open spec fn want(at: At) -> Want {
    match at {
        At::Chunk => Want::Read(CHUNK_HEADER),
        At::Kind(_) => Want::Read(LIST_KIND),
        At::Body(size) => Want::Read(size as usize),
        At::Pad(_) => Want::Skip(1),
        At::Pass(n) => Want::Skip(n),
    }
}

/// Whether `input` can come of `want`.
pub open spec fn answers(want: Want, input: InputView) -> bool {
    match want {
        Want::Read(n) => match input {
            InputView::Bytes(b) => b.len() == n,
            InputView::Eof => true,
            InputView::Skipped | InputView::Failed => false,
        },
        Want::Skip(_) => input is Skipped || input is Failed,
    }
}

/// What follows from `input` at `at`: the next place, and what is to be told.
pub open spec fn step(at: At, input: InputView) -> (At, StepView) {
    match (at, input) {
        (At::Chunk, InputView::Bytes(b)) => {
            let size = le32(b, 4);
            if le32(b, 0) == TAG_LIST {
                (At::Kind(size), StepView::More)
            } else if le32(b, 0) == TAG_00DC {
                (At::Body(size), StepView::More)
            } else {
                (At::Pass((size + size % 2) as u64), StepView::More)
            }
        },
        (At::Chunk, _) => (At::Chunk, StepView::End),
        (At::Kind(size), InputView::Bytes(b)) => if le32(b, 0) == TAG_MOVI {
            (At::Chunk, StepView::More)
        } else {
            (At::Pass((size - 4) as u64), StepView::More)
        },
        (At::Body(size), InputView::Bytes(b)) => if size % 2 == 1 {
            (At::Pad(b), StepView::More)
        } else {
            (At::Chunk, StepView::Frame(b))
        },
        (At::Pad(f), InputView::Skipped) => (At::Chunk, StepView::Frame(f)),
        (At::Pass(_), InputView::Skipped) => (At::Chunk, StepView::More),
        (_, _) => (At::Chunk, StepView::Truncated),
    }
}

/// Reader of a streamed AVI file.
pub enum Avi {
    Chunk,
    Kind { size: u32 },
    Body { size: u32 },
    Pad { frame: Vec<u8> },
    Pass { len: u64 },
}

/// The stream does not begin as an AVI file does.
#[derive(Clone, Copy, PartialEq, Eq, Structural, Debug)]
pub struct NotAvi;

impl View for Avi {
    type V = At;

    open spec fn view(&self) -> At {
        match *self {
            Avi::Chunk => At::Chunk,
            Avi::Kind { size } => At::Kind(size),
            Avi::Body { size } => At::Body(size),
            Avi::Pad { frame } => At::Pad(frame@),
            Avi::Pass { len } => At::Pass(len),
        }
    }
}

impl Avi {
    /// A reader behind the file header `hdr`.
    pub fn new(hdr: &[u8]) -> (r: Result<Avi, NotAvi>)
        requires
            hdr@.len() == FILE_HEADER,
        ensures
            r is Ok <==> le32(hdr@, 0) == TAG_RIFF && le32(hdr@, 8) == TAG_AVI,
            r matches Ok(avi) ==> avi@ == At::Chunk,
    {
        if le32_at(hdr, 0) == TAG_RIFF && le32_at(hdr, 8) == TAG_AVI {
            Ok(Avi::Chunk)
        } else {
            Err(NotAvi)
        }
    }

    /// What to read or skip next.
    pub fn wants(&self) -> (r: Want)
        ensures
            r == want(self@),
    {
        match self {
            Avi::Chunk => Want::Read(CHUNK_HEADER),
            Avi::Kind { size: _ } => Want::Read(LIST_KIND),
            Avi::Body { size } => Want::Read(*size as usize),
            Avi::Pad { frame: _ } => Want::Skip(1),
            Avi::Pass { len } => Want::Skip(*len),
        }
    }

    /// Takes what came of the last request. A list that is no `movi` list has to be
    /// long enough to hold its kind.
    pub fn next_frame(&mut self, input: Input) -> (r: Step)
        requires
            answers(want(old(self)@), input@),
            match (old(self)@, input@) {
                (At::Kind(size), InputView::Bytes(b)) => le32(b, 0) == TAG_MOVI || size >= 4,
                _ => true,
            },
        ensures
            (final(self)@, r@) == step(old(self)@, input@),
    {
        let mut at = Avi::Chunk;
        core::mem::swap(self, &mut at);
        match (at, input) {
            (Avi::Chunk, Input::Bytes(b)) => {
                let tag: u32 = le32_at(b.as_slice(), 0);
                let size: u32 = le32_at(b.as_slice(), 4);
                if tag == TAG_LIST {
                    *self = Avi::Kind { size };
                } else if tag == TAG_00DC {
                    *self = Avi::Body { size };
                } else {
                    *self = Avi::Pass { len: size as u64 + (size % 2) as u64 };
                }
                Step::More
            },
            (Avi::Chunk, _) => Step::End,
            (Avi::Kind { size }, Input::Bytes(b)) => {
                if le32_at(b.as_slice(), 0) != TAG_MOVI {
                    *self = Avi::Pass { len: size as u64 - 4 };
                }
                Step::More
            },
            (Avi::Body { size }, Input::Bytes(b)) => {
                if size % 2 == 1 {
                    *self = Avi::Pad { frame: b };
                    Step::More
                } else {
                    Step::Frame(b)
                }
            },
            (Avi::Pad { frame }, Input::Skipped) => Step::Frame(frame),
            (Avi::Pass { len: _ }, Input::Skipped) => Step::More,
            (_, _) => Step::Truncated,
        }
    }
}

// ------------------------------------------------------------ whole streams

/// `s` without its first `n` bytes, or nothing if there are fewer.
pub open spec fn skip_up_to(s: Seq<u8>, n: u64) -> Seq<u8> {
    if n <= s.len() {
        s.skip(n as int)
    } else {
        Seq::empty()
    }
}

/// The next frame of a stream that stands before a chunk header, and what is left
/// of the stream behind it.
pub open spec fn next(s: Seq<u8>) -> (StepView, Seq<u8>)
    decreases s.len(),
{
    if s.len() < 8 {
        (StepView::End, Seq::empty())
    } else {
        let size = le32(s, 4);
        if le32(s, 0) == TAG_LIST {
            if s.len() < 12 {
                (StepView::Truncated, Seq::empty())
            } else if le32(s, 8) == TAG_MOVI {
                // the list's chunks follow inline
                next(s.skip(12))
            } else {
                next(skip_up_to(s.skip(12), (size - 4) as u64))
            }
        } else if le32(s, 0) == TAG_00DC {
            if s.len() < 8 + size {
                (StepView::Truncated, Seq::empty())
            } else {
                (
                    StepView::Frame(s.subrange(8, 8 + size)),
                    skip_up_to(s.skip(8 + size), (size % 2) as u64),
                )
            }
        } else {
            next(skip_up_to(s.skip(8), (size + size % 2) as u64))
        }
    }
}

/// What comes of a request to the stream `s`, and what is left of the stream.
pub open spec fn serve(want: Want, s: Seq<u8>) -> (InputView, Seq<u8>) {
    match want {
        Want::Read(n) => if s.len() < n {
            (InputView::Eof, Seq::empty())
        } else {
            (InputView::Bytes(s.take(n as int)), s.skip(n as int))
        },
        Want::Skip(n) => (InputView::Skipped, skip_up_to(s, n)),
    }
}

/// Runs a reader against the stream `s`, serving its requests as they come, up to
/// the first step that is not `More`.
pub open spec fn run(at: At, s: Seq<u8>) -> (StepView, Seq<u8>)
    decreases s.len(), (if at is Pass { 1int } else { 0int }),
{
    let (input, left) = serve(want(at), s);
    let (after, told) = step(at, input);
    if told is More {
        run(after, left)
    } else {
        (told, left)
    }
}

/// Serving a reader's requests from a stream gives the stream's frames: the next
/// frame, and the place behind it.
pub proof fn law_requests_follow_the_stream(s: Seq<u8>)
    ensures
        run(At::Chunk, s) == next(s),
    decreases s.len(),
{
    if s.len() >= 8 {
        let size = le32(s, 4);
        let h = s.take(8);
        assert(le32(h, 0) == le32(s, 0) && le32(h, 4) == size);
        let rest = s.skip(8);
        if le32(s, 0) == TAG_LIST {
            reveal_with_fuel(run, 3);
            if s.len() >= 12 {
                assert(le32(rest.take(4), 0) == le32(s, 8));
                assert(rest.skip(4) =~= s.skip(12));
                if le32(s, 8) == TAG_MOVI {
                    law_requests_follow_the_stream(s.skip(12));
                } else {
                    law_requests_follow_the_stream(skip_up_to(s.skip(12), (size - 4) as u64));
                }
            }
        } else if le32(s, 0) == TAG_00DC {
            reveal_with_fuel(run, 3);
            if s.len() >= 8 + size {
                assert(rest.take(size as int) =~= s.subrange(8, 8 + size));
                assert(rest.skip(size as int) =~= s.skip(8 + size));
                assert(skip_up_to(s.skip(8 + size), 0) =~= s.skip(8 + size));
            }
        } else {
            reveal_with_fuel(run, 3);
            law_requests_follow_the_stream(skip_up_to(rest, (size + size % 2) as u64));
        }
    }
}

/// A part of a stream.
pub enum Part {
    /// A frame, and what pads it.
    Frame { data: Seq<u8>, pad: Seq<u8> },
    /// A chunk that holds no frame, and what pads it.
    Other { tag: u32, data: Seq<u8>, pad: Seq<u8> },
    /// A list that holds no frames.
    List { kind: u32, data: Seq<u8> },
    /// The head of the list of frames, whose chunks follow inline; while it is written
    /// its size is not known.
    Movi { size: u32 },
}

/// The little-endian bytes of a number.
pub open spec fn le_bytes(n: int) -> Seq<u8> {
    seq![
        (n % 256) as u8,
        (n / 256 % 256) as u8,
        (n / 65536 % 256) as u8,
        (n / 16777216 % 256) as u8,
    ]
}

impl Part {
    /// Whether it can be written: its size fits, a tag stands for one thing only, and at
    /// most one byte, whatever it is, makes up for an odd size.
    pub open spec fn wf(self) -> bool {
        match self {
            Part::Frame { data, pad } => data.len() <= u32::MAX && pad.len() <= data.len() % 2,
            Part::Other { tag, data, pad } => tag != TAG_LIST && tag != TAG_00DC && data.len()
                <= u32::MAX && pad.len() <= data.len() % 2,
            Part::List { kind, data } => kind != TAG_MOVI && data.len() + 4 <= u32::MAX,
            Part::Movi { size: _ } => true,
        }
    }

    /// Whether the byte that makes up for an odd size is there.
    pub open spec fn padded(self) -> bool {
        match self {
            Part::Frame { data, pad } => pad.len() == data.len() % 2,
            Part::Other { tag: _, data, pad } => pad.len() == data.len() % 2,
            _ => true,
        }
    }

    /// Its bytes.
    #[verifier::opaque]
    pub open spec fn bytes(self) -> Seq<u8> {
        match self {
            Part::Frame { data, pad } => le_bytes(TAG_00DC as int) + le_bytes(
                data.len() as int,
            ) + data + pad,
            Part::Other { tag, data, pad } => le_bytes(tag as int) + le_bytes(data.len() as int)
                + data + pad,
            Part::List { kind, data } => le_bytes(TAG_LIST as int) + le_bytes(
                data.len() as int + 4,
            ) + le_bytes(kind as int) + data,
            Part::Movi { size } => le_bytes(TAG_LIST as int) + le_bytes(size as int) + le_bytes(
                TAG_MOVI as int,
            ),
        }
    }
}

/// Whether parts make up a stream: each can be written, and only at the very end can
/// padding be missing.
pub open spec fn streamable(parts: Seq<Part>) -> bool {
    &&& forall|i: int| 0 <= i < parts.len() ==> (#[trigger] parts[i]).wf()
    &&& forall|i: int| 0 <= i < parts.len() - 1 ==> (#[trigger] parts[i]).padded()
}

/// The bytes of a whole stream behind its file header.
pub open spec fn stream_of(parts: Seq<Part>) -> Seq<u8>
    decreases parts.len(),
{
    if parts.len() == 0 {
        Seq::empty()
    } else {
        parts[0].bytes() + stream_of(parts.drop_first())
    }
}

/// The frames among the parts of a stream.
pub open spec fn frames_in(parts: Seq<Part>) -> Seq<Seq<u8>>
    decreases parts.len(),
{
    if parts.len() == 0 {
        Seq::empty()
    } else {
        let more = frames_in(parts.drop_first());
        match parts[0] {
            Part::Frame { data, pad: _ } => seq![data] + more,
            _ => more,
        }
    }
}

/// The frames that a reader gets out of the bytes of a stream, up to its end.
pub open spec fn frames(s: Seq<u8>) -> Seq<Seq<u8>>
    decreases s.len(),
{
    let (told, rest) = next(s);
    if told is Frame && rest.len() < s.len() {
        seq![told->Frame_0] + frames(rest)
    } else {
        Seq::empty()
    }
}

/// What a reader is told behind the last frame.
pub open spec fn ending(s: Seq<u8>) -> StepView
    decreases s.len(),
{
    let (told, rest) = next(s);
    if told is Frame && rest.len() < s.len() {
        ending(rest)
    } else {
        told
    }
}

/// The little-endian bytes of a number make that number.
proof fn lemma_le32_of(n: int)
    requires
        0 <= n <= u32::MAX,
    ensures
        n == n % 256 + n / 256 % 256 * 256 + n / 65536 % 256 * 65536 + n / 16777216 % 256
            * 16777216,
{
    let a = n / 256;
    let b = a / 256;
    let c = b / 256;
    assert(b == n / 65536);
    assert(c == n / 16777216);
    assert(n == n % 256 + a * 256);
    assert(a == a % 256 + b * 256);
    assert(b == b % 256 + c * 256);
}

/// A number whose bytes stand in a stream is read there.
pub(crate) proof fn lemma_reads(s: Seq<u8>, at: int, n: int)
    requires
        0 <= n <= u32::MAX,
        0 <= at,
        at + 4 <= s.len(),
        s.subrange(at, at + 4) == le_bytes(n),
    ensures
        le32(s, at) == n,
{
    let b = s.subrange(at, at + 4);
    lemma_le32_of(n);
    assert(s[at] == b[0] && s[at + 1] == b[1] && s[at + 2] == b[2] && s[at + 3] == b[3]);
}

/// A frame takes bytes off the stream.
pub(crate) proof fn lemma_next_shrinks(s: Seq<u8>)
    ensures
        next(s).1.len() <= s.len(),
        next(s).0 is Frame ==> next(s).1.len() < s.len(),
    decreases s.len(),
{
    if s.len() >= 8 {
        let size = le32(s, 4);
        if le32(s, 0) == TAG_LIST {
            if s.len() >= 12 {
                if le32(s, 8) == TAG_MOVI {
                    lemma_next_shrinks(s.skip(12));
                } else {
                    lemma_next_shrinks(skip_up_to(s.skip(12), (size - 4) as u64));
                }
            }
        } else if le32(s, 0) != TAG_00DC {
            lemma_next_shrinks(skip_up_to(s.skip(8), (size + size % 2) as u64));
        }
    }
}

/// A part that holds no frame is passed over.
proof fn lemma_passed_over(p: Part, rest: Seq<u8>)
    requires
        p.wf(),
        !(p is Frame),
        p.padded() || rest.len() == 0,
    ensures
        next(p.bytes() + rest) == next(rest),
{
    reveal(Part::bytes);
    let s = p.bytes() + rest;
    match p {
        Part::Other { tag, data, pad } => {
            let n = data.len() as int;
            assert(s.subrange(0, 4) =~= le_bytes(tag as int));
            assert(s.subrange(4, 8) =~= le_bytes(n));
            lemma_reads(s, 0, tag as int);
            lemma_reads(s, 4, n);
            assert(skip_up_to(s.skip(8), (n + n % 2) as u64) =~= rest);
        },
        Part::List { kind, data } => {
            let n = data.len() as int + 4;
            assert(s.subrange(0, 4) =~= le_bytes(TAG_LIST as int));
            assert(s.subrange(4, 8) =~= le_bytes(n));
            assert(s.subrange(8, 12) =~= le_bytes(kind as int));
            lemma_reads(s, 0, TAG_LIST as int);
            lemma_reads(s, 4, n);
            lemma_reads(s, 8, kind as int);
            assert(skip_up_to(s.skip(12), (n - 4) as u64) =~= rest);
        },
        Part::Movi { size } => {
            assert(s.subrange(0, 4) =~= le_bytes(TAG_LIST as int));
            assert(s.subrange(8, 12) =~= le_bytes(TAG_MOVI as int));
            lemma_reads(s, 0, TAG_LIST as int);
            lemma_reads(s, 8, TAG_MOVI as int);
            assert(s.skip(12) =~= rest);
        },
        Part::Frame { data: _, pad: _ } => {},
    }
}

/// A frame at the start of a stream is the next one.
proof fn lemma_frame_is_next(data: Seq<u8>, pad: Seq<u8>, rest: Seq<u8>)
    requires
        data.len() <= u32::MAX,
        pad.len() <= data.len() % 2,
        pad.len() == data.len() % 2 || rest.len() == 0,
    ensures
        next(Part::Frame { data, pad }.bytes() + rest) == (StepView::Frame(data), rest),
{
    reveal(Part::bytes);
    let s = Part::Frame { data, pad }.bytes() + rest;
    let n = data.len() as int;
    assert(s.subrange(0, 4) =~= le_bytes(TAG_00DC as int));
    assert(s.subrange(4, 8) =~= le_bytes(n));
    lemma_reads(s, 0, TAG_00DC as int);
    lemma_reads(s, 4, n);
    assert(s.subrange(8, 8 + n) =~= data);
    assert(skip_up_to(s.skip(8 + n), (n % 2) as u64) =~= rest);
}

/// Every frame of a stream comes back whole and in order, whatever chunks and lists stand
/// between the frames, whatever byte pads a frame, and though the last padding is missing.
/// Behind the last one the reader is told of the end.
pub proof fn law_every_frame_comes_back(parts: Seq<Part>)
    requires
        streamable(parts),
    ensures
        frames(stream_of(parts)) == frames_in(parts),
        ending(stream_of(parts)) == StepView::End,
    decreases parts.len(),
{
    if parts.len() > 0 {
        let more = parts.drop_first();
        let rest = stream_of(more);
        let s = stream_of(parts);
        assert(s == parts[0].bytes() + rest);
        assert(parts[0].wf());
        assert forall|i: int| 0 <= i < more.len() implies (#[trigger] more[i]).wf() by {
            assert(parts[i + 1].wf());
        }
        assert forall|i: int| 0 <= i < more.len() - 1 implies (#[trigger] more[i]).padded() by {
            assert(parts[i + 1].padded());
        }
        if parts.len() > 1 {
            assert(parts[0].padded());
        }
        law_every_frame_comes_back(more);
        lemma_next_shrinks(s);
        match parts[0] {
            Part::Frame { data, pad } => {
                lemma_frame_is_next(data, pad, rest);
            },
            _ => {
                lemma_passed_over(parts[0], rest);
                lemma_next_shrinks(rest);
            },
        }
    }
}

// ------------------------------------------------------------ letters

proof fn lemma_same_bytes(a: int, b: int, c: int, d: int, e: int, f: int, g: int, h: int)
    requires
        0 <= a < 256,
        0 <= b < 256,
        0 <= c < 256,
        0 <= d < 256,
        0 <= e < 256,
        0 <= f < 256,
        0 <= g < 256,
        0 <= h < 256,
        a + b * 256 + c * 65536 + d * 16777216 == e + f * 256 + g * 65536 + h * 16777216,
    ensures
        a == e,
        b == f,
        c == g,
        d == h,
{
}

/// A tag is there exactly if its four letters are.
pub proof fn law_tags_are_four_letters(s: Seq<u8>, i: int)
    requires
        0 <= i,
        i + 4 <= s.len(),
    ensures
        le32(s, i) == TAG_RIFF <==> s[i] == 0x52 && s[i + 1] == 0x49 && s[i + 2] == 0x46 && s[i + 3]
            == 0x46,
        le32(s, i) == TAG_AVI <==> s[i] == 0x41 && s[i + 1] == 0x56 && s[i + 2] == 0x49 && s[i + 3]
            == 0x20,
        le32(s, i) == TAG_LIST <==> s[i] == 0x4c && s[i + 1] == 0x49 && s[i + 2] == 0x53 && s[i + 3]
            == 0x54,
        le32(s, i) == TAG_MOVI <==> s[i] == 0x6d && s[i + 1] == 0x6f && s[i + 2] == 0x76 && s[i + 3]
            == 0x69,
        le32(s, i) == TAG_00DC <==> s[i] == 0x30 && s[i + 1] == 0x30 && s[i + 2] == 0x64 && s[i + 3]
            == 0x63,
{
    let (a, b, c, d) = (s[i] as int, s[i + 1] as int, s[i + 2] as int, s[i + 3] as int);
    assert(le32(s, i) == a + b * 256 + c * 65536 + d * 16777216);
    if le32(s, i) == TAG_RIFF {
        lemma_same_bytes(a, b, c, d, 0x52, 0x49, 0x46, 0x46);
    }
    if le32(s, i) == TAG_AVI {
        lemma_same_bytes(a, b, c, d, 0x41, 0x56, 0x49, 0x20);
    }
    if le32(s, i) == TAG_LIST {
        lemma_same_bytes(a, b, c, d, 0x4c, 0x49, 0x53, 0x54);
    }
    if le32(s, i) == TAG_MOVI {
        lemma_same_bytes(a, b, c, d, 0x6d, 0x6f, 0x76, 0x69);
    }
    if le32(s, i) == TAG_00DC {
        lemma_same_bytes(a, b, c, d, 0x30, 0x30, 0x64, 0x63);
    }
}

/// What a reader makes of a chunk's header: eight bytes, the letters and the size. Frames
/// are read, lists are looked into, and anything else is skipped with its padding.
pub proof fn law_chunks_are_told_by_their_letters(b: Seq<u8>)
    requires
        b.len() == 8,
    ensures
        want(At::Chunk) == Want::Read(8),
        ({
            let size = b[4] + b[5] * 0x100 + b[6] * 0x1_0000 + b[7] * 0x100_0000;
            let frame = b[0] == 0x30 && b[1] == 0x30 && b[2] == 0x64 && b[3] == 0x63;
            let list = b[0] == 0x4c && b[1] == 0x49 && b[2] == 0x53 && b[3] == 0x54;
            let at = step(At::Chunk, InputView::Bytes(b)).0;
            &&& step(At::Chunk, InputView::Bytes(b)).1 is More
            &&& frame ==> at == At::Body(size as u32) && want(at) == Want::Read(size as usize)
            &&& list ==> at == At::Kind(size as u32) && want(at) == Want::Read(4)
            &&& !frame && !list ==> want(at) == Want::Skip(
                (size + if size % 2 == 1 {
                    1int
                } else {
                    0int
                }) as u64,
            )
        }),
{
    law_tags_are_four_letters(b, 0);
}

/// A list of frames is entered; any other is skipped to its end, of which its kind is four
/// bytes.
pub proof fn law_lists_are_told_by_their_kind(size: u32, b: Seq<u8>)
    requires
        b.len() == 4,
        size >= 4,
    ensures
        ({
            let movi = b[0] == 0x6d && b[1] == 0x6f && b[2] == 0x76 && b[3] == 0x69;
            let (at, told) = step(At::Kind(size), InputView::Bytes(b));
            &&& told is More
            &&& movi ==> at == At::Chunk
            &&& !movi ==> want(at) == Want::Skip((size - 4) as u64)
        }),
{
    law_tags_are_four_letters(b, 0);
}

/// A frame is told as it was read: at once if its size is even, and behind one more byte if
/// it is odd. An end before a header is an end; anywhere else, or a skip that fails, the
/// stream is cut off.
pub proof fn law_frames_are_told_whole(size: u32, n: u64, b: Seq<u8>)
    ensures
        size % 2 == 0 ==> step(At::Body(size), InputView::Bytes(b)) == (
            At::Chunk,
            StepView::Frame(b),
        ),
        size % 2 == 1 ==> step(At::Body(size), InputView::Bytes(b)) == (At::Pad(b), StepView::More),
        want(At::Pad(b)) == Want::Skip(1),
        step(At::Pad(b), InputView::Skipped) == (At::Chunk, StepView::Frame(b)),
        step(At::Pass(n), InputView::Skipped) == (At::Chunk, StepView::More),
        step(At::Chunk, InputView::Eof).1 == StepView::End,
        step(At::Kind(size), InputView::Eof).1 == StepView::Truncated,
        step(At::Body(size), InputView::Eof).1 == StepView::Truncated,
        step(At::Pad(b), InputView::Failed).1 == StepView::Truncated,
        step(At::Pass(n), InputView::Failed).1 == StepView::Truncated,
{
}

} // verus!
