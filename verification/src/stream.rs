//! The stream of one RDP client: setting up its surface, and the encoder's output
//! going out frame by frame over the graphics channel.

use crate::avi::{Avi, Input, InputView, Step, StepView, Want};
use crate::mode::Mode;
use vstd::prelude::*;

verus! {

// ------------------------------------------------------------ sizes

/// AVC420 wants dimensions that are multiples of 16.
pub fn align16(v: u16) -> (r: u16)
    ensures
        r == v - v % 16,
        r % 16 == 0,
        r <= v < r + 16,
{
    v - v % 16
}

/// The encoders want even dimensions.
pub fn align2(v: u16) -> (r: u16)
    ensures
        r == v - v % 2,
        r % 2 == 0,
        r <= v <= r + 1,
{
    v - v % 2
}

/// The size of the pictures for a session of a size: H.264 cuts it down to multiples
/// of 16, everything else shows all of it.
pub open spec fn picture(mode: Mode, width: u16, height: u16) -> (u16, u16) {
    if mode is Avc {
        ((width - width % 16) as u16, (height - height % 16) as u16)
    } else {
        (width, height)
    }
}

/// Finds the size of the pictures for a session of a size.
pub fn picture_size(mode: Mode, width: u16, height: u16) -> (r: (u16, u16))
    ensures
        r == picture(mode, width, height),
{
    match mode {
        Mode::Avc => (align16(width), align16(height)),
        _ => (width, height),
    }
}

/// The part of a surface that a frame covers, with its bounds included, and how it was
/// quantized.
#[derive(Clone, Copy, PartialEq, Eq, Structural, Debug)]
pub struct Region {
    pub left: u16,
    pub top: u16,
    pub right: u16,
    pub bottom: u16,
    pub quantization: u8,
    pub quality: u8,
}

impl Region {
    /// Whether a pixel is in the region.
    pub open spec fn contains(self, x: int, y: int) -> bool {
        self.left <= x <= self.right && self.top <= y <= self.bottom
    }
}

/// Every frame covers the whole surface.
pub fn region(width: u16, height: u16) -> (r: Region)
    requires
        width > 0,
        height > 0,
    ensures
        r == (Region {
            left: 0,
            top: 0,
            right: (width - 1) as u16,
            bottom: (height - 1) as u16,
            quantization: 23,
            quality: 100,
        }),
        forall|x: int, y: int|
            #[trigger] r.contains(x, y) <==> 0 <= x < width && 0 <= y < height,
{
    Region {
        left: 0,
        top: 0,
        right: width - 1,
        bottom: height - 1,
        quantization: 23,
        quality: 100,
    }
}

/// The time of a frame as the graphics channel carries it.
#[derive(Clone, Copy, PartialEq, Eq, Structural, Debug)]
pub struct Stamp {
    pub milliseconds: u16,
    pub seconds: u8,
    pub minutes: u8,
    pub hours: u16,
}

/// The clock face of a time in milliseconds; it starts again after a day.
pub open spec fn stamp_of(ms: u32) -> Stamp {
    Stamp {
        milliseconds: (ms % 1000) as u16,
        seconds: (ms / 1000 % 60) as u8,
        minutes: (ms / 1000 / 60 % 60) as u8,
        hours: (ms / 1000 / 60 / 60 % 24) as u16,
    }
}

/// Finds the clock face of a time in milliseconds.
pub fn stamp(ms: u32) -> (r: Stamp)
    ensures
        r == stamp_of(ms),
        r.milliseconds < 1000,
        r.seconds < 60,
        r.minutes < 60,
        r.hours < 24,
        ((r.hours * 60 + r.minutes) * 60 + r.seconds) * 1000 + r.milliseconds == ms % 86_400_000,
{
    proof {
        let s = ms as int / 1000;
        let m = s / 60;
        let h = m / 60;
        let d = h / 24;
        assert(ms == s * 1000 + ms % 1000);
        assert(s == m * 60 + s % 60);
        assert(m == h * 60 + m % 60);
        assert(h == d * 24 + h % 24);
        let rest = ((h % 24 * 60 + m % 60) * 60 + s % 60) * 1000 + ms % 1000;
        assert(ms == d * 86_400_000 + rest);
        assert(0 <= rest < 86_400_000);
        assert(ms % 86_400_000 == rest);
    }
    Stamp {
        milliseconds: (ms % 1000) as u16,
        seconds: (ms / 1000 % 60) as u8,
        minutes: (ms / 1000 / 60 % 60) as u8,
        hours: (ms / 1000 / 60 / 60 % 24) as u16,
    }
}

// ------------------------------------------------------------ flushing

/// What becomes of the messages that wait on the graphics channel.
#[derive(Clone, Copy, PartialEq, Eq, Structural, Debug)]
pub enum Flush {
    /// There are none.
    Nothing,
    /// They go out on this channel.
    Send { channel: u32 },
    /// The graphics channel is not open.
    NotOpen,
    /// The server takes no messages yet.
    NoSender,
}

/// Decides about the messages that wait, by whether there are any, the channel if it is
/// open, and whether the server takes messages.
pub fn flush(pending: bool, channel: Option<u32>, sender: bool) -> (r: Flush)
    ensures
        r == if !pending {
            Flush::Nothing
        } else {
            match channel {
                None => Flush::NotOpen,
                Some(channel) => if sender {
                    Flush::Send { channel }
                } else {
                    Flush::NoSender
                },
            }
        },
        r is Nothing <==> !pending,
        r is NotOpen <==> pending && channel is None,
        r is NoSender <==> pending && channel is Some && !sender,
        r matches Flush::Send { channel: c } ==> pending && sender && channel == Some(c),
{
    if !pending {
        return Flush::Nothing;
    }
    match channel {
        None => Flush::NotOpen,
        Some(channel) => if sender {
            Flush::Send { channel }
        } else {
            Flush::NoSender
        },
    }
}

// ------------------------------------------------------------ the stream

/// Where the stream stands: the answer it waits for.
#[derive(Clone, Copy, PartialEq, Eq, Structural, Debug)]
pub enum Place {
    Codec,
    Surface,
    Setup,
    Header,
    Flag,
    Chunk,
    Clock,
    Channel,
    Nap,
    Sending,
    Flushing,
    Over,
}

/// How a stream ends.
#[derive(Clone, Copy, PartialEq, Eq, Structural, Debug)]
pub enum End {
    /// The session is to stop.
    Stopped,
    /// The encoder's output ended.
    Ended,
    /// The client refuses H.264; it gets planar rectangles on this surface.
    Planar { surface: u16 },
    /// No surface could be made.
    NoSurface,
    /// A message could not be handed over.
    NotFlushed,
    /// The encoder's output is no AVI stream.
    NotAvi,
    /// The encoder's output ended inside a chunk.
    Truncated,
    /// The client closed the channel.
    Closed,
    /// The frame was not taken.
    NotSent,
}

/// What is reported of a stream that ended, where that is a failure.
pub open spec fn failure_text(end: End) -> Option<Seq<char>> {
    match end {
        End::Stopped | End::Ended | End::Planar { surface: _ } => None,
        End::NoSurface => Some("create_surface"@),
        End::NotFlushed => Some("flush"@),
        End::NotAvi => Some("not an AVI stream"@),
        End::Truncated => Some("AVI stream ended inside a chunk"@),
        End::Closed => Some("gfx channel closed"@),
        End::NotSent => Some("send_avc420_frame"@),
    }
}

/// Reports how a stream failed, if it did.
pub fn failure(end: End) -> (r: Option<&'static str>)
    ensures
        match r {
            Some(text) => failure_text(end) == Some(text@),
            None => failure_text(end) is None,
        },
{
    match end {
        End::Stopped | End::Ended | End::Planar { surface: _ } => None,
        End::NoSurface => Some("create_surface"),
        End::NotFlushed => Some("flush"),
        End::NotAvi => Some("not an AVI stream"),
        End::Truncated => Some("AVI stream ended inside a chunk"),
        End::Closed => Some("gfx channel closed"),
        End::NotSent => Some("send_avc420_frame"),
    }
}

/// What the stream asks for.
pub enum Action {
    /// Whether the client takes AVC420.
    AskCodec,
    /// Make a surface of the size of the session.
    CreateSurface,
    /// Map the surface to the output at its origin, and flush.
    MapSurface { surface: u16 },
    /// Set the mode, start encoder and capture, and read this many bytes of the
    /// encoder's output.
    Start { mode: Mode, header: usize },
    /// Whether the session is to stop.
    CheckStop,
    /// Go on with the encoder's output.
    Fetch { want: Want },
    /// The milliseconds since the stream began.
    ReadClock,
    /// Whether the channel is open, and whether too many frames are under way.
    AskChannel,
    /// Sleep for this many milliseconds.
    Nap { pause: u64 },
    /// Queue a frame.
    Send { surface: u16, frame: Vec<u8>, ms: u32 },
    /// Flush the channel.
    Flush,
    /// Set the mode and end.
    Switch { mode: Mode, end: End },
    /// Stop capture and encoder; the stream is over.
    Finish { end: End },
}

/// The answer to an action.
pub enum Event {
    Codec { avc420: bool },
    Surface(Option<u16>),
    Mapped(bool),
    Header(Option<Vec<u8>>),
    Stop(bool),
    Fetched(Input),
    Clock(u64),
    Channel { ready: bool, busy: bool },
    Napped,
    Sent(bool),
    Flushed(bool),
}

/// An action, by its contents.
pub enum ActionView {
    AskCodec,
    CreateSurface,
    MapSurface { surface: u16 },
    Start { mode: Mode, header: usize },
    CheckStop,
    Fetch { want: Want },
    ReadClock,
    AskChannel,
    Nap { pause: u64 },
    Send { surface: u16, frame: Seq<u8>, ms: u32 },
    Flush,
    Switch { mode: Mode, end: End },
    Finish { end: End },
}

/// An answer, by its contents.
pub enum EventView {
    Codec { avc420: bool },
    Surface(Option<u16>),
    Mapped(bool),
    Header(Option<Seq<u8>>),
    Stop(bool),
    Fetched(InputView),
    Clock(u64),
    Channel { ready: bool, busy: bool },
    Napped,
    Sent(bool),
    Flushed(bool),
}

impl View for Action {
    type V = ActionView;

    open spec fn view(&self) -> ActionView {
        match *self {
            Action::AskCodec => ActionView::AskCodec,
            Action::CreateSurface => ActionView::CreateSurface,
            Action::MapSurface { surface } => ActionView::MapSurface { surface },
            Action::Start { mode, header } => ActionView::Start { mode, header },
            Action::CheckStop => ActionView::CheckStop,
            Action::Fetch { want } => ActionView::Fetch { want },
            Action::ReadClock => ActionView::ReadClock,
            Action::AskChannel => ActionView::AskChannel,
            Action::Nap { pause } => ActionView::Nap { pause },
            Action::Send { surface, frame, ms } => ActionView::Send { surface, frame: frame@, ms },
            Action::Flush => ActionView::Flush,
            Action::Switch { mode, end } => ActionView::Switch { mode, end },
            Action::Finish { end } => ActionView::Finish { end },
        }
    }
}

impl View for Event {
    type V = EventView;

    open spec fn view(&self) -> EventView {
        match *self {
            Event::Codec { avc420 } => EventView::Codec { avc420 },
            Event::Surface(s) => EventView::Surface(s),
            Event::Mapped(ok) => EventView::Mapped(ok),
            Event::Header(Some(h)) => EventView::Header(Some(h@)),
            Event::Header(None) => EventView::Header(None),
            Event::Stop(stop) => EventView::Stop(stop),
            Event::Fetched(input) => EventView::Fetched(input@),
            Event::Clock(ms) => EventView::Clock(ms),
            Event::Channel { ready, busy } => EventView::Channel { ready, busy },
            Event::Napped => EventView::Napped,
            Event::Sent(ok) => EventView::Sent(ok),
            Event::Flushed(ok) => EventView::Flushed(ok),
        }
    }
}

/// A stream.
pub struct Stream {
    pub place: Place,
    /// Whether the client takes AVC420.
    pub avc420: bool,
    pub surface: u16,
    /// The reader of the encoder's output.
    pub avi: Avi,
    /// The frame that waits to be sent.
    pub frame: Vec<u8>,
    /// Its time.
    pub ms: u32,
}

/// A stream, by its contents.
#[verifier::ext_equal]
pub struct StreamView {
    pub place: Place,
    pub avc420: bool,
    pub surface: u16,
    pub avi: crate::avi::At,
    pub frame: Seq<u8>,
    pub ms: u32,
}

impl View for Stream {
    type V = StreamView;

    open spec fn view(&self) -> StreamView {
        StreamView {
            place: self.place,
            avc420: self.avc420,
            surface: self.surface,
            avi: self.avi@,
            frame: self.frame@,
            ms: self.ms,
        }
    }
}

/// How long the stream sleeps while too many frames are under way, in milliseconds.
pub const NAP_MS: u64 = 1;

/// The low 32 bits of a time, which is all that a frame carries.
pub open spec fn frame_time(ms: u64) -> u32 {
    (ms % 0x1_0000_0000) as u32
}

impl StreamView {
    /// Whether `e` is an answer to what the stream asked for.
    pub open spec fn takes(self, e: EventView) -> bool {
        match e {
            EventView::Codec { avc420: _ } => self.place is Codec,
            EventView::Surface(_) => self.place is Surface,
            EventView::Mapped(_) => self.place is Setup,
            EventView::Header(Some(h)) => self.place is Header && h.len()
                == crate::avi::FILE_HEADER,
            EventView::Header(None) => self.place is Header,
            EventView::Stop(_) => self.place is Flag,
            EventView::Fetched(input) => self.place is Chunk && crate::avi::answers(
                crate::avi::want(self.avi),
                input,
            ) && match (self.avi, input) {
                (crate::avi::At::Kind(size), InputView::Bytes(b)) => crate::avi::le32(b, 0)
                    == crate::avi::TAG_MOVI || size >= 4,
                _ => true,
            },
            EventView::Clock(_) => self.place is Clock,
            EventView::Channel { ready: _, busy: _ } => self.place is Channel,
            EventView::Napped => self.place is Nap,
            EventView::Sent(_) => self.place is Sending,
            EventView::Flushed(_) => self.place is Flushing,
        }
    }

    /// The stream at another place.
    pub open spec fn to(self, place: Place) -> StreamView {
        StreamView { place, ..self }
    }

    /// The stream's end.
    pub open spec fn over(self, end: End) -> (StreamView, ActionView) {
        (self.to(Place::Over), ActionView::Finish { end })
    }

    /// The stream after an answer, and what it asks for next.
    pub open spec fn advance(self, e: EventView) -> (StreamView, ActionView) {
        match e {
            EventView::Codec { avc420 } => (
                StreamView { avc420, ..self.to(Place::Surface) },
                ActionView::CreateSurface,
            ),
            EventView::Surface(None) => self.over(End::NoSurface),
            EventView::Surface(Some(surface)) => (
                StreamView { surface, ..self.to(Place::Setup) },
                ActionView::MapSurface { surface },
            ),
            EventView::Mapped(false) => self.over(End::NotFlushed),
            EventView::Mapped(true) => if self.avc420 {
                (
                    self.to(Place::Header),
                    ActionView::Start {
                        mode: Mode::of_gfx(true),
                        header: crate::avi::FILE_HEADER,
                    },
                )
            } else {
                (
                    self.to(Place::Over),
                    ActionView::Switch {
                        mode: Mode::of_gfx(false),
                        end: End::Planar { surface: self.surface },
                    },
                )
            },
            EventView::Header(None) => self.over(End::Truncated),
            EventView::Header(Some(h)) => if crate::avi::le32(h, 0) == crate::avi::TAG_RIFF
                && crate::avi::le32(h, 8) == crate::avi::TAG_AVI {
                (
                    StreamView { avi: crate::avi::At::Chunk, ..self.to(Place::Flag) },
                    ActionView::CheckStop,
                )
            } else {
                self.over(End::NotAvi)
            },
            EventView::Stop(true) => self.over(End::Stopped),
            EventView::Stop(false) => (
                self.to(Place::Chunk),
                ActionView::Fetch { want: crate::avi::want(self.avi) },
            ),
            EventView::Fetched(input) => {
                let (avi, step) = crate::avi::step(self.avi, input);
                let fed = StreamView { avi, ..self };
                match step {
                    StepView::More => (fed, ActionView::Fetch { want: crate::avi::want(avi) }),
                    StepView::Frame(frame) => (
                        StreamView { frame, ..fed.to(Place::Clock) },
                        ActionView::ReadClock,
                    ),
                    StepView::End => fed.over(End::Ended),
                    StepView::Truncated => fed.over(End::Truncated),
                }
            },
            EventView::Clock(ms) => (
                StreamView { ms: frame_time(ms), ..self.to(Place::Channel) },
                ActionView::AskChannel,
            ),
            EventView::Channel { ready, busy } => if !ready {
                self.over(End::Closed)
            } else if busy {
                (self.to(Place::Nap), ActionView::Nap { pause: NAP_MS })
            } else {
                (
                    StreamView { frame: Seq::empty(), ..self.to(Place::Sending) },
                    ActionView::Send { surface: self.surface, frame: self.frame, ms: self.ms },
                )
            },
            EventView::Napped => (self.to(Place::Channel), ActionView::AskChannel),
            EventView::Sent(false) => self.over(End::NotSent),
            EventView::Sent(true) => (self.to(Place::Flushing), ActionView::Flush),
            EventView::Flushed(false) => self.over(End::NotFlushed),
            EventView::Flushed(true) => (self.to(Place::Flag), ActionView::CheckStop),
        }
    }
}

impl Stream {
    /// A new client's stream. It first asks what the client takes.
    pub fn new() -> (r: (Stream, Action))
        ensures
            r.0@ == (StreamView {
                place: Place::Codec,
                avc420: false,
                surface: 0,
                avi: crate::avi::At::Chunk,
                frame: Seq::empty(),
                ms: 0,
            }),
            r.1@ == ActionView::AskCodec,
    {
        (
            Stream {
                place: Place::Codec,
                avc420: false,
                surface: 0,
                avi: Avi::Chunk,
                frame: Vec::new(),
                ms: 0,
            },
            Action::AskCodec,
        )
    }

    fn finish(&mut self, end: End) -> (r: Action)
        ensures
            (final(self)@, r@) == old(self)@.over(end),
    {
        self.place = Place::Over;
        Action::Finish { end }
    }

    fn fetched(&mut self, input: Input) -> (r: Action)
        requires
            old(self)@.takes(EventView::Fetched(input@)),
        ensures
            (final(self)@, r@) == old(self)@.advance(EventView::Fetched(input@)),
    {
        match self.avi.next_frame(input) {
            Step::More => Action::Fetch { want: self.avi.wants() },
            Step::Frame(frame) => {
                self.frame = frame;
                self.place = Place::Clock;
                Action::ReadClock
            },
            Step::End => self.finish(End::Ended),
            Step::Truncated => self.finish(End::Truncated),
        }
    }

    /// Takes an answer and says what is asked for next.
    pub fn step(&mut self, e: Event) -> (r: Action)
        requires
            old(self)@.takes(e@),
        ensures
            (final(self)@, r@) == old(self)@.advance(e@),
    {
        match e {
            Event::Codec { avc420 } => {
                self.avc420 = avc420;
                self.place = Place::Surface;
                Action::CreateSurface
            },
            Event::Surface(None) => self.finish(End::NoSurface),
            Event::Surface(Some(surface)) => {
                self.surface = surface;
                self.place = Place::Setup;
                Action::MapSurface { surface }
            },
            Event::Mapped(ok) => if !ok {
                self.finish(End::NotFlushed)
            } else if self.avc420 {
                self.place = Place::Header;
                Action::Start { mode: Mode::negotiated(true), header: crate::avi::FILE_HEADER }
            } else {
                self.place = Place::Over;
                Action::Switch {
                    mode: Mode::negotiated(false),
                    end: End::Planar { surface: self.surface },
                }
            },
            Event::Header(None) => self.finish(End::Truncated),
            Event::Header(Some(h)) => match Avi::new(h.as_slice()) {
                Ok(avi) => {
                    self.avi = avi;
                    self.place = Place::Flag;
                    Action::CheckStop
                },
                Err(_) => self.finish(End::NotAvi),
            },
            Event::Stop(stop) => if stop {
                self.finish(End::Stopped)
            } else {
                self.place = Place::Chunk;
                Action::Fetch { want: self.avi.wants() }
            },
            Event::Fetched(input) => self.fetched(input),
            Event::Clock(ms) => {
                self.ms = (ms % 0x1_0000_0000) as u32;
                self.place = Place::Channel;
                Action::AskChannel
            },
            Event::Channel { ready, busy } => if !ready {
                self.finish(End::Closed)
            } else if busy {
                self.place = Place::Nap;
                Action::Nap { pause: NAP_MS }
            } else {
                let mut frame: Vec<u8> = Vec::new();
                core::mem::swap(&mut self.frame, &mut frame);
                self.place = Place::Sending;
                Action::Send { surface: self.surface, frame, ms: self.ms }
            },
            Event::Napped => {
                self.place = Place::Channel;
                Action::AskChannel
            },
            Event::Sent(ok) => if ok {
                self.place = Place::Flushing;
                Action::Flush
            } else {
                self.finish(End::NotSent)
            },
            Event::Flushed(ok) => if ok {
                self.place = Place::Flag;
                Action::CheckStop
            } else {
                self.finish(End::NotFlushed)
            },
        }
    }
}

// ------------------------------------------------------------ whole streams

/// What a row of answers makes of a stream: where it stands, the frames that came out of
/// the encoder, those that were handed over to be sent, and how it ended.
pub struct History {
    pub stream: StreamView,
    pub got: Seq<Seq<u8>>,
    pub sent: Seq<Seq<u8>>,
    pub end: Option<End>,
}

/// The frame that an answer brings.
pub open spec fn brings(s: StreamView, e: EventView) -> Seq<Seq<u8>> {
    match e {
        EventView::Fetched(input) => match crate::avi::step(s.avi, input).1 {
            StepView::Frame(frame) => seq![frame],
            _ => Seq::empty(),
        },
        _ => Seq::empty(),
    }
}

/// The frame that an action hands over.
pub open spec fn hands_over(a: ActionView) -> Seq<Seq<u8>> {
    match a {
        ActionView::Send { surface: _, frame, ms: _ } => seq![frame],
        _ => Seq::empty(),
    }
}

/// How an action ends the stream, if it does.
pub open spec fn ends(a: ActionView) -> Option<End> {
    match a {
        ActionView::Finish { end } => Some(end),
        ActionView::Switch { mode: _, end } => Some(end),
        _ => None,
    }
}

/// The history of a stream that started at `s`.
pub open spec fn history(s: StreamView, es: Seq<EventView>) -> History
    decreases es.len(),
{
    if es.len() == 0 {
        History { stream: s, got: Seq::empty(), sent: Seq::empty(), end: None }
    } else {
        let h = history(s, es.drop_last());
        let (stream, action) = h.stream.advance(es.last());
        History {
            stream,
            got: h.got + brings(h.stream, es.last()),
            sent: h.sent + hands_over(action),
            end: ends(action),
        }
    }
}

/// Whether every answer was asked for.
pub open spec fn orderly(s: StreamView, es: Seq<EventView>) -> bool
    decreases es.len(),
{
    es.len() == 0 || orderly(s, es.drop_last()) && history(s, es.drop_last()).stream.takes(
        es.last(),
    )
}

impl History {
    /// Whether a frame waits to be sent.
    pub open spec fn waits(self) -> bool {
        self.stream.place is Clock || self.stream.place is Channel || self.stream.place is Nap
    }
}

/// Frames go out in the order in which the encoder made them, each once and unchanged,
/// however long the client makes them wait. Where the stream is not over, none is left
/// out but the one that waits.
pub proof fn law_frames_go_out_in_order(s: StreamView, es: Seq<EventView>)
    requires
        s.place is Codec,
        orderly(s, es),
    ensures
        ({
            let h = history(s, es);
            &&& h.waits() ==> h.got == h.sent.push(h.stream.frame)
            &&& !h.waits() && !(h.stream.place is Over) ==> h.got == h.sent
            &&& h.stream.place is Over ==> h.got == h.sent || exists|f: Seq<u8>|
                h.got == #[trigger] h.sent.push(f)
        }),
    decreases es.len(),
{
    if es.len() > 0 {
        let e = es.last();
        law_frames_go_out_in_order(s, es.drop_last());
        let b = history(s, es.drop_last());
        let h = history(s, es);
        let (stream, action) = b.stream.advance(e);
        if brings(b.stream, e).len() == 0 {
            assert(h.got =~= b.got);
        }
        if hands_over(action).len() == 0 {
            assert(h.sent =~= b.sent);
        }
        if e is Fetched && brings(b.stream, e).len() == 1 {
            assert(h.got =~= h.sent.push(stream.frame));
        }
        if hands_over(action).len() == 1 {
            assert(h.sent =~= b.sent.push(b.stream.frame));
        }
    }
}

/// What is left of the encoder's output `out` after a row of answers.
pub open spec fn left(s: StreamView, es: Seq<EventView>, out: Seq<u8>) -> Seq<u8>
    decreases es.len(),
{
    if es.len() == 0 {
        out
    } else {
        let rest = left(s, es.drop_last(), out);
        match es.last() {
            EventView::Header(Some(h)) => rest.skip(crate::avi::FILE_HEADER as int),
            EventView::Fetched(_) => crate::avi::serve(
                crate::avi::want(history(s, es.drop_last()).stream.avi),
                rest,
            ).1,
            _ => rest,
        }
    }
}

/// Whether every answer about the encoder's output is what that output, `out`, has at its
/// place.
pub open spec fn reads_from(s: StreamView, es: Seq<EventView>, out: Seq<u8>) -> bool
    decreases es.len(),
{
    es.len() == 0 || reads_from(s, es.drop_last(), out) && {
        let rest = left(s, es.drop_last(), out);
        match es.last() {
            EventView::Header(h) => h == if rest.len() < crate::avi::FILE_HEADER {
                None
            } else {
                Some(rest.take(crate::avi::FILE_HEADER as int))
            },
            EventView::Fetched(input) => input == crate::avi::serve(
                crate::avi::want(history(s, es.drop_last()).stream.avi),
                rest,
            ).0,
            _ => true,
        }
    }
}

/// The frames that a reader at a place gets out of the rest of a stream.
spec fn to_come(at: crate::avi::At, rest: Seq<u8>) -> Seq<Seq<u8>> {
    match crate::avi::run(at, rest) {
        (StepView::Frame(f), more) => seq![f] + crate::avi::frames(more),
        _ => Seq::empty(),
    }
}

proof fn lemma_to_come(rest: Seq<u8>)
    ensures
        to_come(crate::avi::At::Chunk, rest) == crate::avi::frames(rest),
{
    crate::avi::law_requests_follow_the_stream(rest);
    crate::avi::lemma_next_shrinks(rest);
}

/// Whether the encoder's output is being read.
spec fn reading(place: Place) -> bool {
    place is Flag || place is Chunk || place is Clock || place is Channel || place is Nap || place
        is Sending || place is Flushing
}

/// What came out of the encoder and what is still to come are its frames; between two
/// frames the reader stands before a chunk.
#[verifier::spinoff_prover]
#[verifier::rlimit(40)]
proof fn lemma_frames_read(s: StreamView, es: Seq<EventView>, out: Seq<u8>)
    requires
        s.place is Codec,
        orderly(s, es),
        reads_from(s, es, out),
    ensures
        ({
            let h = history(s, es);
            let rest = left(s, es, out);
            let all = crate::avi::frames(out.skip(crate::avi::FILE_HEADER as int));
            &&& reading(h.stream.place) ==> h.got + to_come(h.stream.avi, rest) == all
            &&& reading(h.stream.place) && !(h.stream.place is Chunk) ==> h.stream.avi
                == crate::avi::At::Chunk
            &&& !reading(h.stream.place) && !(h.stream.place is Over) ==> rest == out && h.got
                == Seq::<Seq<u8>>::empty()
            &&& h.got.is_prefix_of(all)
            &&& h.end == Some(End::Ended) ==> h.got == all
        }),
    decreases es.len(),
{
    let all = crate::avi::frames(out.skip(crate::avi::FILE_HEADER as int));
    if es.len() > 0 {
        let e = es.last();
        lemma_frames_read(s, es.drop_last(), out);
        let b = history(s, es.drop_last());
        let h = history(s, es);
        let before = left(s, es.drop_last(), out);
        let rest = left(s, es, out);
        if brings(b.stream, e).len() == 0 {
            assert(h.got =~= b.got);
        }
        if e is Header {
            lemma_to_come(rest);
            assert(h.got + all =~= all);
        }
        if let EventView::Fetched(input) = e {
            let (avi, told) = crate::avi::step(b.stream.avi, input);
            assert(crate::avi::serve(crate::avi::want(b.stream.avi), before) == (input, rest));
            reveal_with_fuel(crate::avi::run, 2);
            assert(crate::avi::run(b.stream.avi, before) == if told is More {
                crate::avi::run(avi, rest)
            } else {
                (told, rest)
            });
            if let StepView::Frame(f) = told {
                lemma_to_come(rest);
                assert(h.got + crate::avi::frames(rest) =~= b.got + (seq![f]
                    + crate::avi::frames(rest)));
            } else if !(told is More) {
                assert(b.got + Seq::<Seq<u8>>::empty() =~= b.got);
            }
        }
    }
}

/// The frames that are handed over to be sent are those of the encoder's output, in order
/// and from the first, none changed and none left out. When the output ends, all of them
/// have been.
pub proof fn law_client_gets_the_encoders_frames(
    s: StreamView,
    es: Seq<EventView>,
    out: Seq<u8>,
)
    requires
        s.place is Codec,
        orderly(s, es),
        reads_from(s, es, out),
    ensures
        ({
            let h = history(s, es);
            let all = crate::avi::frames(out.skip(crate::avi::FILE_HEADER as int));
            &&& h.sent.is_prefix_of(all)
            &&& h.end == Some(End::Ended) ==> h.sent == all
        }),
{
    law_frames_go_out_in_order(s, es);
    lemma_frames_read(s, es, out);
    let h = history(s, es);
    if h.end == Some(End::Ended) {
        law_frames_go_out_in_order(s, es.drop_last());
        let b = history(s, es.drop_last());
        assert(h.got =~= b.got);
        assert(h.sent =~= b.sent);
    }
}

/// The same of an output that is written part by part: what is sent is the frames among
/// the parts.
pub proof fn law_client_gets_the_frames_that_were_written(
    s: StreamView,
    es: Seq<EventView>,
    header: Seq<u8>,
    parts: Seq<crate::avi::Part>,
)
    requires
        s.place is Codec,
        header.len() == crate::avi::FILE_HEADER,
        crate::avi::streamable(parts),
        orderly(s, es),
        reads_from(s, es, header + crate::avi::stream_of(parts)),
    ensures
        ({
            let h = history(s, es);
            &&& h.sent.is_prefix_of(crate::avi::frames_in(parts))
            &&& h.end == Some(End::Ended) ==> h.sent == crate::avi::frames_in(parts)
        }),
{
    let out = header + crate::avi::stream_of(parts);
    law_client_gets_the_encoders_frames(s, es, out);
    crate::avi::law_every_frame_comes_back(parts);
    assert(out.skip(crate::avi::FILE_HEADER as int) =~= crate::avi::stream_of(parts));
}

/// A stream that is over asks for nothing more.
pub proof fn law_over_is_over(s: StreamView, e: EventView)
    requires
        s.place is Over,
    ensures
        !s.takes(e),
{
}

/// While too many frames are under way nothing is sent, and what waits stays as it is.
pub proof fn law_backlog_holds_the_frame(s: StreamView)
    requires
        s.place is Channel,
    ensures
        ({
            let (resting, nap) = s.advance(EventView::Channel { ready: true, busy: true });
            &&& nap is Nap
            &&& resting.advance(EventView::Napped) == (s, ActionView::AskChannel)
        }),
{
}

// ------------------------------------------------------------ steps of a stream

/// The last time that was read off the clock.
pub open spec fn last_clock(es: Seq<EventView>) -> Option<u64>
    decreases es.len(),
{
    if es.len() == 0 {
        None
    } else {
        match es.last() {
            EventView::Clock(ms) => Some(ms),
            _ => last_clock(es.drop_last()),
        }
    }
}

/// What a stream asks for after a row of answers.
pub open spec fn asks_for(s: StreamView, es: Seq<EventView>) -> ActionView {
    history(s, es.drop_last()).stream.advance(es.last()).1
}

/// What a stream keeps of its first answers.
proof fn lemma_kept(s: StreamView, es: Seq<EventView>)
    requires
        s.place is Codec,
        orderly(s, es),
    ensures
        ({
            let v = history(s, es).stream;
            &&& v.place is Codec <==> es.len() == 0
            &&& es.len() == 1 ==> v.place is Surface
            &&& v.place is Surface ==> es.len() == 1
            &&& es.len() >= 1 ==> es[0] == (EventView::Codec { avc420: v.avc420 })
            &&& es.len() >= 2 && !(v.place is Over) ==> es[1] == EventView::Surface(
                Some(v.surface),
            )
            &&& v.place is Setup ==> es.len() == 2
            &&& v.place is Channel || v.place is Nap ==> last_clock(es) is Some && v.ms
                == last_clock(es)->0 as int % 0x1_0000_0000
        }),
    decreases es.len(),
{
    if es.len() > 0 {
        let b = es.drop_last();
        lemma_kept(s, b);
        assert(b.len() >= 1 ==> b[0] == es[0]);
        assert(b.len() >= 2 ==> b[1] == es[1]);
    }
}

/// A stream first learns the client's codec, then makes a surface, and then maps that
/// surface. A client that takes AVC420 gets H.264, of which twelve bytes are read first; any
/// other gets planar bitmaps on the surface that was made. Every frame goes to that surface,
/// with the low 32 bits of the time that was read last.
pub proof fn law_stream_keeps_to_its_surface(s: StreamView, es: Seq<EventView>)
    requires
        s.place is Codec,
        orderly(s, es),
        es.len() > 0,
    ensures
        asks_for(s, es) is CreateSurface <==> es.len() == 1,
        asks_for(s, es) matches ActionView::MapSurface { surface } ==> es.len() == 2 && es[1]
            == EventView::Surface(Some(surface)),
        asks_for(s, es) matches ActionView::Start { mode, header } ==> es.len() == 3 && mode
            == Mode::Avc && header == 12 && es[0] == (EventView::Codec { avc420: true }),
        asks_for(s, es) matches ActionView::Switch { mode, end } ==> {
            &&& es.len() == 3
            &&& es[0] == (EventView::Codec { avc420: false })
            &&& mode == Mode::Planar
            &&& end is Planar
            &&& es[1] == EventView::Surface(Some(end->surface))
        },
        asks_for(s, es) matches ActionView::Send { surface, frame: _, ms } ==> {
            &&& es[0] == (EventView::Codec { avc420: true })
            &&& es[1] == EventView::Surface(Some(surface))
            &&& last_clock(es) is Some
            &&& ms == last_clock(es)->0 as int % 0x1_0000_0000
        },
        es.len() == 3 && es[2] == EventView::Mapped(true) ==> asks_for(s, es) is Start || asks_for(
            s,
            es,
        ) is Switch,
{
    let b = es.drop_last();
    lemma_kept(s, b);
    lemma_started(s, b);
    assert(b.len() >= 1 ==> b[0] == es[0]);
    assert(b.len() >= 2 ==> b[1] == es[1]);
}

/// Beyond its setup a stream is one of a client that takes AVC420.
proof fn lemma_started(s: StreamView, es: Seq<EventView>)
    requires
        s.place is Codec,
        orderly(s, es),
    ensures
        ({
            let v = history(s, es).stream;
            es.len() >= 3 && !(v.place is Over) ==> v.avc420 && !(v.place is Setup)
        }),
    decreases es.len(),
{
    if es.len() > 0 {
        lemma_started(s, es.drop_last());
        lemma_kept(s, es.drop_last());
    }
}

/// What goes wrong ends the stream, and the end says what it was. Twelve bytes begin the
/// encoder's output: the letters of RIFF first and those of AVI last.
pub proof fn law_failures_end_the_stream(s: StreamView, h: Seq<u8>, busy: bool)
    requires
        h.len() >= 12,
    ensures
        s.advance(EventView::Surface(None)).1 == (ActionView::Finish { end: End::NoSurface }),
        s.advance(EventView::Mapped(false)).1 == (ActionView::Finish { end: End::NotFlushed }),
        s.advance(EventView::Header(None)).1 == (ActionView::Finish { end: End::Truncated }),
        s.advance(EventView::Stop(true)).1 == (ActionView::Finish { end: End::Stopped }),
        s.advance(EventView::Channel { ready: false, busy }).1 == (ActionView::Finish {
            end: End::Closed,
        }),
        s.advance(EventView::Sent(false)).1 == (ActionView::Finish { end: End::NotSent }),
        s.advance(EventView::Flushed(false)).1 == (ActionView::Finish { end: End::NotFlushed }),
        ({
            let riff = h[0] == 0x52 && h[1] == 0x49 && h[2] == 0x46 && h[3] == 0x46;
            let avi = h[8] == 0x41 && h[9] == 0x56 && h[10] == 0x49 && h[11] == 0x20;
            s.advance(EventView::Header(Some(h))).1 == if riff && avi {
                ActionView::CheckStop
            } else {
                ActionView::Finish { end: End::NotAvi }
            }
        }),
{
    crate::avi::law_tags_are_four_letters(h, 0);
    crate::avi::law_tags_are_four_letters(h, 8);
}

/// A stream that goes on asks for one thing after the other: whether to stop, a frame, the
/// time, whether the channel is free, a nap of a millisecond where it is not, the sending,
/// the flushing, and whether to stop again.
pub proof fn law_steps_follow_each_other(s: StreamView, ms: u64)
    ensures
        s.advance(EventView::Stop(false)).1 == (ActionView::Fetch {
            want: crate::avi::want(s.avi),
        }),
        s.advance(EventView::Clock(ms)).1 == ActionView::AskChannel,
        s.advance(EventView::Channel { ready: true, busy: true }).1 == (ActionView::Nap {
            pause: 1,
        }),
        s.advance(EventView::Channel { ready: true, busy: false }).1 == (ActionView::Send {
            surface: s.surface,
            frame: s.frame,
            ms: s.ms,
        }),
        s.advance(EventView::Napped).1 == ActionView::AskChannel,
        s.advance(EventView::Sent(true)).1 == ActionView::Flush,
        s.advance(EventView::Flushed(true)).1 == ActionView::CheckStop,
{
}

/// Whatever a stream asks for, it takes the answer to that.
pub proof fn law_answers_are_taken(s: StreamView, e: EventView)
    requires
        s.takes(e),
    ensures
        ({
            let (next, a) = s.advance(e);
            &&& a is CreateSurface ==> forall|x: Option<u16>|
                #[trigger] next.takes(EventView::Surface(x))
            &&& a is MapSurface ==> forall|x: bool| #[trigger] next.takes(EventView::Mapped(x))
            &&& a is Start ==> next.takes(EventView::Header(None)) && forall|h: Seq<u8>|
                h.len() == 12 ==> #[trigger] next.takes(EventView::Header(Some(h)))
            &&& a is CheckStop ==> forall|x: bool| #[trigger] next.takes(EventView::Stop(x))
            &&& a is Fetch ==> next.place is Chunk && a->want == crate::avi::want(next.avi)
            &&& a is ReadClock ==> forall|x: u64| #[trigger] next.takes(EventView::Clock(x))
            &&& a is AskChannel ==> forall|x: bool, y: bool|
                #[trigger] next.takes(EventView::Channel { ready: x, busy: y })
            &&& a is Nap ==> next.takes(EventView::Napped)
            &&& a is Send ==> forall|x: bool| #[trigger] next.takes(EventView::Sent(x))
            &&& a is Flush ==> forall|x: bool| #[trigger] next.takes(EventView::Flushed(x))
            &&& a is Switch || a is Finish ==> next.place is Over
            &&& !(a is AskCodec)
        }),
{
}

/// What is reported of each end. A stop, the encoder's own end and the change to planar
/// bitmaps are no failures.
pub proof fn law_reports_name_the_failure(end: End)
    ensures
        failure_text(end) is None <==> end is Stopped || end is Ended || end is Planar,
        end is NoSurface ==> failure_text(end) == Some("create_surface"@),
        end is NotFlushed ==> failure_text(end) == Some("flush"@),
        end is NotAvi ==> failure_text(end) == Some("not an AVI stream"@),
        end is Truncated ==> failure_text(end) == Some("AVI stream ended inside a chunk"@),
        end is Closed ==> failure_text(end) == Some("gfx channel closed"@),
        end is NotSent ==> failure_text(end) == Some("send_avc420_frame"@),
{
}

/// Pictures of H.264 are the largest multiples of 16 that fit; others have the session's
/// size.
pub proof fn law_pictures_fit_the_session(mode: Mode, width: u16, height: u16)
    ensures
        ({
            let (w, h) = picture(mode, width, height);
            if mode is Avc {
                &&& w % 16 == 0 && h % 16 == 0
                &&& w <= width < w + 16
                &&& h <= height < h + 16
            } else {
                w == width && h == height
            }
        }),
{
}

} // verus!
