//! The server's side of the older protocol: a client is told the size of the screen,
//! and then gets the encoder's output as it comes.

use crate::link::Link;
use crate::wire::{hello_message, video_message, VIDEO_CHUNK};
use vstd::prelude::*;

verus! {

/// How long a client has for its handshake, in seconds.
pub const HANDSHAKE_SECS: u64 = 5;

/// Where the session stands: the answer it waits for.
#[derive(Clone, Copy, PartialEq, Eq, Structural, Debug)]
pub enum ServeAt {
    Greeting,
    Starting,
    Flag,
    Encoder,
    Sending,
    Over,
}

/// What the session asks for.
pub enum ServeAction {
    /// Write these bytes to the client.
    Write(Vec<u8>),
    /// Start encoder, capture and input.
    Start,
    /// Whether the session is to stop.
    CheckStop,
    /// Read from the encoder, this many bytes at most.
    ReadEncoder { max: usize },
    /// Nothing was started; leave the client.
    Leave,
    /// Stop and end everything that was started; the session is over.
    TearDown,
}

/// The answer to an action.
pub enum ServeEvent {
    Wrote(bool),
    Started,
    Stop(bool),
    /// What the encoder gave: nothing if it failed, no bytes if it is done.
    Encoded(Option<Vec<u8>>),
}

/// Whether the frame `bytes` holds `plain`, as sealed on `before`, which leaves `after`.
pub open spec fn sends(
    before: crate::noise::Channel,
    plain: Seq<u8>,
    bytes: Seq<u8>,
    after: crate::noise::Channel,
) -> bool {
    exists|ct: Seq<u8>| #[trigger]
        before.seals(plain, ct, after) && bytes == crate::wire::frame(ct)
}

/// The session of a client whose handshake is done.
#[derive(Clone, Copy, PartialEq, Eq, Structural, Debug)]
pub struct Serve {
    pub at: ServeAt,
}

impl Serve {
    /// Whether `e` is an answer to what the session asked for. The encoder gives no
    /// more than was asked for.
    pub open spec fn takes(self, e: ServeEvent) -> bool {
        match e {
            ServeEvent::Wrote(_) => self.at is Greeting || self.at is Sending,
            ServeEvent::Started => self.at is Starting,
            ServeEvent::Stop(_) => self.at is Flag,
            ServeEvent::Encoded(Some(chunk)) => self.at is Encoder && chunk@.len() <= VIDEO_CHUNK,
            ServeEvent::Encoded(None) => self.at is Encoder,
        }
    }

    /// What an answer has sent to the client: the plaintext of a message.
    pub open spec fn says(self, e: ServeEvent) -> Option<Seq<u8>> {
        match e {
            ServeEvent::Encoded(Some(chunk)) => if chunk@.len() > 0 {
                Some(crate::wire::video(chunk@))
            } else {
                None
            },
            _ => None,
        }
    }

    /// Where an answer that sends nothing leads, and what is asked for there.
    pub open spec fn quietly(self, e: ServeEvent) -> (ServeAt, ServeAction) {
        match e {
            ServeEvent::Wrote(true) => if self.at is Greeting {
                (ServeAt::Starting, ServeAction::Start)
            } else {
                (ServeAt::Flag, ServeAction::CheckStop)
            },
            ServeEvent::Wrote(false) => if self.at is Greeting {
                (ServeAt::Over, ServeAction::Leave)
            } else {
                (ServeAt::Over, ServeAction::TearDown)
            },
            ServeEvent::Started => (ServeAt::Flag, ServeAction::CheckStop),
            ServeEvent::Stop(true) => (ServeAt::Over, ServeAction::TearDown),
            ServeEvent::Stop(false) => (
                ServeAt::Encoder,
                ServeAction::ReadEncoder { max: VIDEO_CHUNK },
            ),
            ServeEvent::Encoded(_) => (ServeAt::Over, ServeAction::TearDown),
        }
    }

    /// Greets a client with the size of the screen.
    pub fn greet(link: &mut Link, width: u16, height: u16) -> (r: (Serve, ServeAction))
        ensures
            match r.1 {
                ServeAction::Write(bytes) => r.0.at is Greeting && sends(
                    old(link).channel(),
                    crate::wire::hello(width, height),
                    bytes@,
                    final(link).channel(),
                ),
                action => action is Leave && r.0.at is Over && old(link).channel().send_nonce
                    == u64::MAX && final(link).channel() == old(link).channel(),
            },
            r.1 matches ServeAction::Write(bytes) ==> sends(
                old(link).channel(),
                seq![
                    0u8,
                    (width / 256) as u8,
                    (width % 256) as u8,
                    (height / 256) as u8,
                    (height % 256) as u8,
                ],
                bytes@,
                final(link).channel(),
            ),
    {
        proof {
            assert(crate::wire::hello(width, height) =~= seq![
                0u8,
                (width / 256) as u8,
                (width % 256) as u8,
                (height / 256) as u8,
                (height % 256) as u8,
            ]);
        }
        match link.send(hello_message(width, height).as_slice()) {
            Ok(bytes) => (Serve { at: ServeAt::Greeting }, ServeAction::Write(bytes)),
            Err(_) => (Serve { at: ServeAt::Over }, ServeAction::Leave),
        }
    }

    /// Takes an answer and says what is asked for next.
    pub fn step(&mut self, link: &mut Link, e: ServeEvent) -> (r: ServeAction)
        requires
            old(self).takes(e),
        ensures
            match old(self).says(e) {
                Some(plain) => match r {
                    ServeAction::Write(bytes) => final(self).at is Sending && sends(
                        old(link).channel(),
                        plain,
                        bytes@,
                        final(link).channel(),
                    ),
                    _ => r is TearDown && final(self).at is Over && old(link).channel().send_nonce
                        == u64::MAX && final(link).channel() == old(link).channel(),
                },
                None => (final(self).at, r) == old(self).quietly(e) && final(link).channel()
                    == old(link).channel(),
            },
    {
        match e {
            ServeEvent::Wrote(ok) => {
                let greeting: bool = match self.at {
                    ServeAt::Greeting => true,
                    _ => false,
                };
                if ok && greeting {
                    self.at = ServeAt::Starting;
                    ServeAction::Start
                } else if ok {
                    self.at = ServeAt::Flag;
                    ServeAction::CheckStop
                } else {
                    self.at = ServeAt::Over;
                    if greeting {
                        ServeAction::Leave
                    } else {
                        ServeAction::TearDown
                    }
                }
            },
            ServeEvent::Started => {
                self.at = ServeAt::Flag;
                ServeAction::CheckStop
            },
            ServeEvent::Stop(stop) => if stop {
                self.at = ServeAt::Over;
                ServeAction::TearDown
            } else {
                self.at = ServeAt::Encoder;
                ServeAction::ReadEncoder { max: VIDEO_CHUNK }
            },
            ServeEvent::Encoded(read) => {
                let chunk: Vec<u8> = match read {
                    Some(chunk) => chunk,
                    None => Vec::new(),
                };
                if chunk.len() > 0 {
                    match link.send(video_message(chunk.as_slice()).as_slice()) {
                        Ok(bytes) => {
                            self.at = ServeAt::Sending;
                            return ServeAction::Write(bytes);
                        },
                        Err(_) => {},
                    }
                }
                self.at = ServeAt::Over;
                ServeAction::TearDown
            },
        }
    }
}

/// Whether a step from `s` can lead to `t`, with what was asked for: as the session's
/// own contract has it, and no further.
pub open spec fn leads(s: Serve, e: ServeEvent, t: Serve) -> bool {
    match s.says(e) {
        Some(_) => t.at is Sending || t.at is Over,
        None => t.at == s.quietly(e).0,
    }
}

/// What a client is sent over a row of answers, each of which leads from one place to
/// the next: the size of the screen first.
pub open spec fn said(
    width: u16,
    height: u16,
    places: Seq<Serve>,
    es: Seq<ServeEvent>,
) -> Seq<Seq<u8>>
    decreases es.len(),
{
    if es.len() == 0 {
        seq![crate::wire::hello(width, height)]
    } else {
        let before = said(width, height, places, es.drop_last());
        match places[es.len() - 1].says(es.last()) {
            Some(plain) => if places[es.len() as int].at is Sending {
                before.push(plain)
            } else {
                before
            },
            None => before,
        }
    }
}

/// What the encoder gave over a row of answers and was sent.
pub open spec fn relayed(places: Seq<Serve>, es: Seq<ServeEvent>) -> Seq<u8>
    decreases es.len(),
{
    if es.len() == 0 {
        Seq::empty()
    } else {
        let before = relayed(places, es.drop_last());
        match es.last() {
            ServeEvent::Encoded(Some(chunk)) => if places[es.len() as int].at is Sending {
                before + chunk@
            } else {
                before
            },
            _ => before,
        }
    }
}

/// Everything that the encoder gave over a row of answers.
pub open spec fn encoded(es: Seq<ServeEvent>) -> Seq<u8>
    decreases es.len(),
{
    if es.len() == 0 {
        Seq::empty()
    } else {
        let before = encoded(es.drop_last());
        match es.last() {
            ServeEvent::Encoded(Some(chunk)) => before + chunk@,
            _ => before,
        }
    }
}

/// The video bytes of a row of messages, end to end.
pub open spec fn video_bytes(ms: Seq<Seq<u8>>) -> Seq<u8>
    decreases ms.len(),
{
    if ms.len() == 0 {
        Seq::empty()
    } else {
        video_bytes(ms.drop_last()) + ms.last().skip(1)
    }
}

/// Whether the answers were asked for, and each led to the next place.
pub open spec fn unfolds(places: Seq<Serve>, es: Seq<ServeEvent>) -> bool {
    &&& places.len() == es.len() + 1
    &&& places[0].at is Greeting
    &&& forall|i: int|
        0 <= i < es.len() ==> #[trigger] places[i].takes(es[i]) && leads(
            places[i],
            es[i],
            places[i + 1],
        )
}

/// A client is told the size of the screen first. Everything after that is video, in
/// messages of a chunk at most. Put end to end it is what the encoder gave, from the start and without a gap; only the chunk
/// at which a session ends can be missing.
pub proof fn law_client_gets_the_encoders_output(
    width: u16,
    height: u16,
    places: Seq<Serve>,
    es: Seq<ServeEvent>,
)
    requires
        unfolds(places, es),
    ensures
        ({
            let ms = said(width, height, places, es);
            &&& ms.len() > 0
            &&& ms[0] == crate::wire::hello(width, height)
            &&& forall|i: int|
                1 <= i < ms.len() ==> 1 < (#[trigger] ms[i]).len() <= VIDEO_CHUNK + 1 && ms[i][0]
                    == crate::wire::MSG_VIDEO
            &&& video_bytes(ms.skip(1)) == relayed(places, es)
            &&& relayed(places, es).is_prefix_of(encoded(es))
            &&& !(places.last().at is Over) ==> relayed(places, es) == encoded(es)
        }),
    decreases es.len(),
{
    let ms = said(width, height, places, es);
    if es.len() == 0 {
        assert(ms.skip(1) =~= Seq::empty());
    } else {
        let n = es.len() as int;
        let before = said(width, height, places.drop_last(), es.drop_last());
        assert forall|i: int| 0 <= i < es.drop_last().len() implies #[trigger] places.drop_last()[i].takes(
            es.drop_last()[i],
        ) && leads(
            places.drop_last()[i],
            es.drop_last()[i],
            places.drop_last()[i + 1],
        ) by {
            assert(places[i].takes(es[i]));
        }
        law_client_gets_the_encoders_output(width, height, places.drop_last(), es.drop_last());
        lemma_places(width, height, places, places.drop_last(), es.drop_last());
        assert(places[n - 1].takes(es[n - 1]));
        assert(!(places[n - 1].at is Over));
        assert(places.drop_last().last() == places[n - 1]);
        if let ServeEvent::Encoded(Some(chunk)) = es.last() {
            if chunk@.len() == 0 {
                assert(encoded(es.drop_last()) + chunk@ =~= encoded(es.drop_last()));
            }
        }
        if ms.len() > before.len() {
            let plain = ms.last();
            let chunk = es.last()->Encoded_0->0@;
            assert(plain == crate::wire::video(chunk));
            assert(plain.skip(1) =~= chunk);
            assert(ms.skip(1).drop_last() =~= before.skip(1));
        }
    }
}

proof fn lemma_places(
    width: u16,
    height: u16,
    a: Seq<Serve>,
    b: Seq<Serve>,
    es: Seq<ServeEvent>,
)
    requires
        a.len() > es.len(),
        b.len() > es.len(),
        forall|i: int| 0 <= i <= es.len() ==> a[i] == b[i],
    ensures
        said(width, height, a, es) == said(width, height, b, es),
        relayed(a, es) == relayed(b, es),
    decreases es.len(),
{
    if es.len() > 0 {
        lemma_places(width, height, a, b, es.drop_last());
    }
}

/// A session begins with the encoder once the greeting has gone out, and then asks, over and
/// over, whether to stop, for at most 32768 bytes of the encoder, and for their sending. A
/// greeting that does not go out ends it with nothing to tear down; all else that ends it
/// tears down what was started.
pub proof fn law_session_goes_round(greeted: Serve, sending: Serve, s: Serve)
    requires
        greeted.at is Greeting,
        sending.at is Sending,
    ensures
        greeted.quietly(ServeEvent::Wrote(true)) == (ServeAt::Starting, ServeAction::Start),
        greeted.quietly(ServeEvent::Wrote(false)) == (ServeAt::Over, ServeAction::Leave),
        sending.quietly(ServeEvent::Wrote(true)) == (ServeAt::Flag, ServeAction::CheckStop),
        sending.quietly(ServeEvent::Wrote(false)) == (ServeAt::Over, ServeAction::TearDown),
        s.quietly(ServeEvent::Started) == (ServeAt::Flag, ServeAction::CheckStop),
        s.quietly(ServeEvent::Stop(false)) == (
            ServeAt::Encoder,
            ServeAction::ReadEncoder { max: 32768 },
        ),
        s.quietly(ServeEvent::Stop(true)) == (ServeAt::Over, ServeAction::TearDown),
        s.quietly(ServeEvent::Encoded(None)) == (ServeAt::Over, ServeAction::TearDown),
{
}

/// What the encoder gives goes out behind a byte that says video, and nothing else goes
/// out; no bytes are its end.
pub proof fn law_chunks_go_out_as_video(s: Serve, chunk: Vec<u8>)
    ensures
        chunk@.len() == 0 ==> s.says(ServeEvent::Encoded(Some(chunk))) is None && s.quietly(
            ServeEvent::Encoded(Some(chunk)),
        ) == (ServeAt::Over, ServeAction::TearDown),
        chunk@.len() > 0 ==> s.says(ServeEvent::Encoded(Some(chunk))) == Some(seq![1u8] + chunk@),
        s.says(ServeEvent::Encoded(None)) is None,
        s.says(ServeEvent::Started) is None,
        s.says(ServeEvent::Stop(true)) is None,
        s.says(ServeEvent::Stop(false)) is None,
        s.says(ServeEvent::Wrote(true)) is None,
        s.says(ServeEvent::Wrote(false)) is None,
{
    if chunk@.len() > 0 {
        assert(crate::wire::video(chunk@) =~= seq![1u8] + chunk@);
    }
}

} // verus!
