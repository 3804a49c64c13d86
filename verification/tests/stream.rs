use rdesk::avi::{Input, Want};
use rdesk::mode::Mode;
use rdesk::stream::{
    align16, align2, failure, flush, picture_size, region, stamp, Action, End, Event, Flush, Region, Stamp, Stream,
};

fn riff() -> Vec<u8> {
    b"RIFF\xff\xff\xff\xffAVI ".to_vec()
}

/// A stream that waits for its first chunk.
fn started() -> Stream {
    let (mut s, a) = Stream::new();
    assert!(matches!(a, Action::AskCodec));
    assert!(matches!(s.step(Event::Codec { avc420: true }), Action::CreateSurface));
    assert!(matches!(s.step(Event::Surface(Some(3))), Action::MapSurface { surface: 3 }));
    assert!(matches!(
        s.step(Event::Mapped(true)),
        Action::Start { mode: Mode::Avc, header: 12 }
    ));
    assert!(matches!(s.step(Event::Header(Some(riff()))), Action::CheckStop));
    s
}

/// Hands the stream a frame of two bytes.
fn fetch(s: &mut Stream, frame: [u8; 2]) {
    assert!(matches!(s.step(Event::Stop(false)), Action::Fetch { want: Want::Read(8) }));
    let head = b"00dc\x02\0\0\0".to_vec();
    assert!(matches!(
        s.step(Event::Fetched(Input::Bytes(head))),
        Action::Fetch { want: Want::Read(2) }
    ));
    assert!(matches!(
        s.step(Event::Fetched(Input::Bytes(frame.to_vec()))),
        Action::ReadClock
    ));
}

fn ended(a: Action) -> End {
    match a {
        Action::Finish { end } => end,
        _ => panic!("the stream goes on"),
    }
}

#[test]
fn dimensions_are_aligned() {
    assert_eq!((align16(1920), align16(1080), align16(15)), (1920, 1072, 0));
    assert_eq!((align2(1366), align2(767), align2(1)), (1366, 766, 0));
}

#[test]
fn pictures_have_the_size_that_their_codec_wants() {
    assert_eq!(picture_size(Mode::Avc, 1366, 768), (1360, 768));
    for m in [Mode::Planar, Mode::Legacy, Mode::Unknown] {
        assert_eq!(picture_size(m, 1366, 768), (1366, 768));
    }
}

#[test]
fn frames_carry_the_time_of_day() {
    let at = |hours, minutes, seconds, milliseconds| Stamp { milliseconds, seconds, minutes, hours };
    assert_eq!(stamp(0), at(0, 0, 0, 0));
    assert_eq!(stamp(86_399_999), at(23, 59, 59, 999));
    assert_eq!(stamp(86_400_000), at(0, 0, 0, 0));
    assert_eq!(stamp(3_723_004), at(1, 2, 3, 4));
}

#[test]
fn region_has_inclusive_bounds() {
    assert_eq!(
        region(1920, 1072),
        Region { left: 0, top: 0, right: 1919, bottom: 1071, quantization: 23, quality: 100 }
    );
}

#[test]
fn messages_are_flushed_when_they_can_be() {
    assert_eq!(flush(false, None, false), Flush::Nothing);
    assert_eq!(flush(true, None, true), Flush::NotOpen);
    assert_eq!(flush(true, Some(4), false), Flush::NoSender);
    assert_eq!(flush(true, Some(4), true), Flush::Send { channel: 4 });
}

#[test]
fn stream_sends_frames_in_order() {
    let mut s = started();
    for (n, frame) in [[1, 2], [3, 4]].into_iter().enumerate() {
        fetch(&mut s, frame);
        let ms = 0x1_0000_0000 + n as u64;
        assert!(matches!(s.step(Event::Clock(ms)), Action::AskChannel));
        match s.step(Event::Channel { ready: true, busy: false }) {
            Action::Send { surface, frame: sent, ms } => {
                assert_eq!((surface, sent, ms), (3, frame.to_vec(), n as u32));
            }
            _ => panic!("the frame is due"),
        }
        assert!(matches!(s.step(Event::Sent(true)), Action::Flush));
        assert!(matches!(s.step(Event::Flushed(true)), Action::CheckStop));
    }
    assert_eq!(ended(s.step(Event::Stop(true))), End::Stopped);
}

#[test]
fn stream_waits_for_acknowledgements() {
    let mut s = started();
    fetch(&mut s, [1, 2]);
    s.step(Event::Clock(5));
    for _ in 0..3 {
        assert!(matches!(
            s.step(Event::Channel { ready: true, busy: true }),
            Action::Nap { pause: 1 }
        ));
        assert!(matches!(s.step(Event::Napped), Action::AskChannel));
    }
    match s.step(Event::Channel { ready: true, busy: false }) {
        Action::Send { frame, ms, .. } => assert_eq!((frame, ms), (vec![1, 2], 5)),
        _ => panic!("the frame is due"),
    }
}

#[test]
fn client_that_refuses_h264_gets_planes() {
    let (mut s, _) = Stream::new();
    s.step(Event::Codec { avc420: false });
    s.step(Event::Surface(Some(9)));
    match s.step(Event::Mapped(true)) {
        Action::Switch { mode, end } => {
            assert_eq!((mode, end), (Mode::Planar, End::Planar { surface: 9 }));
        }
        _ => panic!("the stream switches"),
    }
}

#[test]
fn stream_tells_how_it_ended() {
    let (mut s, _) = Stream::new();
    s.step(Event::Codec { avc420: true });
    assert_eq!(ended(s.step(Event::Surface(None))), End::NoSurface);

    let (mut s, _) = Stream::new();
    s.step(Event::Codec { avc420: true });
    s.step(Event::Surface(Some(1)));
    assert_eq!(ended(s.step(Event::Mapped(false))), End::NotFlushed);

    let (mut s, _) = Stream::new();
    s.step(Event::Codec { avc420: true });
    s.step(Event::Surface(Some(1)));
    s.step(Event::Mapped(true));
    assert_eq!(ended(s.step(Event::Header(Some(vec![0; 12])))), End::NotAvi);

    let (mut s, _) = Stream::new();
    s.step(Event::Codec { avc420: true });
    s.step(Event::Surface(Some(1)));
    s.step(Event::Mapped(true));
    assert_eq!(ended(s.step(Event::Header(None))), End::Truncated);

    let mut s = started();
    s.step(Event::Stop(false));
    assert_eq!(ended(s.step(Event::Fetched(Input::Eof))), End::Ended);

    let mut s = started();
    s.step(Event::Stop(false));
    s.step(Event::Fetched(Input::Bytes(b"00dc\x02\0\0\0".to_vec())));
    assert_eq!(ended(s.step(Event::Fetched(Input::Eof))), End::Truncated);

    let mut s = started();
    s.step(Event::Stop(false));
    s.step(Event::Fetched(Input::Bytes(b"JUNK\x02\0\0\0".to_vec())));
    assert_eq!(ended(s.step(Event::Fetched(Input::Failed))), End::Truncated);

    let mut s = started();
    fetch(&mut s, [1, 2]);
    s.step(Event::Clock(0));
    assert_eq!(ended(s.step(Event::Channel { ready: false, busy: true })), End::Closed);

    let mut s = started();
    fetch(&mut s, [1, 2]);
    s.step(Event::Clock(0));
    s.step(Event::Channel { ready: true, busy: false });
    assert_eq!(ended(s.step(Event::Sent(false))), End::NotSent);

    let mut s = started();
    fetch(&mut s, [1, 2]);
    s.step(Event::Clock(0));
    s.step(Event::Channel { ready: true, busy: false });
    s.step(Event::Sent(true));
    assert_eq!(ended(s.step(Event::Flushed(false))), End::NotFlushed);
}

#[test]
fn failures_are_reported() {
    for end in [End::Stopped, End::Ended, End::Planar { surface: 1 }] {
        assert_eq!(failure(end), None);
    }
    assert_eq!(failure(End::NoSurface), Some("create_surface"));
    assert_eq!(failure(End::NotFlushed), Some("flush"));
    assert_eq!(failure(End::NotAvi), Some("not an AVI stream"));
    assert_eq!(failure(End::Truncated), Some("AVI stream ended inside a chunk"));
    assert_eq!(failure(End::Closed), Some("gfx channel closed"));
    assert_eq!(failure(End::NotSent), Some("send_avc420_frame"));
}

#[test]
fn stream_sends_every_frame_of_the_encoders_output() {
    let mut out: Vec<u8> = vec![];
    for part in [
        &b"LIST\x08\0\0\0hdrlabcd"[..],
        b"LIST\xff\xff\xff\xffmovi",
        b"00dc\x03\0\0\0abc\x55",
        b"JUNK\x01\0\0\0z\0",
        b"00dc\x02\0\0\0de",
        b"00dc\x01\0\0\0f",
    ] {
        out.extend_from_slice(part);
    }
    let mut s = started();
    let mut rest = &out[..];
    let mut sent = vec![];
    let mut action = s.step(Event::Stop(false));
    let end = loop {
        let event = match action {
            Action::Fetch { want: Want::Read(n) } if n <= rest.len() => {
                let (now, later) = rest.split_at(n);
                rest = later;
                Event::Fetched(Input::Bytes(now.to_vec()))
            }
            Action::Fetch { want: Want::Read(_) } => Event::Fetched(Input::Eof),
            Action::Fetch { want: Want::Skip(n) } => {
                rest = &rest[(n as usize).min(rest.len())..];
                Event::Fetched(Input::Skipped)
            }
            Action::ReadClock => Event::Clock(1),
            Action::AskChannel => Event::Channel { ready: true, busy: false },
            Action::Send { frame, .. } => {
                sent.push(frame);
                Event::Sent(true)
            }
            Action::Flush => Event::Flushed(true),
            Action::CheckStop => Event::Stop(false),
            Action::Finish { end } => break end,
            _ => panic!("the stream was set up"),
        };
        action = s.step(event);
    };
    assert_eq!(end, End::Ended);
    assert_eq!(sent, vec![b"abc".to_vec(), b"de".to_vec(), b"f".to_vec()]);
}
