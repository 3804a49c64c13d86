use rdesk::avi::{Avi, Input, NotAvi, Step, Want};

fn chunk(tag: &[u8; 4], size: u32) -> Vec<u8> {
    let mut v = tag.to_vec();
    v.extend_from_slice(&size.to_le_bytes());
    v
}

fn header() -> Vec<u8> {
    let mut v = chunk(b"RIFF", 0xffff_ffff);
    v.extend_from_slice(b"AVI ");
    v
}

/// Reads all frames of a stream, and how it ended.
fn frames(stream: &[u8]) -> (Vec<Vec<u8>>, Step) {
    let mut avi = match Avi::new(&stream[..12]) {
        Ok(avi) => avi,
        Err(_) => panic!("not an AVI stream"),
    };
    let mut rest = &stream[12..];
    let mut got = vec![];
    loop {
        let input = match avi.wants() {
            Want::Read(n) if n <= rest.len() => {
                let (now, later) = rest.split_at(n);
                rest = later;
                Input::Bytes(now.to_vec())
            }
            Want::Read(_) => Input::Eof,
            Want::Skip(n) => {
                rest = &rest[(n as usize).min(rest.len())..];
                Input::Skipped
            }
        };
        match avi.next_frame(input) {
            Step::More => {}
            Step::Frame(f) => got.push(f),
            end => return (got, end),
        }
    }
}

#[test]
fn avi_header_is_checked() {
    assert!(Avi::new(&header()).is_ok());
    let mut wrong = header();
    wrong[0] = b'X';
    assert_eq!(Avi::new(&wrong).err(), Some(NotAvi));
    let mut wrong = header();
    wrong[11] = b'X';
    assert_eq!(Avi::new(&wrong).err(), Some(NotAvi));
}

#[test]
fn avi_frames_come_back_with_their_sizes() {
    let mut s = header();
    s.extend(chunk(b"LIST", 8));
    s.extend_from_slice(b"hdrlabcd");
    s.extend(chunk(b"JUNK", 3));
    s.extend_from_slice(&[0; 4]);
    s.extend(chunk(b"LIST", 0xffff_ffff));
    s.extend_from_slice(b"movi");
    s.extend(chunk(b"00dc", 4));
    s.extend_from_slice(&[1, 2, 3, 4]);
    s.extend(chunk(b"00dc", 3));
    s.extend_from_slice(&[5, 6, 7, 77]);
    s.extend(chunk(b"01wb", 2));
    s.extend_from_slice(&[9, 9]);
    s.extend(chunk(b"00dc", 0));
    let (got, end) = frames(&s);
    assert_eq!(got, vec![vec![1, 2, 3, 4], vec![5, 6, 7], vec![]]);
    assert!(matches!(end, Step::End));
}

#[test]
fn avi_end_inside_a_frame_is_told() {
    let mut s = header();
    s.extend(chunk(b"00dc", 4));
    s.extend_from_slice(&[1, 2]);
    let (got, end) = frames(&s);
    assert!(got.is_empty());
    assert!(matches!(end, Step::Truncated));
}

#[test]
fn avi_end_inside_a_chunk_header_is_an_end() {
    let mut s = header();
    s.extend_from_slice(b"00d");
    assert!(matches!(frames(&s).1, Step::End));
}

#[test]
fn avi_padding_may_be_missing_at_the_end() {
    let mut s = header();
    s.extend(chunk(b"00dc", 1));
    s.push(8);
    let (got, end) = frames(&s);
    assert_eq!(got, vec![vec![8]]);
    assert!(matches!(end, Step::End));
}

#[test]
fn avi_skip_that_fails_is_an_end_inside_a_chunk() {
    let mut avi = Avi::Chunk;
    assert!(matches!(avi.next_frame(Input::Bytes(chunk(b"JUNK", 3))), Step::More));
    assert_eq!(avi.wants(), Want::Skip(4));
    assert!(matches!(avi.next_frame(Input::Failed), Step::Truncated));

    let mut avi = Avi::Chunk;
    assert!(matches!(avi.next_frame(Input::Bytes(chunk(b"00dc", 1))), Step::More));
    assert!(matches!(avi.next_frame(Input::Bytes(vec![9])), Step::More));
    assert_eq!(avi.wants(), Want::Skip(1));
    assert!(matches!(avi.next_frame(Input::Failed), Step::Truncated));
}

#[test]
fn avi_lists_of_odd_size_are_passed_by_their_size() {
    let mut s = header();
    s.extend(chunk(b"LIST", 5));
    s.extend_from_slice(b"INFOx");
    s.extend(chunk(b"00dc", 2));
    s.extend_from_slice(&[1, 2]);
    assert_eq!(frames(&s).0, vec![vec![1, 2]]);
}
