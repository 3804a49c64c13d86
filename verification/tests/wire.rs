use rdesk::wire::{
    hello_message, parse_hello, parse_video, read_frame, u16_at, u32_at, video_message, write_frame,
    FrameStep, InputMessage, MAX_FRAME, MAX_PLAIN, VIDEO_CHUNK,
};

#[test]
fn reads_big_endian() {
    assert_eq!(u16_at(&[9, 0x12, 0x34], 1), 0x1234);
    assert_eq!(u32_at(&[0x12, 0x34, 0x56, 0x78], 0), 0x1234_5678);
    assert_eq!(u32_at(&[0, 0xff, 0xff, 0xff, 0xff], 1), u32::MAX);
}

#[test]
fn largest_plaintext_fits_one_message() {
    assert_eq!(MAX_PLAIN, 65519);
    assert_eq!(MAX_FRAME, 65535);
    assert!(video_message(&vec![7; VIDEO_CHUNK]).len() <= MAX_PLAIN);
}

#[test]
fn hello_carries_the_size() {
    assert_eq!(hello_message(1920, 1080), vec![0, 0x07, 0x80, 0x04, 0x38]);
    assert_eq!(parse_hello(&[0, 0x07, 0x80, 0x04, 0x38]), Some((1920, 1080)));
}

#[test]
fn hello_of_another_kind_or_length_is_refused() {
    assert_eq!(parse_hello(&[1, 0x07, 0x80, 0x04, 0x38]), None);
    assert_eq!(parse_hello(&[0, 0x07, 0x80, 0x04]), None);
    assert_eq!(parse_hello(&[0, 0x07, 0x80, 0x04, 0x38, 0]), None);
    assert_eq!(parse_hello(&[]), None);
}

#[test]
fn video_carries_the_chunk() {
    assert_eq!(video_message(&[5, 6]), vec![1, 5, 6]);
    assert_eq!(parse_video(&[1, 5, 6]), Some(vec![5, 6]));
    assert_eq!(parse_video(&[1]), Some(vec![]));
}

#[test]
fn anything_but_video_is_refused() {
    assert_eq!(parse_video(&[]), None);
    assert_eq!(parse_video(&[0, 5, 6]), None);
}

#[test]
fn input_messages_have_their_bytes() {
    assert_eq!(InputMessage::MouseMove { x: 0x102, y: 0x304 }.encode(), vec![2, 1, 2, 3, 4]);
    assert_eq!(InputMessage::MouseButton { button: 3, pressed: true }.encode(), vec![3, 3, 1]);
    assert_eq!(InputMessage::MouseButton { button: 3, pressed: false }.encode(), vec![3, 3, 0]);
    assert_eq!(
        InputMessage::Key { keysym: 0xff0d, pressed: true }.encode(),
        vec![4, 0, 0, 0xff, 0x0d, 1]
    );
}

#[test]
fn input_messages_come_back() {
    let all = vec![
        InputMessage::MouseMove { x: 0, y: 65535 },
        InputMessage::MouseButton { button: 7, pressed: false },
        InputMessage::Key { keysym: 0x0100_20ac, pressed: true },
    ];
    for m in all {
        assert_eq!(InputMessage::decode(&m.encode()), Some(m));
    }
}

#[test]
fn any_flag_but_zero_means_pressed() {
    assert_eq!(
        InputMessage::decode(&[3, 1, 200]),
        Some(InputMessage::MouseButton { button: 1, pressed: true })
    );
}

#[test]
fn input_of_another_length_is_refused() {
    assert_eq!(InputMessage::decode(&[2, 0, 0, 0]), None);
    assert_eq!(InputMessage::decode(&[3, 1]), None);
    assert_eq!(InputMessage::decode(&[4, 0, 0, 0, 0]), None);
    assert_eq!(InputMessage::decode(&[9]), None);
}

#[test]
fn frames_carry_their_length() {
    assert_eq!(write_frame(&[7, 8, 9]), vec![0, 3, 7, 8, 9]);
    assert_eq!(write_frame(&[]), vec![0, 0]);
    assert_eq!(write_frame(&vec![0; 300])[..2], [1, 44]);
}

#[test]
fn frames_are_read_in_two_steps() {
    assert!(matches!(read_frame(&[]), FrameStep::Need(2)));
    assert!(matches!(read_frame(&[0]), FrameStep::Need(1)));
    assert!(matches!(read_frame(&[1, 0]), FrameStep::Need(256)));
    assert!(matches!(read_frame(&[0, 3, 7]), FrameStep::Need(2)));
    match read_frame(&[0, 3, 7, 8, 9, 10]) {
        FrameStep::Frame(ct) => assert_eq!(ct, vec![7, 8, 9]),
        FrameStep::Need(_) => panic!("the frame is there"),
    }
    match read_frame(&[0, 0]) {
        FrameStep::Frame(ct) => assert!(ct.is_empty()),
        FrameStep::Need(_) => panic!("the frame is there"),
    }
}
