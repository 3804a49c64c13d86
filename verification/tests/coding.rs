use ironrdp_graphics::rdp6::BitmapStreamDecoder;
use rdesk::coding::{coded, crop, diagnostics, test_bitmap, Coding, Diagnostics};
use rdesk::tiles::{Canvas, Rect, BUDGET};

/// Four by two pixels, each with a blue of its own and the rest alike.
fn picture() -> Vec<u8> {
    (1..9u8).flat_map(|b| [b, 20, 30, 0]).collect()
}

const RIGHT: Rect = Rect { left: 2, top: 0, right: 4, bottom: 2 };

#[test]
fn rectangles_are_cropped() {
    assert_eq!(
        crop(&picture(), 4, 2, RIGHT),
        vec![3, 20, 30, 0, 4, 20, 30, 0, 7, 20, 30, 0, 8, 20, 30, 0]
    );
    assert_eq!(crop(&picture(), 4, 2, Rect { left: 0, top: 0, right: 4, bottom: 2 }), picture());
}

#[test]
fn rectangles_are_coded() {
    assert_eq!(coded(Coding::Off, &picture(), 4, 2, RIGHT), crop(&picture(), 4, 2, RIGHT));
    assert_eq!(
        coded(Coding::Raw, &picture(), 4, 2, RIGHT),
        vec![0x20, 30, 30, 30, 30, 20, 20, 20, 20, 3, 4, 7, 8, 0]
    );
    let row = Rect { left: 0, top: 0, right: 4, bottom: 1 };
    assert_eq!(
        coded(Coding::Rle, &picture(), 4, 2, row),
        vec![0x30, 0x13, 30, 0x13, 20, 0x40, 1, 2, 3, 4]
    );
}

#[test]
fn run_lengths_decode_to_the_picture() {
    let (w, h) = (70u16, 64u16);
    let mut new = vec![];
    for y in 0..h as u32 {
        for x in 0..w as u32 {
            let v = x * x * 31 + y * 17 * (x % 5);
            new.extend_from_slice(&[v as u8, (v / 3) as u8, (v / 64) as u8, 0]);
        }
    }
    let mut c = Canvas::new(w, h);
    let patches = c.update(&new, Coding::Rle, BUDGET);
    assert_eq!(patches.len(), 1);
    let mut rgb = vec![];
    BitmapStreamDecoder::default()
        .decode_bitmap_stream_to_rgb24(&patches[0].data, &mut rgb, w as usize, h as usize)
        .unwrap();
    let want: Vec<u8> = new.chunks(4).flat_map(|p| [p[2], p[1], p[0]]).collect();
    assert_eq!(rgb, want);
    assert_eq!(c.shown, new);
}

#[test]
fn run_lengths_of_noise_have_room() {
    let mut seed = 1u32;
    let noise: Vec<u8> = (0..64 * 64 * 4)
        .map(|_| {
            seed = seed.wrapping_mul(1664525).wrapping_add(1013904223);
            (seed >> 24) as u8
        })
        .collect();
    let all = Rect { left: 0, top: 0, right: 64, bottom: 64 };
    assert!(coded(Coding::Rle, &noise, 64, 64, all).len() > 3 * 64 * 64);
    let thin = Rect { left: 5, top: 0, right: 6, bottom: 64 };
    assert_eq!(coded(Coding::Rle, &noise, 64, 64, thin).len(), 6 * 64 + 1);
}

#[test]
fn budget_counts_what_is_written() {
    let new = vec![9u8; 64 * 128 * 4];
    let mut raw = Canvas::new(64, 128);
    assert_eq!(raw.update(&new, Coding::Raw, 5000).len(), 1);
    let mut rle = Canvas::new(64, 128);
    assert_eq!(rle.update(&new, Coding::Rle, 5000).len(), 2);
    let mut off = Canvas::new(64, 128);
    assert_eq!(off.update(&new, Coding::Off, 2 * 64 * 64 * 4).len(), 2);
    let mut off = Canvas::new(64, 128);
    assert_eq!(off.update(&new, Coding::Off, 2 * 64 * 64 * 4 - 1).len(), 1);
}

#[test]
fn settings_choose_the_coding() {
    let d = |test, coding| Diagnostics { test, coding };
    assert_eq!(diagnostics(None, None), d(false, Coding::Raw));
    assert_eq!(diagnostics(None, Some("raw")), d(false, Coding::Raw));
    assert_eq!(diagnostics(None, Some("rle")), d(false, Coding::Rle));
    assert_eq!(diagnostics(None, Some("off")), d(false, Coding::Off));
    assert_eq!(diagnostics(None, Some("RLE")), d(false, Coding::Raw));
    assert_eq!(diagnostics(Some("uncompressed"), Some("rle")), d(true, Coding::Off));
    assert_eq!(diagnostics(Some("1"), Some("rle")), d(false, Coding::Rle));
}

#[test]
fn tests_keep_h264_away() {
    assert!(diagnostics(None, None).avc420(true));
    assert!(!diagnostics(None, None).avc420(false));
    assert!(!diagnostics(Some("uncompressed"), None).avc420(true));
}

#[test]
fn test_bitmaps_show_columns_and_rows() {
    let b = test_bitmap(300, 2);
    assert_eq!(b.len(), 300 * 2 * 4);
    assert_eq!(b[4 * 299..4 * 301], [43, 0, 0, 0, 0, 1, 0, 0]);
}
