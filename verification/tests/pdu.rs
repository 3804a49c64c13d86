use ironrdp_dvc::ironrdp_pdu::ironrdp_core::decode;
use ironrdp_egfx::pdu::{Codec1Type, GfxPdu, PixelFormat};
use ironrdp_graphics::zgfx::Decompressor;
use rdesk::coding::Coding;
use rdesk::pdu::{codec, messages, Codec, Pixels};
use rdesk::tiles::{Patch, Rect};

const RECT: Rect = Rect { left: 1, top: 0x203, right: 0x405, bottom: 0x607 };

fn patch(data: Vec<u8>) -> Patch {
    Patch { rect: RECT, data }
}

#[test]
fn codings_have_their_codecs() {
    assert_eq!(codec(Coding::Rle), Codec::Planar);
    assert_eq!(codec(Coding::Raw), Codec::Planar);
    assert_eq!(codec(Coding::Off), Codec::Uncompressed);
}

#[test]
fn frames_have_a_start_rectangles_and_an_end() {
    let ms = ((1 * 60 + 2) * 60 + 3) * 1000 + 4;
    let m = messages(7, Pixels::Xrgb, 0x0102, ms, Coding::Raw, &[patch(vec![0xaa, 0xbb])]);
    let time: u32 = 4 + (3 << 10) + (2 << 16) + (1 << 22);
    let mut start = vec![0xe0, 4, 0x0b, 0, 0, 0, 16, 0, 0, 0];
    start.extend_from_slice(&time.to_le_bytes());
    start.extend_from_slice(&[2, 1, 0, 0]);
    assert_eq!(m[0], start);
    assert_eq!(
        m[1],
        vec![
            0xe0, 4, 1, 0, 0, 0, 27, 0, 0, 0, 7, 0, 0x0a, 0, 0x20, 1, 0, 3, 2, 5, 4, 7, 6, 2, 0, 0, 0,
            0xaa, 0xbb,
        ]
    );
    assert_eq!(m[2], vec![0xe0, 4, 0x0c, 0, 0, 0, 12, 0, 0, 0, 2, 1, 0, 0]);
    assert_eq!(m.len(), 3);
}

#[test]
fn rectangles_come_in_order_with_their_format() {
    let m = messages(
        7,
        Pixels::Argb,
        1,
        0,
        Coding::Off,
        &[patch(vec![1]), patch(vec![2, 2]), patch(vec![])],
    );
    assert_eq!(m.len(), 5);
    for (i, n) in [(1usize, 1usize), (2, 2), (3, 0)] {
        match decode::<GfxPdu>(&m[i][2..]) {
            Ok(GfxPdu::WireToSurface1(p)) => {
                assert_eq!(p.bitmap_data, vec![i as u8; n]);
                assert_eq!((p.surface_id, p.codec_id), (7, Codec1Type::Uncompressed));
                assert_eq!(p.pixel_format, PixelFormat::ARgb);
            }
            _ => panic!("not a rectangle"),
        }
    }
}

#[test]
fn large_rectangles_take_several_segments() {
    for len in [65535 - 25, 65535 - 24, 2 * 65535 - 25, 200_000] {
        let data: Vec<u8> = (0..len).map(|i| (i % 251) as u8).collect();
        let m = messages(7, Pixels::Xrgb, 1, 0, Coding::Raw, &[patch(data.clone())]);
        let total = len + 25;
        let segments = (total + 65534) / 65535;
        if segments == 1 {
            assert_eq!(m[1][..2], [0xe0, 4]);
            assert_eq!(m[1].len(), total + 2);
        } else {
            assert_eq!(m[1][..3], [0xe1, segments as u8, 0]);
            assert_eq!(m[1][3..7], (total as u32).to_le_bytes());
            assert_eq!(m[1].len(), 7 + total + 5 * segments);
        }
        let mut plain = vec![];
        Decompressor::new().decompress(&m[1], &mut plain).unwrap();
        match decode::<GfxPdu>(&plain) {
            Ok(GfxPdu::WireToSurface1(p)) => assert_eq!(p.bitmap_data, data),
            _ => panic!("not a rectangle"),
        }
    }
}
