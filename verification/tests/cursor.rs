use rdesk::cursor::{draw_cursor, CursorImage};

fn cursor(x: i16, y: i16, w: u16, h: u16, pixels: Vec<u32>) -> CursorImage {
    CursorImage { x, y, width: w, height: h, xhot: 0, yhot: 0, pixels }
}

#[test]
fn opaque_cursor_replaces_the_pixel() {
    let mut frame = vec![10; 2 * 2 * 4];
    draw_cursor(&mut frame, 2, 2, &cursor(1, 0, 1, 1, vec![0xff11_2233]));
    assert_eq!(frame[4..8], [0x33, 0x22, 0x11, 10]);
    assert_eq!(frame[..4], [10; 4]);
    assert_eq!(frame[8..], [10; 8]);
}

#[test]
fn transparent_cursor_changes_nothing() {
    let mut frame = vec![10; 4];
    draw_cursor(&mut frame, 1, 1, &cursor(0, 0, 1, 1, vec![0x00ff_ffff]));
    assert_eq!(frame, vec![10; 4]);
}

#[test]
fn half_transparent_cursor_is_blended() {
    let mut frame = vec![200, 100, 50, 7];
    draw_cursor(&mut frame, 1, 1, &cursor(0, 0, 1, 1, vec![0x8040_2010]));
    let over = |src: u32, dst: u32| (src + dst * (255 - 0x80) / 255) as u8;
    assert_eq!(frame, vec![over(0x10, 200), over(0x20, 100), over(0x40, 50), 7]);
    assert_eq!(frame, vec![115, 81, 88, 7]);
}

#[test]
fn bright_cursor_is_clipped() {
    let mut frame = vec![255; 4];
    draw_cursor(&mut frame, 1, 1, &cursor(0, 0, 1, 1, vec![0x01ff_ffff]));
    assert_eq!(frame, vec![255; 4]);
}

#[test]
fn cursor_off_the_edges_is_cut() {
    let mut frame = vec![0; 2 * 2 * 4];
    let c = CursorImage {
        x: 0,
        y: 0,
        width: 2,
        height: 2,
        xhot: 1,
        yhot: 1,
        pixels: vec![0xff00_0001, 0xff00_0002, 0xff00_0003, 0xff00_0004],
    };
    draw_cursor(&mut frame, 2, 2, &c);
    assert_eq!(frame[..4], [4, 0, 0, 0]);
    assert_eq!(frame[4..], [0; 12]);
    let mut frame = vec![0; 2 * 2 * 4];
    draw_cursor(&mut frame, 2, 2, &cursor(1, 1, 2, 2, vec![0xff00_0001; 4]));
    assert_eq!(frame[12..], [1, 0, 0, 0]);
    assert_eq!(frame[..12], [0; 12]);
}
