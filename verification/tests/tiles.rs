use rdesk::coding::Coding;
use rdesk::tiles::{differ, pack, Canvas, Rect, BUDGET};

fn picture(w: u16, h: u16, dots: &[(u16, u16)]) -> Vec<u8> {
    let mut v = vec![0; w as usize * h as usize * 4];
    for (x, y) in dots {
        let p = (*y as usize * w as usize + *x as usize) * 4;
        v[p] = 1;
        v[p + 1] = 2;
        v[p + 2] = 3;
    }
    v
}

fn rects(c: &mut Canvas, new: &[u8], budget: usize) -> Vec<(u16, u16, u16, u16)> {
    c.update(new, Coding::Raw, budget)
        .iter()
        .map(|p| (p.rect.left, p.rect.top, p.rect.right, p.rect.bottom))
        .collect()
}

#[test]
fn planes_are_red_green_blue() {
    let p = vec![1, 2, 3, 0, 4, 5, 6, 0, 7, 8, 9, 0, 10, 11, 12, 0];
    let all = Rect { left: 0, top: 0, right: 2, bottom: 2 };
    assert_eq!(
        pack(&p, 2, 2, all),
        vec![0x20, 3, 6, 9, 12, 2, 5, 8, 11, 1, 4, 7, 10, 0]
    );
    let one = Rect { left: 1, top: 1, right: 2, bottom: 2 };
    assert_eq!(pack(&p, 2, 2, one), vec![0x20, 12, 11, 10, 0]);
}

#[test]
fn rectangles_are_compared() {
    let a = picture(70, 70, &[]);
    let b = picture(70, 70, &[(65, 3)]);
    assert!(!differ(&a, &b, 70, 70, Rect { left: 0, top: 0, right: 64, bottom: 64 }));
    assert!(differ(&a, &b, 70, 70, Rect { left: 64, top: 0, right: 70, bottom: 64 }));
}

#[test]
fn unchanged_picture_sends_nothing() {
    let mut c = Canvas::new(200, 100);
    assert!(rects(&mut c, &picture(200, 100, &[]), BUDGET).is_empty());
}

#[test]
fn changed_tiles_are_joined_to_spans() {
    let mut c = Canvas::new(300, 150);
    let new = picture(300, 150, &[(0, 0), (64, 63), (192, 0), (299, 149)]);
    assert_eq!(
        rects(&mut c, &new, BUDGET),
        vec![(0, 0, 128, 64), (192, 0, 256, 64), (256, 128, 300, 150)]
    );
    assert_eq!(c.shown, new);
    assert!(rects(&mut c, &new, BUDGET).is_empty());
}

#[test]
fn budget_leaves_the_rest_for_later() {
    let mut c = Canvas::new(128, 256);
    let new = picture(128, 256, &[(0, 0), (0, 64), (0, 128), (0, 192)]);
    let tile = 64 * 64 * 3 + 2;
    assert_eq!(
        rects(&mut c, &new, 2 * tile),
        vec![(0, 0, 64, 64), (0, 64, 64, 128)]
    );
    assert_ne!(c.shown, new);
    assert_eq!(
        rects(&mut c, &new, 2 * tile),
        vec![(0, 128, 64, 192), (0, 192, 64, 256)]
    );
    assert_eq!(c.shown, new);
}

#[test]
fn one_patch_goes_out_whatever_the_budget() {
    let mut c = Canvas::new(64, 128);
    let new = picture(64, 128, &[(0, 0), (0, 100)]);
    assert_eq!(rects(&mut c, &new, 0), vec![(0, 0, 64, 64)]);
    assert_eq!(rects(&mut c, &new, 0), vec![(0, 64, 64, 128)]);
    assert_eq!(c.shown, new);
}

#[test]
fn patches_hold_the_new_picture() {
    let mut c = Canvas::new(64, 64);
    let new = picture(64, 64, &[(1, 0)]);
    let patches = c.update(&new, Coding::Raw, BUDGET);
    assert_eq!(patches.len(), 1);
    let data = &patches[0].data;
    assert_eq!(data.len(), 64 * 64 * 3 + 2);
    assert_eq!((data[0], data[2], data[64 * 64 + 2], data[2 * 64 * 64 + 2]), (0x20, 3, 2, 1));
}

#[test]
fn budget_stops_at_the_next_change() {
    // The second change is too large; the third would fit and waits all the same.
    let mut c = Canvas::new(256, 128);
    let new = picture(256, 128, &[(0, 0), (128, 0), (192, 0), (0, 64)]);
    let tile = 64 * 64 * 3 + 2;
    assert_eq!(rects(&mut c, &new, 2 * tile), vec![(0, 0, 64, 64)]);
    assert_eq!(rects(&mut c, &new, 3 * tile), vec![(128, 0, 256, 64), (0, 64, 64, 128)]);
    assert_eq!(c.shown, new);
}
