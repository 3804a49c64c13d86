use rdesk::view::{Frame, Scene};

/// A screen whose pixels say where they are.
fn screen(w: u16, h: u16) -> Vec<u8> {
    let mut v = vec![];
    for y in 0..h {
        for x in 0..w {
            v.extend_from_slice(&[x as u8, y as u8, 7, 9]);
        }
    }
    v
}

fn pixel(picture: &[u8], w: u16, x: u16, y: u16) -> [u8; 4] {
    let p = (y as usize * w as usize + x as usize) * 4;
    [picture[p], picture[p + 1], picture[p + 2], picture[p + 3]]
}

#[test]
fn same_size_shows_the_screen() {
    let s = Scene::new(20, 10, 20, 10, true);
    assert!(!s.window);
    assert_eq!(s.render(&screen(20, 10)), screen(20, 10));
    assert_eq!(s.to_screen(13, 4), (13, 4));
}

#[test]
fn screen_is_fitted_and_letterboxed() {
    let s = Scene::new(200, 100, 100, 100, false);
    assert_eq!(s.place(), Frame { left: 0, top: 25, width: 100, height: 50 });
    let p = s.render(&screen(200, 100));
    assert_eq!(pixel(&p, 100, 50, 24), [0; 4]);
    assert_eq!(pixel(&p, 100, 50, 25), [100, 0, 7, 9]);
    assert_eq!(pixel(&p, 100, 99, 74), [198, 98, 7, 9]);
    assert_eq!(pixel(&p, 100, 0, 75), [0; 4]);
    let s = Scene::new(100, 100, 200, 100, false);
    assert_eq!(s.place(), Frame { left: 50, top: 0, width: 100, height: 100 });
}

#[test]
fn proportions_are_kept() {
    let f = Scene::new(1920, 1072, 1280, 1024, false).place();
    assert_eq!((f.width, f.height, f.left, f.top), (1280, 714, 0, 155));
    let f = Scene::new(1000, 1, 600, 600, false).place();
    assert_eq!((f.width, f.height), (600, 1));
}

#[test]
fn larger_client_gets_a_larger_picture() {
    let s = Scene::new(10, 10, 20, 20, true);
    assert!(!s.window);
    assert_eq!(s.place(), Frame { left: 0, top: 0, width: 20, height: 20 });
    assert_eq!(s.to_screen(19, 1), (9, 0));
}

#[test]
fn pointer_is_mapped_back() {
    let s = Scene::new(200, 100, 100, 100, false);
    assert_eq!(s.to_screen(10, 30), (20, 10));
    assert_eq!(s.to_screen(10, 0), (20, 0));
    assert_eq!(s.to_screen(10, 99), (20, 98));
    let p = s.render(&screen(200, 100));
    let (x, y) = s.to_screen(33, 60);
    assert_eq!(pixel(&p, 100, 33, 60), pixel(&screen(200, 100), 200, x, y));
}

#[test]
fn window_begins_below_forty_five_percent() {
    assert!(!Scene::new(1000, 1000, 450, 450, false).window);
    assert!(Scene::new(1000, 1000, 449, 450, false).window);
    assert!(Scene::new(1000, 1000, 450, 449, false).window);
    assert!(Scene::new(1920, 1072, 390, 844, false).window);
}

#[test]
fn viewport_makes_a_window_for_smaller_clients() {
    assert!(!Scene::new(1000, 1000, 900, 900, false).window);
    assert!(Scene::new(1000, 1000, 900, 900, true).window);
    assert!(Scene::new(1000, 1000, 900, 2000, true).window);
    assert!(!Scene::new(1000, 1000, 1000, 1000, true).window);
}

#[test]
fn window_shows_one_pixel_for_one() {
    let mut s = Scene::new(250, 250, 100, 100, false);
    s.x = 30;
    s.y = 50;
    let p = s.render(&screen(250, 250));
    assert_eq!(pixel(&p, 100, 0, 0), [30, 50, 7, 9]);
    assert_eq!(pixel(&p, 100, 99, 99), [129, 149, 7, 9]);
}

#[test]
fn window_pans_at_its_border() {
    let mut s = Scene::new(2000, 2000, 400, 400, false);
    assert!(s.window);
    assert_eq!(s.pointer(200, 200), (200, 200));
    assert_eq!((s.x, s.y), (0, 0));
    assert_eq!(s.pointer(352, 200), (353, 200));
    assert_eq!(s.x, 1);
    assert_eq!(s.pointer(399, 399), (448, 447));
    assert_eq!((s.x, s.y), (49, 48));
    for _ in 0..100 {
        s.pointer(399, 399);
    }
    assert_eq!((s.x, s.y), (1600, 1600));
    assert_eq!(s.pointer(47, 200), (1646, 1800));
    assert_eq!(s.pointer(0, 0), (1551, 1552));
    for _ in 0..100 {
        s.pointer(0, 0);
    }
    assert_eq!((s.x, s.y), (0, 0));
}

#[test]
fn fitted_picture_does_not_pan() {
    let mut s = Scene::new(200, 100, 200, 100, false);
    assert_eq!(s.pointer(199, 99), (199, 99));
    assert_eq!((s.x, s.y), (0, 0));
}
