use rdesk::mode::Mode;
use rdesk::session::Session;

#[test]
fn session_starts_with_the_screen() {
    let s = Session::new(1920, 1072, false);
    assert_eq!((s.width, s.height, s.mode), (1920, 1072, Mode::Unknown));
    assert_eq!((s.scene.cw, s.scene.ch, s.scene.window), (1920, 1072, false));
}

#[test]
fn session_takes_the_size_that_is_asked_for() {
    let mut s = Session::new(1920, 1072, false);
    s.ask(1366, 768);
    assert_eq!((s.width, s.height), (1366, 768));
    assert_eq!((s.scene.cw, s.scene.ch), (1366, 768));
    s.ask(0, 768);
    s.ask(1366, 0);
    assert_eq!((s.width, s.height), (1366, 768));
}

#[test]
fn mode_changes_the_pictures() {
    let mut s = Session::new(1920, 1072, false);
    s.ask(1366, 768);
    s.set_mode(Mode::Avc);
    assert_eq!((s.scene.cw, s.scene.ch, s.width), (1360, 768, 1366));
    s.set_mode(Mode::Legacy);
    assert_eq!((s.scene.cw, s.scene.ch), (1366, 768));
}

#[test]
fn window_stays_while_the_size_does() {
    let mut s = Session::new(1920, 1072, true);
    s.ask(640, 480);
    assert!(s.scene.window);
    s.scene.x = 100;
    s.set_mode(Mode::Planar);
    assert_eq!(s.scene.x, 100);
    s.ask(640, 496);
    assert_eq!(s.scene.x, 0);
}
