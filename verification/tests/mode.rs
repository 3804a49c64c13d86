use rdesk::mode::{whole, Bitmap, Mode, Update, Updates, LEGACY_PERIOD};

const SECOND: u64 = 1_000_000_000;

#[test]
fn graphics_channel_decides_the_mode() {
    assert_eq!(Mode::negotiated(true), Mode::Avc);
    assert_eq!(Mode::negotiated(false), Mode::Planar);
}

#[test]
fn bitmap_updates_wait_for_the_decision() {
    let (u, m) = Updates::new(7);
    assert_eq!(m, Mode::Unknown);
    assert_eq!(u.next_update(m, 0), (Mode::Unknown, Update::Wait { ms: 50 }));
    assert_eq!(u.next_update(m, 3 * SECOND), (Mode::Unknown, Update::Wait { ms: 50 }));
    assert_eq!(u.next_update(m, 3 * SECOND + 1), (Mode::Legacy, Update::Show { at: 7 }));
}

#[test]
fn bitmap_updates_are_idle_while_the_pipeline_works() {
    let (u, _) = Updates::new(0);
    for m in [Mode::Avc, Mode::Planar] {
        assert_eq!(u.next_update(m, 100 * SECOND), (m, Update::Wait { ms: 100 }));
    }
}

#[test]
fn closed_channel_falls_back() {
    assert_eq!(Mode::Avc.on_close(), Mode::Legacy);
    assert_eq!(Mode::Planar.on_close(), Mode::Legacy);
    assert_eq!(Mode::Legacy.on_close(), Mode::Legacy);
    assert_eq!(Mode::Unknown.on_close(), Mode::Unknown);
}

#[test]
fn bitmap_updates_come_fifteen_times_a_second() {
    let (mut u, _) = Updates::new(0);
    u.shown(SECOND);
    let due = SECOND + LEGACY_PERIOD;
    assert_eq!(u.next_update(Mode::Legacy, SECOND), (Mode::Legacy, Update::Show { at: due }));
    assert_eq!(LEGACY_PERIOD as u128, std::time::Duration::from_secs_f64(1.0 / 15.0).as_nanos());
}

#[test]
fn bitmap_update_covers_everything() {
    assert_eq!(whole(640, 480), Bitmap { x: 0, y: 0, width: 640, height: 480, stride: 2560 });
}
