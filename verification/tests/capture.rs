use rdesk::capture::{Capture, CaptureAction, CaptureEvent};

#[test]
fn capture_round_grabs_feeds_and_sleeps() {
    let (mut c, a) = Capture::new(100, 50, false);
    assert_eq!(a, CaptureAction::CheckStop);
    assert_eq!(c.step(CaptureEvent::Stop(false)), CaptureAction::Grab);
    assert_eq!(c.step(CaptureEvent::Grabbed(true)), CaptureAction::Feed);
    assert_eq!(c.step(CaptureEvent::Fed(true)), CaptureAction::ReadClock);
    assert_eq!(c.step(CaptureEvent::Clock(130)), CaptureAction::Sleep { ns: 20 });
    assert_eq!(c.step(CaptureEvent::Slept), CaptureAction::CheckStop);
    assert_eq!(c.next, 150);
}

#[test]
fn capture_does_not_make_up_for_lost_time() {
    let (mut c, _) = Capture::new(100, 50, false);
    c.step(CaptureEvent::Stop(false));
    c.step(CaptureEvent::Grabbed(true));
    c.step(CaptureEvent::Fed(true));
    assert_eq!(c.step(CaptureEvent::Clock(400)), CaptureAction::CheckStop);
    c.step(CaptureEvent::Stop(false));
    assert_eq!(c.next, 450);
}

#[test]
fn capture_skips_frames_while_the_client_is_behind() {
    let (mut c, _) = Capture::new(0, 50, true);
    assert_eq!(c.step(CaptureEvent::Stop(false)), CaptureAction::AskBusy);
    assert_eq!(c.step(CaptureEvent::Busy(true)), CaptureAction::ReadClock);
    assert_eq!(c.step(CaptureEvent::Clock(10)), CaptureAction::Sleep { ns: 40 });
    c.step(CaptureEvent::Slept);
    c.step(CaptureEvent::Stop(false));
    assert_eq!(c.step(CaptureEvent::Busy(false)), CaptureAction::Grab);
}

#[test]
fn capture_ends_on_stop_and_on_failure() {
    let (mut c, _) = Capture::new(0, 50, false);
    assert_eq!(c.step(CaptureEvent::Stop(true)), CaptureAction::Finish);
    let (mut c, _) = Capture::new(0, 50, false);
    c.step(CaptureEvent::Stop(false));
    assert_eq!(c.step(CaptureEvent::Grabbed(false)), CaptureAction::Finish);
    let (mut c, _) = Capture::new(0, 50, false);
    c.step(CaptureEvent::Stop(false));
    c.step(CaptureEvent::Grabbed(true));
    assert_eq!(c.step(CaptureEvent::Fed(false)), CaptureAction::Finish);
}

#[test]
fn capture_never_runs_ahead() {
    let (mut c, _) = Capture::new(1000, 10, false);
    let mut now = 1000;
    for work in [3, 25, 1, 9, 10, 11] {
        c.step(CaptureEvent::Stop(false));
        c.step(CaptureEvent::Grabbed(true));
        c.step(CaptureEvent::Fed(true));
        now += work;
        if let CaptureAction::Sleep { ns } = c.step(CaptureEvent::Clock(now)) {
            now += ns;
            c.step(CaptureEvent::Slept);
        }
        assert_eq!(c.next, now);
    }
    assert!(now >= 1000 + 6 * 10);
}
