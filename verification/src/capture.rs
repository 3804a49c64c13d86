//! The capture loop: when the screen is grabbed and fed to the encoder, and how the
//! loop keeps its pace.

use vstd::prelude::*;

verus! {

/// Where the loop stands: the answer it waits for.
#[derive(Clone, Copy, PartialEq, Eq, Structural, Debug)]
pub enum CaptureAt {
    Flag,
    Busy,
    Grab,
    Feed,
    Clock,
    Sleep,
    Over,
}

/// What the loop asks for.
#[derive(Clone, Copy, PartialEq, Eq, Structural, Debug)]
pub enum CaptureAction {
    /// Whether the session is to stop.
    CheckStop,
    /// Whether the client has too many frames that it did not acknowledge.
    AskBusy,
    /// Grab screen and pointer.
    Grab,
    /// Feed the grabbed frame to the encoder.
    Feed,
    /// The time.
    ReadClock,
    /// Sleep for this many nanoseconds.
    Sleep { ns: u64 },
    /// Stop the session; the loop is over.
    Finish,
}

/// The answer to an action.
#[derive(Clone, Copy, PartialEq, Eq, Structural, Debug)]
pub enum CaptureEvent {
    Stop(bool),
    Busy(bool),
    Grabbed(bool),
    Fed(bool),
    Clock(u64),
    Slept,
}

/// The capture loop. Times are in nanoseconds.
#[derive(Clone, Copy, PartialEq, Eq, Structural, Debug)]
pub struct Capture {
    pub at: CaptureAt,
    /// When the current round is due to end.
    pub next: u64,
    pub period: u64,
    /// Whether the client's acknowledgements hold the loop back.
    pub throttled: bool,
}

/// When the next round starts, for one that was due to end at `next` and was done at
/// `now`: at the due time, or at once where that has passed.
pub open spec fn round_end(next: u64, now: u64) -> u64 {
    if next > now {
        next
    } else {
        now
    }
}

impl Capture {
    /// Whether `e` is an answer to what the loop asked for.
    pub open spec fn takes(self, e: CaptureEvent) -> bool {
        match e {
            CaptureEvent::Stop(_) => self.at is Flag,
            CaptureEvent::Busy(_) => self.at is Busy,
            CaptureEvent::Grabbed(_) => self.at is Grab,
            CaptureEvent::Fed(_) => self.at is Feed,
            CaptureEvent::Clock(_) => self.at is Clock,
            CaptureEvent::Slept => self.at is Sleep,
        }
    }

    /// Whether the end of another round can be told.
    pub open spec fn in_time(self) -> bool {
        self.next + self.period <= u64::MAX
    }

    /// The loop after an answer, and what it asks for next. A round grabs a frame and
    /// feeds it, unless the client is behind, and then waits for its end.
    pub open spec fn advance(self, e: CaptureEvent) -> (Capture, CaptureAction) {
        match e {
            CaptureEvent::Stop(true) => self.over(),
            CaptureEvent::Stop(false) => {
                let begun = Capture { next: (self.next + self.period) as u64, ..self };
                if self.throttled {
                    (Capture { at: CaptureAt::Busy, ..begun }, CaptureAction::AskBusy)
                } else {
                    (Capture { at: CaptureAt::Grab, ..begun }, CaptureAction::Grab)
                }
            },
            CaptureEvent::Busy(true) => (
                Capture { at: CaptureAt::Clock, ..self },
                CaptureAction::ReadClock,
            ),
            CaptureEvent::Busy(false) => (
                Capture { at: CaptureAt::Grab, ..self },
                CaptureAction::Grab,
            ),
            CaptureEvent::Grabbed(true) => (
                Capture { at: CaptureAt::Feed, ..self },
                CaptureAction::Feed,
            ),
            CaptureEvent::Fed(true) => (
                Capture { at: CaptureAt::Clock, ..self },
                CaptureAction::ReadClock,
            ),
            CaptureEvent::Grabbed(false) | CaptureEvent::Fed(false) => self.over(),
            CaptureEvent::Clock(now) => {
                let done = Capture { next: round_end(self.next, now), ..self };
                if self.next > now {
                    (
                        Capture { at: CaptureAt::Sleep, ..done },
                        CaptureAction::Sleep { ns: (self.next - now) as u64 },
                    )
                } else {
                    (Capture { at: CaptureAt::Flag, ..done }, CaptureAction::CheckStop)
                }
            },
            CaptureEvent::Slept => (
                Capture { at: CaptureAt::Flag, ..self },
                CaptureAction::CheckStop,
            ),
        }
    }

    /// The loop's end.
    pub open spec fn over(self) -> (Capture, CaptureAction) {
        (Capture { at: CaptureAt::Over, ..self }, CaptureAction::Finish)
    }

    /// A loop that starts at time `now`. It first asks whether to stop.
    pub fn new(now: u64, period: u64, throttled: bool) -> (r: (Capture, CaptureAction))
        ensures
            r.0 == (Capture { at: CaptureAt::Flag, next: now, period, throttled }),
            r.1 == CaptureAction::CheckStop,
    {
        (Capture { at: CaptureAt::Flag, next: now, period, throttled }, CaptureAction::CheckStop)
    }

    /// Takes an answer and says what is asked for next.
    pub fn step(&mut self, e: CaptureEvent) -> (r: CaptureAction)
        requires
            old(self).takes(e),
            e == CaptureEvent::Stop(false) ==> old(self).in_time(),
        ensures
            (*final(self), r) == old(self).advance(e),
    {
        match e {
            CaptureEvent::Stop(stop) => if stop {
                self.at = CaptureAt::Over;
                CaptureAction::Finish
            } else {
                self.next = self.next + self.period;
                if self.throttled {
                    self.at = CaptureAt::Busy;
                    CaptureAction::AskBusy
                } else {
                    self.at = CaptureAt::Grab;
                    CaptureAction::Grab
                }
            },
            CaptureEvent::Busy(busy) => if busy {
                self.at = CaptureAt::Clock;
                CaptureAction::ReadClock
            } else {
                self.at = CaptureAt::Grab;
                CaptureAction::Grab
            },
            CaptureEvent::Grabbed(ok) => if ok {
                self.at = CaptureAt::Feed;
                CaptureAction::Feed
            } else {
                self.at = CaptureAt::Over;
                CaptureAction::Finish
            },
            CaptureEvent::Fed(ok) => if ok {
                self.at = CaptureAt::Clock;
                CaptureAction::ReadClock
            } else {
                self.at = CaptureAt::Over;
                CaptureAction::Finish
            },
            CaptureEvent::Clock(now) => if self.next > now {
                let ns: u64 = self.next - now;
                self.at = CaptureAt::Sleep;
                CaptureAction::Sleep { ns }
            } else {
                self.next = now;
                self.at = CaptureAt::Flag;
                CaptureAction::CheckStop
            },
            CaptureEvent::Slept => {
                self.at = CaptureAt::Flag;
                CaptureAction::CheckStop
            },
        }
    }
}

/// A client that is behind costs a frame and nothing else: no frame is grabbed, and the
/// round ends when it would have ended anyway.
pub proof fn law_backlog_skips_a_frame(c: Capture, now: u64)
    requires
        c.at is Flag,
        c.throttled,
        c.in_time(),
    ensures
        ({
            let (asked, ask) = c.advance(CaptureEvent::Stop(false));
            let (skipped, next) = asked.advance(CaptureEvent::Busy(true));
            &&& ask == CaptureAction::AskBusy
            &&& next == CaptureAction::ReadClock
            &&& skipped.advance(CaptureEvent::Clock(now)).0.next == round_end(
                (c.next + c.period) as u64,
                now,
            )
        }),
{
}

/// Once the loop sleeps, it wakes when the round ends; without a sleep the round ends
/// now, and lost time is not made up.
pub proof fn law_round_ends_on_time(c: Capture, now: u64)
    requires
        c.at is Clock,
    ensures
        match c.advance(CaptureEvent::Clock(now)) {
            (done, CaptureAction::Sleep { ns }) => now + ns == done.next && done.next == c.next,
            (done, action) => action == CaptureAction::CheckStop && done.next == now,
        },
{
}

/// When the round after `clocks.len()` rounds starts, where each was done at the time
/// that `clocks` gives.
pub open spec fn start_after(start: u64, period: u64, clocks: Seq<u64>) -> u64
    decreases clocks.len(),
{
    if clocks.len() == 0 {
        start
    } else {
        round_end(
            (start_after(start, period, clocks.drop_last()) + period) as u64,
            clocks.last(),
        )
    }
}

/// Whether the end of every round could be told.
pub open spec fn all_in_time(start: u64, period: u64, clocks: Seq<u64>) -> bool {
    forall|i: int|
        0 <= i < clocks.len() ==> #[trigger] start_after(start, period, clocks.take(i)) + period
            <= u64::MAX
}

/// The pace is never exceeded: `n` rounds take `n` periods at least.
pub proof fn law_pace_is_kept(start: u64, period: u64, clocks: Seq<u64>)
    requires
        all_in_time(start, period, clocks),
    ensures
        start_after(start, period, clocks) >= start + clocks.len() * period,
    decreases clocks.len(),
{
    if clocks.len() > 0 {
        let n = clocks.len() as int;
        let before = clocks.drop_last();
        assert(clocks.take(n - 1) =~= before);
        assert forall|i: int| 0 <= i < before.len() implies #[trigger] start_after(
            start,
            period,
            before.take(i),
        ) + period <= u64::MAX by {
            assert(before.take(i) =~= clocks.take(i));
        }
        law_pace_is_kept(start, period, before);
        assert(n * period == (n - 1) * period + period) by (nonlinear_arith);
    }
}

/// The loop that `start_after` speaks of is this one: from one look at the stop flag to
/// the next, whether or not a frame was taken.
pub proof fn law_rounds_follow_each_other(c: Capture, busy: bool, now: u64)
    requires
        c.at is Flag,
        c.in_time(),
    ensures
        ({
            let begun = c.advance(CaptureEvent::Stop(false)).0;
            let chosen = if c.throttled {
                begun.advance(CaptureEvent::Busy(busy)).0
            } else {
                begun
            };
            let ready = if c.throttled && busy {
                chosen
            } else {
                chosen.advance(CaptureEvent::Grabbed(true)).0.advance(CaptureEvent::Fed(true)).0
            };
            let done = ready.advance(CaptureEvent::Clock(now)).0;
            let again = if done.at is Sleep {
                done.advance(CaptureEvent::Slept).0
            } else {
                done
            };
            again == (Capture {
                next: start_after(c.next, c.period, seq![now]),
                ..c
            })
        }),
{
    assert(seq![now].drop_last() =~= Seq::empty());
    assert(start_after(c.next, c.period, seq![now].drop_last()) == c.next);
}

/// A round, from one look at the stop flag to the next: the client is asked whether it is
/// behind only where its acknowledgements count; a frame is grabbed and then fed unless it
/// is. The round is due to end one period after the last one was. If that is still to come
/// the loop sleeps for exactly the time that is left, and else it goes on at once.
pub proof fn law_round_takes_one_period(c: Capture, busy: bool, now: u64)
    requires
        c.at is Flag,
        c.next + c.period <= u64::MAX,
    ensures
        ({
            let due = c.next + c.period;
            let begun = c.advance(CaptureEvent::Stop(false));
            let asked = begun.0.advance(CaptureEvent::Busy(busy));
            let start = if c.throttled {
                asked
            } else {
                begun
            };
            let grabbed = start.0.advance(CaptureEvent::Grabbed(true));
            let fed = grabbed.0.advance(CaptureEvent::Fed(true));
            let skips = c.throttled && busy;
            let ready = if skips {
                start
            } else {
                fed
            };
            let done = ready.0.advance(CaptureEvent::Clock(now));
            let woken = done.0.advance(CaptureEvent::Slept);
            &&& c.throttled ==> begun.1 == CaptureAction::AskBusy
            &&& !skips ==> start.1 == CaptureAction::Grab && grabbed.1 == CaptureAction::Feed
            &&& ready.1 == CaptureAction::ReadClock
            &&& due > now ==> done.1 == (CaptureAction::Sleep { ns: (due - now) as u64 })
                && done.0.next == due && woken.1 == CaptureAction::CheckStop && woken.0.at is Flag
                && woken.0.next == due
            &&& due <= now ==> done.1 == CaptureAction::CheckStop && done.0.at is Flag
                && done.0.next == now
        }),
{
}

/// The loop ends, and ends the session, when it is told to stop, and when a frame cannot be
/// grabbed or fed; then it takes no answer any more. Nothing changes its pace.
pub proof fn law_failures_end_the_loop(c: Capture, e: CaptureEvent)
    ensures
        c.advance(CaptureEvent::Stop(true)).1 == CaptureAction::Finish,
        c.advance(CaptureEvent::Grabbed(false)).1 == CaptureAction::Finish,
        c.advance(CaptureEvent::Fed(false)).1 == CaptureAction::Finish,
        c.advance(e).1 == CaptureAction::Finish ==> c.advance(e).0.at is Over && (e
            == CaptureEvent::Stop(true) || e == CaptureEvent::Grabbed(false) || e
            == CaptureEvent::Fed(false)),
        c.at is Over ==> !c.takes(e),
        c.advance(e).0.period == c.period,
        c.advance(e).0.throttled == c.throttled,
{
}

} // verus!
