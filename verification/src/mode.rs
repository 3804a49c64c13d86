//! How frames reach an RDP client: over the graphics pipeline, which it may open, or
//! as plain bitmap updates.

use vstd::prelude::*;

verus! {

/// How frames reach the current client. It is decided once the graphics channel has
/// been negotiated, or does not come.
#[derive(Clone, Copy, PartialEq, Eq, Structural, Debug)]
pub enum Mode {
    Unknown,
    /// H.264 over the graphics pipeline.
    Avc,
    /// Planar dirty rectangles over the graphics pipeline, for clients that refuse
    /// H.264.
    Planar,
    /// Plain bitmap updates.
    Legacy,
}

/// What the source of bitmap updates does next.
#[derive(Clone, Copy, PartialEq, Eq, Structural, Debug)]
pub enum Update {
    /// Look again after this many milliseconds.
    Wait { ms: u64 },
    /// Send the screen, not before this time.
    Show { at: u64 },
}

/// How long a client has for opening the graphics channel, in nanoseconds.
pub const GFX_PATIENCE: u64 = 3_000_000_000;

/// How often the mode is looked at while the graphics pipeline owns the screen, and
/// while nothing is decided yet, in milliseconds.
pub const OWNED_POLL_MS: u64 = 100;

pub const UNKNOWN_POLL_MS: u64 = 50;

/// The time between two bitmap updates, a fifteenth of a second, in nanoseconds.
pub const LEGACY_PERIOD: u64 = 66_666_667;

impl Mode {
    /// Whether the graphics pipeline owns the screen.
    pub open spec fn is_gfx(self) -> bool {
        self is Avc || self is Planar
    }

    /// The mode for a client whose graphics channel is open.
    pub open spec fn of_gfx(avc420: bool) -> Mode {
        if avc420 {
            Mode::Avc
        } else {
            Mode::Planar
        }
    }

    /// The graphics channel is open: H.264 if the client takes it.
    pub fn negotiated(avc420: bool) -> (r: Mode)
        ensures
            r == Mode::of_gfx(avc420),
    {
        if avc420 {
            Mode::Avc
        } else {
            Mode::Planar
        }
    }

    /// The mode once the graphics channel is gone.
    pub open spec fn after_close(self) -> Mode {
        if self.is_gfx() {
            Mode::Legacy
        } else {
            self
        }
    }

    /// The client closed the graphics channel. One that accepts a codec and cannot
    /// decode it does so after the first frame; bitmap updates may still reach it.
    pub fn on_close(self) -> (r: Mode)
        ensures
            r == self.after_close(),
    {
        match self {
            Mode::Avc | Mode::Planar => Mode::Legacy,
            _ => self,
        }
    }

    /// The mode once it was looked at `elapsed` nanoseconds into the session.
    pub open spec fn after_poll(self, elapsed: u64) -> Mode {
        if self is Unknown && elapsed > GFX_PATIENCE {
            Mode::Legacy
        } else {
            self
        }
    }
}

/// Source of bitmap updates. It is idle while the graphics pipeline owns the screen.
pub struct Updates {
    /// The time before which no update is due.
    pub next: u64,
}

impl Updates {
    /// What is done next in a mode, `elapsed` nanoseconds into the session.
    pub open spec fn update(self, mode: Mode, elapsed: u64) -> Update {
        match mode.after_poll(elapsed) {
            Mode::Avc | Mode::Planar => Update::Wait { ms: OWNED_POLL_MS },
            Mode::Legacy => Update::Show { at: self.next },
            Mode::Unknown => Update::Wait { ms: UNKNOWN_POLL_MS },
        }
    }

    /// A session starts, at time `now`, with nothing decided.
    pub fn new(now: u64) -> (r: (Updates, Mode))
        ensures
            r.0.next == now,
            r.1 == Mode::Unknown,
    {
        (Updates { next: now }, Mode::Unknown)
    }

    /// Looks at the mode: the mode from here on, and what to do.
    pub fn next_update(&self, mode: Mode, elapsed: u64) -> (r: (Mode, Update))
        ensures
            r.0 == mode.after_poll(elapsed),
            r.1 == self.update(mode, elapsed),
    {
        match mode {
            Mode::Avc | Mode::Planar => (mode, Update::Wait { ms: OWNED_POLL_MS }),
            Mode::Legacy => (mode, Update::Show { at: self.next }),
            Mode::Unknown => if elapsed > GFX_PATIENCE {
                (Mode::Legacy, Update::Show { at: self.next })
            } else {
                (mode, Update::Wait { ms: UNKNOWN_POLL_MS })
            },
        }
    }

    /// An update goes out at time `now`: the next one is due a period later.
    pub fn shown(&mut self, now: u64)
        requires
            now <= u64::MAX - LEGACY_PERIOD,
        ensures
            final(self).next == now + LEGACY_PERIOD,
            14 * (final(self).next - now) < 1_000_000_000 <= 15 * (final(self).next - now),
    {
        self.next = now + LEGACY_PERIOD;
    }
}

/// The part of the screen that an update covers, with the bytes of a row.
#[derive(Clone, Copy, PartialEq, Eq, Structural, Debug)]
pub struct Bitmap {
    pub x: u16,
    pub y: u16,
    pub width: u16,
    pub height: u16,
    pub stride: usize,
}

/// A bitmap update covers the whole session.
pub fn whole(width: u16, height: u16) -> (r: Bitmap)
    ensures
        r == (Bitmap { x: 0, y: 0, width, height, stride: (width * 4) as usize }),
        r.stride == 4 * r.width,
{
    Bitmap { x: 0, y: 0, width, height, stride: width as usize * 4 }
}

/// No bitmap update goes out while the graphics pipeline owns the screen, and the
/// source keeps looking, in case the pipeline goes away.
pub proof fn law_pipeline_owns_the_screen(u: Updates, mode: Mode, elapsed: u64)
    requires
        mode.is_gfx(),
    ensures
        u.update(mode, elapsed) is Wait,
        mode.after_poll(elapsed) == mode,
        u.update(mode.after_close(), elapsed) is Show,
{
}

/// A client that opens no graphics channel gets bitmap updates after three seconds, and
/// from then on.
pub proof fn law_every_client_gets_a_picture(u: Updates, elapsed: u64, later: u64)
    requires
        elapsed > 3_000_000_000,
    ensures
        u.update(Mode::Unknown, elapsed) is Show,
        u.update(Mode::Unknown.after_poll(elapsed), later) is Show,
{
}

/// What was decided stays decided: looking at the mode changes nothing but the want of
/// a decision.
pub proof fn law_decisions_stand(mode: Mode, elapsed: u64)
    requires
        mode !is Unknown,
    ensures
        mode.after_poll(elapsed) == mode,
{
}

/// What the source of bitmap updates does. While the pipeline owns the screen it looks
/// again after a tenth of a second. While nothing is decided it looks again after a
/// twentieth, for three seconds, and from then on sends bitmaps; and it sends them where
/// that was decided, each not before it is due.
pub proof fn law_bitmaps_follow_the_mode(u: Updates, elapsed: u64)
    ensures
        u.update(Mode::Avc, elapsed) == (Update::Wait { ms: 100 }),
        u.update(Mode::Planar, elapsed) == (Update::Wait { ms: 100 }),
        u.update(Mode::Legacy, elapsed) == (Update::Show { at: u.next }),
        elapsed <= 3_000_000_000 ==> u.update(Mode::Unknown, elapsed) == (Update::Wait {
            ms: 50,
        }) && Mode::Unknown.after_poll(elapsed) == Mode::Unknown,
        elapsed > 3_000_000_000 ==> u.update(Mode::Unknown, elapsed) == (Update::Show {
            at: u.next,
        }) && Mode::Unknown.after_poll(elapsed) == Mode::Legacy,
        Mode::Avc.after_poll(elapsed) == Mode::Avc,
        Mode::Planar.after_poll(elapsed) == Mode::Planar,
        Mode::Legacy.after_poll(elapsed) == Mode::Legacy,
{
}

/// A client with the graphics channel gets H.264 exactly if it takes it, and rectangles if
/// not; one that closes the channel gets bitmaps.
pub proof fn law_channel_decides_the_mode()
    ensures
        Mode::of_gfx(true) == Mode::Avc,
        Mode::of_gfx(false) == Mode::Planar,
        Mode::Avc.after_close() == Mode::Legacy,
        Mode::Planar.after_close() == Mode::Legacy,
        Mode::Legacy.after_close() == Mode::Legacy,
        Mode::Unknown.after_close() == Mode::Unknown,
{
}

} // verus!
