use vstd::prelude::*;

use crate::buffer::{Buffer, ChangedCell, diff, grid_changes};
use crate::frame::Frame;
use crate::time::{Moment, TimeSpan};

verus! {

/// How long the event loop waits for input when there is no tick interval: a day.
pub const IDLE_WAIT_NANOS: u128 = 86_400_000_000_000;

/// Returns whether an animation tick interval has elapsed: the time from `last_tick` to `now`
/// (zero if `now` is earlier) is at least `interval`.
pub fn tick_due(now: Moment, last_tick: Moment, interval: TimeSpan) -> (r: bool)
    ensures
        r == (now.spec_since(last_tick) >= interval.nanos),
{
    now.saturating_duration_since(last_tick).nanos >= interval.nanos
}

/// What the event loop should do next.
pub enum PollStep {
    /// Deliver a tick stamped with this instant.
    Tick(Moment),
    /// Wait for terminal input for at most this long.
    Wait(TimeSpan),
}

/// The frame to draw and how: the cells that changed since the last frame and whether the
/// screen must be cleared first.
pub struct PreparedFrame {
    pub current: Buffer,
    pub changed: Vec<ChangedCell>,
    pub resized: bool,
}

/// Immediate-mode redraw runtime with one previous [`Buffer`] for diffing.
///
/// Runtime does not retain a UI/component tree. Applications own event dispatch; the
/// application's event loop polls the terminal as [`Runtime::poll_step`] directs and writes the
/// cells that [`Runtime::prepare_frame`] reports.
pub struct Runtime {
    previous: Option<Buffer>,
    tick_interval: Option<TimeSpan>,
    last_tick: Moment,
    needs_redraw: bool,
}

impl Runtime {
    pub closed spec fn spec_previous(&self) -> Option<Buffer> {
        self.previous
    }

    pub closed spec fn spec_tick_interval(&self) -> Option<TimeSpan> {
        self.tick_interval
    }

    pub closed spec fn spec_last_tick(&self) -> Moment {
        self.last_tick
    }

    pub closed spec fn spec_needs_redraw(&self) -> bool {
        self.needs_redraw
    }

    /// The previous frame, if any, is well formed.
    pub open spec fn wf(&self) -> bool {
        self.spec_previous() matches Some(b) ==> b.wf()
    }

    /// A runtime with no previous frame that needs a first redraw; the tick clock starts now.
    pub fn new(tick_interval: Option<TimeSpan>) -> (r: Self)
        ensures
            r.wf(),
            r.spec_previous() is None,
            r.spec_tick_interval() == tick_interval,
            r.spec_needs_redraw(),
    {
        Runtime { previous: None, tick_interval, last_tick: Moment::now(), needs_redraw: true }
    }

    /// The next step of the event loop at `now`: a tick when the interval has elapsed (the tick
    /// clock restarts at `now`), else a wait for input until the next tick is due, or a day
    /// without a tick interval.
    pub fn poll_step(&mut self, now: Moment) -> (r: PollStep)
        ensures
            final(self).spec_previous() == old(self).spec_previous(),
            final(self).spec_tick_interval() == old(self).spec_tick_interval(),
            final(self).spec_needs_redraw() == old(self).spec_needs_redraw(),
            match old(self).spec_tick_interval() {
                Some(interval) => if now.spec_since(old(self).spec_last_tick()) >= interval.nanos {
                    r == PollStep::Tick(now) && final(self).spec_last_tick() == now
                } else {
                    r == PollStep::Wait(
                        TimeSpan {
                            nanos: (interval.nanos - now.spec_since(old(self).spec_last_tick())) as u128,
                        },
                    ) && final(self).spec_last_tick() == old(self).spec_last_tick()
                },
                None => r == PollStep::Wait(TimeSpan { nanos: IDLE_WAIT_NANOS })
                    && final(self).spec_last_tick() == old(self).spec_last_tick(),
            },
    {
        match self.tick_interval {
            Some(interval) => {
                if tick_due(now, self.last_tick, interval) {
                    self.last_tick = now;
                    PollStep::Tick(now)
                } else {
                    let since = now.saturating_duration_since(self.last_tick);
                    PollStep::Wait(TimeSpan { nanos: interval.nanos - since.nanos })
                }
            },
            None => PollStep::Wait(TimeSpan { nanos: IDLE_WAIT_NANOS }),
        }
    }

    /// After a wait ended without input: with a tick interval, a tick at `now` (the tick clock
    /// restarts); without one, `None` and the loop polls again.
    pub fn poll_timed_out(&mut self, now: Moment) -> (r: Option<Moment>)
        ensures
            final(self).spec_previous() == old(self).spec_previous(),
            final(self).spec_tick_interval() == old(self).spec_tick_interval(),
            final(self).spec_needs_redraw() == old(self).spec_needs_redraw(),
            old(self).spec_tick_interval() is Some ==> r == Some(now) && final(self).spec_last_tick() == now,
            old(self).spec_tick_interval() is None ==> r is None && final(self).spec_last_tick()
                == old(self).spec_last_tick(),
    {
        if self.tick_interval.is_some() {
            self.last_tick = now;
            Some(now)
        } else {
            None
        }
    }

    pub fn needs_redraw(&self) -> (r: bool)
        ensures
            r == self.spec_needs_redraw(),
    {
        self.needs_redraw
    }

    pub fn request_redraw(&mut self)
        ensures
            final(self).spec_needs_redraw(),
            final(self).spec_previous() == old(self).spec_previous(),
            final(self).spec_tick_interval() == old(self).spec_tick_interval(),
            final(self).spec_last_tick() == old(self).spec_last_tick(),
    {
        self.needs_redraw = true;
    }

    /// The finished frame's buffer, the cells that differ from the previous frame, and whether
    /// the size changed (or there is no previous frame), so the screen must be cleared.
    pub fn prepare_frame(&self, frame: Frame) -> (r: PreparedFrame)
        requires
            self.wf(),
            frame.wf(),
        ensures
            r.current == frame.spec_buffer(),
            r.changed@ == match self.spec_previous() {
                Some(p) => grid_changes(Some(&p), &frame.spec_buffer(), frame.spec_height() as int),
                None => grid_changes(None, &frame.spec_buffer(), frame.spec_height() as int),
            },
            r.resized == match self.spec_previous() {
                Some(p) => p.spec_width() != frame.spec_width() || p.spec_height()
                    != frame.spec_height(),
                None => true,
            },
    {
        let current = frame.into_buffer();
        let resized = match &self.previous {
            Some(previous) => previous.width() != current.width() || previous.height()
                != current.height(),
            None => true,
        };
        let changed = diff(self.previous.as_ref(), &current);
        PreparedFrame { current, changed, resized }
    }

    /// Records a frame as drawn: it becomes the previous frame and no redraw is pending.
    pub fn finish_frame(&mut self, current: Buffer)
        requires
            current.wf(),
        ensures
            final(self).wf(),
            final(self).spec_previous() == Some(current),
            !final(self).spec_needs_redraw(),
            final(self).spec_tick_interval() == old(self).spec_tick_interval(),
            final(self).spec_last_tick() == old(self).spec_last_tick(),
    {
        self.previous = Some(current);
        self.needs_redraw = false;
    }
}


/// Redrawing a frame identical to the previous one writes nothing: no cell changes and no
/// screen clear.
pub proof fn lemma_same_frame_draws_nothing(b: Buffer)
    requires
        b.wf(),
    ensures
        grid_changes(Some(&b), &b, b.spec_height() as int).len() == 0,
{
    crate::buffer::lemma_diff_same_is_empty(&b, b.spec_height() as int);
}

} // verus!
