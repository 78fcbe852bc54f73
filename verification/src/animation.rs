use vstd::prelude::*;

use crate::time::{Moment, TimeSpan};

verus! {

/// Frame index, completion, and whether the frame changed after `steps` steps through `len`
/// frames from `index`.
pub open spec fn advanced(len: int, index: int, looped: bool, completed: bool, steps: int) -> (
    int,
    bool,
    bool,
) {
    if len == 0 || completed {
        (index, completed, false)
    } else if looped {
        let next = (index + steps % len) % len;
        (next, completed, next != index)
    } else {
        let remaining = if len - 1 >= index {
            len - 1 - index
        } else {
            0
        };
        let taken = if steps <= remaining {
            steps
        } else {
            remaining
        };
        (index + taken, index + taken + 1 == len, taken > 0)
    }
}

/// What [`Animation::update`] at `now` does to `before`, giving `after` and result `r`. The
/// first update, and any update while empty, completed or paused, only records `now`.
/// Otherwise the whole frames elapsed since the last update are taken as
/// [`Animation::advance_by`] takes them, and the last update moves on by those whole frames;
/// when no whole frame has elapsed nothing changes.
pub open spec fn update_outcome<T>(before: Animation<T>, after: Animation<T>, now: Moment, r: bool) -> bool {
    if before.spec_frames().len() == 0 || before.spec_completed() || before.spec_frame_nanos() == 0
        || before.spec_last_update() is None {
        &&& !r
        &&& after.spec_index() == before.spec_index()
        &&& after.spec_completed() == before.spec_completed()
        &&& after.spec_last_update() == Some(now)
    } else {
        let elapsed = now.spec_since(before.spec_last_update().unwrap());
        let steps = elapsed / before.spec_frame_nanos();
        if steps == 0 {
            &&& !r
            &&& after.spec_index() == before.spec_index()
            &&& after.spec_completed() == before.spec_completed()
            &&& after.spec_last_update() == before.spec_last_update()
        } else {
            &&& (after.spec_index(), after.spec_completed(), r) == advanced(
                before.spec_frames().len() as int,
                before.spec_index(),
                before.spec_looped(),
                before.spec_completed(),
                steps,
            )
            &&& after.spec_last_update() == Some(
                Moment { nanos: (now.nanos - elapsed % before.spec_frame_nanos()) as u128 },
            )
        }
    }
}

/// Time-driven, application-owned sequence of frames.
///
/// Call [`Animation::update`] with the current instant and render [`Animation::current`] when it
/// reports a change; the type does not schedule redraws or own a runtime.
#[derive(Clone, Debug, PartialEq, Eq)]
pub struct Animation<T> {
    frames: Vec<T>,
    index: usize,
    frame_nanos: u128,
    looped: bool,
    completed: bool,
    last_update: Option<Moment>,
}

impl<T> Animation<T> {
    pub closed spec fn spec_frames(&self) -> Seq<T> {
        self.frames@
    }

    pub closed spec fn spec_index(&self) -> int {
        self.index as int
    }

    /// Frame length in nanoseconds; zero pauses the animation.
    pub closed spec fn spec_frame_nanos(&self) -> int {
        self.frame_nanos as int
    }

    pub closed spec fn spec_looped(&self) -> bool {
        self.looped
    }

    pub closed spec fn spec_completed(&self) -> bool {
        self.completed
    }

    pub closed spec fn spec_last_update(&self) -> Option<Moment> {
        self.last_update
    }

    /// The index names a frame (or is 0 without frames).
    pub open spec fn wf(&self) -> bool {
        if self.spec_frames().len() == 0 {
            self.spec_index() == 0
        } else {
            0 <= self.spec_index() < self.spec_frames().len()
        }
    }

    /// The same frames, timing and looping.
    pub open spec fn same_setup(&self, other: &Self) -> bool {
        &&& self.spec_frames() == other.spec_frames()
        &&& self.spec_frame_nanos() == other.spec_frame_nanos()
        &&& self.spec_looped() == other.spec_looped()
    }

    /// A looping animation over `frames`, 100 ms per frame, completed at once when empty.
    pub fn new(frames: Vec<T>) -> (r: Self)
        ensures
            r.wf(),
            r.spec_frames() == frames@,
            r.spec_index() == 0,
            r.spec_frame_nanos() == 100_000_000,
            r.spec_looped(),
            r.spec_completed() == (frames@.len() == 0),
            r.spec_last_update() is None,
    {
        let completed = frames.len() == 0;
        Animation {
            frames,
            index: 0,
            frame_nanos: 100_000_000,
            looped: true,
            completed,
            last_update: None,
        }
    }

    /// Sets the frame length in nanoseconds; zero pauses the animation so updates stay no-ops.
    pub fn frame_duration_nanos(self, nanos: u128) -> (r: Self)
        ensures
            r.wf() == self.wf(),
            r.spec_frames() == self.spec_frames(),
            r.spec_index() == self.spec_index(),
            r.spec_frame_nanos() == nanos,
            r.spec_looped() == self.spec_looped(),
            r.spec_completed() == self.spec_completed(),
            r.spec_last_update() == self.spec_last_update(),
    {
        Animation { frame_nanos: nanos, ..self }
    }

    /// Sets the frame length; a zero duration pauses the animation so updates stay no-ops.
    pub fn frame_duration(self, frame_duration: TimeSpan) -> (r: Self)
        ensures
            r.wf() == self.wf(),
            r.spec_frames() == self.spec_frames(),
            r.spec_index() == self.spec_index(),
            r.spec_frame_nanos() == frame_duration.nanos,
            r.spec_looped() == self.spec_looped(),
            r.spec_completed() == self.spec_completed(),
            r.spec_last_update() == self.spec_last_update(),
    {
        self.frame_duration_nanos(frame_duration.nanos)
    }

    /// Sets looping; completion is recomputed (an empty or single-frame one-shot animation is
    /// complete).
    pub fn looped(self, looped: bool) -> (r: Self)
        ensures
            r.wf() == self.wf(),
            r.spec_frames() == self.spec_frames(),
            r.spec_index() == self.spec_index(),
            r.spec_frame_nanos() == self.spec_frame_nanos(),
            r.spec_looped() == looped,
            r.spec_completed() == (self.spec_frames().len() == 0 || (!looped
                && self.spec_frames().len() == 1)),
            r.spec_last_update() == self.spec_last_update(),
    {
        let completed = self.frames.len() == 0 || (!looped && self.frames.len() == 1);
        Animation { looped, completed, ..self }
    }

    /// The frame on show.
    pub fn current(&self) -> (r: Option<&T>)
        ensures
            r == (if 0 <= self.spec_index() < self.spec_frames().len() {
                Some(&self.spec_frames()[self.spec_index()])
            } else {
                None
            }),
    {
        if self.index < self.frames.len() {
            Some(&self.frames[self.index])
        } else {
            None
        }
    }

    pub fn is_completed(&self) -> (r: bool)
        ensures
            r == self.spec_completed(),
    {
        self.completed
    }

    /// Moves `steps` frames on: wrapping when looped, else stopping (and completing) at the last
    /// frame; returns whether the frame changed.
    pub fn advance_by(&mut self, steps: u128) -> (r: bool)
        requires
            old(self).wf(),
        ensures
            final(self).wf(),
            final(self).same_setup(old(self)),
            final(self).spec_last_update() == old(self).spec_last_update(),
            (final(self).spec_index(), final(self).spec_completed(), r) == advanced(
                old(self).spec_frames().len() as int,
                old(self).spec_index(),
                old(self).spec_looped(),
                old(self).spec_completed(),
                steps as int,
            ),
    {
        let len = self.frames.len();
        if len == 0 || self.completed {
            return false;
        }
        if self.looped {
            let steps = (steps % len as u128) as usize;
            let next_index = if steps >= len - self.index {
                steps - (len - self.index)
            } else {
                self.index + steps
            };
            proof {
                let i = self.index as int;
                let s = steps as int;
                let n = len as int;
                if s >= n - i {
                    assert((i + s) % n == i + s - n) by {
                        vstd::arithmetic::div_mod::lemma_fundamental_div_mod_converse(
                            i + s,
                            n,
                            1,
                            i + s - n,
                        );
                    }
                } else {
                    assert((i + s) % n == i + s) by {
                        vstd::arithmetic::div_mod::lemma_small_mod((i + s) as nat, n as nat);
                    }
                }
            }
            let changed = next_index != self.index;
            self.index = next_index;
            return changed;
        }
        let remaining_steps = if len - 1 >= self.index {
            len - 1 - self.index
        } else {
            0
        };
        let taken = if steps <= remaining_steps as u128 {
            steps as usize
        } else {
            remaining_steps
        };
        self.index = self.index + taken;
        self.completed = self.index + 1 == len;
        taken > 0
    }

    /// Moves one frame on; returns whether the frame changed.
    pub fn advance(&mut self) -> (r: bool)
        requires
            old(self).wf(),
        ensures
            final(self).wf(),
            final(self).same_setup(old(self)),
            final(self).spec_last_update() == old(self).spec_last_update(),
            (final(self).spec_index(), final(self).spec_completed(), r) == advanced(
                old(self).spec_frames().len() as int,
                old(self).spec_index(),
                old(self).spec_looped(),
                old(self).spec_completed(),
                1,
            ),
    {
        self.advance_by(1)
    }

    /// Advances by the whole frames elapsed since the last update; returns whether the frame
    /// changed. The first update, and any update while empty, completed or paused, only records
    /// `now`; the time left over past the whole frames counts toward the next update.
    pub fn update(&mut self, now: Moment) -> (r: bool)
        requires
            old(self).wf(),
        ensures
            final(self).wf(),
            final(self).same_setup(old(self)),
            update_outcome(*old(self), *final(self), now, r),
    {
        if self.frames.len() == 0 || self.completed || self.frame_nanos == 0 {
            self.last_update = Some(now);
            return false;
        }
        let last_update = match self.last_update {
            Some(t) => t,
            None => {
                self.last_update = Some(now);
                return false;
            },
        };
        let elapsed = now.saturating_duration_since(last_update).nanos;
        let available_steps = elapsed / self.frame_nanos;
        if available_steps == 0 {
            return false;
        }
        let remainder = elapsed % self.frame_nanos;
        proof {
            vstd::arithmetic::div_mod::lemma_fundamental_div_mod(
                elapsed as int,
                self.frame_nanos as int,
            );
            assert(self.frame_nanos * available_steps >= 0) by (nonlinear_arith)
                requires
                    self.frame_nanos > 0,
            ;
        }
        self.last_update = Some(Moment { nanos: now.nanos - remainder });
        self.advance_by(available_steps)
    }
}

/// Advancing a looping animation by its frame count, or any multiple of it, lands on the same
/// frame.
pub proof fn lemma_full_cycle_returns(len: int, index: int, k: int)
    requires
        0 <= index < len,
        k >= 0,
    ensures
        advanced(len, index, true, false, k * len).0 == index,
{
    assert((k * len) % len == 0) by {
        vstd::arithmetic::div_mod::lemma_mod_multiples_basic(k, len);
    }
    assert((index + 0) % len == index) by {
        vstd::arithmetic::div_mod::lemma_small_mod(index as nat, len as nat);
    }
}

/// A one-shot animation never moves past its last frame, and it is complete exactly when it
/// reaches that frame.
pub proof fn lemma_one_shot_stops_at_last(len: int, index: int, steps: int)
    requires
        0 <= index < len,
        steps >= 0,
    ensures
        advanced(len, index, false, false, steps).0 <= len - 1,
        advanced(len, index, false, false, steps).1 == (advanced(len, index, false, false, steps).0
            == len - 1),
{
}

/// Two updates of a running looping animation advance it by the whole frames elapsed since the
/// update before them: whatever part of a frame is left over at the first update still counts
/// toward the second, so the frame on show after both is the starting frame moved on by
/// `floor((t2 - t0) / frame)` frames, wrapped by the frame count.
pub proof fn lemma_updates_keep_leftover_time<T>(
    a: Animation<T>,
    b: Animation<T>,
    c: Animation<T>,
    t1: Moment,
    t2: Moment,
    r1: bool,
    r2: bool,
)
    requires
        a.wf(),
        a.spec_frames().len() > 0,
        a.spec_looped(),
        !a.spec_completed(),
        a.spec_frame_nanos() > 0,
        a.spec_last_update() is Some,
        a.spec_last_update().unwrap().nanos <= t1.nanos <= t2.nanos,
        b.same_setup(&a),
        update_outcome(a, b, t1, r1),
        c.same_setup(&b),
        update_outcome(b, c, t2, r2),
    ensures
        c.spec_index() == (a.spec_index() + (t2.nanos - a.spec_last_update().unwrap().nanos)
            / a.spec_frame_nanos()) % (a.spec_frames().len() as int),
{
    let n = a.spec_frames().len() as int;
    let f = a.spec_frame_nanos();
    let i = a.spec_index();
    let t0 = a.spec_last_update().unwrap().nanos as int;
    let e1 = t1.nanos - t0;
    let k1 = e1 / f;
    let total = t2.nanos - t0;
    vstd::arithmetic::div_mod::lemma_fundamental_div_mod(e1, f);
    vstd::arithmetic::div_mod::lemma_small_mod(i as nat, n as nat);
    let last1: int = if k1 == 0 {
        t0
    } else {
        t1.nanos - e1 % f
    };
    assert(k1 * f == f * k1) by (nonlinear_arith);
    assert(e1 == f * k1 + e1 % f);
    if k1 == 0 {
        assert(k1 * f == 0) by (nonlinear_arith)
            requires
                k1 == 0,
        ;
    }
    assert(last1 == t0 + k1 * f);
    assert(b.spec_last_update() == Some(Moment { nanos: last1 as u128 }));
    assert(b.spec_index() == (i + k1) % n) by {
        if k1 > 0 {
            vstd::arithmetic::div_mod::lemma_add_mod_noop_right(i, k1, n);
        }
    }
    assert(!b.spec_completed());
    let e2 = t2.nanos - last1;
    assert(e2 >= 0);
    let k2 = e2 / f;
    vstd::arithmetic::div_mod::lemma_fundamental_div_mod(e2, f);
    assert(total == (k1 + k2) * f + e2 % f) by (nonlinear_arith)
        requires
            total == k1 * f + e2,
            e2 == f * k2 + e2 % f,
    ;
    vstd::arithmetic::div_mod::lemma_fundamental_div_mod_converse(total, f, k1 + k2, e2 % f);
    assert(0 <= b.spec_index() < n) by {
        vstd::arithmetic::div_mod::lemma_mod_bound(i + k1, n);
    }
    if k2 > 0 {
        vstd::arithmetic::div_mod::lemma_add_mod_noop_right(b.spec_index(), k2, n);
    }
    vstd::arithmetic::div_mod::lemma_add_mod_noop_right(k2, i + k1, n);
    assert(k2 + (i + k1) == i + (k1 + k2));
    if k2 == 0 {
        vstd::arithmetic::div_mod::lemma_small_mod(b.spec_index() as nat, n as nat);
    }
}

/// An update of a running animation never drops time: the new last update lies between the old
/// one and `now`, a whole number of frames after the old one and less than a frame before
/// `now`, so the part of a frame not yet shown carries over to the next update.
pub proof fn lemma_update_keeps_partial_frame<T>(a: Animation<T>, b: Animation<T>, now: Moment, r: bool)
    requires
        a.spec_frames().len() > 0,
        !a.spec_completed(),
        a.spec_frame_nanos() > 0,
        a.spec_last_update() is Some,
        a.spec_last_update().unwrap().nanos <= now.nanos,
        update_outcome(a, b, now, r),
    ensures
        b.spec_last_update() is Some,
        a.spec_last_update().unwrap().nanos <= b.spec_last_update().unwrap().nanos <= now.nanos,
        now.nanos - b.spec_last_update().unwrap().nanos < a.spec_frame_nanos(),
        (b.spec_last_update().unwrap().nanos - a.spec_last_update().unwrap().nanos)
            % a.spec_frame_nanos() == 0,
{
    let f = a.spec_frame_nanos();
    let t0 = a.spec_last_update().unwrap().nanos as int;
    let e = now.nanos - t0;
    vstd::arithmetic::div_mod::lemma_fundamental_div_mod(e, f);
    let k = e / f;
    assert(k * f == f * k) by (nonlinear_arith);
    assert(k >= 0) by {
        vstd::arithmetic::div_mod::lemma_div_pos_is_pos(e, f);
    }
    vstd::arithmetic::div_mod::lemma_mod_bound(e, f);
    if k == 0 {
        assert(f * k == 0) by (nonlinear_arith)
            requires
                k == 0,
        ;
        assert(0int % f == 0) by {
            vstd::arithmetic::div_mod::lemma_small_mod(0, f as nat);
        }
    } else {
        assert(b.spec_last_update().unwrap().nanos - t0 == k * f);
        vstd::arithmetic::div_mod::lemma_fundamental_div_mod_converse(k * f, f, k, 0);
    }
}

} // verus!
