use crate::time::Moment;

use vstd::prelude::*;

use crate::animation::{Animation, advanced, update_outcome};
use crate::chars::{copy_string, string_views};

verus! {

/// The frames of [`Spinner::braille`].
pub open spec fn braille_frames() -> Seq<Seq<char>> {
    seq![
        seq!['\u{280b}'],
        seq!['\u{2819}'],
        seq!['\u{2839}'],
        seq!['\u{2838}'],
        seq!['\u{283c}'],
        seq!['\u{2834}'],
        seq!['\u{2826}'],
        seq!['\u{2827}'],
        seq!['\u{2807}'],
        seq!['\u{280f}'],
    ]
}

/// Small [`Animation`] wrapper for a single text frame such as a Braille spinner.
pub struct Spinner {
    animation: Animation<String>,
}

impl Spinner {
    /// The frames as text.
    pub closed spec fn spec_frames(&self) -> Seq<Seq<char>> {
        string_views(self.animation.spec_frames())
    }

    pub closed spec fn spec_index(&self) -> int {
        self.animation.spec_index()
    }

    pub closed spec fn spec_animation(&self) -> Animation<String> {
        self.animation
    }

    /// At least one frame, and the animation's index names one.
    pub closed spec fn wf(&self) -> bool {
        self.animation.wf() && self.animation.spec_frames().len() > 0
    }

    /// A looping spinner over `frames`, or `None` without frames.
    pub fn new(frames: &[&str]) -> (r: Option<Self>)
        ensures
            frames@.len() == 0 ==> r is None,
            frames@.len() > 0 ==> (r matches Some(s) && s.wf() && s.spec_index() == 0
                && s.spec_frames() == frames@.map_values(|f: &str| f@)
                && s.spec_animation().spec_frame_nanos() == 100_000_000
                && s.spec_animation().spec_looped() && !s.spec_animation().spec_completed()
                && s.spec_animation().spec_last_update() is None),
    {
        if frames.len() == 0 {
            return None;
        }
        let mut owned: Vec<String> = Vec::new();
        let mut i: usize = 0;
        while i < frames.len()
            invariant
                i <= frames@.len(),
                string_views(owned@) == frames@.take(i as int).map_values(|f: &str| f@),
            decreases frames@.len() - i,
        {
            let ghost before = owned@;
            owned.push(copy_string(frames[i]));
            proof {
                assert(string_views(owned@) =~= string_views(before).push(frames@[i as int]@));
                assert(frames@.take(i + 1).map_values(|f: &str| f@) =~= frames@.take(
                    i as int,
                ).map_values(|f: &str| f@).push(frames@[i as int]@));
            }
            i = i + 1;
        }
        proof {
            assert(frames@.take(frames@.len() as int) == frames@);
        }
        Some(Spinner { animation: Animation::new(owned) })
    }

    /// The ten-frame Braille spinner.
    pub fn braille() -> (r: Self)
        ensures
            r.wf(),
            r.spec_index() == 0,
            r.spec_frames() == braille_frames(),
            r.spec_animation().spec_frame_nanos() == 100_000_000,
            r.spec_animation().spec_looped(),
            !r.spec_animation().spec_completed(),
            r.spec_animation().spec_last_update() is None,
    {
        let frames = [
            "\u{280b}",
            "\u{2819}",
            "\u{2839}",
            "\u{2838}",
            "\u{283c}",
            "\u{2834}",
            "\u{2826}",
            "\u{2827}",
            "\u{2807}",
            "\u{280f}",
        ];
        proof {
            reveal_strlit("\u{280b}");
            reveal_strlit("\u{2819}");
            reveal_strlit("\u{2839}");
            reveal_strlit("\u{2838}");
            reveal_strlit("\u{283c}");
            reveal_strlit("\u{2834}");
            reveal_strlit("\u{2826}");
            reveal_strlit("\u{2827}");
            reveal_strlit("\u{2807}");
            reveal_strlit("\u{280f}");
        }
        match Spinner::new(&frames) {
            Some(s) => {
                proof {
                    assert(frames@.len() == 10);
                    assert(frames@[0]@ =~= seq!['\u{280b}']);
                    assert(frames@[1]@ =~= seq!['\u{2819}']);
                    assert(frames@[2]@ =~= seq!['\u{2839}']);
                    assert(frames@[3]@ =~= seq!['\u{2838}']);
                    assert(frames@[4]@ =~= seq!['\u{283c}']);
                    assert(frames@[5]@ =~= seq!['\u{2834}']);
                    assert(frames@[6]@ =~= seq!['\u{2826}']);
                    assert(frames@[7]@ =~= seq!['\u{2827}']);
                    assert(frames@[8]@ =~= seq!['\u{2807}']);
                    assert(frames@[9]@ =~= seq!['\u{280f}']);
                    assert(frames@.map_values(|f: &str| f@) =~= braille_frames());
                }
                s
            },
            None => {
                proof {
                    assert(false);
                }
                Spinner { animation: Animation::new(Vec::new()) }
            },
        }
    }

    /// The frame on show.
    pub fn current(&self) -> (r: &str)
        requires
            self.wf(),
        ensures
            r@ == self.spec_frames()[self.spec_index()],
    {
        match self.animation.current() {
            Some(s) => s.as_str(),
            None => "",
        }
    }

    /// Advances by the whole frames elapsed since the last update; returns whether the frame
    /// changed (see [`Animation::update`]).
    pub fn update(&mut self, now: Moment) -> (r: bool)
        requires
            old(self).wf(),
        ensures
            final(self).wf(),
            final(self).spec_frames() == old(self).spec_frames(),
            final(self).spec_animation().same_setup(&old(self).spec_animation()),
            update_outcome(old(self).spec_animation(), final(self).spec_animation(), now, r),
    {
        self.animation.update(now)
    }

    /// Moves to the next frame, wrapping after the last.
    pub fn advance(&mut self)
        requires
            old(self).wf(),
        ensures
            final(self).wf(),
            final(self).spec_frames() == old(self).spec_frames(),
            final(self).spec_index() == advanced(
                old(self).spec_frames().len() as int,
                old(self).spec_index(),
                old(self).spec_animation().spec_looped(),
                old(self).spec_animation().spec_completed(),
                1,
            ).0,
    {
        self.animation.advance();
    }
}

} // verus!
