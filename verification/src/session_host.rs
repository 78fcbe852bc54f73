use std::collections::VecDeque;

use vstd::prelude::*;

use crate::cell::Cell;
use crate::chars::{control_char, copy_string, is_control, push_char, str_chars, string_from_chars};
use crate::frame::{Frame, write_in};
use crate::geometry::{Rect, sat_add16};
use crate::scrollbar::{Scrollbar, ScrollbarGeometry, content_area, scrollbar_cells, spec_geometry};
use crate::style::Style;
use crate::viewport::{ViewportState, sat_sub};

verus! {

/// Presentation-only state for one generic, controller-owned session.
#[derive(Debug, PartialEq, Eq)]
pub enum SessionHostState {
    Opening,
    Running,
    Exited { exit_code: Option<i32> },
    Failed { message: String },
    Closed,
}

impl Clone for SessionHostState {
    fn clone(&self) -> (r: Self)
        ensures
            r == *self,
    {
        match self {
            SessionHostState::Opening => SessionHostState::Opening,
            SessionHostState::Running => SessionHostState::Running,
            SessionHostState::Exited { exit_code } => SessionHostState::Exited {
                exit_code: *exit_code,
            },
            SessionHostState::Failed { message } => SessionHostState::Failed {
                message: message.clone(),
            },
            SessionHostState::Closed => SessionHostState::Closed,
        }
    }
}

/// `c` made inert: control characters other than a line feed become U+FFFD.
pub open spec fn inert_char(c: char) -> char {
    if c == '\n' || !control_char(c) {
        c
    } else {
        '\u{fffd}'
    }
}

/// The segments found so far and the segment in progress when splitting at line feeds.
pub open spec fn newline_scan(s: Seq<char>) -> (Seq<Seq<char>>, Seq<char>)
    decreases s.len(),
{
    if s.len() == 0 {
        (Seq::empty(), Seq::empty())
    } else {
        let (done, current) = newline_scan(s.drop_last());
        if s.last() == '\n' {
            (done.push(current), Seq::empty())
        } else {
            (done, current.push(s.last()))
        }
    }
}

/// `str::split('\n')`: the segments between line feeds, empty ones included.
pub open spec fn split_newlines(s: Seq<char>) -> Seq<Seq<char>> {
    let (done, current) = newline_scan(s);
    done.push(current)
}

/// The last `cap` elements of `s` (all of `s` when shorter).
pub open spec fn keep_last<T>(s: Seq<T>, cap: int) -> Seq<T> {
    if s.len() > cap {
        s.skip(s.len() - cap)
    } else {
        s
    }
}

/// The output lines after appending `output` to `lines` with at most `cap` lines kept.
pub open spec fn appended_output(lines: Seq<Seq<char>>, output: Seq<char>, cap: int) -> Seq<
    Seq<char>,
> {
    keep_last(lines + split_newlines(output.map_values(|c: char| inert_char(c))), cap)
}

/// Cells after drawing lines `start..start + count` of `lines` at the top of `rect`.
pub open spec fn output_rows_cells(
    cells: Seq<Cell>,
    w: int,
    h: int,
    rect: Rect,
    lines: Seq<Seq<char>>,
    start: int,
    count: int,
    style: Style,
) -> Seq<Cell>
    decreases count,
{
    if count <= 0 {
        cells
    } else {
        write_in(
            output_rows_cells(cells, w, h, rect, lines, start, count - 1, style),
            w,
            h,
            rect,
            0,
            count - 1,
            lines[start + count - 1],
            style,
        ).0
    }
}

/// Cells after drawing the output `lines` into `content` scrolled to `offset`: the lines in view,
/// or a pending notice when there is no output yet.
pub open spec fn output_cells(
    cells: Seq<Cell>,
    w: int,
    h: int,
    content: Rect,
    lines: Seq<Seq<char>>,
    offset: int,
    style: Style,
) -> Seq<Cell> {
    if lines.len() == 0 {
        write_in(cells, w, h, content, 0, 0, "(session output pending)"@, style).0
    } else {
        let count = if offset + content.height <= lines.len() {
            content.height as int
        } else {
            lines.len() - offset
        };
        output_rows_cells(cells, w, h, content, lines, offset, count, style)
    }
}

/// Bounded, line-oriented output surface for a generic interactive session.
///
/// This is deliberately not a terminal emulator: C0 control bytes are rendered
/// as replacement characters, preventing provider output from changing outer
/// terminal state. Session execution and I/O authority stay outside this view.
#[derive(Debug)]
pub struct SessionHost {
    lines: VecDeque<String>,
    scrollback_capacity: usize,
    state: SessionHostState,
    viewport: ViewportState,
}

impl SessionHost {
    /// The output lines, oldest first.
    pub closed spec fn spec_lines(&self) -> Seq<Seq<char>> {
        self.lines@.map_values(|s: String| s@)
    }

    pub closed spec fn spec_capacity(&self) -> int {
        self.scrollback_capacity as int
    }

    pub closed spec fn spec_state(&self) -> SessionHostState {
        self.state
    }

    pub closed spec fn spec_viewport(&self) -> ViewportState {
        self.viewport
    }

    /// At least one line of scrollback, never more lines than that, and a valid viewport.
    pub open spec fn wf(&self) -> bool {
        &&& self.spec_capacity() >= 1
        &&& self.spec_lines().len() <= self.spec_capacity()
        &&& self.spec_viewport().wf()
    }

    /// An opening session with no output and room for `scrollback_capacity` lines (at least
    /// one).
    pub fn new(scrollback_capacity: usize) -> (r: Self)
        ensures
            r.wf(),
            r.spec_lines() == Seq::<Seq<char>>::empty(),
            r.spec_capacity() == if scrollback_capacity > 1 {
                scrollback_capacity as int
            } else {
                1
            },
            r.spec_state() == SessionHostState::Opening,
            r.spec_viewport() == ViewportState::spec_initial(),
    {
        let r = SessionHost {
            lines: VecDeque::new(),
            scrollback_capacity: if scrollback_capacity > 1 {
                scrollback_capacity
            } else {
                1
            },
            state: SessionHostState::Opening,
            viewport: ViewportState::new(),
        };
        proof {
            assert(r.spec_lines() =~= Seq::<Seq<char>>::empty());
        }
        r
    }

    pub fn state(&self) -> (r: SessionHostState)
        ensures
            r == self.spec_state(),
    {
        self.state.clone()
    }

    /// A copy of the output lines, oldest first.
    pub fn lines(&self) -> (r: Vec<String>)
        ensures
            r@.map_values(|s: String| s@) == self.spec_lines(),
    {
        let mut out: Vec<String> = Vec::new();
        let mut i: usize = 0;
        while i < self.lines.len()
            invariant
                i <= self.lines@.len(),
                out@.map_values(|s: String| s@) == self.spec_lines().take(i as int),
            decreases self.lines@.len() - i,
        {
            let ghost before = out@;
            out.push(copy_string(self.lines[i].as_str()));
            proof {
                assert(out@.map_values(|s: String| s@) =~= before.map_values(|s: String| s@).push(
                    self.lines@[i as int]@,
                ));
                assert(self.spec_lines().take(i + 1) =~= self.spec_lines().take(i as int).push(
                    self.lines@[i as int]@,
                ));
            }
            i = i + 1;
        }
        proof {
            assert(self.spec_lines().take(self.lines@.len() as int) =~= self.spec_lines());
        }
        out
    }

    pub fn scrollback_capacity(&self) -> (r: usize)
        ensures
            r == self.spec_capacity(),
    {
        self.scrollback_capacity
    }

    pub fn mark_running(&mut self)
        ensures
            final(self).spec_state() == SessionHostState::Running,
            final(self).spec_lines() == old(self).spec_lines(),
            final(self).spec_capacity() == old(self).spec_capacity(),
            final(self).spec_viewport() == old(self).spec_viewport(),
    {
        self.state = SessionHostState::Running;
    }

    pub fn mark_exited(&mut self, exit_code: Option<i32>)
        ensures
            final(self).spec_state() == (SessionHostState::Exited { exit_code }),
            final(self).spec_lines() == old(self).spec_lines(),
            final(self).spec_capacity() == old(self).spec_capacity(),
            final(self).spec_viewport() == old(self).spec_viewport(),
    {
        self.state = SessionHostState::Exited { exit_code };
    }

    pub fn mark_failed(&mut self, message: &str)
        ensures
            final(self).spec_state() matches SessionHostState::Failed { message: m } && m@
                == message@,
            final(self).spec_lines() == old(self).spec_lines(),
            final(self).spec_capacity() == old(self).spec_capacity(),
            final(self).spec_viewport() == old(self).spec_viewport(),
    {
        self.state = SessionHostState::Failed { message: copy_string(message) };
    }

    pub fn mark_closed(&mut self)
        ensures
            final(self).spec_state() == SessionHostState::Closed,
            final(self).spec_lines() == old(self).spec_lines(),
            final(self).spec_capacity() == old(self).spec_capacity(),
            final(self).spec_viewport() == old(self).spec_viewport(),
    {
        self.state = SessionHostState::Closed;
    }

    /// Appends opaque provider output after making control characters inert: each line-feed
    /// separated segment becomes a line, and the oldest lines are evicted beyond the capacity.
    pub fn push_output(&mut self, output: &str)
        requires
            old(self).wf(),
        ensures
            final(self).wf(),
            final(self).spec_lines() == appended_output(
                old(self).spec_lines(),
                output@,
                old(self).spec_capacity(),
            ),
            final(self).spec_capacity() == old(self).spec_capacity(),
            final(self).spec_state() == old(self).spec_state(),
            final(self).spec_viewport() == old(self).spec_viewport(),
    {
        let chars = str_chars(output);
        let ghost safe = output@.map_values(|c: char| inert_char(c));
        let ghost old_lines = self.spec_lines();
        let ghost cap = self.scrollback_capacity as int;
        let mut segments: Vec<String> = Vec::new();
        let mut current: Vec<char> = Vec::new();
        let mut i: usize = 0;
        while i < chars.len()
            invariant
                i <= chars@.len(),
                chars@ == output@,
                safe == output@.map_values(|c: char| inert_char(c)),
                (segments@.map_values(|s: String| s@), current@) == newline_scan(
                    safe.take(i as int),
                ),
            decreases chars@.len() - i,
        {
            proof {
                assert(safe.take(i + 1).drop_last() == safe.take(i as int));
                assert(safe.take(i + 1).last() == inert_char(chars@[i as int]));
            }
            let c = chars[i];
            if c == '\n' {
                let ghost before = segments@;
                segments.push(string_from_chars(current.as_slice()));
                proof {
                    assert(segments@.map_values(|s: String| s@) =~= before.map_values(
                        |s: String| s@,
                    ).push(current@));
                }
                current = Vec::new();
            } else if is_control(c) {
                current.push('\u{fffd}');
            } else {
                current.push(c);
            }
            i = i + 1;
        }
        let ghost before = segments@;
        segments.push(string_from_chars(current.as_slice()));
        proof {
            assert(safe.take(chars@.len() as int) == safe);
            assert(segments@.map_values(|s: String| s@) =~= before.map_values(|s: String| s@).push(
                current@,
            ));
        }
        let ghost parts = split_newlines(safe);
        let mut k: usize = 0;
        while k < segments.len()
            invariant
                k <= segments@.len(),
                segments@.map_values(|s: String| s@) == parts,
                cap == self.scrollback_capacity,
                cap >= 1,
                self.spec_lines() == keep_last(old_lines + parts.take(k as int), cap),
                self.spec_state() == old(self).spec_state(),
                self.spec_viewport() == old(self).spec_viewport(),
                self.spec_viewport().wf(),
                old_lines.len() <= cap,
            decreases segments@.len() - k,
        {
            let ghost prev = self.spec_lines();
            self.lines.push_back(copy_string(segments[k].as_str()));
            proof {
                assert(self.spec_lines() =~= prev.push(parts[k as int]));
                let all = old_lines + parts.take(k + 1);
                assert(all.drop_last() =~= old_lines + parts.take(k as int));
                assert(all.last() == parts[k as int]);
            }
            if self.lines.len() > self.scrollback_capacity {
                let ghost before_pop = self.spec_lines();
                self.lines.pop_front();
                proof {
                    assert(self.spec_lines() =~= before_pop.skip(1));
                }
            }
            proof {
                let all = old_lines + parts.take(k + 1);
                assert(self.spec_lines() =~= keep_last(all, cap));
            }
            k = k + 1;
        }
        proof {
            assert(parts.take(segments@.len() as int) == parts);
        }
    }

    /// Scrolls up by up to `lines` rows; returns whether the offset changed.
    pub fn scroll_up(&mut self, lines: usize) -> (changed: bool)
        requires
            old(self).wf(),
        ensures
            final(self).wf(),
            final(self).spec_lines() == old(self).spec_lines(),
            final(self).spec_capacity() == old(self).spec_capacity(),
            final(self).spec_state() == old(self).spec_state(),
            final(self).spec_viewport().same_dimensions(&old(self).spec_viewport()),
            final(self).spec_viewport().spec_offset() == sat_sub(
                old(self).spec_viewport().spec_offset() as int,
                lines as int,
            ),
            changed == (final(self).spec_viewport().spec_offset() != old(self).spec_viewport().spec_offset()),
    {
        let mut changed = false;
        let mut i: usize = 0;
        while i < lines
            invariant
                i <= lines,
                self.spec_lines() == old(self).spec_lines(),
                self.spec_capacity() == old(self).spec_capacity(),
                self.spec_state() == old(self).spec_state(),
                self.wf(),
                self.spec_viewport().same_dimensions(&old(self).spec_viewport()),
                self.spec_viewport().spec_offset() == sat_sub(
                    old(self).spec_viewport().spec_offset() as int,
                    i as int,
                ),
                changed == (self.spec_viewport().spec_offset() != old(self).spec_viewport().spec_offset()),
            decreases lines - i,
        {
            let step = self.viewport.scroll_up();
            changed = changed || step;
            i = i + 1;
        }
        changed
    }

    /// Scrolls down by up to `lines` rows; returns whether the offset changed.
    pub fn scroll_down(&mut self, lines: usize) -> (changed: bool)
        requires
            old(self).wf(),
        ensures
            final(self).wf(),
            final(self).spec_lines() == old(self).spec_lines(),
            final(self).spec_capacity() == old(self).spec_capacity(),
            final(self).spec_state() == old(self).spec_state(),
            final(self).spec_viewport().same_dimensions(&old(self).spec_viewport()),
            final(self).spec_viewport().spec_offset() == old(self).spec_viewport().clamped(
                old(self).spec_viewport().spec_offset() + lines,
            ),
            changed == (final(self).spec_viewport().spec_offset() != old(self).spec_viewport().spec_offset()),
    {
        let mut changed = false;
        let mut i: usize = 0;
        while i < lines
            invariant
                i <= lines,
                self.spec_lines() == old(self).spec_lines(),
                self.spec_capacity() == old(self).spec_capacity(),
                self.spec_state() == old(self).spec_state(),
                self.wf(),
                old(self).wf(),
                self.spec_viewport().same_dimensions(&old(self).spec_viewport()),
                self.spec_viewport().spec_offset() == old(self).spec_viewport().clamped(
                    old(self).spec_viewport().spec_offset() + i,
                ),
                changed == (self.spec_viewport().spec_offset() != old(self).spec_viewport().spec_offset()),
            decreases lines - i,
        {
            let step = self.viewport.scroll_down();
            changed = changed || step;
            i = i + 1;
        }
        changed
    }

    /// Sizes the viewport to the output, draws the lines in view (or a pending notice) left of
    /// the last column, and the scrollbar in that column; returns the scrollbar geometry.
    pub fn render(
        &mut self,
        frame: &mut Frame,
        rect: Rect,
        output_style: Style,
        track_style: Style,
        thumb_style: Style,
    ) -> (r: Option<ScrollbarGeometry>)
        requires
            old(self).wf(),
            old(frame).wf(),
        ensures
            final(self).wf(),
            final(frame).wf(),
            final(frame).same_size(old(frame)),
            final(self).spec_lines() == old(self).spec_lines(),
            final(self).spec_capacity() == old(self).spec_capacity(),
            final(self).spec_state() == old(self).spec_state(),
            final(self).spec_viewport().spec_initialized(),
            (
                final(self).spec_viewport().spec_offset() as int,
                final(self).spec_viewport().spec_content_height() as int,
                final(self).spec_viewport().spec_viewport_height() as int,
            ) == old(self).spec_viewport().updated(
                old(self).spec_lines().len() as int,
                rect.height as int,
            ),
            rect.width == 0 || rect.height == 0 ==> r is None && *final(frame) == *old(frame),
            rect.width > 0 && rect.height > 0 ==> r == spec_geometry(
                final(self).spec_viewport(),
                Rect {
                    x: sat_add16(rect.x as int, rect.width - 1),
                    y: rect.y,
                    width: 1,
                    height: rect.height,
                },
            ),
            rect.width > 0 && rect.height > 0 ==> {
                let drawn = output_cells(
                    old(frame).spec_buffer().cells(),
                    old(frame).spec_width() as int,
                    old(frame).spec_height() as int,
                    content_area(rect),
                    old(self).spec_lines(),
                    final(self).spec_viewport().spec_offset() as int,
                    output_style,
                );
                final(frame).spec_buffer().cells() == match r {
                    None => drawn,
                    Some(g) => scrollbar_cells(
                        drawn,
                        old(frame).spec_width() as int,
                        old(frame).spec_height() as int,
                        g,
                        track_style,
                        thumb_style,
                    ),
                }
            },
    {
        self.viewport.update_dimensions(self.lines.len(), rect.height);
        if rect.width == 0 || rect.height == 0 {
            return None;
        }
        let content = Rect::new(rect.x, rect.y, rect.width - 1, rect.height);
        self.write_output(frame, content, output_style);
        Scrollbar::render(
            frame,
            &self.viewport,
            Rect::new(rect.x.saturating_add(rect.width - 1), rect.y, 1, rect.height),
            track_style,
            thumb_style,
        )
    }

    /// Draws the lines in view into `content`, or a pending notice without output.
    fn write_output(&self, frame: &mut Frame, content: Rect, style: Style)
        requires
            old(frame).wf(),
            self.spec_viewport().wf(),
            self.spec_viewport().spec_content_height() == self.spec_lines().len(),
        ensures
            final(frame).wf(),
            final(frame).same_size(old(frame)),
            final(frame).spec_buffer().cells() == output_cells(
                old(frame).spec_buffer().cells(),
                old(frame).spec_width() as int,
                old(frame).spec_height() as int,
                content,
                self.spec_lines(),
                self.spec_viewport().spec_offset() as int,
                style,
            ),
    {
        if self.lines.len() == 0 {
            frame.write_text_in(content, 0, 0, "(session output pending)", style);
            return;
        }
        let start = self.viewport.offset();
        let len = self.lines.len();
        let h = content.height as usize;
        let count = if h <= len - start {
            h
        } else {
            len - start
        };
        let ghost cells0 = old(frame).spec_buffer().cells();
        let ghost fw = old(frame).spec_width() as int;
        let ghost fh = old(frame).spec_height() as int;
        let mut k: usize = 0;
        while k < count
            invariant
                start + count <= len == self.lines@.len(),
                count <= h == content.height,
                k <= count,
                frame.wf(),
                frame.same_size(old(frame)),
                cells0 == old(frame).spec_buffer().cells(),
                fw == old(frame).spec_width(),
                fh == old(frame).spec_height(),
                frame.spec_buffer().cells() == output_rows_cells(
                    cells0,
                    fw,
                    fh,
                    content,
                    self.spec_lines(),
                    start as int,
                    k as int,
                    style,
                ),
            decreases count - k,
        {
            frame.write_text_in(content, 0, k as u16, self.lines[start + k].as_str(), style);
            k = k + 1;
        }
    }
}


/// However much output arrives, at most `cap` lines are kept, and the newest line is the last
/// segment of the output.
pub proof fn lemma_output_bounded(lines: Seq<Seq<char>>, output: Seq<char>, cap: int)
    requires
        cap >= 1,
    ensures
        appended_output(lines, output, cap).len() <= cap,
        appended_output(lines, output, cap).len() >= 1,
        appended_output(lines, output, cap).last() == split_newlines(
            output.map_values(|c: char| inert_char(c)),
        ).last(),
{
    let parts = split_newlines(output.map_values(|c: char| inert_char(c)));
    let all = lines + parts;
    assert(all.last() == parts.last());
    if all.len() > cap {
        assert(all.skip(all.len() - cap).last() == all.last());
    }
}

} // verus!
