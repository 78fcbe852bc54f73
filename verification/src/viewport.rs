use vstd::prelude::*;

use crate::frame::{Frame, rows_written};
use crate::geometry::Rect;
use crate::style::Style;

verus! {

/// `a - b` clamped at zero.
pub open spec fn sat_sub(a: int, b: int) -> int {
    if a >= b {
        a - b
    } else {
        0
    }
}

/// Caller-owned offset and dimensions for a scrolled view.
#[derive(Clone, Debug, Default, PartialEq, Eq)]
pub struct ViewportState {
    offset: usize,
    content_height: usize,
    viewport_height: usize,
    initialized: bool,
}

impl ViewportState {
    pub closed spec fn spec_offset(&self) -> usize {
        self.offset
    }

    pub closed spec fn spec_content_height(&self) -> usize {
        self.content_height
    }

    pub closed spec fn spec_viewport_height(&self) -> usize {
        self.viewport_height
    }

    pub closed spec fn spec_initialized(&self) -> bool {
        self.initialized
    }

    /// The largest offset: content rows that do not fit in the viewport.
    pub open spec fn spec_max_scroll(&self) -> int {
        sat_sub(self.spec_content_height() as int, self.spec_viewport_height() as int)
    }

    /// `offset` limited to the scroll range.
    pub open spec fn clamped(&self, offset: int) -> int {
        if offset <= self.spec_max_scroll() {
            offset
        } else {
            self.spec_max_scroll()
        }
    }

    /// The offset never passes the last full page.
    pub open spec fn wf(&self) -> bool {
        self.spec_offset() <= self.spec_max_scroll()
    }

    /// Same dimensions and initialization, possibly another offset.
    pub open spec fn same_dimensions(&self, other: &ViewportState) -> bool {
        &&& self.spec_content_height() == other.spec_content_height()
        &&& self.spec_viewport_height() == other.spec_viewport_height()
        &&& self.spec_initialized() == other.spec_initialized()
    }

    /// The state after `update_dimensions(content_height, viewport_height)`.
    pub open spec fn updated(&self, content_height: int, viewport_height: int) -> (int, int, int) {
        let max = sat_sub(content_height, viewport_height);
        let was_at_bottom = self.spec_initialized() && self.spec_offset()
            == self.spec_max_scroll();
        let offset = if was_at_bottom {
            max
        } else if self.spec_offset() <= max {
            self.spec_offset() as int
        } else {
            max
        };
        (offset, content_height, viewport_height)
    }

    /// The fresh state: no content, no viewport, not yet sized.
    pub closed spec fn spec_initial() -> ViewportState {
        ViewportState { offset: 0, content_height: 0, viewport_height: 0, initialized: false }
    }

    pub fn new() -> (v: Self)
        ensures
            v.wf(),
            v.spec_offset() == 0,
            v.spec_content_height() == 0,
            v.spec_viewport_height() == 0,
            !v.spec_initialized(),
            v == ViewportState::spec_initial(),
    {
        ViewportState { offset: 0, content_height: 0, viewport_height: 0, initialized: false }
    }

    /// Updates content and viewport dimensions, preserving the current position unless the
    /// previous position was at the bottom, in which case the view stays at the bottom.
    pub fn update_dimensions(&mut self, content_height: usize, viewport_height: u16)
        ensures
            final(self).wf(),
            final(self).spec_initialized(),
            (final(self).spec_offset() as int, final(self).spec_content_height() as int, final(self).spec_viewport_height() as int) == old(self).updated(
                content_height as int,
                viewport_height as int,
            ),
    {
        let was_at_bottom = self.initialized && self.is_at_bottom();
        self.content_height = content_height;
        self.viewport_height = viewport_height as usize;
        self.initialized = true;
        let max = self.max_scroll();
        if was_at_bottom {
            self.offset = max;
        } else if self.offset > max {
            self.offset = max;
        }
    }

    pub fn offset(&self) -> (o: usize)
        ensures
            o == self.spec_offset(),
    {
        self.offset
    }

    pub fn content_height(&self) -> (c: usize)
        ensures
            c == self.spec_content_height(),
    {
        self.content_height
    }

    pub fn viewport_height(&self) -> (v: usize)
        ensures
            v == self.spec_viewport_height(),
    {
        self.viewport_height
    }

    pub fn max_scroll(&self) -> (m: usize)
        ensures
            m == self.spec_max_scroll(),
    {
        self.content_height.saturating_sub(self.viewport_height)
    }

    pub fn is_at_bottom(&self) -> (b: bool)
        ensures
            b == (self.spec_offset() == self.spec_max_scroll()),
    {
        self.offset == self.max_scroll()
    }

    /// Moves to `offset` clamped to the scroll range; returns whether the offset changed.
    pub(crate) fn set_offset(&mut self, offset: usize) -> (changed: bool)
        ensures
            final(self).wf(),
            final(self).same_dimensions(old(self)),
            final(self).spec_offset() == (if offset <= old(self).spec_max_scroll() {
                offset as int
            } else {
                old(self).spec_max_scroll()
            }),
            changed == (final(self).spec_offset() != old(self).spec_offset()),
    {
        let max = self.max_scroll();
        let offset = if offset <= max {
            offset
        } else {
            max
        };
        if self.offset == offset {
            return false;
        }
        self.offset = offset;
        true
    }

    pub fn scroll_up(&mut self) -> (changed: bool)
        ensures
            final(self).wf(),
            final(self).same_dimensions(old(self)),
            final(self).spec_offset() == old(self).clamped(
                sat_sub(old(self).spec_offset() as int, 1),
            ),
            changed == (final(self).spec_offset() != old(self).spec_offset()),
    {
        self.set_offset(self.offset.saturating_sub(1))
    }

    pub fn scroll_down(&mut self) -> (changed: bool)
        ensures
            final(self).wf(),
            final(self).same_dimensions(old(self)),
            final(self).spec_offset() == (if old(self).spec_offset() + 1 <= old(self).spec_max_scroll() {
                old(self).spec_offset() + 1
            } else {
                old(self).spec_max_scroll()
            }),
            changed == (final(self).spec_offset() != old(self).spec_offset()),
    {
        self.set_offset(self.offset.saturating_add(1))
    }

    pub fn page_up(&mut self) -> (changed: bool)
        ensures
            final(self).wf(),
            final(self).same_dimensions(old(self)),
            final(self).spec_offset() == old(self).clamped(
                sat_sub(old(self).spec_offset() as int, old(self).spec_viewport_height() as int),
            ),
            changed == (final(self).spec_offset() != old(self).spec_offset()),
    {
        self.set_offset(self.offset.saturating_sub(self.viewport_height))
    }

    pub fn page_down(&mut self) -> (changed: bool)
        ensures
            final(self).wf(),
            final(self).same_dimensions(old(self)),
            final(self).spec_offset() == (if old(self).spec_offset() + old(self).spec_viewport_height() <= old(self).spec_max_scroll() {
                old(self).spec_offset() + old(self).spec_viewport_height()
            } else {
                old(self).spec_max_scroll()
            }),
            changed == (final(self).spec_offset() != old(self).spec_offset()),
    {
        self.set_offset(self.offset.saturating_add(self.viewport_height))
    }

    pub fn home(&mut self) -> (changed: bool)
        ensures
            final(self).wf(),
            final(self).same_dimensions(old(self)),
            final(self).spec_offset() == 0,
            changed == (old(self).spec_offset() != 0),
    {
        self.set_offset(0)
    }

    pub fn end(&mut self) -> (changed: bool)
        ensures
            final(self).wf(),
            final(self).same_dimensions(old(self)),
            final(self).spec_offset() == old(self).spec_max_scroll(),
            changed == (old(self).spec_offset() != old(self).spec_max_scroll()),
    {
        self.set_offset(self.max_scroll())
    }
}

/// Scrolling down one row and then up one row returns to the starting offset whenever the
/// downward scroll moved.
pub proof fn lemma_scroll_down_then_up(offset: int, max: int)
    requires
        0 <= offset < max,
    ensures
        sat_sub(offset + 1, 1) == offset,
{
}

/// A view that was at the bottom stays at the bottom when the dimensions change.
pub proof fn lemma_bottom_is_sticky(v: ViewportState, content_height: int, viewport_height: int)
    requires
        v.spec_initialized(),
        v.spec_offset() == v.spec_max_scroll(),
    ensures
        v.updated(content_height, viewport_height).0 == sat_sub(content_height, viewport_height),
{
}

/// Paging down and then up returns to the starting offset when the whole page fit.
pub proof fn lemma_page_down_then_up(offset: int, page: int, max: int)
    requires
        0 <= offset,
        0 <= page,
        offset + page <= max,
    ensures
        sat_sub(offset + page, page) == offset,
{
}

/// Borrowed text lines rendered through an explicit [`ViewportState`].
///
/// Rendering updates the state dimensions and writes only the visible range.
pub struct Viewport<'a> {
    lines: &'a [String],
    style: Style,
}

impl<'a> Viewport<'a> {
    pub closed spec fn spec_lines(&self) -> Seq<Seq<char>> {
        self.lines@.map_values(|s: String| s@)
    }

    pub closed spec fn spec_style(&self) -> Style {
        self.style
    }

    pub fn new(lines: &'a [String]) -> (v: Self)
        ensures
            v.spec_lines() == lines@.map_values(|s: String| s@),
            v.spec_style() == Style::plain(),
    {
        Viewport { lines, style: Style::new() }
    }

    pub fn style(self, style: Style) -> (v: Self)
        ensures
            v.spec_lines() == self.spec_lines(),
            v.spec_style() == style,
    {
        Viewport { lines: self.lines, style }
    }

    /// Updates `state` with the line count and rect height, then writes the visible lines, one
    /// per row of `rect`, starting at the state's offset.
    pub fn render(&self, frame: &mut Frame, rect: Rect, state: &mut ViewportState)
        requires
            old(frame).wf(),
        ensures
            final(frame).wf(),
            final(frame).same_size(old(frame)),
            (final(state).spec_offset() as int, final(state).spec_content_height() as int, final(state).spec_viewport_height() as int) == old(state).updated(
                self.spec_lines().len() as int,
                rect.height as int,
            ),
            final(state).wf(),
            final(state).spec_initialized(),
            final(frame).spec_buffer().cells() == (if rect.width == 0 || rect.height == 0 {
                old(frame).spec_buffer().cells()
            } else {
                rows_written(
                    old(frame).spec_buffer(),
                    rect,
                    self.spec_lines().subrange(
                        final(state).spec_offset() as int,
                        final(state).spec_offset() + min_rows(
                            rect.height as int,
                            self.spec_lines().len() - final(state).spec_offset(),
                        ),
                    ),
                    self.spec_style(),
                )
            }),
    {
        state.update_dimensions(self.lines.len(), rect.height);
        if rect.width == 0 || rect.height == 0 {
            return;
        }
        let start = state.offset();
        let visible = if self.lines.len() - start <= rect.height as usize {
            self.lines.len() - start
        } else {
            rect.height as usize
        };
        frame.write_rows(rect, self.lines, start, start + visible, self.style);
    }
}

/// The smaller of a row budget and the rows left.
pub open spec fn min_rows(budget: int, left: int) -> int {
    if left <= budget {
        left
    } else {
        budget
    }
}

} // verus!
