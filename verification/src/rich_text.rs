use vstd::prelude::*;

use crate::cell::Cell;
use crate::chars::{str_chars, string_from_chars};
use crate::frame::{Frame, write_in};
use crate::geometry::{Rect, sat_add16};
use crate::style::Style;
use crate::text::{Alignment, align_offset, alignment_offset, display_width16, width16};
use crate::width::{display_width, unicode_str_width};

verus! {

/// One independently styled segment within a [`Line`].
#[derive(Clone, Debug, PartialEq, Eq)]
pub struct Span {
    content: String,
    style: Style,
}

/// A span as its characters and style.
pub type SpanView = (Seq<char>, Style);

impl Span {
    pub closed spec fn spec_view(&self) -> SpanView {
        (self.content@, self.style)
    }

    pub fn raw(content: &str) -> (s: Self)
        ensures
            s.spec_view() == (content@, Style::plain()),
    {
        Span::styled(content, Style::new())
    }

    pub fn styled(content: &str, style: Style) -> (s: Self)
        ensures
            s.spec_view() == (content@, style),
    {
        let chars = str_chars(content);
        Span { content: string_from_chars(chars.as_slice()), style }
    }

    pub fn content(&self) -> (c: &str)
        ensures
            c@ == self.spec_view().0,
    {
        self.content.as_str()
    }

    pub fn style(&self) -> (s: Style)
        ensures
            s == self.spec_view().1,
    {
        self.style
    }
}

/// The views of a list of spans.
pub open spec fn span_views(spans: Seq<Span>) -> Seq<SpanView> {
    spans.map_values(|s: Span| s.spec_view())
}

/// Total display width of spans, saturating at `usize::MAX`.
pub open spec fn spans_width(spans: Seq<SpanView>) -> int
    decreases spans.len(),
{
    if spans.len() == 0 {
        0
    } else {
        let w = spans_width(spans.drop_last()) + unicode_str_width(spans.last().0) as int;
        if w > usize::MAX {
            usize::MAX as int
        } else {
            w
        }
    }
}

/// State while writing the spans of a line: cells, next column, and whether writing stopped.
pub type LineState = (Seq<Cell>, int, bool);

/// Writing one span at the current column of row `row`; writing stops after a span that was
/// cut short.
pub open spec fn span_step(
    st: LineState,
    w: int,
    h: int,
    rect: Rect,
    row: int,
    span: SpanView,
) -> LineState {
    let available = if rect.width >= st.1 {
        rect.width - st.1
    } else {
        0
    };
    if st.2 || available == 0 {
        (st.0, st.1, true)
    } else {
        let span_width = width16(unicode_str_width(span.0) as int);
        let (cells, written) = write_in(st.0, w, h, rect, st.1, row, span.0, span.1);
        let limit = if span_width <= available {
            span_width
        } else {
            available
        };
        (cells, sat_add16(st.1, written) as int, written < limit)
    }
}

/// The state after writing `spans` in order starting at column `column`.
pub open spec fn span_run(
    cells: Seq<Cell>,
    w: int,
    h: int,
    rect: Rect,
    row: int,
    spans: Seq<SpanView>,
    column: int,
) -> LineState
    decreases spans.len(),
{
    if spans.len() == 0 {
        (cells, column, false)
    } else {
        span_step(span_run(cells, w, h, rect, row, spans.drop_last(), column), w, h, rect, row, spans.last())
    }
}

/// The cells after rendering a line of spans on row `row` of `rect` with `alignment`.
pub open spec fn line_cells(
    cells: Seq<Cell>,
    w: int,
    h: int,
    rect: Rect,
    row: int,
    spans: Seq<SpanView>,
    alignment: Alignment,
) -> Seq<Cell> {
    if rect.width == 0 || row >= rect.height {
        cells
    } else {
        span_run(
            cells,
            w,
            h,
            rect,
            row,
            spans,
            align_offset(alignment, rect.width as int, width16(spans_width(spans))),
        ).0
    }
}

/// An ordered row of [`Span`] values rendered into a frame.
#[derive(Clone, Debug, PartialEq, Eq)]
pub struct Line {
    spans: Vec<Span>,
    alignment: Alignment,
}

impl Line {
    pub closed spec fn spec_spans(&self) -> Seq<SpanView> {
        span_views(self.spans@)
    }

    pub closed spec fn spec_alignment(&self) -> Alignment {
        self.alignment
    }

    pub fn new(spans: Vec<Span>) -> (l: Self)
        ensures
            l.spec_spans() == span_views(spans@),
            l.spec_alignment() == Alignment::Left,
    {
        Line { spans, alignment: Alignment::Left }
    }

    /// A line holding one unstyled span.
    pub fn raw(content: &str) -> (l: Self)
        ensures
            l.spec_spans() == seq![(content@, Style::plain())],
            l.spec_alignment() == Alignment::Left,
    {
        let mut spans: Vec<Span> = Vec::new();
        spans.push(Span::raw(content));
        proof {
            assert(span_views(spans@) =~= seq![(content@, Style::plain())]);
        }
        Line { spans, alignment: Alignment::Left }
    }

    pub fn alignment(self, alignment: Alignment) -> (l: Self)
        ensures
            l.spec_spans() == self.spec_spans(),
            l.spec_alignment() == alignment,
    {
        Line { spans: self.spans, alignment }
    }

    pub fn spans(&self) -> (s: &[Span])
        ensures
            span_views(s@) == self.spec_spans(),
    {
        self.spans.as_slice()
    }

    /// Total display width of the spans; a total beyond `usize::MAX` reads as `usize::MAX`.
    pub fn display_width(&self) -> (r: usize)
        ensures
            r == spans_width(self.spec_spans()),
    {
        let mut total: usize = 0;
        let mut i: usize = 0;
        while i < self.spans.len()
            invariant
                i <= self.spans@.len(),
                total as int == spans_width(span_views(self.spans@.take(i as int))),
            decreases self.spans@.len() - i,
        {
            proof {
                assert(span_views(self.spans@.take(i + 1)).drop_last() =~= span_views(
                    self.spans@.take(i as int),
                ));
                assert(span_views(self.spans@.take(i + 1)).last() == self.spans@[i as int].spec_view());
            }
            let w = display_width(self.spans[i].content.as_str());
            total = total.saturating_add(w);
            i = i + 1;
        }
        proof {
            assert(self.spans@.take(self.spans@.len() as int) == self.spans@);
        }
        total
    }

    pub fn render(&self, frame: &mut Frame, rect: Rect)
        requires
            old(frame).wf(),
        ensures
            final(frame).wf(),
            final(frame).same_size(old(frame)),
            final(frame).spec_buffer().cells() == line_cells(
                old(frame).spec_buffer().cells(),
                old(frame).spec_width() as int,
                old(frame).spec_height() as int,
                rect,
                0,
                self.spec_spans(),
                self.spec_alignment(),
            ),
    {
        self.render_at(frame, rect, 0, self.alignment);
    }

    pub(crate) fn render_at(&self, frame: &mut Frame, rect: Rect, row: u16, alignment: Alignment)
        requires
            old(frame).wf(),
        ensures
            final(frame).wf(),
            final(frame).same_size(old(frame)),
            final(frame).spec_buffer().cells() == line_cells(
                old(frame).spec_buffer().cells(),
                old(frame).spec_width() as int,
                old(frame).spec_height() as int,
                rect,
                row as int,
                self.spec_spans(),
                alignment,
            ),
    {
        if rect.width == 0 || row >= rect.height {
            return;
        }
        let total = self.display_width();
        let width: u16 = if total > u16::MAX as usize {
            u16::MAX
        } else {
            total as u16
        };
        let mut column = alignment_offset(alignment, rect.width, width);
        let ghost spans = self.spec_spans();
        let ghost w = frame.spec_width() as int;
        let ghost h = frame.spec_height() as int;
        let ghost c0 = frame.spec_buffer().cells();
        let ghost column0 = column as int;
        let mut i: usize = 0;
        let mut stopped = false;
        while i < self.spans.len() && !stopped
            invariant
                i <= self.spans@.len(),
                spans == span_views(self.spans@),
                frame.wf(),
                frame.same_size(old(frame)),
                w == frame.spec_width(),
                h == frame.spec_height(),
                (frame.spec_buffer().cells(), column as int, stopped) == span_run(
                    c0,
                    w,
                    h,
                    rect,
                    row as int,
                    spans.take(i as int),
                    column0,
                ),
            decreases self.spans@.len() - i,
        {
            proof {
                assert(spans.take(i + 1).drop_last() == spans.take(i as int));
                assert(spans.take(i + 1).last() == self.spans@[i as int].spec_view());
            }
            let span = &self.spans[i];
            let available = rect.width.saturating_sub(column);
            if available == 0 {
                stopped = true;
            } else {
                let span_width = display_width16(span.content.as_str());
                let written = frame.write_text_in(rect, column, row, span.content.as_str(), span.style);
                let written = written as u16;
                column = column.saturating_add(written);
                let limit = if span_width <= available {
                    span_width
                } else {
                    available
                };
                if written < limit {
                    stopped = true;
                }
            }
            i = i + 1;
        }
        proof {
            lemma_span_run_stops(c0, w, h, rect, row as int, spans, column0, i as int);
        }
    }
}

/// Once writing stops, the remaining spans change nothing.
proof fn lemma_span_run_stops(
    cells: Seq<Cell>,
    w: int,
    h: int,
    rect: Rect,
    row: int,
    spans: Seq<SpanView>,
    column: int,
    i: int,
)
    requires
        0 <= i <= spans.len(),
        i < spans.len() ==> span_run(cells, w, h, rect, row, spans.take(i), column).2,
    ensures
        span_run(cells, w, h, rect, row, spans, column).0 == span_run(
            cells,
            w,
            h,
            rect,
            row,
            spans.take(i),
            column,
        ).0,
        i < spans.len() ==> span_run(cells, w, h, rect, row, spans, column).2,
    decreases spans.len() - i,
{
    if i == spans.len() {
        assert(spans.take(i) == spans);
    } else {
        assert(spans.take(i + 1).drop_last() == spans.take(i));
        lemma_span_run_stops(cells, w, h, rect, row, spans, column, i + 1);
    }
}

/// The cells after rendering each line on its own row with the same alignment.
pub open spec fn rich_rows(
    cells: Seq<Cell>,
    w: int,
    h: int,
    rect: Rect,
    lines: Seq<Seq<SpanView>>,
    alignment: Alignment,
) -> Seq<Cell>
    decreases lines.len(),
{
    if lines.len() == 0 {
        cells
    } else {
        line_cells(
            rich_rows(cells, w, h, rect, lines.drop_last(), alignment),
            w,
            h,
            rect,
            lines.len() - 1,
            lines.last(),
            alignment,
        )
    }
}

/// The span views of each line.
pub open spec fn line_views(lines: Seq<Line>) -> Seq<Seq<SpanView>> {
    lines.map_values(|l: Line| l.spec_spans())
}

/// Stateless multi-line styled display content.
///
/// Lines clip to the target rectangle. Span styles remain independent unless callers explicitly
/// patch them while composing a line.
#[derive(Clone, Debug, PartialEq, Eq)]
pub struct RichText {
    lines: Vec<Line>,
    alignment: Alignment,
}

impl RichText {
    pub closed spec fn spec_lines(&self) -> Seq<Line> {
        self.lines@
    }

    pub closed spec fn spec_alignment(&self) -> Alignment {
        self.alignment
    }

    pub fn new(lines: Vec<Line>) -> (r: Self)
        ensures
            r.spec_lines() == lines@,
            r.spec_alignment() == Alignment::Left,
    {
        RichText { lines, alignment: Alignment::Left }
    }

    pub fn alignment(self, alignment: Alignment) -> (r: Self)
        ensures
            r.spec_lines() == self.spec_lines(),
            r.spec_alignment() == alignment,
    {
        RichText { lines: self.lines, alignment }
    }

    pub fn lines(&self) -> (l: &[Line])
        ensures
            l@ == self.spec_lines(),
    {
        self.lines.as_slice()
    }

    /// Renders line `k` on row `k` of `rect` for the first `rect.height` lines, all with the
    /// rich text's alignment.
    pub fn render(&self, frame: &mut Frame, rect: Rect)
        requires
            old(frame).wf(),
        ensures
            final(frame).wf(),
            final(frame).same_size(old(frame)),
            final(frame).spec_buffer().cells() == rich_rows(
                old(frame).spec_buffer().cells(),
                old(frame).spec_width() as int,
                old(frame).spec_height() as int,
                rect,
                line_views(self.spec_lines()).take(
                    if self.spec_lines().len() <= rect.height {
                        self.spec_lines().len() as int
                    } else {
                        rect.height as int
                    },
                ),
                self.spec_alignment(),
            ),
    {
        let count = if self.lines.len() <= rect.height as usize {
            self.lines.len()
        } else {
            rect.height as usize
        };
        let ghost all = line_views(self.lines@);
        let ghost w = frame.spec_width() as int;
        let ghost h = frame.spec_height() as int;
        let ghost c0 = frame.spec_buffer().cells();
        let mut row: usize = 0;
        while row < count
            invariant
                row <= count,
                count <= self.lines@.len(),
                count <= rect.height,
                all == line_views(self.lines@),
                frame.wf(),
                frame.same_size(old(frame)),
                w == frame.spec_width(),
                h == frame.spec_height(),
                c0 == old(frame).spec_buffer().cells(),
                frame.spec_buffer().cells() == rich_rows(
                    c0,
                    w,
                    h,
                    rect,
                    all.take(row as int),
                    self.alignment,
                ),
            decreases count - row,
        {
            proof {
                assert(all.take(row + 1).drop_last() == all.take(row as int));
                assert(all.take(row + 1).last() == self.lines@[row as int].spec_spans());
            }
            self.lines[row].render_at(frame, rect, row as u16, self.alignment);
            row = row + 1;
        }
    }
}

} // verus!
