use vstd::prelude::*;

use crate::chars::copy_string;
use crate::frame::Frame;
use crate::geometry::{Rect, min_int, sat_add16};
use crate::border::BorderSet;
use crate::panel::{Panel, panel_drawn};
use crate::rich_text::rich_rows;
use crate::text::Alignment;
use crate::rich_text::{Line, RichText, Span, SpanView, line_views};
use crate::style::Style;

verus! {

/// The rectangle of the requested size (clamped to `parent`) centered within `parent`.
pub open spec fn spec_centered_rect(parent: Rect, width: int, height: int) -> Rect {
    let w = min_int(width, parent.width as int);
    let h = min_int(height, parent.height as int);
    Rect {
        x: sat_add16(parent.x as int, (parent.width - w) / 2),
        y: sat_add16(parent.y as int, (parent.height - h) / 2),
        width: w as u16,
        height: h as u16,
    }
}

/// `percent` (at most 100) of `extent`, rounded down.
pub open spec fn percent_of(extent: int, percent: int) -> int {
    extent * min_int(percent, 100) / 100
}

/// Returns a requested-size rectangle centered and clamped within `parent`.
pub fn centered_rect(parent: Rect, width: u16, height: u16) -> (r: Rect)
    ensures
        r == spec_centered_rect(parent, width as int, height as int),
        r.width <= parent.width,
        r.height <= parent.height,
{
    let width = if width < parent.width {
        width
    } else {
        parent.width
    };
    let height = if height < parent.height {
        height
    } else {
        parent.height
    };
    Rect::new(
        parent.x.saturating_add((parent.width - width) / 2),
        parent.y.saturating_add((parent.height - height) / 2),
        width,
        height,
    )
}

fn percent_u16(extent: u16, percent: u16) -> (r: u16)
    ensures
        r == percent_of(extent as int, percent as int),
        r <= extent,
{
    let p: u32 = if percent < 100 {
        percent as u32
    } else {
        100
    };
    proof {
        assert((extent as int) * (p as int) <= (extent as int) * 100) by (nonlinear_arith)
            requires
                0 <= extent,
                p <= 100,
        ;
    }
    let value = (extent as u32) * p / 100;
    value as u16
}

/// Returns a centered rectangle sized by clamped percentages of `parent`.
pub fn centered_percent_rect(parent: Rect, width_percent: u16, height_percent: u16) -> (r: Rect)
    ensures
        r == spec_centered_rect(
            parent,
            percent_of(parent.width as int, width_percent as int),
            percent_of(parent.height as int, height_percent as int),
        ),
{
    let width = percent_u16(parent.width, width_percent);
    let height = percent_u16(parent.height, height_percent);
    centered_rect(parent, width, height)
}

/// The lines of a modal with every span's style patched by `content_style`.
pub open spec fn patched_lines(lines: Seq<Seq<SpanView>>, content_style: Style) -> Seq<
    Seq<SpanView>,
> {
    lines.map_values(
        |l: Seq<SpanView>| l.map_values(|s: SpanView| (s.0, s.1.spec_patch(content_style))),
    )
}

/// `after` is `before` with a modal drawn at `r`: the titled panel (rounded border) and, inside
/// it, as many content lines as fit, each span's style patched by `content_style`.
pub open spec fn modal_drawn(
    title: Seq<char>,
    lines: Seq<Seq<SpanView>>,
    border_style: Style,
    title_style: Style,
    content_style: Style,
    r: Rect,
    before: Frame,
    after: Frame,
) -> bool {
    exists|panelled: Frame|
        #[trigger] panel_drawn(
            Some(title),
            BorderSet::spec_rounded(),
            border_style,
            title_style,
            r,
            before,
            panelled,
        ) && panelled.wf() && panelled.same_size(&before) && after.spec_buffer().cells()
            == rich_rows(
            panelled.spec_buffer().cells(),
            panelled.spec_width() as int,
            panelled.spec_height() as int,
            r.spec_inner(),
            patched_lines(lines, content_style).take(
                min_int(lines.len() as int, r.spec_inner().height as int),
            ),
            Alignment::Left,
        )
}

/// Stateless-in-use centered overlay rendered over an application-owned base frame.
///
/// Applications own whether it is open, focus isolation, and event routing; rendering returns
/// the positioned rectangle for optional composition.
pub struct Modal {
    title: String,
    lines: Vec<Line>,
    width: u16,
    height: u16,
    border_style: Style,
    title_style: Style,
    content_style: Style,
}

impl Modal {
    pub closed spec fn spec_title(&self) -> Seq<char> {
        self.title@
    }

    pub closed spec fn spec_lines(&self) -> Seq<Line> {
        self.lines@
    }

    pub closed spec fn spec_size(&self) -> (u16, u16) {
        (self.width, self.height)
    }

    pub closed spec fn spec_styles(&self) -> (Style, Style, Style) {
        (self.border_style, self.title_style, self.content_style)
    }

    /// The overlay's rectangle in `parent`: the configured size (0 meaning the parent's extent)
    /// centered within it.
    pub open spec fn spec_rect(&self, parent: Rect) -> Rect {
        spec_centered_rect(
            parent,
            if self.spec_size().0 == 0 {
                parent.width as int
            } else {
                self.spec_size().0 as int
            },
            if self.spec_size().1 == 0 {
                parent.height as int
            } else {
                self.spec_size().1 as int
            },
        )
    }

    pub fn new(title: &str, lines: Vec<Line>) -> (m: Self)
        ensures
            m.spec_title() == title@,
            m.spec_lines() == lines@,
            m.spec_size() == (0u16, 0u16),
            m.spec_styles() == (Style::plain(), Style::plain(), Style::plain()),
    {
        Modal {
            title: copy_string(title),
            lines,
            width: 0,
            height: 0,
            border_style: Style::new(),
            title_style: Style::new(),
            content_style: Style::new(),
        }
    }

    pub fn size(self, width: u16, height: u16) -> (m: Self)
        ensures
            m.spec_title() == self.spec_title(),
            m.spec_lines() == self.spec_lines(),
            m.spec_size() == (width, height),
            m.spec_styles() == self.spec_styles(),
    {
        Modal { width, height, ..self }
    }

    pub fn border_style(self, style: Style) -> (m: Self)
        ensures
            m.spec_title() == self.spec_title(),
            m.spec_lines() == self.spec_lines(),
            m.spec_size() == self.spec_size(),
            m.spec_styles() == (style, self.spec_styles().1, self.spec_styles().2),
    {
        Modal { border_style: style, ..self }
    }

    pub fn title_style(self, style: Style) -> (m: Self)
        ensures
            m.spec_title() == self.spec_title(),
            m.spec_lines() == self.spec_lines(),
            m.spec_size() == self.spec_size(),
            m.spec_styles() == (self.spec_styles().0, style, self.spec_styles().2),
    {
        Modal { title_style: style, ..self }
    }

    pub fn content_style(self, style: Style) -> (m: Self)
        ensures
            m.spec_title() == self.spec_title(),
            m.spec_lines() == self.spec_lines(),
            m.spec_size() == self.spec_size(),
            m.spec_styles() == (self.spec_styles().0, self.spec_styles().1, style),
    {
        Modal { content_style: style, ..self }
    }

    pub fn rect(&self, parent: Rect) -> (r: Rect)
        ensures
            r == self.spec_rect(parent),
    {
        centered_rect(
            parent,
            if self.width == 0 {
                parent.width
            } else {
                self.width
            },
            if self.height == 0 {
                parent.height
            } else {
                self.height
            },
        )
    }

    /// Draws the titled panel at the overlay's rectangle and the content lines, with each span's
    /// style patched by the content style, inside it; returns the overlay's rectangle.
    pub fn render(&self, frame: &mut Frame, parent: Rect) -> (r: Rect)
        requires
            old(frame).wf(),
        ensures
            final(frame).wf(),
            final(frame).same_size(old(frame)),
            r == self.spec_rect(parent),
            modal_drawn(
                self.spec_title(),
                line_views(self.spec_lines()),
                self.spec_styles().0,
                self.spec_styles().1,
                self.spec_styles().2,
                r,
                *old(frame),
                *final(frame),
            ),
    {
        let rect = self.rect(parent);
        let inner = Panel::new(self.title.as_str()).border_style(self.border_style).title_style(
            self.title_style,
        ).render(frame, rect);
        let ghost panelled = *frame;
        let mut lines: Vec<Line> = Vec::new();
        let mut i: usize = 0;
        while i < self.lines.len()
            invariant
                i <= self.lines@.len(),
                lines@.len() == i,
                line_views(lines@) == patched_lines(
                    line_views(self.lines@.take(i as int)),
                    self.content_style,
                ),
            decreases self.lines@.len() - i,
        {
            let line = patch_line(&self.lines[i], self.content_style);
            proof {
                let prev = line_views(self.lines@.take(i as int));
                let next = line_views(self.lines@.take(i + 1));
                assert(next =~= prev.push(self.lines@[i as int].spec_spans()));
                assert(line_views(lines@.push(line)) =~= line_views(lines@).push(line.spec_spans()));
                assert(patched_lines(next, self.content_style) =~= patched_lines(
                    prev,
                    self.content_style,
                ).push(
                    self.lines@[i as int].spec_spans().map_values(
                        |s: SpanView| (s.0, s.1.spec_patch(self.content_style)),
                    ),
                ));
            }
            lines.push(line);
            i = i + 1;
        }
        proof {
            assert(self.lines@.take(self.lines@.len() as int) =~= self.lines@);
            assert(line_views(lines@) == patched_lines(line_views(self.lines@), self.content_style));
            assert(inner == rect.spec_inner());
        }
        RichText::new(lines).render(frame, inner);
        assert(panel_drawn(
            Some(self.spec_title()),
            BorderSet::spec_rounded(),
            self.spec_styles().0,
            self.spec_styles().1,
            rect,
            *old(frame),
            panelled,
        ));
        rect
    }
}

/// `line` with each span's style patched by `style` and the default alignment.
pub(crate) fn patch_line(line: &Line, style: Style) -> (r: Line)
    ensures
        r.spec_spans() == line.spec_spans().map_values(
            |s: SpanView| (s.0, s.1.spec_patch(style)),
        ),
        r.spec_alignment() == crate::text::Alignment::Left,
{
    let spans = line.spans();
    let mut out: Vec<Span> = Vec::new();
    let mut i: usize = 0;
    while i < spans.len()
        invariant
            i <= spans@.len(),
            crate::rich_text::span_views(out@) == crate::rich_text::span_views(
                spans@.take(i as int),
            ).map_values(|s: SpanView| (s.0, s.1.spec_patch(style))),
        decreases spans@.len() - i,
    {
        let span = Span::styled(spans[i].content(), spans[i].style().patch(style));
        proof {
            let prev = crate::rich_text::span_views(spans@.take(i as int));
            let next = crate::rich_text::span_views(spans@.take(i + 1));
            assert(next =~= prev.push(spans@[i as int].spec_view()));
            assert(crate::rich_text::span_views(out@.push(span)) =~= crate::rich_text::span_views(
                out@,
            ).push(span.spec_view()));
            assert(next.map_values(|s: SpanView| (s.0, s.1.spec_patch(style))) =~= prev.map_values(
                |s: SpanView| (s.0, s.1.spec_patch(style)),
            ).push((spans@[i as int].spec_view().0, spans@[i as int].spec_view().1.spec_patch(style))));
        }
        out.push(span);
        i = i + 1;
    }
    proof {
        assert(spans@.take(spans@.len() as int) == spans@);
    }
    Line::new(out)
}

} // verus!
