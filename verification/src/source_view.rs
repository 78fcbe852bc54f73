use vstd::prelude::*;

use crate::cell::Cell;
use crate::chars::push_char;
use crate::diff_view::{decimal, decimal_width, pad_left, padded_number};
use crate::frame::{Frame, write_in};
use crate::geometry::{Rect, sat_add16, sat_sub16};
use crate::rich_text::{Line, line_cells};
use crate::scrollbar::{Scrollbar, ScrollbarGeometry, content_area, scrollbar_cells, spec_geometry};
use crate::style::Style;
use crate::viewport::ViewportState;

verus! {

/// Immutable, producer-styled source lines. The viewer never infers a language or token meaning.
#[derive(Clone, Debug, PartialEq, Eq)]
pub struct SourceDocument {
    lines: Vec<Line>,
}

impl SourceDocument {
    pub closed spec fn spec_lines(&self) -> Seq<Line> {
        self.lines@
    }

    pub fn new(lines: Vec<Line>) -> (r: Self)
        ensures
            r.spec_lines() == lines@,
    {
        SourceDocument { lines }
    }

    pub fn lines(&self) -> (r: &[Line])
        ensures
            r@ == self.spec_lines(),
    {
        self.lines.as_slice()
    }
}

impl Default for SourceDocument {
    fn default() -> (r: Self)
        ensures
            r.spec_lines() == Seq::<Line>::empty(),
    {
        SourceDocument { lines: Vec::new() }
    }
}

/// Cells after drawing source lines `start..start + count`: each row gets its right-aligned
/// line number and a space, then the line itself after the gutter.
pub open spec fn source_rows_cells(
    cells: Seq<Cell>,
    w: int,
    h: int,
    rect: Rect,
    lines: Seq<Line>,
    start: int,
    count: int,
    digits: int,
    gutter_style: Style,
) -> Seq<Cell>
    decreases count,
{
    if count <= 0 {
        cells
    } else {
        let prev = source_rows_cells(cells, w, h, rect, lines, start, count - 1, digits, gutter_style);
        let row = count - 1;
        let index = start + row;
        let number = pad_left(decimal((index + 1) as nat), digits).push(' ');
        let numbered = write_in(prev, w, h, rect, 0, row, number, gutter_style).0;
        let line = lines[index];
        line_cells(
            numbered,
            w,
            h,
            Rect {
                x: sat_add16(rect.x as int, digits + 1),
                y: sat_add16(rect.y as int, row),
                width: sat_sub16(rect.width as int, digits + 1),
                height: 1,
            },
            0,
            line.spec_spans(),
            line.spec_alignment(),
        )
    }
}

/// Cells after drawing `lines` into `rect` scrolled to `offset`: nothing for an empty rectangle,
/// "(empty source)" for no lines, otherwise the lines in view after a numbered gutter.
pub open spec fn source_cells(
    cells: Seq<Cell>,
    w: int,
    h: int,
    rect: Rect,
    lines: Seq<Line>,
    offset: int,
    gutter_style: Style,
) -> Seq<Cell> {
    if rect.width == 0 || rect.height == 0 {
        cells
    } else if lines.len() == 0 {
        write_in(cells, w, h, rect, 0, 0, "(empty source)"@, gutter_style).0
    } else {
        let count = if offset + rect.height <= lines.len() {
            rect.height as int
        } else {
            lines.len() - offset
        };
        source_rows_cells(
            cells,
            w,
            h,
            rect,
            lines,
            offset,
            count,
            decimal(lines.len()).len() as int,
            gutter_style,
        )
    }
}

/// Read-only source rendering over a caller-owned shared vertical viewport.
pub struct SourceViewer<'a> {
    document: &'a SourceDocument,
}

impl<'a> SourceViewer<'a> {
    pub closed spec fn spec_document(&self) -> SourceDocument {
        *self.document
    }

    pub fn new(document: &'a SourceDocument) -> (r: Self)
        ensures
            r.spec_document() == *document,
    {
        SourceViewer { document }
    }

    /// Sizes the viewport to the lines, then draws the lines in view after a numbered gutter;
    /// an empty document shows "(empty source)".
    pub fn render(
        &self,
        frame: &mut Frame,
        rect: Rect,
        viewport: &mut ViewportState,
        gutter_style: Style,
    )
        requires
            old(frame).wf(),
        ensures
            final(frame).wf(),
            final(frame).same_size(old(frame)),
            final(viewport).wf(),
            final(viewport).spec_initialized(),
            (
                final(viewport).spec_offset() as int,
                final(viewport).spec_content_height() as int,
                final(viewport).spec_viewport_height() as int,
            ) == old(viewport).updated(
                self.spec_document().spec_lines().len() as int,
                rect.height as int,
            ),
            rect.width == 0 || rect.height == 0 ==> *final(frame) == *old(frame),
            final(frame).spec_buffer().cells() == source_cells(
                old(frame).spec_buffer().cells(),
                old(frame).spec_width() as int,
                old(frame).spec_height() as int,
                rect,
                self.spec_document().spec_lines(),
                final(viewport).spec_offset() as int,
                gutter_style,
            ),
    {
        let lines = &self.document.lines;
        viewport.update_dimensions(lines.len(), rect.height);
        if rect.width == 0 || rect.height == 0 {
            return;
        }
        if lines.len() == 0 {
            frame.write_text_in(rect, 0, 0, "(empty source)", gutter_style);
            return;
        }
        let digits = decimal_width(lines.len());
        let gutter = (digits + 1) as u16;
        let start = viewport.offset();
        let len = lines.len();
        let h = rect.height as usize;
        let count = if h <= len - start {
            h
        } else {
            len - start
        };
        let ghost cells0 = old(frame).spec_buffer().cells();
        let ghost fw = old(frame).spec_width() as int;
        let ghost fh = old(frame).spec_height() as int;
        let mut k: usize = 0;
        while k < count
            invariant
                start + count <= len == lines@.len(),
                count <= h == rect.height,
                k <= count,
                1 <= digits <= 20,
                digits == decimal(len as nat).len(),
                gutter == digits + 1,
                frame.wf(),
                frame.same_size(old(frame)),
                cells0 == old(frame).spec_buffer().cells(),
                fw == old(frame).spec_width(),
                fh == old(frame).spec_height(),
                frame.spec_buffer().cells() == source_rows_cells(
                    cells0,
                    fw,
                    fh,
                    rect,
                    lines@,
                    start as int,
                    k as int,
                    digits as int,
                    gutter_style,
                ),
            decreases count - k,
        {
            let index = start + k;
            let row = k as u16;
            let mut number = padded_number(index + 1, digits);
            push_char(&mut number, ' ');
            frame.write_text_in(rect, 0, row, number.as_str(), gutter_style);
            let target = Rect::new(
                rect.x.saturating_add(gutter),
                rect.y.saturating_add(row),
                rect.width.saturating_sub(gutter),
                1,
            );
            lines[index].render(frame, target);
            k = k + 1;
        }
    }

    /// Renders source while reserving its final column for the shared scrollbar; returns the
    /// scrollbar geometry.
    pub fn render_with_scrollbar(
        &self,
        frame: &mut Frame,
        rect: Rect,
        viewport: &mut ViewportState,
        gutter_style: Style,
        track_style: Style,
        thumb_style: Style,
    ) -> (r: Option<ScrollbarGeometry>)
        requires
            old(frame).wf(),
        ensures
            final(frame).wf(),
            final(frame).same_size(old(frame)),
            final(viewport).wf(),
            final(viewport).spec_initialized(),
            rect.width == 0 ==> r is None,
            rect.width > 0 ==> r == spec_geometry(
                *final(viewport),
                Rect { x: sat_add16(rect.x as int, rect.width - 1), y: rect.y, width: 1, height: rect.height },
            ),
            (
                final(viewport).spec_offset() as int,
                final(viewport).spec_content_height() as int,
                final(viewport).spec_viewport_height() as int,
            ) == old(viewport).updated(
                self.spec_document().spec_lines().len() as int,
                rect.height as int,
            ),
            ({
                let drawn = source_cells(
                    old(frame).spec_buffer().cells(),
                    old(frame).spec_width() as int,
                    old(frame).spec_height() as int,
                    content_area(rect),
                    self.spec_document().spec_lines(),
                    final(viewport).spec_offset() as int,
                    gutter_style,
                );
                final(frame).spec_buffer().cells() == match r {
                    None => drawn,
                    Some(g) => scrollbar_cells(
                        drawn,
                        old(frame).spec_width() as int,
                        old(frame).spec_height() as int,
                        g,
                        track_style,
                        thumb_style,
                    ),
                }
            }),
    {
        if rect.width == 0 {
            self.render(frame, rect, viewport, gutter_style);
            return None;
        }
        let content = Rect::new(rect.x, rect.y, rect.width - 1, rect.height);
        self.render(frame, content, viewport, gutter_style);
        Scrollbar::render(
            frame,
            viewport,
            Rect::new(rect.x.saturating_add(rect.width - 1), rect.y, 1, rect.height),
            track_style,
            thumb_style,
        )
    }
}

} // verus!
