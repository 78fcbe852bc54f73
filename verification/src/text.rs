use vstd::prelude::*;

use crate::chars::{split_lines, string_views, text_lines, str_chars, string_from_chars};
use crate::frame::{Frame, write_in};
use crate::geometry::Rect;
use crate::style::Style;
use crate::width::{display_width, unicode_str_width};

verus! {

/// Horizontal alignment for text and rich text within a target rectangle.
#[derive(Clone, Copy, Debug, PartialEq, Eq, Structural)]
pub enum Alignment {
    Left,
    Center,
    Right,
}

impl Default for Alignment {
    fn default() -> (a: Self)
        ensures
            a == Alignment::Left,
    {
        Alignment::Left
    }
}

/// A display width as the `u16` column count that rendering uses (saturated at `u16::MAX`).
pub open spec fn width16(w: int) -> int {
    if w > u16::MAX {
        u16::MAX as int
    } else {
        w
    }
}

/// The first column for content `width` columns wide in a row `rect_width` columns wide.
pub open spec fn align_offset(alignment: Alignment, rect_width: int, width: int) -> int {
    let slack = if rect_width >= width {
        rect_width - width
    } else {
        0
    };
    match alignment {
        Alignment::Left => 0,
        Alignment::Center => slack / 2,
        Alignment::Right => slack,
    }
}

pub(crate) fn alignment_offset(alignment: Alignment, rect_width: u16, width: u16) -> (r: u16)
    ensures
        r == align_offset(alignment, rect_width as int, width as int),
        r <= rect_width,
{
    let slack = rect_width.saturating_sub(width);
    match alignment {
        Alignment::Left => 0,
        Alignment::Center => slack / 2,
        Alignment::Right => slack,
    }
}

/// `display_width` as a saturated `u16`.
pub(crate) fn display_width16(text: &str) -> (r: u16)
    ensures
        r == width16(unicode_str_width(text@) as int),
{
    let w = display_width(text);
    if w > u16::MAX as usize {
        u16::MAX
    } else {
        w as u16
    }
}

/// The cells after writing each of `lines` on its own row of `rect`, aligned within the row.
pub open spec fn aligned_rows(
    cells: Seq<crate::cell::Cell>,
    w: int,
    h: int,
    rect: Rect,
    lines: Seq<Seq<char>>,
    style: Style,
    alignment: Alignment,
) -> Seq<crate::cell::Cell>
    decreases lines.len(),
{
    if lines.len() == 0 {
        cells
    } else {
        let line = lines.last();
        write_in(
            aligned_rows(cells, w, h, rect, lines.drop_last(), style, alignment),
            w,
            h,
            rect,
            align_offset(
                alignment,
                rect.width as int,
                width16(unicode_str_width(line) as int),
            ),
            lines.len() - 1,
            line,
            style,
        ).0
    }
}

/// The cells after rendering text `content` into `rect` with `style` and `alignment`.
pub open spec fn text_cells(
    cells: Seq<crate::cell::Cell>,
    w: int,
    h: int,
    rect: Rect,
    content: Seq<char>,
    style: Style,
    alignment: Alignment,
) -> Seq<crate::cell::Cell> {
    let lines = text_lines(content);
    aligned_rows(
        cells,
        w,
        h,
        rect,
        lines.take(
            if lines.len() <= rect.height {
                lines.len() as int
            } else {
                rect.height as int
            },
        ),
        style,
        alignment,
    )
}

/// Stateless plain text rendered directly into a frame.
///
/// Newlines occupy rows in the target rectangle; content clips instead of wrapping.
pub struct Text {
    content: String,
    style: Style,
    alignment: Alignment,
}

impl Text {
    pub closed spec fn spec_content(&self) -> Seq<char> {
        self.content@
    }

    pub closed spec fn spec_style(&self) -> Style {
        self.style
    }

    pub closed spec fn spec_alignment(&self) -> Alignment {
        self.alignment
    }

    pub fn new(content: &str) -> (t: Self)
        ensures
            t.spec_content() == content@,
            t.spec_style() == Style::plain(),
            t.spec_alignment() == Alignment::Left,
    {
        let chars = str_chars(content);
        Text {
            content: string_from_chars(chars.as_slice()),
            style: Style::new(),
            alignment: Alignment::Left,
        }
    }

    pub fn style(self, style: Style) -> (t: Self)
        ensures
            t.spec_content() == self.spec_content(),
            t.spec_style() == style,
            t.spec_alignment() == self.spec_alignment(),
    {
        Text { content: self.content, style, alignment: self.alignment }
    }

    pub fn alignment(self, alignment: Alignment) -> (t: Self)
        ensures
            t.spec_content() == self.spec_content(),
            t.spec_style() == self.spec_style(),
            t.spec_alignment() == alignment,
    {
        Text { content: self.content, style: self.style, alignment }
    }

    /// Writes the content's lines on consecutive rows of `rect` (at most `rect.height` of them),
    /// each aligned within the row and clipped at its right edge.
    pub fn render(&self, frame: &mut Frame, rect: Rect)
        requires
            old(frame).wf(),
        ensures
            final(frame).wf(),
            final(frame).same_size(old(frame)),
            final(frame).spec_buffer().cells() == text_cells(
                old(frame).spec_buffer().cells(),
                old(frame).spec_width() as int,
                old(frame).spec_height() as int,
                rect,
                self.spec_content(),
                self.spec_style(),
                self.spec_alignment(),
            ),
    {
        let lines = split_lines(self.content.as_str());
        let ghost all = string_views(lines@);
        let ghost b0 = frame.spec_buffer();
        let count = if lines.len() <= rect.height as usize {
            lines.len()
        } else {
            rect.height as usize
        };
        let mut row: usize = 0;
        while row < count
            invariant
                row <= count,
                count <= lines@.len(),
                count <= rect.height,
                all == string_views(lines@),
                frame.wf(),
                frame.same_size(old(frame)),
                b0 == old(frame).spec_buffer(),
                frame.spec_buffer().cells() == aligned_rows(
                    b0.cells(),
                    b0.spec_width() as int,
                    b0.spec_height() as int,
                    rect,
                    all.take(row as int),
                    self.spec_style(),
                    self.spec_alignment(),
                ),
            decreases count - row,
        {
            proof {
                assert(all.take(row + 1).drop_last() == all.take(row as int));
                assert(all.take(row + 1).last() == lines@[row as int]@);
            }
            let line = lines[row].as_str();
            let width = display_width16(line);
            let offset = alignment_offset(self.alignment, rect.width, width);
            frame.write_text_in(rect, offset, row as u16, line, self.style);
            row = row + 1;
        }
    }
}

} // verus!
