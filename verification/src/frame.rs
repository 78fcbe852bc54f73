use vstd::prelude::*;

use crate::border::BorderSet;
use crate::buffer::{
    Buffer,
    clipped_write,
    idx,
    lemma_idx_bounds,
    lemma_set_changes_only_partner,
    lemma_set_keeps_other_cells,
    lemma_set_then_get,
};
use crate::cell::{Cell, CellKind};
use crate::geometry::Rect;
use crate::style::Style;

verus! {

/// The border character a rectangle carries at relative cell `(rx, ry)`, if any.
pub open spec fn border_glyph(rect: Rect, set: BorderSet, rx: int, ry: int) -> Option<char> {
    let w = rect.width as int;
    let h = rect.height as int;
    if rx < 0 || ry < 0 || rx >= w || ry >= h {
        None
    } else if ry == 0 {
        if rx == 0 {
            Some(set.top_left)
        } else if rx == w - 1 {
            Some(set.top_right)
        } else {
            Some(set.horizontal)
        }
    } else if ry == h - 1 {
        if rx == 0 {
            Some(set.bottom_left)
        } else if rx == w - 1 {
            Some(set.bottom_right)
        } else {
            Some(set.horizontal)
        }
    } else if rx == 0 || rx == w - 1 {
        Some(set.vertical)
    } else {
        None
    }
}

/// The cells after writing `text` at `(x, y)` relative to `rect`, clipped to the rectangle's
/// right edge, and the columns written.
pub open spec fn write_in(
    cells: Seq<Cell>,
    w: int,
    h: int,
    rect: Rect,
    x: int,
    y: int,
    text: Seq<char>,
    style: Style,
) -> (Seq<Cell>, int) {
    if x >= rect.width || y >= rect.height || rect.x + x > u16::MAX || rect.y + y > u16::MAX {
        (cells, 0)
    } else {
        clipped_write(cells, w, h, rect.x + x, rect.y + y, text, style, rect.width - x)
    }
}

/// The cells after writing `lines[k]` at the start of row `k` of `rect`, for every `k` in order.
pub open spec fn rows_written(b: Buffer, rect: Rect, lines: Seq<Seq<char>>, style: Style) -> Seq<
    Cell,
>
    decreases lines.len(),
{
    if lines.len() == 0 {
        b.cells()
    } else {
        write_in(
            rows_written(b, rect, lines.drop_last(), style),
            b.spec_width() as int,
            b.spec_height() as int,
            rect,
            0,
            lines.len() - 1,
            lines.last(),
            style,
        ).0
    }
}

/// Mutable, rect-aware facade over one render buffer.
///
/// Applications construct a frame per redraw and pass it to explicit primitive `render` methods.
/// Frame writes clip to the buffer and to the supplied target rectangle.
#[derive(Clone, Debug, PartialEq, Eq)]
pub struct Frame {
    buffer: Buffer,
}

impl Frame {
    /// The buffer the frame renders into.
    pub closed spec fn spec_buffer(&self) -> Buffer {
        self.buffer
    }

    pub open spec fn wf(&self) -> bool {
        self.spec_buffer().wf()
    }

    pub open spec fn spec_width(&self) -> u16 {
        self.spec_buffer().spec_width()
    }

    pub open spec fn spec_height(&self) -> u16 {
        self.spec_buffer().spec_height()
    }

    /// The frame's buffer has the same dimensions as `other`'s.
    pub open spec fn same_size(&self, other: &Frame) -> bool {
        self.spec_width() == other.spec_width() && self.spec_height() == other.spec_height()
    }

    /// Whether the absolute cell of `rect` at relative `(rx, ry)` exists in the frame.
    pub open spec fn rect_cell_visible(&self, rect: Rect, rx: int, ry: int) -> bool {
        &&& rect.x + rx <= u16::MAX
        &&& rect.y + ry <= u16::MAX
        &&& self.spec_buffer().in_bounds(rect.x + rx, rect.y + ry)
    }

    /// Border cell `(rx, ry)` of `rect`, where visible, holds its border glyph.
    pub open spec fn border_cell_ok(
        &self,
        rect: Rect,
        set: BorderSet,
        style: Style,
        rx: int,
        ry: int,
    ) -> bool {
        border_glyph(rect, set, rx, ry) matches Some(ch) ==> (self.rect_cell_visible(rect, rx, ry)
            ==> self.spec_buffer().cell_at(rect.x + rx, rect.y + ry) == Cell::spec_new(ch, style))
    }

    /// Cell `(x, y)` is one half of a wide glyph whose other half is a border cell of `rect`:
    /// a lead just left of the border cell, or a continuation just right of it.
    pub open spec fn border_partner(&self, rect: Rect, set: BorderSet, x: int, y: int) -> bool {
        ||| self.spec_buffer().cell_at(x, y).kind == CellKind::Wide && border_glyph(
            rect,
            set,
            x + 1 - rect.x,
            y - rect.y,
        ) is Some
        ||| self.spec_buffer().cell_at(x, y).kind == CellKind::WideContinuation && border_glyph(
            rect,
            set,
            x - 1 - rect.x,
            y - rect.y,
        ) is Some
    }

    /// Cell `(x, y)` holds what it held in `before`, or it was in `before` the other half of a
    /// wide glyph whose border cell of `rect` was overwritten, and is now blank.
    pub open spec fn kept_or_partner_blanked(
        &self,
        before: &Frame,
        rect: Rect,
        set: BorderSet,
        x: int,
        y: int,
    ) -> bool {
        ||| self.spec_buffer().cell_at(x, y) == before.spec_buffer().cell_at(x, y)
        ||| self.spec_buffer().cell_at(x, y) == Cell::blank() && before.border_partner(rect, set, x, y)
    }

    /// This frame is `before` with the outline of `rect` drawn in `set` and `style`: every visible
    /// border cell holds its glyph, and every other cell is unchanged, except the other half of a
    /// wide glyph whose border cell was overwritten, which is blank.
    pub open spec fn bordered_from(&self, before: &Frame, rect: Rect, set: BorderSet, style: Style) -> bool {
        &&& self.wf()
        &&& self.same_size(before)
        &&& forall|rx: int, ry: int| #[trigger] self.border_cell_ok(rect, set, style, rx, ry)
        &&& forall|x: int, y: int|
            #![trigger self.spec_buffer().cell_at(x, y)]
            before.spec_buffer().in_bounds(x, y) && border_glyph(rect, set, x - rect.x, y - rect.y)
                is None ==> self.kept_or_partner_blanked(before, rect, set, x, y)
    }

    /// Creates a blank frame with the requested terminal dimensions.
    pub fn new(width: u16, height: u16) -> (f: Self)
        ensures
            f.wf(),
            f.spec_width() == width,
            f.spec_height() == height,
            forall|i: int|
                0 <= i < f.spec_buffer().cells().len() ==> #[trigger] f.spec_buffer().cells()[i]
                    == Cell::blank(),
    {
        Frame { buffer: Buffer::new(width, height) }
    }

    pub fn buffer(&self) -> (b: &Buffer)
        ensures
            *b == self.spec_buffer(),
    {
        &self.buffer
    }

    pub fn set_cell(&mut self, x: u16, y: u16, cell: Cell) -> (r: bool)
        requires
            old(self).wf(),
        ensures
            final(self).wf(),
            final(self).same_size(old(self)),
            r == old(self).spec_buffer().in_bounds(x as int, y as int),
            final(self).spec_buffer().cells() == (if r {
                crate::buffer::set_grid(
                    old(self).spec_buffer().cells(),
                    old(self).spec_width() as int,
                    x as int,
                    y as int,
                    cell,
                )
            } else {
                old(self).spec_buffer().cells()
            }),
    {
        self.buffer.set(x, y, cell)
    }

    pub fn write_text(&mut self, x: u16, y: u16, text: &str, style: Style) -> (r: usize)
        requires
            old(self).wf(),
        ensures
            final(self).wf(),
            final(self).same_size(old(self)),
            (final(self).spec_buffer().cells(), r as int) == clipped_write(
                old(self).spec_buffer().cells(),
                old(self).spec_width() as int,
                old(self).spec_height() as int,
                x as int,
                y as int,
                text@,
                style,
                crate::geometry::sat_sub16(old(self).spec_width() as int, x as int) as int,
            ),
    {
        self.buffer.write_text(x, y, text, style)
    }

    /// Writes `text` at `(x, y)` relative to `rect`, clipped to the rectangle's right edge;
    /// returns the columns written (0 when the start lies outside the rectangle).
    pub fn write_text_in(
        &mut self,
        rect: Rect,
        x: u16,
        y: u16,
        text: &str,
        style: Style,
    ) -> (r: usize)
        requires
            old(self).wf(),
        ensures
            final(self).wf(),
            final(self).same_size(old(self)),
            (final(self).spec_buffer().cells(), r as int) == write_in(
                old(self).spec_buffer().cells(),
                old(self).spec_width() as int,
                old(self).spec_height() as int,
                rect,
                x as int,
                y as int,
                text@,
                style,
            ),
            r <= rect.width,
    {
        if x >= rect.width || y >= rect.height {
            return 0;
        }
        let ax = match rect.x.checked_add(x) {
            Some(v) => v,
            None => {
                return 0;
            },
        };
        let ay = match rect.y.checked_add(y) {
            Some(v) => v,
            None => {
                return 0;
            },
        };
        self.buffer.write_text_clipped(ax, ay, text, style, rect.width - x)
    }

    /// Writes `lines[start..end]` at the start of consecutive rows of `rect`.
    pub(crate) fn write_rows(
        &mut self,
        rect: Rect,
        lines: &[String],
        start: usize,
        end: usize,
        style: Style,
    )
        requires
            old(self).wf(),
            start <= end <= lines@.len(),
            end - start <= rect.height,
        ensures
            final(self).wf(),
            final(self).same_size(old(self)),
            final(self).spec_buffer().cells() == rows_written(
                old(self).spec_buffer(),
                rect,
                lines@.map_values(|s: String| s@).subrange(start as int, end as int),
                style,
            ),
    {
        let ghost all = lines@.map_values(|s: String| s@);
        let ghost b0 = self.spec_buffer();
        let mut i: usize = start;
        while i < end
            invariant
                start <= i <= end <= lines@.len(),
                end - start <= rect.height,
                all == lines@.map_values(|s: String| s@),
                self.wf(),
                self.same_size(old(self)),
                b0 == old(self).spec_buffer(),
                self.spec_buffer().cells() == rows_written(
                    b0,
                    rect,
                    all.subrange(start as int, i as int),
                    style,
                ),
            decreases end - i,
        {
            proof {
                assert(all.subrange(start as int, i + 1).drop_last() == all.subrange(
                    start as int,
                    i as int,
                ));
                assert(all.subrange(start as int, i + 1).last() == lines@[i as int]@);
            }
            self.write_text_in(rect, 0, (i - start) as u16, lines[i].as_str(), style);
            i = i + 1;
        }
    }

    pub fn draw_border(&mut self, rect: Rect, style: Style)
        requires
            old(self).wf(),
        ensures
            final(self).wf(),
            final(self).same_size(old(self)),
            forall|rx: int, ry: int|
                #[trigger] final(self).border_cell_ok(
                    rect,
                    BorderSet::spec_rounded(),
                    style,
                    rx,
                    ry,
                ),
            forall|x: int, y: int|
                #![trigger final(self).spec_buffer().cell_at(x, y)]
                old(self).spec_buffer().in_bounds(x, y) && border_glyph(
                    rect,
                    BorderSet::spec_rounded(),
                    x - rect.x,
                    y - rect.y,
                ) is None ==> final(self).kept_or_partner_blanked(
                    old(self),
                    rect,
                    BorderSet::spec_rounded(),
                    x,
                    y,
                ),
    {
        self.draw_border_with_set(rect, style, BorderSet::default());
    }

    /// Draws the outline of `rect` with the characters of `border_set`.
    ///
    /// Every visible border cell ends up holding its glyph; every other cell is unchanged, except
    /// the other half of a wide glyph whose border cell was overwritten, which becomes blank.
    pub fn draw_border_with_set(&mut self, rect: Rect, style: Style, border_set: BorderSet)
        requires
            old(self).wf(),
        ensures
            final(self).wf(),
            final(self).same_size(old(self)),
            forall|rx: int, ry: int|
                #[trigger] final(self).border_cell_ok(rect, border_set, style, rx, ry),
            forall|x: int, y: int|
                #![trigger final(self).spec_buffer().cell_at(x, y)]
                old(self).spec_buffer().in_bounds(x, y) && border_glyph(
                    rect,
                    border_set,
                    x - rect.x,
                    y - rect.y,
                ) is None ==> final(self).kept_or_partner_blanked(old(self), rect, border_set, x, y),
    {
        if rect.width == 0 || rect.height == 0 {
            return;
        }
        let ghost w = rect.width as int;
        let ghost h = rect.height as int;
        self.set_rect_cell(rect, 0, 0, border_set.top_left, style, Ghost(border_set), Ghost(*old(self)));
        proof {
            self.lemma_border_ok_outside(rect, border_set, style);
        }
        if rect.width > 1 {
            let mut x: u16 = 1;
            while x < rect.width - 1
                invariant
                    1 <= x <= rect.width - 1,
                    rect.width > 1,
                    rect.height >= 1,
                    w == rect.width,
                    h == rect.height,
                    self.wf(),
                    self.same_size(old(self)),
                forall|x2: int, y2: int|
                    #![trigger self.spec_buffer().cell_at(x2, y2)]
                    old(self).spec_buffer().in_bounds(x2, y2) && border_glyph(
                        rect,
                        border_set,
                        x2 - rect.x,
                        y2 - rect.y,
                    ) is None ==> self.kept_or_partner_blanked(old(self), rect, border_set, x2, y2),
                    forall|x2: int, y2: int|
                        #![trigger self.spec_buffer().cell_at(x2, y2)]
                        old(self).spec_buffer().in_bounds(x2, y2) && border_glyph(
                            rect,
                            border_set,
                            x2 - rect.x,
                            y2 - rect.y,
                        ) is None ==> self.kept_or_partner_blanked(old(self), rect, border_set, x2, y2),
                    forall|rx: int, ry: int|
                        (ry == 0 && 0 <= rx < x) || !(0 <= rx < w && 0 <= ry < h)
                            ==> #[trigger] self.border_cell_ok(rect, border_set, style, rx, ry),
                decreases rect.width - 1 - x,
            {
                self.set_rect_cell(rect, x, 0, border_set.horizontal, style, Ghost(border_set), Ghost(*old(self)));
                x = x + 1;
            }
            self.set_rect_cell(rect, rect.width - 1, 0, border_set.top_right, style, Ghost(border_set), Ghost(*old(self)));
        }
        if rect.height == 1 {
            return;
        }
        let mut y: u16 = 1;
        while y < rect.height - 1
            invariant
                1 <= y <= rect.height - 1,
                rect.width >= 1,
                w == rect.width,
                h == rect.height,
                rect.height > 1,
                self.wf(),
                self.same_size(old(self)),
                forall|x2: int, y2: int|
                    #![trigger self.spec_buffer().cell_at(x2, y2)]
                    old(self).spec_buffer().in_bounds(x2, y2) && border_glyph(
                        rect,
                        border_set,
                        x2 - rect.x,
                        y2 - rect.y,
                    ) is None ==> self.kept_or_partner_blanked(old(self), rect, border_set, x2, y2),
                forall|rx: int, ry: int|
                    ry == 0 || (1 <= ry < y && (rx == 0 || rx == w - 1)) || !(0 <= rx < w && 0
                        <= ry < h) ==> #[trigger] self.border_cell_ok(
                        rect,
                        border_set,
                        style,
                        rx,
                        ry,
                    ),
            decreases rect.height - 1 - y,
        {
            self.set_rect_cell(rect, 0, y, border_set.vertical, style, Ghost(border_set), Ghost(*old(self)));
            if rect.width > 1 {
                self.set_rect_cell(rect, rect.width - 1, y, border_set.vertical, style, Ghost(border_set), Ghost(*old(self)));
            }
            y = y + 1;
        }
        self.set_rect_cell(rect, 0, rect.height - 1, border_set.bottom_left, style, Ghost(border_set), Ghost(*old(self)));
        if rect.width > 1 {
            let mut x: u16 = 1;
            while x < rect.width - 1
                invariant
                    1 <= x <= rect.width - 1,
                    rect.width > 1,
                    rect.height > 1,
                    w == rect.width,
                    h == rect.height,
                    self.wf(),
                    self.same_size(old(self)),
                forall|x2: int, y2: int|
                    #![trigger self.spec_buffer().cell_at(x2, y2)]
                    old(self).spec_buffer().in_bounds(x2, y2) && border_glyph(
                        rect,
                        border_set,
                        x2 - rect.x,
                        y2 - rect.y,
                    ) is None ==> self.kept_or_partner_blanked(old(self), rect, border_set, x2, y2),
                    forall|x2: int, y2: int|
                        #![trigger self.spec_buffer().cell_at(x2, y2)]
                        old(self).spec_buffer().in_bounds(x2, y2) && border_glyph(
                            rect,
                            border_set,
                            x2 - rect.x,
                            y2 - rect.y,
                        ) is None ==> self.kept_or_partner_blanked(old(self), rect, border_set, x2, y2),
                    forall|rx: int, ry: int|
                        ry < h - 1 || (ry == h - 1 && 0 <= rx < x) || !(0 <= rx < w && 0 <= ry < h)
                            ==> #[trigger] self.border_cell_ok(rect, border_set, style, rx, ry),
                decreases rect.width - 1 - x,
            {
                self.set_rect_cell(rect, x, rect.height - 1, border_set.horizontal, style, Ghost(border_set), Ghost(*old(self)));
                x = x + 1;
            }
            self.set_rect_cell(rect, rect.width - 1, rect.height - 1, border_set.bottom_right, style, Ghost(border_set), Ghost(*old(self)));
        }
    }

    proof fn lemma_border_ok_outside(&self, rect: Rect, set: BorderSet, style: Style)
        ensures
            forall|rx: int, ry: int|
                !(0 <= rx < rect.width && 0 <= ry < rect.height) ==> #[trigger] self.border_cell_ok(
                    rect,
                    set,
                    style,
                    rx,
                    ry,
                ),
    {
    }

    pub fn clear(&mut self)
        requires
            old(self).wf(),
        ensures
            final(self).wf(),
            final(self).same_size(old(self)),
            forall|i: int|
                0 <= i < final(self).spec_buffer().cells().len() ==> #[trigger] final(self).spec_buffer().cells()[i] == Cell::blank(),
    {
        self.buffer.clear();
    }

    pub fn into_buffer(self) -> (b: Buffer)
        ensures
            b == self.spec_buffer(),
    {
        self.buffer
    }

    /// Writes one border cell at relative `(x, y)`; previously correct border cells stay correct,
    /// and every cell off the border still holds what it held in `orig` or is a blanked partner
    /// of a border cell.
    fn set_rect_cell(
        &mut self,
        rect: Rect,
        x: u16,
        y: u16,
        character: char,
        style: Style,
        Ghost(set): Ghost<BorderSet>,
        Ghost(orig): Ghost<Frame>,
    )
        requires
            old(self).wf(),
            x < rect.width,
            y < rect.height,
            border_glyph(rect, set, x as int, y as int) == Some(character),
            old(self).same_size(&orig),
            forall|x2: int, y2: int|
                #![trigger old(self).spec_buffer().cell_at(x2, y2)]
                orig.spec_buffer().in_bounds(x2, y2) && border_glyph(rect, set, x2 - rect.x, y2 - rect.y)
                    is None ==> old(self).kept_or_partner_blanked(&orig, rect, set, x2, y2),
        ensures
            final(self).wf(),
            final(self).same_size(old(self)),
            forall|rx: int, ry: int|
                (rx == x && ry == y) || old(self).border_cell_ok(rect, set, style, rx, ry)
                    ==> #[trigger] final(self).border_cell_ok(rect, set, style, rx, ry),
            forall|x2: int, y2: int|
                #![trigger final(self).spec_buffer().cell_at(x2, y2)]
                orig.spec_buffer().in_bounds(x2, y2) && border_glyph(rect, set, x2 - rect.x, y2 - rect.y)
                    is None ==> final(self).kept_or_partner_blanked(&orig, rect, set, x2, y2),
    {
        let ghost w = self.spec_width() as int;
        let ghost h = self.spec_height() as int;
        let ghost before = self.buffer.cells();
        let ghost start = *self;
        if x <= u16::MAX - rect.x && y <= u16::MAX - rect.y {
            let ax = rect.x + x;
            let ay = rect.y + y;
            let written = self.set_cell(ax, ay, Cell::new(character, style));
            proof {
                if written {
                    lemma_set_then_get(
                        before,
                        w,
                        h,
                        ax as int,
                        ay as int,
                        Cell::spec_new(character, style),
                    );
                    lemma_idx_bounds(w, h, ax as int, ay as int);
                }
                assert forall|rx: int, ry: int|
                    (rx == x && ry == y) || old(self).border_cell_ok(
                        rect,
                        set,
                        style,
                        rx,
                        ry,
                    ) implies #[trigger] self.border_cell_ok(rect, set, style, rx, ry) by {
                    if (rx != x || ry != y) && written && self.rect_cell_visible(rect, rx, ry) {
                        lemma_set_keeps_other_cells(
                            before,
                            w,
                            h,
                            ax as int,
                            ay as int,
                            Cell::spec_new(character, style),
                            rect.x + rx,
                            rect.y + ry,
                        );
                    }
                }
                assert forall|x2: int, y2: int|
                    #![trigger self.spec_buffer().cell_at(x2, y2)]
                    orig.spec_buffer().in_bounds(x2, y2) && border_glyph(
                        rect,
                        set,
                        x2 - rect.x,
                        y2 - rect.y,
                    ) is None implies self.kept_or_partner_blanked(&orig, rect, set, x2, y2) by {
                    assert(start.kept_or_partner_blanked(&orig, rect, set, x2, y2));
                    if written {
                        lemma_set_changes_only_partner(
                            before,
                            w,
                            h,
                            ax as int,
                            ay as int,
                            Cell::spec_new(character, style),
                            x2,
                            y2,
                        );
                    }
                }
            }
        }
    }
}

} // verus!
