use vstd::prelude::*;

use crate::cell::Cell;
use crate::chars::copy_string;
use crate::frame::{Frame, write_in};
use crate::geometry::Rect;
use crate::style::Style;
use crate::viewport::ViewportState;
use crate::width::{display_width, unicode_str_width};

verus! {

/// One generic, read-only property row.
#[derive(Clone, Debug, PartialEq, Eq)]
pub struct PropertyRow {
    pub label: String,
    pub value: String,
}

impl PropertyRow {
    pub fn new(label: &str, value: &str) -> (r: Self)
        ensures
            r.label@ == label@,
            r.value@ == value@,
    {
        PropertyRow { label: copy_string(label), value: copy_string(value) }
    }
}

/// The widest label among `rows` (0 without rows).
pub open spec fn widest_label(rows: Seq<PropertyRow>) -> int
    decreases rows.len(),
{
    if rows.len() == 0 {
        0
    } else {
        let prev = widest_label(rows.drop_last());
        let w = unicode_str_width(rows.last().label@) as int;
        if w > prev {
            w
        } else {
            prev
        }
    }
}

/// Cells after drawing rows `start..start + count`: each label at the row start and each value
/// at column `value_x`.
pub open spec fn property_rows_cells(
    cells: Seq<Cell>,
    w: int,
    h: int,
    rect: Rect,
    rows: Seq<PropertyRow>,
    start: int,
    count: int,
    value_x: int,
    label_style: Style,
    value_style: Style,
) -> Seq<Cell>
    decreases count,
{
    if count <= 0 {
        cells
    } else {
        let prev = property_rows_cells(
            cells,
            w,
            h,
            rect,
            rows,
            start,
            count - 1,
            value_x,
            label_style,
            value_style,
        );
        let row = rows[start + count - 1];
        let after_label = write_in(prev, w, h, rect, 0, count - 1, row.label@, label_style).0;
        write_in(after_label, w, h, rect, value_x, count - 1, row.value@, value_style).0
    }
}

/// A borrowed key/value detail view with caller-owned vertical scroll state.
pub struct PropertyView<'a> {
    rows: &'a [PropertyRow],
}

impl<'a> PropertyView<'a> {
    pub closed spec fn spec_rows(&self) -> Seq<PropertyRow> {
        self.rows@
    }

    pub fn new(rows: &'a [PropertyRow]) -> (r: Self)
        ensures
            r.spec_rows() == rows@,
    {
        PropertyView { rows }
    }

    /// Sizes the viewport to the rows, then draws the rows in view: labels in a column as wide
    /// as the widest label (at most the width less one), values after it.
    pub fn render(
        &self,
        frame: &mut Frame,
        rect: Rect,
        viewport: &mut ViewportState,
        label_style: Style,
        value_style: Style,
    )
        requires
            old(frame).wf(),
        ensures
            final(frame).wf(),
            final(frame).same_size(old(frame)),
            final(viewport).wf(),
            final(viewport).spec_initialized(),
            (
                final(viewport).spec_offset() as int,
                final(viewport).spec_content_height() as int,
                final(viewport).spec_viewport_height() as int,
            ) == old(viewport).updated(self.spec_rows().len() as int, rect.height as int),
            rect.width == 0 || rect.height == 0 ==> *final(frame) == *old(frame),
            rect.width > 0 && rect.height > 0 ==> {
                let rows = self.spec_rows();
                let start = final(viewport).spec_offset() as int;
                let count = if start + rect.height <= rows.len() {
                    rect.height as int
                } else {
                    rows.len() - start
                };
                let label_width = if widest_label(rows) <= rect.width - 1 {
                    widest_label(rows)
                } else {
                    rect.width - 1
                };
                final(frame).spec_buffer().cells() == property_rows_cells(
                    old(frame).spec_buffer().cells(),
                    old(frame).spec_width() as int,
                    old(frame).spec_height() as int,
                    rect,
                    rows,
                    start,
                    count,
                    label_width + 1,
                    label_style,
                    value_style,
                )
            },
    {
        viewport.update_dimensions(self.rows.len(), rect.height);
        if rect.width == 0 || rect.height == 0 {
            return;
        }
        let mut widest: usize = 0;
        let mut i: usize = 0;
        while i < self.rows.len()
            invariant
                i <= self.rows@.len(),
                widest == widest_label(self.rows@.take(i as int)),
            decreases self.rows@.len() - i,
        {
            proof {
                assert(self.rows@.take(i + 1).drop_last() == self.rows@.take(i as int));
            }
            let w = display_width(self.rows[i].label.as_str());
            if w > widest {
                widest = w;
            }
            i = i + 1;
        }
        proof {
            assert(self.rows@.take(self.rows@.len() as int) == self.rows@);
        }
        let limit = (rect.width - 1) as usize;
        let label_width = if widest <= limit {
            widest
        } else {
            limit
        };
        let value_x = (label_width + 1) as u16;
        let start = viewport.offset();
        let len = self.rows.len();
        let h = rect.height as usize;
        let count = if h <= len - start {
            h
        } else {
            len - start
        };
        let ghost cells0 = old(frame).spec_buffer().cells();
        let ghost fw = old(frame).spec_width() as int;
        let ghost fh = old(frame).spec_height() as int;
        let mut k: usize = 0;
        while k < count
            invariant
                start + count <= len == self.rows@.len(),
                count <= h == rect.height,
                k <= count,
                frame.wf(),
                frame.same_size(old(frame)),
                cells0 == old(frame).spec_buffer().cells(),
                fw == old(frame).spec_width(),
                fh == old(frame).spec_height(),
                frame.spec_buffer().cells() == property_rows_cells(
                    cells0,
                    fw,
                    fh,
                    rect,
                    self.rows@,
                    start as int,
                    k as int,
                    value_x as int,
                    label_style,
                    value_style,
                ),
            decreases count - k,
        {
            let row = &self.rows[start + k];
            let y = k as u16;
            frame.write_text_in(rect, 0, y, row.label.as_str(), label_style);
            frame.write_text_in(rect, value_x, y, row.value.as_str(), value_style);
            k = k + 1;
        }
    }
}

} // verus!
