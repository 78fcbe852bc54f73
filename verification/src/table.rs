use vstd::prelude::*;

use crate::cell::Cell;
use crate::frame::Frame;
use crate::geometry::Rect;
use crate::geometry::{sat_add16, sat_sub16};
use crate::layout::{Constraint, Direction, Layout, layout_areas};
use crate::list::clamp_selection;
use crate::overlay::patch_line;
use crate::canvas::put_cell;
use crate::rich_text::{Line, Span, SpanView, line_cells};
use crate::style::Style;
use crate::text::Alignment;
use crate::viewport::ViewportState;

verus! {

/// One table column's width constraint and cell alignment.
#[derive(Clone, Copy, Debug, PartialEq, Eq, Structural)]
pub struct TableColumn {
    constraint: Constraint,
    alignment: Alignment,
}

impl TableColumn {
    pub closed spec fn spec_constraint(&self) -> Constraint {
        self.constraint
    }

    pub closed spec fn spec_alignment(&self) -> Alignment {
        self.alignment
    }

    pub fn new(constraint: Constraint) -> (c: Self)
        ensures
            c.spec_constraint() == constraint,
            c.spec_alignment() == Alignment::Left,
    {
        TableColumn { constraint, alignment: Alignment::Left }
    }

    pub fn alignment(self, alignment: Alignment) -> (c: Self)
        ensures
            c.spec_constraint() == self.spec_constraint(),
            c.spec_alignment() == alignment,
    {
        TableColumn { constraint: self.constraint, alignment }
    }
}

/// Caller-owned selection and scrolling state for [`Table`].
#[derive(Clone, Debug, Default, PartialEq, Eq)]
pub struct TableState {
    selected: usize,
    viewport: ViewportState,
}

impl TableState {
    pub closed spec fn spec_selected(&self) -> usize {
        self.selected
    }

    pub closed spec fn spec_viewport(&self) -> ViewportState {
        self.viewport
    }

    pub fn new() -> (s: Self)
        ensures
            s.spec_selected() == 0,
            s.spec_viewport() == ViewportState::spec_initial(),
    {
        TableState { selected: 0, viewport: ViewportState::new() }
    }

    pub fn set_selected(&mut self, selected: usize)
        ensures
            final(self).spec_selected() == selected,
            final(self).spec_viewport() == old(self).spec_viewport(),
    {
        self.selected = selected;
    }

    /// Clamps the selection to the row count and returns it (`None` with no rows).
    pub fn selected_index(&mut self, row_count: usize) -> (r: Option<usize>)
        ensures
            final(self).spec_viewport() == old(self).spec_viewport(),
            row_count == 0 ==> r is None && final(self).spec_selected() == 0,
            row_count > 0 ==> r == Some(final(self).spec_selected()) && final(self).spec_selected() == clamp_selection(old(self).spec_selected() as int, row_count as int),
    {
        if row_count == 0 {
            self.selected = 0;
            return None;
        }
        if self.selected > row_count - 1 {
            self.selected = row_count - 1;
        }
        Some(self.selected)
    }

    /// Selects the next row, wrapping from the last to the first.
    pub fn next(&mut self, row_count: usize)
        ensures
            final(self).spec_viewport() == old(self).spec_viewport(),
            row_count == 0 ==> final(self).spec_selected() == 0,
            row_count > 0 ==> final(self).spec_selected() == (clamp_selection(
                old(self).spec_selected() as int,
                row_count as int,
            ) + 1) % (row_count as int),
    {
        match self.selected_index(row_count) {
            Some(selected) => {
                self.selected = (selected + 1) % row_count;
            },
            None => {},
        }
    }

    /// Selects the previous row, wrapping from the first to the last.
    pub fn previous(&mut self, row_count: usize)
        ensures
            final(self).spec_viewport() == old(self).spec_viewport(),
            row_count == 0 ==> final(self).spec_selected() == 0,
            row_count > 0 ==> final(self).spec_selected() == (clamp_selection(
                old(self).spec_selected() as int,
                row_count as int,
            ) + row_count - 1) % (row_count as int),
    {
        match self.selected_index(row_count) {
            Some(selected) => {
                let previous = if selected == 0 {
                    row_count - 1
                } else {
                    selected - 1
                };
                proof {
                    let n = row_count as int;
                    if selected == 0 {
                        vstd::arithmetic::div_mod::lemma_fundamental_div_mod_converse(
                            n - 1,
                            n,
                            0,
                            n - 1,
                        );
                    } else {
                        vstd::arithmetic::div_mod::lemma_fundamental_div_mod_converse(
                            selected + n - 1,
                            n,
                            1,
                            selected - 1,
                        );
                    }
                }
                self.selected = previous;
            },
            None => {},
        }
    }

    pub fn scroll_up(&mut self) -> (changed: bool)
        ensures
            final(self).spec_selected() == old(self).spec_selected(),
            final(self).spec_viewport().same_dimensions(&old(self).spec_viewport()),
            final(self).spec_viewport().wf(),
            final(self).spec_viewport().spec_offset() == old(self).spec_viewport().clamped(
                crate::viewport::sat_sub(old(self).spec_viewport().spec_offset() as int, 1),
            ),
            changed == (final(self).spec_viewport().spec_offset() != old(self).spec_viewport().spec_offset()),
    {
        self.viewport.scroll_up()
    }

    pub fn scroll_down(&mut self) -> (changed: bool)
        ensures
            final(self).spec_selected() == old(self).spec_selected(),
            final(self).spec_viewport().same_dimensions(&old(self).spec_viewport()),
            final(self).spec_viewport().wf(),
            final(self).spec_viewport().spec_offset() == old(self).spec_viewport().clamped(
                old(self).spec_viewport().spec_offset() + 1,
            ),
            changed == (final(self).spec_viewport().spec_offset() != old(self).spec_viewport().spec_offset()),
    {
        self.viewport.scroll_down()
    }

    pub fn page_up(&mut self) -> (changed: bool)
        ensures
            final(self).spec_selected() == old(self).spec_selected(),
            final(self).spec_viewport().same_dimensions(&old(self).spec_viewport()),
            final(self).spec_viewport().wf(),
            final(self).spec_viewport().spec_offset() == old(self).spec_viewport().clamped(
                crate::viewport::sat_sub(
                    old(self).spec_viewport().spec_offset() as int,
                    old(self).spec_viewport().spec_viewport_height() as int,
                ),
            ),
            changed == (final(self).spec_viewport().spec_offset() != old(self).spec_viewport().spec_offset()),
    {
        self.viewport.page_up()
    }

    pub fn page_down(&mut self) -> (changed: bool)
        ensures
            final(self).spec_selected() == old(self).spec_selected(),
            final(self).spec_viewport().same_dimensions(&old(self).spec_viewport()),
            final(self).spec_viewport().wf(),
            final(self).spec_viewport().spec_offset() == old(self).spec_viewport().clamped(
                old(self).spec_viewport().spec_offset() + old(self).spec_viewport().spec_viewport_height(),
            ),
            changed == (final(self).spec_viewport().spec_offset() != old(self).spec_viewport().spec_offset()),
    {
        self.viewport.page_down()
    }

    pub fn viewport(&self) -> (v: &ViewportState)
        ensures
            *v == self.spec_viewport(),
    {
        &self.viewport
    }
}

/// `line`'s spans with `alignment`.
fn aligned_copy(line: &Line, alignment: Alignment) -> (r: Line)
    ensures
        r.spec_spans() == line.spec_spans(),
        r.spec_alignment() == alignment,
{
    let spans = line.spans();
    let mut out: Vec<Span> = Vec::new();
    let mut i: usize = 0;
    while i < spans.len()
        invariant
            i <= spans@.len(),
            crate::rich_text::span_views(out@) == crate::rich_text::span_views(
                spans@.take(i as int),
            ),
        decreases spans@.len() - i,
    {
        let span = Span::styled(spans[i].content(), spans[i].style());
        proof {
            assert(crate::rich_text::span_views(spans@.take(i + 1)) =~= crate::rich_text::span_views(
                spans@.take(i as int),
            ).push(spans@[i as int].spec_view()));
            assert(crate::rich_text::span_views(out@.push(span)) =~= crate::rich_text::span_views(
                out@,
            ).push(span.spec_view()));
        }
        out.push(span);
        i = i + 1;
    }
    proof {
        assert(spans@.take(spans@.len() as int) == spans@);
    }
    Line::new(out).alignment(alignment)
}

/// Cells after putting a blank in `style` at the first `n` columns of row `y` from column
/// `left`, skipping columns past the coordinate range and cells outside the frame.
pub open spec fn blank_run(
    cells: Seq<Cell>,
    fw: int,
    fh: int,
    left: int,
    y: int,
    style: Style,
    n: int,
) -> Seq<Cell>
    decreases n,
{
    if n <= 0 {
        cells
    } else {
        let prev = blank_run(cells, fw, fh, left, y, style, n - 1);
        if left + n - 1 <= u16::MAX {
            put_cell(prev, fw, fh, left + n - 1, y, Cell::spec_new(' ', style))
        } else {
            prev
        }
    }
}

/// `spans` with every span's style patched by `style`.
pub open spec fn highlighted_spans(spans: Seq<SpanView>, style: Style) -> Seq<SpanView> {
    spans.map_values(|s: SpanView| (s.0, s.1.spec_patch(style)))
}

/// Cells after drawing one table cell into the one-row `target`: under a highlight the target
/// is first blanked in the highlight style and the line's spans are patched by it; the line,
/// if there is one, is then drawn with the column's alignment.
pub open spec fn column_cell(
    cells: Seq<Cell>,
    fw: int,
    fh: int,
    target: Rect,
    highlight: Option<Style>,
    line: Option<Seq<SpanView>>,
    alignment: Alignment,
) -> Seq<Cell> {
    let filled = match highlight {
        Some(style) => blank_run(
            cells,
            fw,
            fh,
            target.x as int,
            target.y as int,
            style,
            target.width as int,
        ),
        None => cells,
    };
    match line {
        Some(spans) => line_cells(
            filled,
            fw,
            fh,
            target,
            0,
            match highlight {
                Some(style) => highlighted_spans(spans, style),
                None => spans,
            },
            alignment,
        ),
        None => filled,
    }
}

/// Cells after drawing the first `n` cells of a table row at `y`: cell `i` goes into column
/// rectangle `i`, one row tall, with column `i`'s alignment, and is empty past the row's lines.
pub open spec fn row_cells(
    cells: Seq<Cell>,
    fw: int,
    fh: int,
    rects: Seq<Rect>,
    y: u16,
    columns: Seq<TableColumn>,
    lines: Seq<Line>,
    highlight: Option<Style>,
    n: int,
) -> Seq<Cell>
    decreases n,
{
    if n <= 0 {
        cells
    } else {
        let i = n - 1;
        column_cell(
            row_cells(cells, fw, fh, rects, y, columns, lines, highlight, i),
            fw,
            fh,
            Rect { x: rects[i].x, y, width: rects[i].width, height: 1 },
            highlight,
            if i < lines.len() {
                Some(lines[i].spec_spans())
            } else {
                None
            },
            columns[i].spec_alignment(),
        )
    }
}

/// Cells after drawing the first `n` visible body rows: row `start + k` of `rows` on line
/// `y + k`, highlighted in `style` when it is the `selected` row.
pub open spec fn body_rows(
    cells: Seq<Cell>,
    fw: int,
    fh: int,
    rects: Seq<Rect>,
    y: int,
    columns: Seq<TableColumn>,
    rows: Seq<Seq<Line>>,
    start: int,
    selected: Option<int>,
    style: Style,
    n: int,
) -> Seq<Cell>
    decreases n,
{
    if n <= 0 {
        cells
    } else {
        let k = n - 1;
        row_cells(
            body_rows(cells, fw, fh, rects, y, columns, rows, start, selected, style, k),
            fw,
            fh,
            rects,
            (y + k) as u16,
            columns,
            rows[start + k],
            if selected == Some(start + k) {
                Some(style)
            } else {
                None
            },
            if columns.len() <= rects.len() {
                columns.len() as int
            } else {
                rects.len() as int
            },
        )
    }
}

/// A constrained-column table rendered with explicit [`TableState`].
///
/// Rows and headers are [`Line`] values so cell content can retain rich styling.
pub struct Table {
    columns: Vec<TableColumn>,
    header: Option<Vec<Line>>,
    rows: Vec<Vec<Line>>,
    selected_style: Style,
}

impl Table {
    pub closed spec fn spec_columns(&self) -> Seq<TableColumn> {
        self.columns@
    }

    pub closed spec fn spec_header(&self) -> Option<Seq<Line>> {
        match self.header {
            Some(h) => Some(h@),
            None => None,
        }
    }

    pub closed spec fn spec_rows(&self) -> Seq<Seq<Line>> {
        self.rows@.map_values(|r: Vec<Line>| r@)
    }

    pub closed spec fn spec_selected_style(&self) -> Style {
        self.selected_style
    }

    pub fn new(columns: Vec<TableColumn>) -> (t: Self)
        ensures
            t.spec_columns() == columns@,
            t.spec_header() is None,
            t.spec_rows().len() == 0,
            t.spec_selected_style() == Style::plain(),
    {
        Table { columns, header: None, rows: Vec::new(), selected_style: Style::new() }
    }

    pub fn header(self, cells: Vec<Line>) -> (t: Self)
        ensures
            t.spec_columns() == self.spec_columns(),
            t.spec_header() == Some(cells@),
            t.spec_rows() == self.spec_rows(),
            t.spec_selected_style() == self.spec_selected_style(),
    {
        Table { header: Some(cells), ..self }
    }

    pub fn rows(self, rows: Vec<Vec<Line>>) -> (t: Self)
        ensures
            t.spec_columns() == self.spec_columns(),
            t.spec_header() == self.spec_header(),
            t.spec_rows() == rows@.map_values(|r: Vec<Line>| r@),
            t.spec_selected_style() == self.spec_selected_style(),
    {
        Table { rows, ..self }
    }

    pub fn selected_style(self, style: Style) -> (t: Self)
        ensures
            t.spec_columns() == self.spec_columns(),
            t.spec_header() == self.spec_header(),
            t.spec_rows() == self.spec_rows(),
            t.spec_selected_style() == style,
    {
        Table { selected_style: style, ..self }
    }

    /// The body rows' height inside `rect` (below the header, if any).
    pub open spec fn body_height(&self, rect: Rect) -> int {
        let header = if self.spec_header() is Some {
            1int
        } else {
            0
        };
        if rect.height >= header {
            rect.height - header
        } else {
            0
        }
    }

    /// The column rectangles across `rect`, one per column, sized by the columns' constraints.
    pub open spec fn column_areas(&self, rect: Rect) -> Seq<Rect> {
        layout_areas(
            Direction::Horizontal,
            self.spec_columns().map_values(|c: TableColumn| c.spec_constraint()),
            0,
            rect,
        )
    }

    /// The number of body rows drawn from row `offset`: as many as remain, fit the body's
    /// height and stay within the coordinate range.
    pub open spec fn visible_rows(&self, rect: Rect, offset: int) -> int {
        let header = if self.spec_header() is Some {
            1int
        } else {
            0
        };
        let body_y = sat_add16(rect.y as int, header);
        let remaining = self.spec_rows().len() - offset;
        let fitting = if remaining <= self.body_height(rect) {
            remaining
        } else {
            self.body_height(rect)
        };
        if fitting <= u16::MAX - body_y + 1 {
            fitting
        } else {
            u16::MAX - body_y + 1
        }
    }

    /// The cells after drawing the table into `rect` over `cells`: the header row at `rect.y`,
    /// then the visible body rows from row `offset`, the row `selected` (when there are rows)
    /// highlighted in the selected style.
    pub open spec fn drawn_cells(
        &self,
        cells: Seq<Cell>,
        fw: int,
        fh: int,
        rect: Rect,
        offset: int,
        selected: int,
    ) -> Seq<Cell> {
        let rects = self.column_areas(rect);
        let count = if self.spec_columns().len() <= rects.len() {
            self.spec_columns().len() as int
        } else {
            rects.len() as int
        };
        let headed = match self.spec_header() {
            Some(h) => row_cells(cells, fw, fh, rects, rect.y, self.spec_columns(), h, None, count),
            None => cells,
        };
        let header = if self.spec_header() is Some {
            1int
        } else {
            0
        };
        body_rows(
            headed,
            fw,
            fh,
            rects,
            sat_add16(rect.y as int, header) as int,
            self.spec_columns(),
            self.spec_rows(),
            offset,
            if self.spec_rows().len() > 0 {
                Some(selected)
            } else {
                None
            },
            self.spec_selected_style(),
            self.visible_rows(rect, offset),
        )
    }

    /// Lays out the columns across `rect`, draws the header row and the visible body rows from
    /// the state's offset, highlighting the selected row. The state's viewport is sized to the
    /// row count and body height, and its selection clamped to the row count.
    pub fn render(&self, frame: &mut Frame, rect: Rect, state: &mut TableState)
        requires
            old(frame).wf(),
            self.spec_columns().len() <= 0xffff_ffff_ffff,
        ensures
            final(frame).wf(),
            final(frame).same_size(old(frame)),
            rect.width == 0 || rect.height == 0 || self.spec_columns().len() == 0 ==> *final(frame)
                == *old(frame) && *final(state) == *old(state),
            !(rect.width == 0 || rect.height == 0 || self.spec_columns().len() == 0) ==> {
                &&& (final(state).spec_viewport().spec_offset() as int, final(state).spec_viewport().spec_content_height() as int, final(state).spec_viewport().spec_viewport_height() as int) == old(state).spec_viewport().updated(self.spec_rows().len() as int, self.body_height(rect))
                &&& final(state).spec_viewport().wf()
                &&& self.spec_rows().len() == 0 ==> final(state).spec_selected() == 0
                &&& self.spec_rows().len() > 0 ==> final(state).spec_selected() == clamp_selection(
                    old(state).spec_selected() as int,
                    self.spec_rows().len() as int,
                )
                &&& final(frame).spec_buffer().cells() == self.drawn_cells(
                    old(frame).spec_buffer().cells(),
                    old(frame).spec_width() as int,
                    old(frame).spec_height() as int,
                    rect,
                    final(state).spec_viewport().spec_offset() as int,
                    final(state).spec_selected() as int,
                )
            },
    {
        if rect.width == 0 || rect.height == 0 || self.columns.len() == 0 {
            return;
        }
        let ghost fw = frame.spec_width() as int;
        let ghost fh = frame.spec_height() as int;
        let mut constraints: Vec<Constraint> = Vec::new();
        let mut i: usize = 0;
        while i < self.columns.len()
            invariant
                i <= self.columns@.len(),
                constraints@ == self.columns@.take(i as int).map_values(
                    |c: TableColumn| c.spec_constraint(),
                ),
            decreases self.columns@.len() - i,
        {
            constraints.push(self.columns[i].constraint);
            proof {
                assert(self.columns@.take(i + 1).map_values(|c: TableColumn| c.spec_constraint())
                    =~= self.columns@.take(i as int).map_values(|c: TableColumn| c.spec_constraint()).push(
                    self.columns@[i as int].spec_constraint(),
                ));
            }
            i = i + 1;
        }
        proof {
            assert(self.columns@.take(i as int) =~= self.columns@);
            assert(constraints@ =~= self.spec_columns().map_values(|c: TableColumn| c.spec_constraint()));
        }
        let column_rects = Layout::horizontal(constraints).split(rect);
        let ghost count = if self.spec_columns().len() <= column_rects@.len() {
            self.spec_columns().len() as int
        } else {
            column_rects@.len() as int
        };
        let header_height: u16 = if self.header.is_some() {
            1
        } else {
            0
        };
        match &self.header {
            Some(header) => {
                self.render_row(frame, column_rects.as_slice(), rect.y, header.as_slice(), None);
            },
            None => {},
        }
        let ghost headed = frame.spec_buffer().cells();
        let body = Rect::new(
            rect.x,
            rect.y.saturating_add(header_height),
            rect.width,
            rect.height.saturating_sub(header_height),
        );
        state.viewport.update_dimensions(self.rows.len(), body.height);
        let selected = state.selected_index(self.rows.len());
        let start = state.viewport.offset();
        proof {
            assert(state.viewport.spec_content_height() == self.rows@.len());
            assert(start <= self.rows@.len());
        }
        let visible = if self.rows.len() - start <= body.height as usize {
            self.rows.len() - start
        } else {
            body.height as usize
        };
        let room = (u16::MAX - body.y) as usize + 1;
        let visible = if visible <= room {
            visible
        } else {
            room
        };
        let mut k: usize = 0;
        while k < visible
            invariant
                k <= visible,
                visible <= room,
                room == (u16::MAX - body.y) as usize + 1,
                start + visible <= self.rows@.len(),
                self.rows@.len() <= usize::MAX,
                frame.wf(),
                frame.same_size(old(frame)),
                fw == frame.spec_width(),
                fh == frame.spec_height(),
                column_rects@ == self.column_areas(rect),
                frame.spec_buffer().cells() == body_rows(
                    headed,
                    fw,
                    fh,
                    column_rects@,
                    body.y as int,
                    self.spec_columns(),
                    self.spec_rows(),
                    start as int,
                    match selected {
                        Some(s) => Some(s as int),
                        None => None,
                    },
                    self.selected_style,
                    k as int,
                ),
            decreases visible - k,
        {
            let index = start + k;
            let y = body.y + k as u16;
            let highlight = match selected {
                Some(s) => {
                    if s == index {
                        Some(self.selected_style)
                    } else {
                        None
                    }
                },
                None => None,
            };
            self.render_row(frame, column_rects.as_slice(), y, self.rows[index].as_slice(), highlight);
            k = k + 1;
        }
    }

    fn render_row(
        &self,
        frame: &mut Frame,
        column_rects: &[Rect],
        y: u16,
        cells: &[Line],
        selected_style: Option<Style>,
    )
        requires
            old(frame).wf(),
        ensures
            final(frame).wf(),
            final(frame).same_size(old(frame)),
            final(frame).spec_buffer().cells() == row_cells(
                old(frame).spec_buffer().cells(),
                old(frame).spec_width() as int,
                old(frame).spec_height() as int,
                column_rects@,
                y,
                self.spec_columns(),
                cells@,
                selected_style,
                if self.spec_columns().len() <= column_rects@.len() {
                    self.spec_columns().len() as int
                } else {
                    column_rects@.len() as int
                },
            ),
    {
        let ghost fw = frame.spec_width() as int;
        let ghost fh = frame.spec_height() as int;
        let mut index: usize = 0;
        while index < self.columns.len() && index < column_rects.len()
            invariant
                frame.wf(),
                frame.same_size(old(frame)),
                fw == frame.spec_width(),
                fh == frame.spec_height(),
                index <= self.columns@.len(),
                index <= column_rects@.len(),
                frame.spec_buffer().cells() == row_cells(
                    old(frame).spec_buffer().cells(),
                    fw,
                    fh,
                    column_rects@,
                    y,
                    self.spec_columns(),
                    cells@,
                    selected_style,
                    index as int,
                ),
            decreases self.columns@.len() - index,
        {
            let ghost start = frame.spec_buffer().cells();
            let column_rect = column_rects[index];
            let target = Rect::new(column_rect.x, y, column_rect.width, 1);
            match selected_style {
                Some(style) => {
                    let mut x: u16 = 0;
                    while x < target.width
                        invariant
                            frame.wf(),
                            frame.same_size(old(frame)),
                            fw == frame.spec_width(),
                            fh == frame.spec_height(),
                            x <= target.width,
                            frame.spec_buffer().cells() == blank_run(
                                start,
                                fw,
                                fh,
                                target.x as int,
                                y as int,
                                style,
                                x as int,
                            ),
                        decreases target.width - x,
                    {
                        if x <= u16::MAX - target.x {
                            frame.set_cell(target.x + x, y, Cell::new(' ', style));
                        }
                        x = x + 1;
                    }
                },
                None => {},
            }
            if index < cells.len() {
                let alignment = self.columns[index].alignment;
                let cell = match selected_style {
                    Some(style) => patch_line(&cells[index], style).alignment(alignment),
                    None => aligned_copy(&cells[index], alignment),
                };
                proof {
                    match selected_style {
                        Some(style) => {
                            assert(cell.spec_spans() =~= highlighted_spans(
                                cells@[index as int].spec_spans(),
                                style,
                            ));
                        },
                        None => {},
                    }
                }
                cell.render(frame, target);
            }
            index = index + 1;
        }
    }
}

} // verus!
