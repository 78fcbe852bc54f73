use vstd::prelude::*;

use crate::border::BorderSet;
use crate::canvas::{Canvas, paint_rows, with_line};
use crate::cell::Cell;
use crate::chars::{concat_strs, split_lines};
use crate::dashboard::{
    AGENT_COUNT,
    Dashboard,
    HitRegions,
    Splash,
    agent_tree,
    agent_tree_roots,
    focused,
    input_focus,
};
use crate::frame::{Frame, rows_written};
use crate::list::clamp_selection;
use crate::geometry::{Position, Rect, Size, min_int};
use crate::layout::{Constraint, Direction, Layout, layout_areas};
use crate::overlay::{Modal, modal_drawn, spec_centered_rect};
use crate::palette::palette_drawn;
use crate::panel::{Panel, panel_drawn};
use crate::rich_text::{Line, RichText, Span, SpanView, line_views, rich_rows};
use crate::style::{Attributes, Color, Style};
use crate::table::{Table, TableColumn};
use crate::text::{Alignment, Text, text_cells};
use crate::text_area::area_render;
use crate::theme::Theme;
use crate::tree::{
    Tree,
    forest_rows,
    normalized_expanded,
    normalized_selection,
    tree_lines_written,
    tree_row_lines,
};
use crate::viewport::{Viewport, min_rows};

verus! {

/// A rendered screen and where the terminal cursor goes, if anywhere.
pub struct DemoView {
    pub frame: Frame,
    pub cursor: Option<Position>,
}

/// The dragon artwork shown on the splash screen.
pub const SPLASH_ARTWORK: &'static str = r"⠀⠀⠀⠀⠀⠀⠀⠀⠀⠀⠀⠀⠀⣀⣀⣤⣤⣤⣤⡼⠀⢀⡀⣀⢱⡄⡀⠀⠀⠀⢲⣤⣤⣤⣤⣀⣀⡀⠀⠀⠀⠀⠀⠀⠀⠀⠀⠀⠀⠀
⠀⠀⠀⠀⠀⠀⠀⠀⠀⣠⣴⣾⣿⣿⣿⣿⣿⡿⠛⠋⠁⣤⣿⣿⣿⣧⣷⠀⠀⠘⠉⠛⢻⣷⣿⣽⣿⣿⣷⣦⣄⡀⠀⠀⠀⠀⠀⠀⠀⠀
⠀⠀⠀⠀⠀⠀⢀⣴⣞⣽⣿⣿⣿⣿⣿⣿⣿⠁⠀⠀⠠⣿⣿⡟⢻⣿⣿⣇⠀⠀⠀⠀⠀⣿⣿⣿⣿⣿⣿⣿⣿⣟⢦⡀⠀⠀⠀⠀⠀⠀
⠀⠀⠀⠀⠀⣠⣿⡾⣿⣿⣿⣿⣿⠿⣻⣿⣿⡀⠀⠀⠀⢻⣿⣷⡀⠻⣧⣿⠆⠀⠀⠀⠀⣿⣿⣿⡻⣿⣿⣿⣿⣿⠿⣽⣦⡀⠀⠀⠀⠀
⠀⠀⠀⠀⣼⠟⣩⣾⣿⣿⣿⢟⣵⣾⣿⣿⣿⣧⠀⠀⠀⠈⠿⣿⣿⣷⣈⠁⠀⠀⠀⠀⣰⣿⣿⣿⣿⣮⣟⢯⣿⣿⣷⣬⡻⣷⡄⠀⠀⠀
⠀⠀⢀⡜⣡⣾⣿⢿⣿⣿⣿⣿⣿⢟⣵⣿⣿⣿⣷⣄⠀⣰⣿⣿⣿⣿⣿⣷⣄⠀⢀⣼⣿⣿⣿⣷⡹⣿⣿⣿⣿⣿⣿⢿⣿⣮⡳⡄⠀⠀
⠀⢠⢟⣿⡿⠋⣠⣾⢿⣿⣿⠟⢃⣾⢟⣿⢿⣿⣿⣿⣾⡿⠟⠻⣿⣻⣿⣏⠻⣿⣾⣿⣿⣿⣿⡛⣿⡌⠻⣿⣿⡿⣿⣦⡙⢿⣿⡝⣆⠀
⠀⢯⣿⠏⣠⠞⠋⠀⣠⡿⠋⢀⣿⠁⢸⡏⣿⠿⣿⣿⠃⢠⣴⣾⣿⣿⣿⡟⠀⠘⢹⣿⠟⣿⣾⣷⠈⣿⡄⠘⢿⣦⠀⠈⠻⣆⠙⣿⣜⠆
⢀⣿⠃⡴⠃⢀⡠⠞⠋⠀⠀⠼⠋⠀⠸⡇⠻⠀⠈⠃⠀⣧⢋⣼⣿⣿⣿⣷⣆⠀⠈⠁⠀⠟⠁⡟⠀⠈⠻⠀⠀⠉⠳⢦⡀⠈⢣⠈⢿⡄
⣸⠇⢠⣷⠞⠁⠀⠀⠀⠀⠀⠀⠀⠀⠀⠀⠀⠀⠀⠀⠀⠙⠻⠿⠿⠋⠀⢻⣿⡄⠀⠀⠀⠀⠀⠀⠀⠀⠀⠀⠀⠀⠀⠀⠈⠙⢾⣆⠈⣷
⡟⠀⡿⠁⠀⠀⠀⠀⠀⠀⠀⠀⠀⠀⠀⠀⠀⠀⠀⠀⠀⠀⠀⣴⣶⣤⡀⢸⣿⠇⠀⠀⠀⠀⠀⠀⠀⠀⠀⠀⠀⠀⠀⠀⠀⠀⠀⢻⡄⢹
⡇⠀⠃⠀⠀⠀⠀⠀⠀⠀⠀⠀⠀⠀⠀⠀⠀⠀⠀⠀⠀⠀⢸⡇⠀⠈⣿⣼⡟⠀⠀⠀⠀⠀⠀⠀⠀⠀⠀⠀⠀⠀⠀⠀⠀⠀⠀⠈⠃⢸
⢡⠀⠀⠀⠀⠀⠀⠀⠀⠀⠀⠀⠀⠀⠀⠀⠀⠀⠀⠀⠀⠀⠈⠻⠶⣶⡟⠋⠀⠀⠀⠀⠀⠀⠀⠀⠀⠀⠀⠀⠀⠀⠀⠀⠀⠀⠀⠀⠀⡼
⠈⠀⠀⠀⠀⠀⠀⠀⠀⠀⠀⠀⠀⠀⠀⠀⠀⠀⠀⠀⠀⠀⠀⢀⡾⠋⠀⠀⠀⠀⠀⠀⠀⠀⠀⠀⠀⠀⠀⠀⠀⠀⠀⠀⠀⠀⠀⠀⠀⠁
⠀⠀⠀⠀⠀⠀⠀⠀⠀⠀⠀⠀⠀⠀⠀⠀⠀⠀⠀⠀⠀⠀⠀⢸⡁⢠⠀⠀⠀⠀⠀⠀⠀⠀⠀⠀⠀⠀⠀⠀⠀⠀⠀⠀⠀⠀⠀⠀⠀⠀
⠀⠀⠀⠀⠀⠀⠀⠀⠀⠀⠀⠀⠀⠀⠀⠀⠀⠀⠀⠀⠀⠀⠀⢀⣿⣿⣼⣀⣠⠂⠀⠀⠀⠀⠀⠀⠀⠀⠀⠀⠀⠀⠀⠀⠀⠀⠀⠀⠀⠀";

/// Fills every cell of the frame with a blank in `style`.
fn fill_background(frame: &mut Frame, style: Style)
    requires
        old(frame).wf(),
    ensures
        final(frame).wf(),
        final(frame).same_size(old(frame)),
        forall|i: int|
            0 <= i < final(frame).spec_buffer().cells().len()
                ==> #[trigger] final(frame).spec_buffer().cells()[i] == Cell::spec_new(' ', style),
{
    let width = frame.buffer().width();
    let height = frame.buffer().height();
    let mut y: u16 = 0;
    while y < height
        invariant
            frame.wf(),
            frame.same_size(old(frame)),
            width == frame.spec_width(),
            height == frame.spec_height(),
            y <= height,
            forall|j: int|
                0 <= j < y * width ==> #[trigger] frame.spec_buffer().cells()[j] == Cell::spec_new(
                    ' ',
                    style,
                ),
        decreases height - y,
    {
        let mut x: u16 = 0;
        while x < width
            invariant
                frame.wf(),
                frame.same_size(old(frame)),
                width == frame.spec_width(),
                height == frame.spec_height(),
                y < height,
                x <= width,
                forall|j: int|
                    0 <= j < y * width + x ==> #[trigger] frame.spec_buffer().cells()[j]
                        == Cell::spec_new(' ', style),
            decreases width - x,
        {
            let ghost before = frame.spec_buffer().cells();
            frame.set_cell(x, y, Cell::new(' ', style));
            proof {
                crate::buffer::lemma_idx_bounds(width as int, height as int, x as int, y as int);
                let i = crate::buffer::idx(width as int, x as int, y as int);
                crate::buffer::lemma_set_then_get(
                    before,
                    width as int,
                    height as int,
                    x as int,
                    y as int,
                    Cell::spec_new(' ', style),
                );
                assert forall|j: int|
                    0 <= j < y * width + x + 1 implies #[trigger] frame.spec_buffer().cells()[j]
                    == Cell::spec_new(' ', style) by {
                    // Only the cell before the written one could be its cleared partner, and
                    // it is already a one-column blank.
                    if j < i {
                        assert(before[j] == Cell::spec_new(' ', style));
                        if j == i - 1 {
                            assert(y * width + width <= width * height) by (nonlinear_arith)
                                requires
                                    y < height,
                            ;
                            assert(crate::buffer::clear_partner(
                                before,
                                width as int,
                                x as int,
                                y as int,
                            )[j] == before[j]);
                        }
                    }
                }
            }
            x = x + 1;
        }
        proof {
            assert((y + 1) * width == y * width + width) by (nonlinear_arith);
        }
        y = y + 1;
    }
    proof {
        assert(height * width == width * height) by (nonlinear_arith);
    }
}

/// `rect` without its first `offset` rows.
pub open spec fn rows_from(rect: Rect, offset: u16) -> Rect {
    Rect {
        x: rect.x,
        y: crate::geometry::sat_add16(rect.y as int, offset as int),
        width: rect.width,
        height: crate::geometry::sat_sub16(rect.height as int, offset as int),
    }
}

/// `rect` without its first `offset` rows.
fn row(rect: Rect, offset: u16) -> (r: Rect)
    ensures
        r == rows_from(rect, offset),
{
    Rect::new(rect.x, rect.y.saturating_add(offset), rect.width, rect.height.saturating_sub(offset))
}

/// The decimal digits of `n`.
pub(crate) fn u64_text(n: u64) -> (r: String)
    ensures
        r@ == crate::diff_view::decimal(n as nat),
    decreases n,
{
    let mut out = if n >= 10 {
        u64_text(n / 10)
    } else {
        String::new()
    };
    let d = (n % 10) as u32;
    let c = if d == 0 {
        '0'
    } else if d == 1 {
        '1'
    } else if d == 2 {
        '2'
    } else if d == 3 {
        '3'
    } else if d == 4 {
        '4'
    } else if d == 5 {
        '5'
    } else if d == 6 {
        '6'
    } else if d == 7 {
        '7'
    } else if d == 8 {
        '8'
    } else {
        '9'
    };
    crate::chars::push_char(&mut out, c);
    proof {
        assert(out@ =~= crate::diff_view::decimal(n as nat));
    }
    out
}

/// The rows of `runtime` from its sixth, at most four of them: where the canvas demo goes.
pub open spec fn canvas_demo_target(runtime: Rect) -> Rect {
    let below = crate::geometry::sat_sub16(runtime.height as int, 5);
    Rect {
        x: runtime.x,
        y: crate::geometry::sat_add16(runtime.y as int, 5),
        width: runtime.width,
        height: if below < 4 {
            below
        } else {
            4
        },
    }
}

/// `dots` with the outline of the whole `w` by `h` cell canvas drawn: top, bottom, left and
/// right edges in that order.
pub open spec fn outline_dots(dots: Seq<u8>, w: int, h: int) -> Seq<u8> {
    let x1 = 2 * w - 1;
    let y1 = 4 * h - 1;
    with_line(
        with_line(
            with_line(with_line(dots, w, h, 0, 0, x1, 0), w, h, 0, y1, x1, y1),
            w,
            h,
            0,
            0,
            0,
            y1,
        ),
        w,
        h,
        x1,
        0,
        x1,
        y1,
    )
}

/// The heights, from 1 to 8, of the waveform's seven samples.
pub open spec fn waveform_levels() -> Seq<u32> {
    seq![1u32, 3, 5, 8, 5, 3, 1]
}

/// `dots` with the first `n` segments of the waveform drawn inside the `w` by `h` cell canvas,
/// one that is more than two cells wide and more than one cell tall: segment `i` joins
/// samples `i` and `i + 1`, spread evenly over the inner width and scaled to the inner height.
pub open spec fn waveform_dots(dots: Seq<u8>, w: int, h: int, n: int) -> Seq<u8>
    decreases n,
{
    if n <= 0 {
        dots
    } else {
        let i = n - 1;
        let step_x = 2 * w - 5;
        let step_y = 4 * h - 5;
        with_line(
            waveform_dots(dots, w, h, i),
            w,
            h,
            2 + i * step_x / 6,
            2 + (8 - waveform_levels()[i]) * step_y / 8,
            2 + (i + 1) * step_x / 6,
            2 + (8 - waveform_levels()[i + 1]) * step_y / 8,
        )
    }
}

/// The dots of the demo canvas of `w` by `h` cells: its outline and, when it is more than two
/// cells wide and more than one cell tall, a diagonal and the six waveform segments.
pub open spec fn canvas_demo_dots(w: int, h: int) -> Seq<u8> {
    let outlined = outline_dots(Seq::new((w * h) as nat, |i: int| 0u8), w, h);
    if 2 * w > 4 && 4 * h > 4 {
        waveform_dots(with_line(outlined, w, h, 2, 2, 2 * w - 3, 4 * h - 3), w, h, 6)
    } else {
        outlined
    }
}

/// Draws the braille canvas demo (an outline, a diagonal and a waveform) into the rows of
/// `runtime` from its sixth, at most four rows tall.
fn render_canvas_demo(frame: &mut Frame, runtime: Rect, style: Style)
    requires
        old(frame).wf(),
    ensures
        canvas_demo_drawn(*old(frame), *final(frame), runtime, style),
{
    let below = runtime.height.saturating_sub(5);
    let target = Rect::new(
        runtime.x,
        runtime.y.saturating_add(5),
        runtime.width,
        if below < 4 {
            below
        } else {
            4
        },
    );
    if target.width == 0 || target.height == 0 {
        return;
    }
    let ghost w = target.width as int;
    let ghost h = target.height as int;
    let mut canvas = Canvas::new(target.width, target.height);
    proof {
        assert(canvas.spec_dots() =~= Seq::new((w * h) as nat, |i: int| 0u8));
    }
    let logical_width = canvas.logical_width();
    let logical_height = canvas.logical_height();
    canvas.draw_rect(0, 0, logical_width, logical_height);
    let ghost outlined = canvas.spec_dots();
    proof {
        assert(outlined == outline_dots(Seq::new((w * h) as nat, |i: int| 0u8), w, h));
    }
    if logical_width > 4 && logical_height > 4 {
        canvas.draw_line(2, 2, (logical_width - 3) as i32, (logical_height - 3) as i32);
        let ghost diagonal = canvas.spec_dots();
        let waveform: [u32; 7] = [1, 3, 5, 8, 5, 3, 1];
        proof {
            assert(waveform@ =~= waveform_levels());
        }
        let inner_width = logical_width - 4;
        let inner_height = logical_height - 4;
        let mut index: u32 = 0;
        while index < 6
            invariant
                canvas.wf(),
                canvas.spec_width() == w,
                canvas.spec_height() == h,
                logical_width == 2 * w,
                logical_height == 4 * h,
                logical_width <= 2 * 0xffff,
                logical_height <= 4 * 0xffff,
                logical_width > 4,
                logical_height > 4,
                inner_width == logical_width - 4,
                inner_height == logical_height - 4,
                index <= 6,
                waveform@ == waveform_levels(),
                canvas.spec_dots() == waveform_dots(diagonal, w, h, index as int),
            decreases 6 - index,
        {
            let step_x = inner_width.saturating_sub(1);
            let step_y = inner_height.saturating_sub(1);
            assert(index * step_x <= 5 * (2 * 0xffff)) by (nonlinear_arith)
                requires
                    index <= 5,
                    step_x <= 2 * 0xffff,
            ;
            assert((index + 1) * step_x <= 6 * (2 * 0xffff)) by (nonlinear_arith)
                requires
                    index <= 5,
                    step_x <= 2 * 0xffff,
            ;
            let v0 = waveform[index as usize];
            let v1 = waveform[(index + 1) as usize];
            assert((8 - v0) * step_y <= 7 * (4 * 0xffff)) by (nonlinear_arith)
                requires
                    1 <= v0 <= 8,
                    step_y <= 4 * 0xffff,
            ;
            assert((8 - v1) * step_y <= 7 * (4 * 0xffff)) by (nonlinear_arith)
                requires
                    1 <= v1 <= 8,
                    step_y <= 4 * 0xffff,
            ;
            let x0 = 2 + index * step_x / 6;
            let x1 = 2 + (index + 1) * step_x / 6;
            let y0 = 2 + (8 - v0) * step_y / 8;
            let y1 = 2 + (8 - v1) * step_y / 8;
            canvas.draw_line(x0 as i32, y0 as i32, x1 as i32, y1 as i32);
            index = index + 1;
        }
    }
    canvas.render(frame, target, style);
}

/// The areas of the dashboard screen: the body row and the prompt and footer rows under it,
/// inside the outer panel.
pub open spec fn screen_rows(size: Size, prompt_height: u16) -> Seq<Rect> {
    layout_areas(
        Direction::Vertical,
        seq![Constraint::Fill(1), Constraint::Length(prompt_height), Constraint::Length(1)],
        1,
        Rect { x: 0, y: 0, width: size.width, height: size.height }.spec_inner(),
    )
}

/// The agents, output and runtime columns of the body row.
pub open spec fn body_columns(body: Rect) -> Seq<Rect> {
    layout_areas(
        Direction::Horizontal,
        seq![Constraint::Length(20), Constraint::Fill(1), Constraint::Percentage(25)],
        1,
        body,
    )
}

/// The prompt's height: taller while the prompt has the focus.
pub open spec fn prompt_height(d: Dashboard) -> u16 {
    if focused(d.focus, 3) {
        5
    } else {
        3
    }
}

/// The regions that mouse events are routed by after a render of `d` at `size`.
pub open spec fn rendered_regions(d: Dashboard, size: Size) -> HitRegions {
    let rows = screen_rows(size, prompt_height(d));
    let columns = body_columns(rows[0]);
    HitRegions {
        agents: columns[0],
        agent_rows: columns[0].spec_inner(),
        output: columns[1],
        input: rows[1],
    }
}

/// One plain span per label: the cells of a table row of labels.
pub open spec fn label_row(labels: Seq<Seq<char>>) -> Seq<Seq<SpanView>> {
    labels.map_values(|l: Seq<char>| seq![(l, Style::plain())])
}

/// Label lines for one table row.
fn table_row(a: &str, b: &str, c: &str, d: &str) -> (r: Vec<Line>)
    ensures
        line_views(r@) == label_row(seq![a@, b@, c@, d@]),
{
    let mut cells: Vec<Line> = Vec::new();
    cells.push(Line::raw(a));
    cells.push(Line::raw(b));
    cells.push(Line::raw(c));
    cells.push(Line::raw(d));
    assert(line_views(cells@) =~= label_row(seq![a@, b@, c@, d@]));
    cells
}

/// `t` is the agents table: name, status, token and time columns (six, seven and four cells
/// wide, then the rest, all left-aligned), a header of labels, four agent rows, and the
/// selected row in `selected_style`.
pub open spec fn is_agents_table(t: Table, selected_style: Style) -> bool {
    &&& t.spec_columns().len() == 4
    &&& t.spec_rows().len() == 4
    &&& t.spec_columns().map_values(|c: TableColumn| (c.spec_constraint(), c.spec_alignment()))
        == seq![
        (Constraint::Length(6), Alignment::Left),
        (Constraint::Length(7), Alignment::Left),
        (Constraint::Length(4), Alignment::Left),
        (Constraint::Fill(1), Alignment::Left),
    ]
    &&& t.spec_header() is Some
    &&& line_views(t.spec_header().unwrap()) == label_row(
        seq!["NAME"@, "STATUS"@, "TOKENS"@, "TIME"@],
    )
    &&& t.spec_rows().map_values(|r: Seq<Line>| line_views(r)) == seq![
        label_row(seq!["Codex"@, "Working"@, "12.4K"@, "32s"@]),
        label_row(seq!["Hermes"@, "Idle"@, "8.1K"@, "-"@]),
        label_row(seq!["Cirrus"@, "Review"@, "15.0K"@, "12s"@]),
        label_row(seq!["Local"@, "Ready"@, "2.4K"@, "-"@]),
    ]
    &&& t.spec_selected_style() == selected_style
}

/// The agents table.
fn agents_table(selected_style: Style) -> (r: Table)
    ensures
        is_agents_table(r, selected_style),
{
    let mut columns: Vec<TableColumn> = Vec::new();
    columns.push(TableColumn::new(Constraint::Length(6)));
    columns.push(TableColumn::new(Constraint::Length(7)));
    columns.push(TableColumn::new(Constraint::Length(4)));
    columns.push(TableColumn::new(Constraint::Fill(1)));
    let mut rows: Vec<Vec<Line>> = Vec::new();
    rows.push(table_row("Codex", "Working", "12.4K", "32s"));
    rows.push(table_row("Hermes", "Idle", "8.1K", "-"));
    rows.push(table_row("Cirrus", "Review", "15.0K", "12s"));
    rows.push(table_row("Local", "Ready", "2.4K", "-"));
    let r = Table::new(columns).header(table_row("NAME", "STATUS", "TOKENS", "TIME")).rows(
        rows,
    ).selected_style(selected_style);
    proof {
        assert(r.spec_columns().map_values(|c: TableColumn| (c.spec_constraint(), c.spec_alignment()))
            =~= seq![
            (Constraint::Length(6), Alignment::Left),
            (Constraint::Length(7), Alignment::Left),
            (Constraint::Length(4), Alignment::Left),
            (Constraint::Fill(1), Alignment::Left),
        ]);
        assert(r.spec_rows().map_values(|r: Seq<Line>| line_views(r)) =~= seq![
            label_row(seq!["Codex"@, "Working"@, "12.4K"@, "32s"@]),
            label_row(seq!["Hermes"@, "Idle"@, "8.1K"@, "-"@]),
            label_row(seq!["Cirrus"@, "Review"@, "15.0K"@, "12s"@]),
            label_row(seq!["Local"@, "Ready"@, "2.4K"@, "-"@]),
        ]);
    }
    r
}

/// The dashboard's styles, derived from its theme.
pub struct DashboardStyles {
    pub background: Style,
    pub border: Style,
    pub agent: Style,
    pub success: Style,
    pub runtime: Style,
    pub focus: Style,
    pub text: Style,
    pub status: Style,
    pub hint: Style,
    pub selected_agent: Style,
}

/// A style setting only the foreground `color`, bold when `bold` holds.
pub open spec fn foreground(color: Color, bold: bool) -> Style {
    Style { fg: Some(color), bg: None, attributes: Attributes { bold, ..Attributes::none() } }
}

/// The dashboard's styles for `theme`: every pane style is the theme background patched with a
/// theme foreground (bold for borders and emphasis); hints are italic muted text.
pub open spec fn styles_for(theme: Theme) -> DashboardStyles {
    let background = Style { bg: Some(theme.background), ..Style::plain() };
    let status = background.spec_patch(foreground(theme.muted, false));
    DashboardStyles {
        background,
        border: background.spec_patch(foreground(theme.primary, true)),
        agent: background.spec_patch(foreground(theme.secondary, true)),
        success: background.spec_patch(foreground(theme.success, true)),
        runtime: background.spec_patch(foreground(theme.error, true)),
        focus: background.spec_patch(foreground(theme.warning, true)),
        text: background.spec_patch(foreground(theme.text, false)),
        status,
        hint: status.spec_patch(
            Style {
                attributes: Attributes { italic: true, ..Attributes::none() },
                ..Style::plain()
            },
        ),
        selected_agent: Style {
            fg: Some(theme.success),
            bg: Some(theme.primary),
            attributes: Attributes { bold: true, ..Attributes::none() },
        },
    }
}

/// The dashboard's styles for `theme`.
pub fn dashboard_styles(theme: Theme) -> (r: DashboardStyles)
    ensures
        r == styles_for(theme),
{
    let background = Style::new().bg(theme.background);
    let status = background.patch(Style::new().fg(theme.muted));
    DashboardStyles {
        background,
        border: background.patch(Style::new().fg(theme.primary).bold()),
        agent: background.patch(Style::new().fg(theme.secondary).bold()),
        success: background.patch(Style::new().fg(theme.success).bold()),
        runtime: background.patch(Style::new().fg(theme.error).bold()),
        focus: background.patch(Style::new().fg(theme.warning).bold()),
        text: background.patch(Style::new().fg(theme.text)),
        status,
        hint: status.patch(Style::new().italic()),
        selected_agent: Style::new().fg(theme.success).bg(theme.primary).bold(),
    }
}

/// The style of a pane's border and title: the focus style while it has the focus.
fn pane_style(focused_now: bool, focus: Style, normal: Style) -> (r: Style)
    ensures
        r == if focused_now {
            focus
        } else {
            normal
        },
{
    if focused_now {
        focus
    } else {
        normal
    }
}

/// `after` is well formed and has the size of `before`.
pub open spec fn restaged(before: Frame, after: Frame) -> bool {
    after.wf() && after.same_size(&before)
}

/// `after` is `before` with `content` written left-aligned into `rect` in `style`.
pub open spec fn text_drawn(before: Frame, after: Frame, rect: Rect, content: Seq<char>, style: Style) -> bool {
    &&& restaged(before, after)
    &&& after.spec_buffer().cells() == text_cells(
        before.spec_buffer().cells(),
        before.spec_width() as int,
        before.spec_height() as int,
        rect,
        content,
        style,
        Alignment::Left,
    )
}

/// `after` is `before` with the canvas demo drawn into the rows of `runtime` from its sixth.
pub open spec fn canvas_demo_drawn(before: Frame, after: Frame, runtime: Rect, style: Style) -> bool {
    let target = canvas_demo_target(runtime);
    &&& restaged(before, after)
    &&& target.width == 0 || target.height == 0 ==> after == before
    &&& target.width > 0 && target.height > 0 ==> after.spec_buffer().cells() == paint_rows(
        before.spec_buffer().cells(),
        before.spec_width() as int,
        before.spec_height() as int,
        target,
        style,
        canvas_demo_dots(target.width as int, target.height as int),
        target.width as int,
        target.width as int,
        target.height as int,
    )
}

/// The agents pane's widget drawn from `f0` to `f1` into `rect`: the agent `tree` when the
/// dashboard shows the tree, else the agents `table`, each moving its own state from `before`
/// to `after` and leaving the other's alone.
pub open spec fn agents_drawn(
    before: Dashboard,
    after: Dashboard,
    tree: Tree,
    table: Table,
    style: Style,
    rect: Rect,
    f0: Frame,
    f1: Frame,
) -> bool {
    let fw = f0.spec_width() as int;
    let fh = f0.spec_height() as int;
    &&& restaged(f0, f1)
    &&& if before.show_tree {
        &&& agent_tree_roots(tree.spec_roots())
        &&& tree.spec_selected_style() == style
        &&& after.agents == before.agents
        &&& rect.width == 0 || rect.height == 0 ==> f1 == f0 && after.tree == before.tree
        &&& rect.width > 0 && rect.height > 0 ==> {
            let e = normalized_expanded(tree.spec_roots(), before.tree.spec_expanded());
            let rows = forest_rows(tree.spec_roots(), None, 0, e);
            let sel = normalized_selection(rows, before.tree.spec_selected());
            let v = after.tree.spec_viewport();
            let start = v.spec_offset() as int;
            let end = if start + rect.height <= rows.len() {
                start + rect.height
            } else {
                rows.len() as int
            };
            &&& after.tree.spec_expanded() == e
            &&& after.tree.spec_selected() == sel
            &&& v.wf()
            &&& v.spec_initialized()
            &&& (start, v.spec_content_height() as int, v.spec_viewport_height() as int)
                == before.tree.spec_viewport().updated(rows.len() as int, rect.height as int)
            &&& f1.spec_buffer().cells() == tree_lines_written(
                f0.spec_buffer().cells(),
                fw,
                fh,
                rect,
                tree_row_lines(rows, start, end, e, sel, style),
            )
        }
    } else {
        &&& is_agents_table(table, style)
        &&& after.tree == before.tree
        &&& rect.width == 0 || rect.height == 0 ==> f1 == f0 && after.agents == before.agents
        &&& rect.width > 0 && rect.height > 0 ==> {
            &&& (
                after.agents.spec_viewport().spec_offset() as int,
                after.agents.spec_viewport().spec_content_height() as int,
                after.agents.spec_viewport().spec_viewport_height() as int,
            ) == before.agents.spec_viewport().updated(
                table.spec_rows().len() as int,
                table.body_height(rect),
            )
            &&& after.agents.spec_viewport().wf()
            &&& after.agents.spec_selected() == clamp_selection(
                before.agents.spec_selected() as int,
                table.spec_rows().len() as int,
            )
            &&& f1.spec_buffer().cells() == table.drawn_cells(
                f0.spec_buffer().cells(),
                fw,
                fh,
                rect,
                after.agents.spec_viewport().spec_offset() as int,
                after.agents.spec_selected() as int,
            )
        }
    }
}

/// The output pane drawn from `f0` to `f1` into `rect`: the output lines from the updated
/// viewport's offset, one per row, in `style`.
pub open spec fn output_drawn(before: Dashboard, after: Dashboard, style: Style, rect: Rect, f0: Frame, f1: Frame) -> bool {
    let lines = before.output_view();
    let v = after.output_viewport;
    &&& restaged(f0, f1)
    &&& (v.spec_offset() as int, v.spec_content_height() as int, v.spec_viewport_height() as int)
        == before.output_viewport.updated(lines.len() as int, rect.height as int)
    &&& v.wf()
    &&& v.spec_initialized()
    &&& f1.spec_buffer().cells() == (if rect.width == 0 || rect.height == 0 {
        f0.spec_buffer().cells()
    } else {
        rows_written(
            f0.spec_buffer(),
            rect,
            lines.subrange(
                v.spec_offset() as int,
                v.spec_offset() + min_rows(rect.height as int, lines.len() - v.spec_offset()),
            ),
            style,
        )
    })
}

/// The runtime pane's four status lines: the agent's state, the tick count with the spinner,
/// a fixed readiness line, and the dragon animation's frame.
pub open spec fn runtime_lines(d: Dashboard, styles: DashboardStyles) -> Seq<Seq<SpanView>> {
    let idle_style = styles.status.spec_patch(
        Style {
            attributes: Attributes { dim: true, strikethrough: true, ..Style::plain().attributes },
            ..Style::plain()
        },
    );
    let indicator = if d.agent_running {
        "\u{25cf} "@
    } else {
        "\u{25cb} "@
    };
    let state = if d.agent_running {
        "Working"@
    } else {
        "Idle"@
    };
    let state_style = if d.agent_running {
        styles.success
    } else {
        idle_style
    };
    let dragon = if 0 <= d.dragon.spec_index() < d.dragon.spec_frames().len() {
        d.dragon.spec_frames()[d.dragon.spec_index()]@
    } else {
        Seq::<char>::empty()
    };
    seq![
        seq![("Hermes "@, styles.agent), (indicator, state_style), (state, state_style)],
        seq![
            ("Tick "@, styles.status),
            (crate::diff_view::decimal(d.ticks as nat), styles.text),
            (seq![' '] + d.spinner.spec_frames()[d.spinner.spec_index()], styles.agent),
        ],
        seq![
            ("\u{65e5}\u{672c}\u{8a9e} "@, styles.text),
            ("\u{25cf} "@, styles.success),
            ("Ready"@, styles.success),
        ],
        seq![("Dragon "@, styles.status), (dragon, styles.runtime)],
    ]
}

/// The prompt's editor drawn from `f0` to `f1` into `rect` in `style`, giving `cursor`.
pub open spec fn prompt_drawn(
    before: Dashboard,
    after: Dashboard,
    rect: Rect,
    style: Style,
    f0: Frame,
    f1: Frame,
    cursor: Option<Position>,
) -> bool {
    &&& restaged(f0, f1)
    &&& rect.width == 0 || rect.height == 0 ==> cursor is None && f1 == f0 && after.input@
        == before.input@
    &&& rect.width > 0 && rect.height > 0 ==> {
        let (m, lines, pos) = area_render(before.input@, rect);
        &&& after.input@ == m
        &&& f1.spec_buffer().cells() == rows_written(f0.spec_buffer(), rect, lines, style)
        &&& cursor == pos
    }
}

/// The footer's key hints.
pub open spec fn footer_hint() -> Seq<char> {
    "Ctrl+P palette \u{2022} Tab focus \u{2022} \u{2191}\u{2193} scroll/select \u{2022} q/Ctrl+C quit"@
}

/// The runtime pane's status lines for `d`.
fn runtime_status_lines(d: &Dashboard, styles: &DashboardStyles) -> (lines: Vec<Line>)
    requires
        d.wf(),
    ensures
        line_views(lines@) == runtime_lines(*d, *styles),
{
    let (indicator, state, state_style) = if d.agent_running {
        ("\u{25cf} ", "Working", styles.success)
    } else {
        ("\u{25cb} ", "Idle", styles.status.patch(Style::new().dim().strikethrough()))
    };
    let mut lines: Vec<Line> = Vec::new();
    let mut first: Vec<Span> = Vec::new();
    first.push(Span::styled("Hermes ", styles.agent));
    first.push(Span::styled(indicator, state_style));
    first.push(Span::styled(state, state_style));
    lines.push(Line::new(first));
    let ticks = u64_text(d.ticks);
    let spinner = concat_strs(" ", d.spinner.current());
    let mut second: Vec<Span> = Vec::new();
    second.push(Span::styled("Tick ", styles.status));
    second.push(Span::styled(ticks.as_str(), styles.text));
    second.push(Span::styled(spinner.as_str(), styles.agent));
    lines.push(Line::new(second));
    let mut third: Vec<Span> = Vec::new();
    third.push(Span::styled("\u{65e5}\u{672c}\u{8a9e} ", styles.text));
    third.push(Span::styled("\u{25cf} ", styles.success));
    third.push(Span::styled("Ready", styles.success));
    lines.push(Line::new(third));
    let dragon = match d.dragon.current() {
        Some(frame_text) => frame_text.as_str(),
        None => "",
    };
    let mut fourth: Vec<Span> = Vec::new();
    fourth.push(Span::styled("Dragon ", styles.status));
    fourth.push(Span::styled(dragon, styles.runtime));
    lines.push(Line::new(fourth));
    proof {
        reveal_strlit("");
        reveal_strlit(" ");
        let expected = runtime_lines(*d, *styles);
        assert(line_views(lines@)[0] =~= expected[0]);
        assert(ticks@ == crate::diff_view::decimal(d.ticks as nat));
        assert(spinner@ == seq![' '] + d.spinner.spec_frames()[d.spinner.spec_index()]);
        assert(second@[1].spec_view() == expected[1][1]);
        assert(second@[2].spec_view() == expected[1][2]);
        assert(line_views(lines@)[1] =~= expected[1]);
        assert(line_views(lines@)[2] =~= expected[2]);
        assert(fourth@[1].spec_view() == expected[3][1]);
        assert(line_views(lines@)[3] =~= expected[3]);
        assert(line_views(lines@) =~= expected);
    }
    lines
}

/// Draws the agents pane's widget into `rect`: the agent tree when `d` shows the tree, else the
/// agents table; returns the widget drawn.
fn render_agents(frame: &mut Frame, rect: Rect, d: &mut Dashboard, style: Style) -> (r: (
    Ghost<Tree>,
    Ghost<Table>,
))
    requires
        old(frame).wf(),
    ensures
        agents_drawn(*old(d), *final(d), r.0@, r.1@, style, rect, *old(frame), *final(frame)),
        *final(d) == (Dashboard { tree: final(d).tree, agents: final(d).agents, ..*old(d) }),
{
    let ghost mut gtree = vstd::pervasive::arbitrary::<Tree>();
    let ghost mut gtable = vstd::pervasive::arbitrary::<Table>();
    if d.show_tree {
        let tree = agent_tree().selected_style(style);
        proof {
            gtree = tree;
        }
        tree.render(frame, rect, &mut d.tree);
        assert(agents_drawn(*old(d), *d, tree, gtable, style, rect, *old(frame), *frame));
    } else {
        let table = agents_table(style);
        proof {
            gtable = table;
        }
        table.render(frame, rect, &mut d.agents);
        assert(agents_drawn(*old(d), *d, gtree, table, style, rect, *old(frame), *frame));
    }
    (Ghost(gtree), Ghost(gtable))
}

/// `frame` and `cursor` are the dashboard screen of `before` at `size`, and `after` is
/// `before` with the hit regions of that screen and the states its widgets moved to. `stages`
/// are the frame after each drawing step, in order: the background, the outer, agents, output,
/// runtime and prompt panels, the agents widget (`tree` or `table`), the output lines, the last
/// prompt (when there is one), the status, the runtime lines, the canvas demo, the prompt
/// marker, the prompt's editor and the footer.
#[verifier::opaque]
pub open spec fn dashboard_drawn(
    size: Size,
    before: Dashboard,
    after: Dashboard,
    stages: Seq<Frame>,
    tree: Tree,
    table: Table,
    frame: Frame,
    cursor: Option<Position>,
) -> bool {
    let styles = styles_for(before.theme);
    let rows = screen_rows(size, prompt_height(before));
    let cols = body_columns(rows[0]);
    let screen = Rect { x: 0, y: 0, width: size.width, height: size.height };
    let agents_style = if focused(before.focus, 1) {
        styles.focus
    } else {
        styles.agent
    };
    let output_style = if focused(before.focus, 2) {
        styles.focus
    } else {
        styles.runtime
    };
    let prompt_style = if focused(before.focus, 3) {
        styles.focus
    } else {
        styles.border
    };
    let runtime_inner = cols[2].spec_inner();
    let prompt_inner = rows[1].spec_inner();
    let marker = Rect {
        x: prompt_inner.x,
        y: prompt_inner.y,
        width: if prompt_inner.width < 2 {
            prompt_inner.width
        } else {
            2
        },
        height: prompt_inner.height,
    };
    let input_rect = Rect {
        x: crate::geometry::sat_add16(prompt_inner.x as int, 2),
        y: prompt_inner.y,
        width: crate::geometry::sat_sub16(prompt_inner.width as int, 2),
        height: prompt_inner.height,
    };
    let status_rect = rows_from(runtime_inner, 1);
    &&& stages.len() == 15
    &&& stages[14] == frame
    &&& stages[0].wf()
    &&& stages[0].spec_width() == size.width
    &&& stages[0].spec_height() == size.height
    &&& forall|i: int|
        0 <= i < stages[0].spec_buffer().cells().len() ==> #[trigger] stages[0].spec_buffer().cells()[i]
            == Cell::spec_new(' ', styles.background)
    &&& panel_drawn(
        Some("DragonsTUI"@),
        BorderSet::spec_rounded(),
        styles.border,
        styles.border,
        screen,
        stages[0],
        stages[1],
    )
    &&& panel_drawn(
        Some("Agents"@),
        BorderSet::spec_rounded(),
        agents_style,
        agents_style,
        cols[0],
        stages[1],
        stages[2],
    )
    &&& panel_drawn(
        Some("Output"@),
        BorderSet {
            top_left: '\u{250c}',
            top_right: '\u{2510}',
            bottom_left: '\u{2514}',
            bottom_right: '\u{2518}',
            horizontal: '\u{2500}',
            vertical: '\u{2502}',
        },
        output_style,
        output_style,
        cols[1],
        stages[2],
        stages[3],
    )
    &&& panel_drawn(
        Some("Runtime"@),
        BorderSet {
            top_left: '\u{2554}',
            top_right: '\u{2557}',
            bottom_left: '\u{255a}',
            bottom_right: '\u{255d}',
            horizontal: '\u{2550}',
            vertical: '\u{2551}',
        },
        styles.runtime,
        styles.runtime,
        cols[2],
        stages[3],
        stages[4],
    )
    &&& panel_drawn(
        Some("Prompt"@),
        BorderSet::spec_rounded(),
        prompt_style,
        prompt_style,
        rows[1],
        stages[4],
        stages[5],
    )
    &&& agents_drawn(
        before,
        after,
        tree,
        table,
        styles.selected_agent,
        cols[0].spec_inner(),
        stages[5],
        stages[6],
    )
    &&& output_drawn(before, after, styles.text, cols[1].spec_inner(), stages[6], stages[7])
    &&& match before.last_prompt {
        Some(p) => text_drawn(
            stages[7],
            stages[8],
            rows_from(runtime_inner, 9),
            "Last prompt: "@ + p@,
            styles.hint,
        ),
        None => stages[8] == stages[7],
    }
    &&& text_drawn(stages[8], stages[9], runtime_inner, "Status: "@ + before.status@, styles.status)
    &&& restaged(stages[9], stages[10])
    &&& stages[10].spec_buffer().cells() == rich_rows(
        stages[9].spec_buffer().cells(),
        stages[9].spec_width() as int,
        stages[9].spec_height() as int,
        status_rect,
        runtime_lines(before, styles).take(
            if 4 <= status_rect.height {
                4
            } else {
                status_rect.height as int
            },
        ),
        Alignment::Left,
    )
    &&& canvas_demo_drawn(stages[10], stages[11], runtime_inner, styles.success)
    &&& text_drawn(stages[11], stages[12], marker, "> "@, styles.text)
    &&& prompt_drawn(before, after, input_rect, styles.text, stages[12], stages[13], cursor)
    &&& text_drawn(stages[13], stages[14], rows[2], footer_hint(), styles.hint)
    &&& after == (Dashboard {
        hit_regions: rendered_regions(before, size),
        tree: after.tree,
        agents: after.agents,
        output_viewport: after.output_viewport,
        input: after.input,
        ..before
    })
}

/// Draws the dashboard under its overlays at `size`: the outer panel, the agents, output,
/// runtime and prompt panes, and the footer. The regions for mouse routing are recorded, the
/// panes' scroll state follows the render, and the rest of the dashboard is unchanged. Returns
/// the frame, the prompt's cursor, and the runtime pane's inner area (where the application
/// draws its progress widgets).
#[verifier::spinoff_prover]
#[verifier::rlimit(100)]
pub fn render_dashboard(size: Size, d: &mut Dashboard) -> (r: (Frame, Option<Position>, Rect))
    requires
        old(d).wf(),
    ensures
        final(d).wf(),
        r.0.wf(),
        r.0.spec_width() == size.width,
        r.0.spec_height() == size.height,
        final(d).hit_regions == rendered_regions(*old(d), size),
        r.2 == body_columns(screen_rows(size, prompt_height(*old(d)))[0])[2].spec_inner(),
        *final(d) == (Dashboard {
            hit_regions: final(d).hit_regions,
            tree: final(d).tree,
            agents: final(d).agents,
            output_viewport: final(d).output_viewport,
            input: final(d).input,
            ..*old(d)
        }),
        exists|stages: Seq<Frame>, tree: Tree, table: Table|
            #[trigger] dashboard_drawn(size, *old(d), *final(d), stages, tree, table, r.0, r.1),
{
    let styles = dashboard_styles(d.theme);
    let mut frame = Frame::new(size.width, size.height);
    fill_background(&mut frame, styles.background);
    let ghost s0 = frame;
    let screen = Rect::new(0, 0, size.width, size.height);
    let inner = Panel::new("DragonsTUI").border_style(styles.border).title_style(styles.border).render(
        &mut frame,
        screen,
    );
    let ghost s1 = frame;
    let current = d.focus.current();
    let agents_id = crate::dashboard::agents_focus();
    let output_id = crate::dashboard::output_focus();
    let input_id = input_focus();
    proof {
        if let Some(c) = current {
            crate::focus::lemma_focus_id_by_value(c, agents_id);
            crate::focus::lemma_focus_id_by_value(c, output_id);
            crate::focus::lemma_focus_id_by_value(c, input_id);
        }
    }
    let input_focused = current == Some(input_id);
    let prompt_height: u16 = if input_focused {
        5
    } else {
        3
    };
    let mut root_constraints: Vec<Constraint> = Vec::new();
    root_constraints.push(Constraint::Fill(1));
    root_constraints.push(Constraint::Length(prompt_height));
    root_constraints.push(Constraint::Length(1));
    assert(root_constraints@ =~= seq![
        Constraint::Fill(1),
        Constraint::Length(prompt_height),
        Constraint::Length(1),
    ]);
    let root = Layout::vertical(root_constraints).gap(1).split(inner);
    let mut body_constraints: Vec<Constraint> = Vec::new();
    body_constraints.push(Constraint::Length(20));
    body_constraints.push(Constraint::Fill(1));
    body_constraints.push(Constraint::Percentage(25));
    assert(body_constraints@ =~= seq![
        Constraint::Length(20),
        Constraint::Fill(1),
        Constraint::Percentage(25),
    ]);
    let body = Layout::horizontal(body_constraints).gap(1).split(root[0]);
    let agents = body[0];
    let activity = body[1];
    let runtime = body[2];
    let prompt = root[1];
    let footer = root[2];

    let agents_style = pane_style(current == Some(agents_id), styles.focus, styles.agent);
    let agents_inner = Panel::new("Agents").border_style(agents_style).title_style(agents_style).render(
        &mut frame,
        agents,
    );
    let ghost s2 = frame;
    let output_style = pane_style(current == Some(output_id), styles.focus, styles.runtime);
    let activity_inner = Panel::new("Output").border_set(BorderSet::square()).border_style(
        output_style,
    ).title_style(output_style).render(&mut frame, activity);
    let ghost s3 = frame;
    let runtime_inner = Panel::new("Runtime").border_set(BorderSet::double()).border_style(
        styles.runtime,
    ).title_style(styles.runtime).render(&mut frame, runtime);
    let ghost s4 = frame;
    let prompt_style = pane_style(input_focused, styles.focus, styles.border);
    let prompt_inner = Panel::new("Prompt").border_style(prompt_style).title_style(prompt_style).render(
        &mut frame,
        prompt,
    );
    let ghost s5 = frame;

    d.hit_regions = HitRegions { agents, agent_rows: agents_inner, output: activity, input: prompt };

    let (Ghost(gtree), Ghost(gtable)) = render_agents(&mut frame, agents_inner, d, styles.selected_agent);
    let ghost s6 = frame;
    let viewport = Viewport::new(d.output.as_slice()).style(styles.text);
    proof {
        assert(viewport.spec_lines() =~= old(d).output_view());
    }
    viewport.render(&mut frame, activity_inner, &mut d.output_viewport);
    let ghost s7 = frame;
    match &d.last_prompt {
        Some(last_prompt) => {
            let text = concat_strs("Last prompt: ", last_prompt.as_str());
            Text::new(text.as_str()).style(styles.hint).render(&mut frame, row(runtime_inner, 9));
        },
        None => {},
    }
    let ghost s8 = frame;
    let status = concat_strs("Status: ", d.status.as_str());
    Text::new(status.as_str()).style(styles.status).render(&mut frame, runtime_inner);
    let ghost s9 = frame;
    let lines = runtime_status_lines(d, &styles);
    proof {
        assert(d.agent_running == old(d).agent_running && d.ticks == old(d).ticks);
        assert(d.dragon == old(d).dragon && d.spinner == old(d).spinner);
        assert(runtime_lines(*d, styles) == runtime_lines(*old(d), styles));
    }
    RichText::new(lines).render(&mut frame, row(runtime_inner, 1));
    let ghost s10 = frame;
    render_canvas_demo(&mut frame, runtime_inner, styles.success);
    let ghost s11 = frame;

    let marker_width = if prompt_inner.width < 2 {
        prompt_inner.width
    } else {
        2
    };
    Text::new("> ").style(styles.text).render(
        &mut frame,
        Rect::new(prompt_inner.x, prompt_inner.y, marker_width, prompt_inner.height),
    );
    let ghost s12 = frame;
    let input_rect = Rect::new(
        prompt_inner.x.saturating_add(2),
        prompt_inner.y,
        prompt_inner.width.saturating_sub(2),
        prompt_inner.height,
    );
    let cursor = d.input.render(&mut frame, input_rect, styles.text);
    let ghost s13 = frame;
    Text::new("Ctrl+P palette \u{2022} Tab focus \u{2022} \u{2191}\u{2193} scroll/select \u{2022} q/Ctrl+C quit").style(
        styles.hint,
    ).render(&mut frame, footer);
    proof {
        let stages = seq![s0, s1, s2, s3, s4, s5, s6, s7, s8, s9, s10, s11, s12, s13, frame];
        let before = *old(d);
        let after = *d;
        let st = styles_for(before.theme);
        let rows = screen_rows(size, crate::dashboard_view::prompt_height(before));
        let cols = body_columns(rows[0]);
        assert(rows == root@);
        assert(cols == body@);
        assert(panel_drawn(Some("DragonsTUI"@), BorderSet::spec_rounded(), st.border, st.border, screen, s0, s1));
        assert(agents_drawn(before, after, gtree, gtable, st.selected_agent, cols[0].spec_inner(), s5, s6));
        assert(output_drawn(before, after, st.text, cols[1].spec_inner(), s6, s7));
        assert(text_drawn(s8, s9, cols[2].spec_inner(), "Status: "@ + before.status@, st.status));
        assert(canvas_demo_drawn(s10, s11, cols[2].spec_inner(), st.success));
        assert(text_drawn(s13, frame, rows[2], footer_hint(), st.hint));
        assert(after == (Dashboard {
            hit_regions: rendered_regions(before, size),
            tree: after.tree,
            agents: after.agents,
            output_viewport: after.output_viewport,
            input: after.input,
            ..before
        }));
        assert(stages.len() == 15 && stages[14] == frame && stages[0] == s0 && stages[13] == s13);
        let runtime_inner = cols[2].spec_inner();
        let prompt_inner = rows[1].spec_inner();
        let status_rect = rows_from(runtime_inner, 1);
        assert(restaged(s9, s10));
        assert(s10.spec_buffer().cells() == rich_rows(
            s9.spec_buffer().cells(),
            s9.spec_width() as int,
            s9.spec_height() as int,
            status_rect,
            runtime_lines(before, st).take(
                if 4 <= status_rect.height {
                    4
                } else {
                    status_rect.height as int
                },
            ),
            Alignment::Left,
        ));
        assert(match before.last_prompt {
            Some(p) => text_drawn(s7, s8, rows_from(runtime_inner, 9), "Last prompt: "@ + p@, st.hint),
            None => s8 == s7,
        });
        assert(text_drawn(
            s11,
            s12,
            Rect {
                x: prompt_inner.x,
                y: prompt_inner.y,
                width: if prompt_inner.width < 2 {
                    prompt_inner.width
                } else {
                    2
                },
                height: prompt_inner.height,
            },
            "> "@,
            st.text,
        ));
        assert(prompt_drawn(
            before,
            after,
            Rect {
                x: crate::geometry::sat_add16(prompt_inner.x as int, 2),
                y: prompt_inner.y,
                width: crate::geometry::sat_sub16(prompt_inner.width as int, 2),
                height: prompt_inner.height,
            },
            st.text,
            s12,
            s13,
            cursor,
        ));
        assert(dashboard_drawn(size, *old(d), *d, stages, gtree, gtable, frame, cursor)) by {
            reveal(dashboard_drawn);
        }
        let result = (frame, cursor, runtime_inner);
        assert(result.0 == frame && result.1 == cursor);
        assert(exists|stages: Seq<Frame>, tree: Tree, table: Table|
            #[trigger] dashboard_drawn(size, *old(d), *d, stages, tree, table, result.0, result.1));
    }
    (frame, cursor, runtime_inner)
}

/// Whether the prompt's cursor is shown: the prompt has the focus and no modal or palette
/// covers it.
pub open spec fn cursor_shown(d: Dashboard) -> bool {
    !d.modal_active && d.palette is None && focused(d.focus, 3)
}

/// The lines of the permission modal.
pub open spec fn permission_lines() -> Seq<Seq<SpanView>> {
    seq![
        seq![("Execute command?"@, Style::plain())],
        seq![(""@, Style::plain())],
        seq![("$ cargo test"@, Style::plain())],
        seq![(""@, Style::plain())],
        seq![("Enter / Escape closes"@, Style::plain())],
    ]
}

/// Draws the open modal or command palette over `frame` in `styles` and decides the cursor: the
/// prompt's cursor only while the prompt has the focus and nothing covers it.
pub fn render_overlays(
    frame: Frame,
    size: Size,
    d: &Dashboard,
    styles: &DashboardStyles,
    input_cursor: Option<Position>,
) -> (r: DemoView)
    requires
        frame.wf(),
    ensures
        r.frame.wf(),
        r.frame.same_size(&frame),
        r.cursor == if cursor_shown(*d) {
            input_cursor
        } else {
            None
        },
        ({
            let screen = Rect { x: 0, y: 0, width: size.width, height: size.height };
            if d.modal_active {
                modal_drawn(
                    "Permission"@,
                    permission_lines(),
                    styles.focus,
                    Style::plain(),
                    styles.text,
                    spec_centered_rect(screen, 34, 9),
                    frame,
                    r.frame,
                )
            } else if d.palette is Some {
                palette_drawn(
                    d.palette->0,
                    screen,
                    styles.focus,
                    styles.text,
                    styles.selected_agent,
                    frame,
                    r.frame,
                )
            } else {
                r.frame == frame
            }
        }),
{
    let mut frame = frame;
    let screen = Rect::new(0, 0, size.width, size.height);
    if d.modal_active {
        let mut lines: Vec<Line> = Vec::new();
        lines.push(Line::raw("Execute command?"));
        lines.push(Line::raw(""));
        lines.push(Line::raw("$ cargo test"));
        lines.push(Line::raw(""));
        lines.push(Line::raw("Enter / Escape closes"));
        assert(line_views(lines@) =~~= permission_lines());
        Modal::new("Permission", lines).size(34, 9).border_style(styles.focus).content_style(
            styles.text,
        ).render(&mut frame, screen);
    } else {
        match &d.palette {
            Some(palette) => {
                palette.render(&mut frame, screen, styles.focus, styles.text, styles.selected_agent);
            },
            None => {},
        }
    }
    let current = d.focus.current();
    let input_id = input_focus();
    proof {
        if let Some(c) = current {
            crate::focus::lemma_focus_id_by_value(c, input_id);
        }
    }
    let cursor = if !d.modal_active && d.palette.is_none() && current == Some(input_id) {
        input_cursor
    } else {
        None
    };
    DemoView { frame, cursor }
}

/// The number of rows of the splash artwork, at most `u16::MAX`.
pub open spec fn artwork_rows() -> int {
    min_int(crate::chars::text_lines(SPLASH_ARTWORK@).len() as int, 0xffff)
}

/// The rows of the splash artwork, at most `u16::MAX`.
fn artwork_height() -> (r: u16)
    ensures
        r == artwork_rows(),
{
    let lines = split_lines(SPLASH_ARTWORK);
    if lines.len() < 0xffff {
        lines.len() as u16
    } else {
        0xffff
    }
}

/// Where the artwork goes on a screen of `size`: the full width, from the row that centers the
/// artwork and the status line under it, down to the bottom.
pub fn splash_artwork_rect(size: Size) -> (r: Rect)
    ensures
        r.x == 0,
        r.width == size.width,
        r.y == crate::geometry::sat_sub16(
            size.height as int,
            crate::geometry::sat_add16(artwork_rows(), 2) as int,
        ) / 2,
        r.height == size.height - r.y,
{
    let total = artwork_height().saturating_add(2);
    let y = size.height.saturating_sub(total) / 2;
    Rect::new(0, y, size.width, size.height.saturating_sub(y))
}

/// The splash screen at `size`: the artwork centered on the theme's background, and an
/// "Initializing..." line with the spinner's frame under it. There is no cursor.
pub fn splash_view(size: Size, splash: &Splash, theme: Theme) -> (r: DemoView)
    ensures
        r.frame.wf(),
        r.frame.spec_width() == size.width,
        r.frame.spec_height() == size.height,
        r.cursor is None,
{
    let background = Style::new().bg(theme.background);
    let artwork_style = background.patch(Style::new().fg(theme.secondary).bold());
    let status_style = background.patch(Style::new().fg(theme.muted));
    let spinner_style = background.patch(Style::new().fg(theme.success).bold());
    let mut frame = Frame::new(size.width, size.height);
    fill_background(&mut frame, background);
    let artwork = splash_artwork_rect(size);
    Text::new(SPLASH_ARTWORK).style(artwork_style).alignment(Alignment::Center).render(
        &mut frame,
        artwork,
    );
    let status_y = artwork.y.saturating_add(artwork_height()).saturating_add(1);
    let spinner = match splash.spinner.current() {
        Some(frame_text) => frame_text.as_str(),
        None => "",
    };
    let mut spans: Vec<Span> = Vec::new();
    spans.push(Span::styled("Initializing... ", status_style));
    spans.push(Span::styled(spinner, spinner_style));
    let mut lines: Vec<Line> = Vec::new();
    lines.push(Line::new(spans));
    RichText::new(lines).alignment(Alignment::Center).render(
        &mut frame,
        Rect::new(0, status_y, size.width, size.height.saturating_sub(status_y)),
    );
    DemoView { frame, cursor: None }
}

} // verus!
