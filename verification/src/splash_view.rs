use vstd::prelude::*;

use crate::border::BorderSet;
use crate::buffer::set_grid;
use crate::cell::{Cell, CellKind};
use crate::chars::{push_char, str_chars};
use crate::frame::{Frame, write_in};
use crate::geometry::{Rect, Size, sat_add16};
use crate::showcase::{block_origin, char_columns, columns_of, splash_block_origin};
use crate::splash::{
    spec_splash_layout, splash_dragon, splash_dragon_lines, splash_hint, splash_hint_line, splash_layout,
    splash_loading, splash_loading_lines, splash_manifesto, splash_manifesto_lines, splash_title,
    splash_title_lines,
};
use crate::showcase_view::{on, style_on};
use crate::style::{Color, Style};
use crate::theme::Theme;

verus! {

/// The gradient colour of column `x` on row `y` at animation `phase`: the Dragonfire colours in
/// turn, three columns and two rows to a band, shifting one band per phase.
pub open spec fn spec_splash_color(t: Theme, x: int, y: int, phase: int) -> Color {
    let i = (x / 3 + y / 2 + phase) % 6;
    if i == 0 {
        t.primary
    } else if i == 1 {
        t.error
    } else if i == 2 {
        t.secondary
    } else if i == 3 {
        t.warning
    } else if i == 4 {
        t.success
    } else {
        Color::Rgb { r: 255, g: 225, b: 100 }
    }
}

/// The gradient colour of column `x` on row `y` at animation `phase`.
pub fn splash_color(theme: Theme, x: u16, y: u16, phase: u8) -> (r: Color)
    ensures
        r == spec_splash_color(theme, x as int, y as int, phase as int),
{
    let i = ((x / 3) as usize + (y / 2) as usize + phase as usize) % 6;
    if i == 0 {
        theme.primary
    } else if i == 1 {
        theme.error
    } else if i == 2 {
        theme.secondary
    } else if i == 3 {
        theme.warning
    } else if i == 4 {
        theme.success
    } else {
        Color::rgb(255, 225, 100)
    }
}

/// `cells` with `cell` put at (`x`, `y`) when that is inside the `w` x `h` grid.
pub open spec fn put(cells: Seq<Cell>, w: int, h: int, x: int, y: int, cell: Cell) -> Seq<Cell> {
    if 0 <= x < w && 0 <= y < h {
        set_grid(cells, w, x, y, Cell { kind: CellKind::Normal, ..cell })
    } else {
        cells
    }
}

/// The cells, next column and whether drawing stopped after the first `k` characters of `line`
/// are drawn as a gradient on row `y` from column `x0` of a `width`-column screen: zero-width
/// characters are skipped, drawing stops at the first character that does not fit, and spaces
/// advance without ink.
pub open spec fn gradient_run(
    cells: Seq<Cell>,
    w: int,
    h: int,
    width: int,
    y: int,
    x0: int,
    line: Seq<char>,
    k: int,
    phase: int,
    t: Theme,
    bold: bool,
) -> (Seq<Cell>, int, bool)
    decreases k,
{
    if k <= 0 {
        (cells, x0, false)
    } else {
        let (before, x, stopped) = gradient_run(cells, w, h, width, y, x0, line, k - 1, phase, t, bold);
        let c = line[k - 1];
        let cw = char_columns(c);
        if stopped || cw == 0 {
            (before, x, stopped)
        } else if x >= width || cw > width - x {
            (before, x, true)
        } else {
            let after = if c != ' ' {
                write_in(
                    before,
                    w,
                    h,
                    Rect { x: 0, y: y as u16, width: width as u16, height: 1 },
                    x,
                    0,
                    seq![c],
                    on(spec_splash_color(t, x, y, phase), t.background, bold),
                ).0
            } else {
                before
            };
            (after, x + cw, false)
        }
    }
}

/// `after` is `before` with `line` drawn as a gradient from column `x` of row `y` on a `size`
/// screen.
pub open spec fn gradient_drawn(
    before: Frame,
    after: Frame,
    size: Size,
    x: u16,
    y: u16,
    line: Seq<char>,
    phase: int,
    t: Theme,
    bold: bool,
) -> bool {
    &&& after.wf()
    &&& after.same_size(&before)
    &&& after.spec_buffer().cells() == if size.width == 0 || y >= size.height {
        before.spec_buffer().cells()
    } else {
        gradient_run(
            before.spec_buffer().cells(),
            before.spec_width() as int,
            before.spec_height() as int,
            size.width as int,
            y as int,
            x as int,
            line,
            line.len() as int,
            phase,
            t,
            bold,
        ).0
    }
}

/// Draws `line` as a gradient from column `x` of row `y` on a `size` screen.
pub fn render_gradient_line(
    frame: &mut Frame,
    size: Size,
    x: u16,
    y: u16,
    line: &str,
    phase: u8,
    theme: Theme,
    bold: bool,
)
    requires
        old(frame).wf(),
    ensures
        gradient_drawn(*old(frame), *final(frame), size, x, y, line@, phase as int, theme, bold),
{
    if size.width == 0 || y >= size.height {
        return;
    }
    let ghost start = *frame;
    let ghost w = frame.spec_width() as int;
    let ghost h = frame.spec_height() as int;
    let chars = str_chars(line);
    let mut column: u16 = x;
    let mut stopped = false;
    let mut k: usize = 0;
    while k < chars.len()
        invariant
            k <= chars@.len(),
            chars@ == line@,
            frame.wf(),
            frame.same_size(&start),
            w == frame.spec_width(),
            h == frame.spec_height(),
            (frame.spec_buffer().cells(), column as int, stopped) == gradient_run(
                start.spec_buffer().cells(),
                w,
                h,
                size.width as int,
                y as int,
                x as int,
                line@,
                k as int,
                phase as int,
                theme,
                bold,
            ),
        decreases chars@.len() - k,
    {
        let c = chars[k];
        let cw = columns_of(c);
        if !stopped && cw > 0 {
            if column >= size.width || cw > size.width - column {
                stopped = true;
            } else {
                if c != ' ' {
                    let mut one = String::new();
                    push_char(&mut one, c);
                    let style = style_on(splash_color(theme, column, y, phase), theme.background, bold);
                    let _ = frame.write_text_in(Rect::new(0, y, size.width, 1), column, 0, one.as_str(), style);
                }
                column = column + cw;
            }
        }
        k = k + 1;
    }
}

/// `cells` with the separator's dashes put at offsets 1 to `n - 1` of row `y` from column `x`.
pub open spec fn dashes(cells: Seq<Cell>, w: int, h: int, x: u16, y: int, style: Style, n: int) -> Seq<Cell>
    decreases n,
{
    if n <= 1 {
        cells
    } else {
        put(
            dashes(cells, w, h, x, y, style, n - 1),
            w,
            h,
            sat_add16(x as int, n - 1) as int,
            y,
            Cell { character: '\u{2500}', style, kind: CellKind::Normal },
        )
    }
}

/// `after` is `before` with a separator drawn across frame `fr` on row `y` when the row is
/// inside it: a left tee, dashes and, on a frame wider than one column, a right tee.
pub open spec fn separator_drawn(before: Frame, after: Frame, fr: Rect, y: u16, style: Style) -> bool {
    let w = before.spec_width() as int;
    let h = before.spec_height() as int;
    &&& after.wf()
    &&& after.same_size(&before)
    &&& after.spec_buffer().cells() == if fr.width == 0 || y < fr.y || y >= fr.spec_bottom() {
        before.spec_buffer().cells()
    } else {
        let left = put(
            before.spec_buffer().cells(),
            w,
            h,
            fr.x as int,
            y as int,
            Cell { character: '\u{251c}', style, kind: CellKind::Normal },
        );
        let middle = dashes(left, w, h, fr.x, y as int, style, fr.width - 1);
        if fr.width > 1 {
            put(
                middle,
                w,
                h,
                (fr.spec_right() - 1) as int,
                y as int,
                Cell { character: '\u{2524}', style, kind: CellKind::Normal },
            )
        } else {
            middle
        }
    }
}

/// Puts `cell` at (`x`, `y`) of `frame` when that is inside it.
fn put_cell(frame: &mut Frame, x: u16, y: u16, cell: Cell)
    requires
        old(frame).wf(),
        cell.kind == CellKind::Normal,
    ensures
        final(frame).wf(),
        final(frame).same_size(old(frame)),
        final(frame).spec_buffer().cells() == put(
            old(frame).spec_buffer().cells(),
            old(frame).spec_width() as int,
            old(frame).spec_height() as int,
            x as int,
            y as int,
            cell,
        ),
{
    let _ = frame.set_cell(x, y, cell);
}

/// Draws a separator across frame `fr` on row `y`.
fn render_separator(frame: &mut Frame, fr: Rect, y: u16, style: Style)
    requires
        old(frame).wf(),
    ensures
        separator_drawn(*old(frame), *final(frame), fr, y, style),
{
    if fr.width == 0 || y < fr.y || y >= fr.bottom() {
        return;
    }
    let ghost start = *frame;
    let ghost w = frame.spec_width() as int;
    let ghost h = frame.spec_height() as int;
    put_cell(frame, fr.x, y, Cell::new('\u{251c}', style));
    let ghost left = frame.spec_buffer().cells();
    let mut offset: u16 = 1;
    while offset < fr.width - 1
        invariant
            1 <= offset,
            offset <= fr.width - 1 || (offset == 1 && fr.width <= 1),
            fr.width > 0,
            frame.wf(),
            frame.same_size(&start),
            w == frame.spec_width(),
            h == frame.spec_height(),
            frame.spec_buffer().cells() == dashes(left, w, h, fr.x, y as int, style, offset as int),
        decreases fr.width - offset,
    {
        put_cell(frame, fr.x.saturating_add(offset), y, Cell::new('\u{2500}', style));
        offset = offset + 1;
    }
    proof {
        if fr.width > 1 {
            assert(offset == fr.width - 1);
        } else {
            assert(dashes(left, w, h, fr.x, y as int, style, fr.width - 1) == left);
        }
    }
    if fr.width > 1 {
        put_cell(frame, fr.right() - 1, y, Cell::new('\u{2524}', style));
    }
}

/// `after` is `before` with `line` written from column `x` of row `y` in `style` on a `size`
/// screen, when that point is on it.
pub open spec fn splash_text_drawn(before: Frame, after: Frame, size: Size, x: u16, y: u16, line: Seq<char>, style: Style) -> bool {
    &&& after.wf()
    &&& after.same_size(&before)
    &&& after.spec_buffer().cells() == if size.width == 0 || y >= size.height || x >= size.width {
        before.spec_buffer().cells()
    } else {
        write_in(
            before.spec_buffer().cells(),
            before.spec_width() as int,
            before.spec_height() as int,
            Rect { x: 0, y, width: size.width, height: 1 },
            x as int,
            0,
            line,
            style,
        ).0
    }
}

/// Writes `line` from column `x` of row `y` in `style` on a `size` screen.
fn render_splash_text(frame: &mut Frame, size: Size, y: u16, x: u16, line: &str, style: Style)
    requires
        old(frame).wf(),
    ensures
        splash_text_drawn(*old(frame), *final(frame), size, x, y, line@, style),
{
    if size.width == 0 || y >= size.height || x >= size.width {
        return;
    }
    let _ = frame.write_text_in(Rect::new(0, y, size.width, 1), x, 0, line, style);
}

/// `cells` with the first `n` cells of the loading bar put from column `x` of row `y`: filled
/// blocks for the first `filled` cells and shaded ones after, in the gradient colours.
pub open spec fn bar_run(cells: Seq<Cell>, w: int, h: int, x: u16, y: u16, filled: int, phase: int, t: Theme, n: int) -> Seq<Cell>
    decreases n,
{
    if n <= 0 {
        cells
    } else {
        let cx = sat_add16(x as int, n - 1);
        put(
            bar_run(cells, w, h, x, y, filled, phase, t, n - 1),
            w,
            h,
            cx as int,
            y as int,
            Cell {
                character: if n - 1 < filled {
                    '\u{2588}'
                } else {
                    '\u{2592}'
                },
                style: on(spec_splash_color(t, cx as int, y as int, phase), t.background, true),
                kind: CellKind::Normal,
            },
        )
    }
}

/// The cells of the loading bar that fit on a `width`-column screen from column `x`.
pub open spec fn bar_cells(x: u16, width: u16) -> int {
    if x as int + 10 <= width {
        10
    } else {
        width - x
    }
}

/// `after` is `before` with the ten-cell loading bar drawn from column `x` of row `y` on a
/// `size` screen, as many cells as fit, the first `loading_fill(phase)` filled.
pub open spec fn bar_drawn(before: Frame, after: Frame, size: Size, x: u16, y: u16, phase: int, t: Theme) -> bool {
    &&& after.wf()
    &&& after.same_size(&before)
    &&& after.spec_buffer().cells() == if size.width == 0 || y >= size.height || x >= size.width {
        before.spec_buffer().cells()
    } else {
        bar_run(
            before.spec_buffer().cells(),
            before.spec_width() as int,
            before.spec_height() as int,
            x,
            y,
            1 + (if phase <= 23 {
                phase
            } else {
                23
            }) * 9 / 23,
            phase,
            t,
            bar_cells(x, size.width),
        )
    }
}

/// Draws the loading bar from column `x` of row `y` on a `size` screen.
fn render_loading_bar(frame: &mut Frame, size: Size, y: u16, x: u16, phase: u8, theme: Theme)
    requires
        old(frame).wf(),
    ensures
        bar_drawn(*old(frame), *final(frame), size, x, y, phase as int, theme),
{
    if size.width == 0 || y >= size.height || x >= size.width {
        return;
    }
    let ghost start = *frame;
    let ghost w = frame.spec_width() as int;
    let ghost h = frame.spec_height() as int;
    let filled = crate::showcase::loading_fill(phase as usize);
    let count: u16 = if size.width >= 10 && x <= size.width - 10 {
        10
    } else {
        size.width - x
    };
    assert(count == bar_cells(x, size.width));
    let mut offset: u16 = 0;
    while offset < count
        invariant
            offset <= count,
            count <= 10,
            x as int + count <= size.width,
            frame.wf(),
            frame.same_size(&start),
            w == frame.spec_width(),
            h == frame.spec_height(),
            filled == 1 + (if phase <= 23 {
                phase as int
            } else {
                23
            }) * 9 / 23,
            frame.spec_buffer().cells() == bar_run(
                start.spec_buffer().cells(),
                w,
                h,
                x,
                y,
                filled as int,
                phase as int,
                theme,
                offset as int,
            ),
        decreases count - offset,
    {
        let cx = x + offset;
        let character = if offset < filled {
            '\u{2588}'
        } else {
            '\u{2592}'
        };
        let style = style_on(splash_color(theme, cx, y, phase), theme.background, true);
        put_cell(frame, cx, y, Cell::new(character, style));
        offset = offset + 1;
    }
}

/// The lines of the splash's loading group, for its text at `phase`: the loading phases
/// switch every two animation phases.
pub open spec fn loading_line(phase: int) -> Seq<char> {
    splash_loading_lines()[(phase / 2) % 3]
}

/// `after` is `before` with the splash drawn on a `size` screen in theme `t` at animation
/// `phase` through the stages `st`: the rounded frame; the title lines and the dragon as
/// gradients from their blocks' origins, one line per row; a separator; the manifesto lines,
/// each centred on its own, the first brighter; another separator; the loading text, the
/// loading bar and the hint.
pub open spec fn splash_drawn(size: Size, t: Theme, phase: int, st: Seq<Frame>, before: Frame, after: Frame) -> bool {
    let l = spec_splash_layout(size);
    let border = on(t.secondary, t.background, false);
    let title = splash_title_lines();
    let dragon = splash_dragon_lines();
    let manifesto = splash_manifesto_lines();
    &&& st.len() == 32
    &&& st[0].bordered_from(&before, l.frame, BorderSet::spec_rounded(), border)
    &&& forall|k: int|
        0 <= k < 8 ==> gradient_drawn(
            #[trigger] st[k],
            st[k + 1],
            size,
            l.title_origin,
            sat_add16(l.title_y as int, k),
            title[k],
            phase,
            t,
            true,
        )
    &&& forall|k: int|
        0 <= k < 16 ==> gradient_drawn(
            #[trigger] st[k + 8],
            st[k + 9],
            size,
            l.dragon_origin,
            sat_add16(l.dragon_y as int, k),
            dragon[k],
            phase,
            t,
            false,
        )
    &&& separator_drawn(st[24], st[25], l.frame, l.before_manifesto_y, border)
    &&& forall|k: int|
        0 <= k < 3 ==> splash_text_drawn(
            #[trigger] st[k + 25],
            st[k + 26],
            size,
            block_origin(size, seq![manifesto[k]]) as u16,
            sat_add16(l.manifesto_y as int, k),
            manifesto[k],
            if k == 0 {
                on(t.text, t.background, false)
            } else {
                on(t.muted, t.background, false)
            },
        )
    &&& separator_drawn(st[28], st[29], l.frame, l.after_manifesto_y, border)
    &&& splash_text_drawn(
        st[29],
        st[30],
        size,
        block_origin(size, splash_loading_lines()) as u16,
        l.loading_y,
        loading_line(phase),
        on(t.success, t.background, true),
    )
    &&& bar_drawn(st[30], st[31], size, l.loading_bar_x, sat_add16(l.loading_y as int, 1), phase, t)
    &&& splash_text_drawn(
        st[31],
        after,
        size,
        block_origin(size, seq![splash_hint_line()]) as u16,
        sat_add16(l.loading_y as int, 2),
        splash_hint_line(),
        on(t.muted, t.background, false),
    )
}

/// Draws the splash on a `size` screen in `theme` at animation `phase` over `frame`.
#[verifier::spinoff_prover]
pub fn render_splash(base: Frame, size: Size, theme: Theme, phase: u8) -> (r: Frame)
    requires
        base.wf(),
    ensures
        r.wf(),
        r.same_size(&base),
        exists|st: Seq<Frame>| #[trigger] splash_drawn(size, theme, phase as int, st, base, r),
{
    let mut frame = base;
    let layout = splash_layout(size);
    let border = style_on(theme.secondary, theme.background, false);
    frame.draw_border_with_set(layout.frame, border, BorderSet::rounded());
    let ghost s0 = frame;
    let ghost mut st: Seq<Frame> = seq![s0];
    let title = splash_title();
    proof {
        assert(title@.map_values(|l: &str| l@).len() == title@.len());
    }
    let mut k: usize = 0;
    while k < 8
        invariant
            k <= 8,
            title@.len() == 8,
            title@.map_values(|l: &str| l@) == splash_title_lines(),
            layout == spec_splash_layout(size),
            frame.wf(),
            frame.same_size(&base),
            st.len() == k + 1,
            st[0] == s0,
            st[k as int] == frame,
            forall|j: int|
                0 <= j < k ==> gradient_drawn(
                    #[trigger] st[j],
                    st[j + 1],
                    size,
                    layout.title_origin,
                    sat_add16(layout.title_y as int, j),
                    splash_title_lines()[j],
                    phase as int,
                    theme,
                    true,
                ),
        decreases 8 - k,
    {
        proof {
            assert(title@.map_values(|l: &str| l@)[k as int] == title@[k as int]@);
        }
        render_gradient_line(&mut frame, size, layout.title_origin, layout.title_y.saturating_add(k as u16), title[k], phase, theme, true);
        proof {
            st = st.push(frame);
        }
        k = k + 1;
    }
    let ghost title_stages = st;
    let dragon = splash_dragon();
    proof {
        assert(dragon@.map_values(|l: &str| l@).len() == dragon@.len());
    }
    let mut k: usize = 0;
    while k < 16
        invariant
            k <= 16,
            dragon@.len() == 16,
            dragon@.map_values(|l: &str| l@) == splash_dragon_lines(),
            layout == spec_splash_layout(size),
            frame.wf(),
            frame.same_size(&base),
            st.len() == k + 9,
            forall|j: int| 0 <= j < 9 ==> st[j] == title_stages[j],
            st[k + 8] == frame,
            forall|j: int|
                0 <= j < k ==> gradient_drawn(
                    #[trigger] st[j + 8],
                    st[j + 9],
                    size,
                    layout.dragon_origin,
                    sat_add16(layout.dragon_y as int, j),
                    splash_dragon_lines()[j],
                    phase as int,
                    theme,
                    false,
                ),
        decreases 16 - k,
    {
        proof {
            assert(dragon@.map_values(|l: &str| l@)[k as int] == dragon@[k as int]@);
        }
        render_gradient_line(&mut frame, size, layout.dragon_origin, layout.dragon_y.saturating_add(k as u16), dragon[k], phase, theme, false);
        proof {
            st = st.push(frame);
        }
        k = k + 1;
    }
    render_separator(&mut frame, layout.frame, layout.before_manifesto_y, border);
    proof {
        st = st.push(frame);
    }
    let ghost head = st;
    let manifesto = splash_manifesto();
    proof {
        assert(manifesto@.map_values(|l: &str| l@).len() == manifesto@.len());
    }
    let mut k: usize = 0;
    while k < 3
        invariant
            k <= 3,
            manifesto@.len() == 3,
            manifesto@.map_values(|l: &str| l@) == splash_manifesto_lines(),
            layout == spec_splash_layout(size),
            frame.wf(),
            frame.same_size(&base),
            st.len() == k + 26,
            forall|j: int| 0 <= j < 26 ==> st[j] == head[j],
            st[k + 25] == frame,
            forall|j: int|
                0 <= j < k ==> splash_text_drawn(
                    #[trigger] st[j + 25],
                    st[j + 26],
                    size,
                    block_origin(size, seq![splash_manifesto_lines()[j]]) as u16,
                    sat_add16(layout.manifesto_y as int, j),
                    splash_manifesto_lines()[j],
                    if j == 0 {
                        on(theme.text, theme.background, false)
                    } else {
                        on(theme.muted, theme.background, false)
                    },
                ),
        decreases 3 - k,
    {
        let line = manifesto[k];
        let mut one: Vec<&str> = Vec::new();
        one.push(line);
        proof {
            assert(manifesto@.map_values(|l: &str| l@)[k as int] == manifesto@[k as int]@);
            assert(one@.map_values(|l: &str| l@) =~= seq![splash_manifesto_lines()[k as int]]);
        }
        let origin = splash_block_origin(size, one.as_slice());
        let style = if k == 0 {
            style_on(theme.text, theme.background, false)
        } else {
            style_on(theme.muted, theme.background, false)
        };
        render_splash_text(&mut frame, size, layout.manifesto_y.saturating_add(k as u16), origin, line, style);
        proof {
            st = st.push(frame);
        }
        k = k + 1;
    }
    render_separator(&mut frame, layout.frame, layout.after_manifesto_y, border);
    let ghost s29 = frame;
    let phases = splash_loading();
    proof {
        assert(phases@.map_values(|l: &str| l@).len() == phases@.len());
    }
    let which = ((phase / 2) % 3) as usize;
    proof {
        assert(phases@.map_values(|l: &str| l@)[which as int] == phases@[which as int]@);
    }
    let loading_origin = splash_block_origin(size, phases.as_slice());
    render_splash_text(&mut frame, size, layout.loading_y, loading_origin, phases[which], style_on(theme.success, theme.background, true));
    let ghost s30 = frame;
    render_loading_bar(&mut frame, size, layout.loading_y.saturating_add(1), layout.loading_bar_x, phase, theme);
    let ghost s31 = frame;
    let hint = splash_hint();
    let mut hints: Vec<&str> = Vec::new();
    hints.push(hint);
    assert(hints@.map_values(|l: &str| l@) =~= seq![splash_hint_line()]);
    let hint_origin = splash_block_origin(size, hints.as_slice());
    render_splash_text(&mut frame, size, layout.loading_y.saturating_add(2), hint_origin, hint, style_on(theme.muted, theme.background, false));
    let ghost all = st.push(s29).push(s30).push(s31);
    assert(splash_drawn(size, theme, phase as int, all, base, frame));
    frame
}

} // verus!
