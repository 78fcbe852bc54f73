use vstd::prelude::*;

use crate::canvas::put_cell;
use crate::cell::Cell;
use crate::frame::{Frame, write_in};
use crate::geometry::Rect;
use crate::style::Style;

verus! {

/// The sparkline glyph for level `level` (0 to 7): one-eighth to full blocks.
pub open spec fn level_glyph(level: int) -> char {
    if level <= 0 {
        '\u{2581}'
    } else if level == 1 {
        '\u{2582}'
    } else if level == 2 {
        '\u{2583}'
    } else if level == 3 {
        '\u{2584}'
    } else if level == 4 {
        '\u{2585}'
    } else if level == 5 {
        '\u{2586}'
    } else if level == 6 {
        '\u{2587}'
    } else {
        '\u{2588}'
    }
}

fn glyph_for_level(level: u8) -> (r: char)
    ensures
        r == level_glyph(level as int),
{
    if level == 0 {
        '\u{2581}'
    } else if level == 1 {
        '\u{2582}'
    } else if level == 2 {
        '\u{2583}'
    } else if level == 3 {
        '\u{2584}'
    } else if level == 4 {
        '\u{2585}'
    } else if level == 5 {
        '\u{2586}'
    } else if level == 6 {
        '\u{2587}'
    } else {
        '\u{2588}'
    }
}

/// Cells after drawing the first `n` cells of a bar on row `target.y`: full blocks in the filled
/// style for the first `filled` columns, light shade in the unfilled style after them.
pub open spec fn bar_cells(
    cells: Seq<Cell>,
    fw: int,
    fh: int,
    target: Rect,
    filled: int,
    filled_style: Style,
    unfilled_style: Style,
    n: int,
) -> Seq<Cell>
    decreases n,
{
    if n <= 0 {
        cells
    } else {
        let prev = bar_cells(cells, fw, fh, target, filled, filled_style, unfilled_style, n - 1);
        let x = n - 1;
        if target.x + x <= u16::MAX {
            put_cell(
                prev,
                fw,
                fh,
                target.x + x,
                target.y as int,
                if x < filled {
                    Cell::spec_new('\u{2588}', filled_style)
                } else {
                    Cell::spec_new('\u{2591}', unfilled_style)
                },
            )
        } else {
            prev
        }
    }
}

/// Draws a one-row ratio bar with `filled` full cells across `target`, and the label (if any)
/// on the next row in the filled style when the target has one.
pub fn render_bar(
    frame: &mut Frame,
    target: Rect,
    filled: u16,
    filled_style: Style,
    unfilled_style: Style,
    label: Option<&str>,
)
    requires
        old(frame).wf(),
    ensures
        final(frame).wf(),
        final(frame).same_size(old(frame)),
        target.width == 0 || target.height == 0 ==> *final(frame) == *old(frame),
        target.width > 0 && target.height > 0 ==> {
            let bar = bar_cells(
                old(frame).spec_buffer().cells(),
                old(frame).spec_width() as int,
                old(frame).spec_height() as int,
                target,
                filled as int,
                filled_style,
                unfilled_style,
                target.width as int,
            );
            final(frame).spec_buffer().cells() == match label {
                Some(text) => if target.height > 1 {
                    write_in(
                        bar,
                        old(frame).spec_width() as int,
                        old(frame).spec_height() as int,
                        target,
                        0,
                        1,
                        text@,
                        filled_style,
                    ).0
                } else {
                    bar
                },
                None => bar,
            }
        },
{
    if target.width == 0 || target.height == 0 {
        return;
    }
    let ghost cells0 = old(frame).spec_buffer().cells();
    let ghost fw = old(frame).spec_width() as int;
    let ghost fh = old(frame).spec_height() as int;
    let mut x: u16 = 0;
    while x < target.width
        invariant
            x <= target.width,
            frame.wf(),
            frame.same_size(old(frame)),
            cells0 == old(frame).spec_buffer().cells(),
            fw == old(frame).spec_width(),
            fh == old(frame).spec_height(),
            frame.spec_buffer().cells() == bar_cells(
                cells0,
                fw,
                fh,
                target,
                filled as int,
                filled_style,
                unfilled_style,
                x as int,
            ),
        decreases target.width - x,
    {
        match target.x.checked_add(x) {
            Some(frame_x) => {
                let cell = if x < filled {
                    Cell::new('\u{2588}', filled_style)
                } else {
                    Cell::new('\u{2591}', unfilled_style)
                };
                frame.set_cell(frame_x, target.y, cell);
            },
            None => {},
        }
        x = x + 1;
    }
    match label {
        Some(text) => {
            if target.height > 1 {
                frame.write_text_in(target, 0, 1, text, filled_style);
            }
        },
        None => {},
    }
}

/// Cells after drawing the first `n` levels as sparkline glyphs along row `target.y`.
pub open spec fn level_cells(
    cells: Seq<Cell>,
    fw: int,
    fh: int,
    target: Rect,
    levels: Seq<u8>,
    style: Style,
    n: int,
) -> Seq<Cell>
    decreases n,
{
    if n <= 0 {
        cells
    } else {
        let prev = level_cells(cells, fw, fh, target, levels, style, n - 1);
        let x = n - 1;
        if target.x + x <= u16::MAX {
            put_cell(
                prev,
                fw,
                fh,
                target.x + x,
                target.y as int,
                Cell::spec_new(level_glyph(levels[x] as int), style),
            )
        } else {
            prev
        }
    }
}

/// Draws one sparkline glyph per level (0 lowest to 7 highest) along the first row of `target`,
/// as many as fit its width.
pub fn render_levels(frame: &mut Frame, target: Rect, levels: &[u8], style: Style)
    requires
        old(frame).wf(),
    ensures
        final(frame).wf(),
        final(frame).same_size(old(frame)),
        target.width == 0 || target.height == 0 ==> *final(frame) == *old(frame),
        target.width > 0 && target.height > 0 ==> final(frame).spec_buffer().cells() == level_cells(
            old(frame).spec_buffer().cells(),
            old(frame).spec_width() as int,
            old(frame).spec_height() as int,
            target,
            levels@,
            style,
            if levels@.len() <= target.width {
                levels@.len() as int
            } else {
                target.width as int
            },
        ),
{
    if target.width == 0 || target.height == 0 {
        return;
    }
    let count = if levels.len() <= target.width as usize {
        levels.len()
    } else {
        target.width as usize
    };
    let ghost cells0 = old(frame).spec_buffer().cells();
    let ghost fw = old(frame).spec_width() as int;
    let ghost fh = old(frame).spec_height() as int;
    let mut i: usize = 0;
    while i < count
        invariant
            i <= count <= levels@.len(),
            count <= target.width,
            frame.wf(),
            frame.same_size(old(frame)),
            cells0 == old(frame).spec_buffer().cells(),
            fw == old(frame).spec_width(),
            fh == old(frame).spec_height(),
            frame.spec_buffer().cells() == level_cells(
                cells0,
                fw,
                fh,
                target,
                levels@,
                style,
                i as int,
            ),
        decreases count - i,
    {
        match target.x.checked_add(i as u16) {
            Some(frame_x) => {
                let glyph = glyph_for_level(levels[i]);
                frame.set_cell(frame_x, target.y, Cell::new(glyph, style));
            },
            None => {},
        }
        i = i + 1;
    }
}

} // verus!
