use vstd::prelude::*;

use crate::chars::{control_char, is_control, push_str, string_views};
use crate::event::{KeyCode, KeyEvent};
use crate::frame::{Frame, rows_written};
use crate::geometry::{Position, Rect};
use crate::grapheme::{
    cursor_after_insert, grapheme_clusters, grapheme_count, graphemes, insert_at_cluster,
    remove_cluster, text_after_insert, without_cluster,
};
use crate::style::Style;
use crate::text_input::{
    cluster_widths, fit_end, lemma_sum_widths_bounds, lemma_sum_widths_step, sum_widths, widths_of,
};

verus! {

/// Whether a cluster is a lone line feed.
pub open spec fn newline_cluster(g: Seq<char>) -> bool {
    g == seq!['\n']
}

/// The line ranges closed by the first `k` clusters, and the start of the line still open.
pub open spec fn line_scan_ranges(gs: Seq<Seq<char>>, k: int) -> (Seq<(int, int)>, int)
    decreases k,
{
    if k <= 0 {
        (Seq::empty(), 0)
    } else {
        let (rs, start) = line_scan_ranges(gs, k - 1);
        if newline_cluster(gs[k - 1]) {
            (rs.push((start, k - 1)), k)
        } else {
            (rs, start)
        }
    }
}

/// The half-open cluster ranges of the lines of `gs`, split at lone line-feed clusters; the
/// last line runs to the end.
pub open spec fn line_ranges(gs: Seq<Seq<char>>) -> Seq<(int, int)> {
    let (rs, start) = line_scan_ranges(gs, gs.len() as int);
    rs.push((start, gs.len() as int))
}

/// Every range lies within `0..=n` with its start before its end.
pub open spec fn ranges_within(rs: Seq<(int, int)>, n: int) -> bool {
    forall|l: int| 0 <= l < rs.len() ==> 0 <= (#[trigger] rs[l]).0 <= rs[l].1 <= n
}

proof fn lemma_line_scan_bounds(gs: Seq<Seq<char>>, k: int)
    requires
        0 <= k <= gs.len(),
    ensures
        0 <= line_scan_ranges(gs, k).1 <= k,
        ranges_within(line_scan_ranges(gs, k).0, line_scan_ranges(gs, k).1),
    decreases k,
{
    if k > 0 {
        lemma_line_scan_bounds(gs, k - 1);
    }
}

/// The line ranges are non-empty, within the clusters, and the last one ends at the end.
pub proof fn lemma_line_ranges_bounds(gs: Seq<Seq<char>>)
    ensures
        line_ranges(gs).len() >= 1,
        ranges_within(line_ranges(gs), gs.len() as int),
        line_ranges(gs).last().1 == gs.len(),
{
    lemma_line_scan_bounds(gs, gs.len() as int);
    let (rs, start) = line_scan_ranges(gs, gs.len() as int);
    assert forall|l: int| 0 <= l < line_ranges(gs).len() implies 0 <= (#[trigger] line_ranges(
        gs,
    )[l]).0 <= line_ranges(gs)[l].1 <= gs.len() by {
        if l < rs.len() {
            assert(line_ranges(gs)[l] == rs[l]);
        }
    }
}

/// The ranges as integers.
pub open spec fn ranges_view(v: Seq<(usize, usize)>) -> Seq<(int, int)> {
    v.map_values(|p: (usize, usize)| (p.0 as int, p.1 as int))
}

/// `a - b`, or 0 when `b > a`.
pub open spec fn sat_diff(a: int, b: int) -> int {
    if a >= b {
        a - b
    } else {
        0
    }
}

/// Line and column of cluster index `c`: the first line from `l` on whose range ends at or after
/// `c`, and `c`'s distance from that line's start.
pub open spec fn locate_from(rs: Seq<(int, int)>, c: int, l: int) -> (int, int)
    decreases rs.len() - l,
{
    if l < 0 || l >= rs.len() {
        if rs.len() == 0 {
            (0, 0)
        } else {
            (rs.len() - 1, sat_diff(rs.last().1, rs.last().0))
        }
    } else if c <= rs[l].1 {
        (l, sat_diff(c, rs[l].0))
    } else {
        locate_from(rs, c, l + 1)
    }
}

/// Display columns taken by the clusters before `i` of a line, skipping those that fit left of
/// `offset`: the first prefix width from `display` on that reaches `offset` (or the line width).
pub open spec fn aligned_from(ws: Seq<int>, i: int, end: int, display: int, offset: int) -> int
    decreases end - i,
{
    if i < end && 0 <= i < ws.len() {
        if display >= offset {
            display
        } else {
            aligned_from(ws, i + 1, end, display + ws[i], offset)
        }
    } else {
        display
    }
}

/// The part of clusters `i..end` shown in `width` columns when the line is scrolled by `offset`
/// columns: clusters that end left of `offset` are skipped; output stops at a cluster that starts
/// left of `offset` or does not fit.
pub open spec fn visible_from(
    gs: Seq<Seq<char>>,
    ws: Seq<int>,
    i: int,
    end: int,
    display: int,
    used: int,
    width: int,
    offset: int,
) -> Seq<char>
    decreases end - i,
{
    if i < end && 0 <= i < ws.len() && i < gs.len() {
        if display + ws[i] <= offset {
            visible_from(gs, ws, i + 1, end, display + ws[i], used, width, offset)
        } else if display < offset || used + ws[i] > width {
            Seq::empty()
        } else {
            gs[i] + visible_from(gs, ws, i + 1, end, display + ws[i], used + ws[i], width, offset)
        }
    } else {
        Seq::empty()
    }
}

/// The line ranges of the clusters `gs`.
pub fn line_ranges_of(gs: &Vec<String>) -> (r: Vec<(usize, usize)>)
    ensures
        ranges_view(r@) == line_ranges(string_views(gs@)),
{
    let ghost views = string_views(gs@);
    let mut rs: Vec<(usize, usize)> = Vec::new();
    let mut start: usize = 0;
    let mut i: usize = 0;
    while i < gs.len()
        invariant
            i <= gs@.len(),
            views == string_views(gs@),
            (ranges_view(rs@), start as int) == line_scan_ranges(views, i as int),
        decreases gs@.len() - i,
    {
        proof {
            lemma_line_scan_bounds(views, i as int);
            assert(views[i as int] == gs@[i as int]@);
        }
        let g = gs[i].as_str();
        if g.unicode_len() == 1 && g.get_char(0) == '\n' {
            proof {
                assert(g@ =~= seq!['\n']);
                assert(ranges_view(rs@.push((start, i))) =~= ranges_view(rs@).push(
                    (start as int, i as int),
                ));
            }
            rs.push((start, i));
            start = i + 1;
        } else {
            proof {
                if g@.len() == 1 {
                    assert(g@[0] != '\n');
                }
                assert(!newline_cluster(views[i as int]));
            }
        }
        i = i + 1;
    }
    proof {
        assert(ranges_view(rs@.push((start, gs.len()))) =~= ranges_view(rs@).push(
            (start as int, gs@.len() as int),
        ));
    }
    rs.push((start, gs.len()));
    rs
}

/// Line and column of cluster index `c` in the line ranges `ranges`.
pub fn locate(ranges: &Vec<(usize, usize)>, c: usize) -> (r: (usize, usize))
    ensures
        (r.0 as int, r.1 as int) == locate_from(ranges_view(ranges@), c as int, 0),
{
    let ghost rs = ranges_view(ranges@);
    let mut l: usize = 0;
    while l < ranges.len()
        invariant
            l <= ranges@.len(),
            rs == ranges_view(ranges@),
            locate_from(rs, c as int, 0) == locate_from(rs, c as int, l as int),
        decreases ranges@.len() - l,
    {
        let (start, end) = ranges[l];
        if c <= end {
            let column = if c >= start {
                c - start
            } else {
                0
            };
            return (l, column);
        }
        l = l + 1;
    }
    if ranges.len() == 0 {
        (0, 0)
    } else {
        let (start, end) = ranges[ranges.len() - 1];
        let column = if end >= start {
            end - start
        } else {
            0
        };
        (ranges.len() - 1, column)
    }
}

/// Widths as integers.
pub open spec fn widths_view(w: Seq<usize>) -> Seq<int> {
    w.map_values(|x: usize| x as int)
}

/// Total width of the clusters `a..b`.
pub fn span_width(w: &Vec<usize>, a: usize, b: usize) -> (r: u128)
    requires
        a <= b <= w@.len(),
    ensures
        r == sum_widths(widths_view(w@).subrange(a as int, b as int)),
{
    let ghost ws = widths_view(w@);
    let mut total: u128 = 0;
    let mut i: usize = a;
    proof {
        assert(ws.subrange(a as int, a as int) =~= Seq::<int>::empty());
    }
    while i < b
        invariant
            a <= i <= b <= w@.len(),
            ws == widths_view(w@),
            total == sum_widths(ws.subrange(a as int, i as int)),
        decreases b - i,
    {
        proof {
            let part = ws.subrange(a as int, b as int);
            assert forall|k: int| 0 <= k < part.len() implies 0 <= #[trigger] part[k]
                <= usize::MAX by {
                assert(part[k] == w@[a + k] as int);
            }
            assert(part.take(i - a) == ws.subrange(a as int, i as int));
            assert(part.take(i - a + 1) == ws.subrange(a as int, i + 1));
            lemma_sum_widths_step(part, i - a);
            lemma_sum_widths_bounds(part, i - a + 1, i - a + 1, usize::MAX as int);
            assert((i - a + 1) * (usize::MAX as int) <= 0xffff_ffff_ffff_ffff * 0xffff_ffff_ffff_ffff)
                by (nonlinear_arith)
                requires
                    i - a + 1 <= usize::MAX,
                    usize::MAX <= 0xffff_ffff_ffff_ffff,
            ;
        }
        total = total + w[i] as u128;
        i = i + 1;
    }
    total
}

/// The cluster index reached by walking from `start` toward `end` while the walked width stays
/// within `target` columns.
pub fn fit_cursor(w: &Vec<usize>, start: usize, end: usize, target: usize) -> (r: usize)
    requires
        start <= end <= w@.len(),
    ensures
        r == fit_end(widths_view(w@), 0, target as int, start as int, end as int),
        start <= r <= end,
{
    let ghost ws = widths_view(w@);
    let mut display: u128 = 0;
    let mut i: usize = start;
    while i < end && display + w[i] as u128 <= target as u128
        invariant
            start <= i <= end <= w@.len(),
            ws == widths_view(w@),
            display <= target,
            fit_end(ws, 0, target as int, start as int, end as int) == fit_end(
                ws,
                display as int,
                target as int,
                i as int,
                end as int,
            ),
        decreases end - i,
    {
        display = display + w[i] as u128;
        i = i + 1;
    }
    i
}

/// The first prefix width of the clusters `start..end` that reaches `offset`, or the whole
/// line's width.
pub fn aligned_offset(w: &Vec<usize>, start: usize, end: usize, offset: u128) -> (r: u128)
    requires
        start <= end <= w@.len(),
    ensures
        r == aligned_from(widths_view(w@), start as int, end as int, 0, offset as int),
        r <= sum_widths(widths_view(w@).subrange(start as int, end as int)),
{
    let ghost ws = widths_view(w@);
    let mut display: u128 = 0;
    let mut i: usize = start;
    proof {
        assert(ws.subrange(start as int, start as int) =~= Seq::<int>::empty());
    }
    while i < end
        invariant
            start <= i <= end <= w@.len(),
            ws == widths_view(w@),
            display == sum_widths(ws.subrange(start as int, i as int)),
            aligned_from(ws, start as int, end as int, 0, offset as int) == aligned_from(
                ws,
                i as int,
                end as int,
                display as int,
                offset as int,
            ),
        decreases end - i,
    {
        if display >= offset {
            proof {
                lemma_subrange_width_mono(ws, start as int, i as int, end as int);
            }
            return display;
        }
        proof {
            lemma_subrange_width_mono(ws, start as int, i + 1, end as int);
            assert(ws.subrange(start as int, i + 1).drop_last() == ws.subrange(
                start as int,
                i as int,
            ));
        }
        display = display + w[i] as u128;
        i = i + 1;
    }
    display
}

/// Widths of `a..i` never exceed widths of `a..b` for `i <= b`, and the latter fits in `u128`.
proof fn lemma_subrange_width_mono(ws: Seq<int>, a: int, i: int, b: int)
    requires
        0 <= a <= i <= b <= ws.len(),
        b <= usize::MAX,
        forall|k: int| 0 <= k < ws.len() ==> 0 <= #[trigger] ws[k] <= usize::MAX,
    ensures
        0 <= sum_widths(ws.subrange(a, i)) <= sum_widths(ws.subrange(a, b)),
        sum_widths(ws.subrange(a, b)) <= 0xffff_ffff_ffff_ffff * 0xffff_ffff_ffff_ffff,
{
    let part = ws.subrange(a, b);
    assert(part.take(i - a) == ws.subrange(a, i));
    assert(part.take(b - a) == part);
    lemma_sum_widths_bounds(part, i - a, b - a, usize::MAX as int);
    assert((b - a) * (usize::MAX as int) <= 0xffff_ffff_ffff_ffff * 0xffff_ffff_ffff_ffff)
        by (nonlinear_arith)
        requires
            b - a <= usize::MAX,
            usize::MAX <= 0xffff_ffff_ffff_ffff,
    ;
}

/// The part of the clusters `start..end` shown in `width` columns when scrolled by `offset`.
pub fn visible_segment(
    gs: &Vec<String>,
    w: &Vec<usize>,
    start: usize,
    end: usize,
    width: u128,
    offset: u128,
) -> (r: String)
    requires
        start <= end <= w@.len() == gs@.len(),
    ensures
        r@ == visible_from(
            string_views(gs@),
            widths_view(w@),
            start as int,
            end as int,
            0,
            0,
            width as int,
            offset as int,
        ),
{
    let ghost views = string_views(gs@);
    let ghost ws = widths_view(w@);
    let mut out = String::new();
    let mut display: u128 = 0;
    let mut used: u128 = 0;
    let mut i: usize = start;
    proof {
        assert(ws.subrange(start as int, start as int) =~= Seq::<int>::empty());
    }
    while i < end
        invariant
            start <= i <= end <= w@.len() == gs@.len(),
            views == string_views(gs@),
            ws == widths_view(w@),
            display == sum_widths(ws.subrange(start as int, i as int)),
            used <= display,
            out@ + visible_from(
                views,
                ws,
                i as int,
                end as int,
                display as int,
                used as int,
                width as int,
                offset as int,
            ) == visible_from(
                views,
                ws,
                start as int,
                end as int,
                0,
                0,
                width as int,
                offset as int,
            ),
        decreases end - i,
    {
        proof {
            assert forall|k: int| 0 <= k < ws.len() implies 0 <= #[trigger] ws[k]
                <= usize::MAX by {
                assert(ws[k] == w@[k] as int);
            }
            lemma_subrange_width_mono(ws, start as int, i + 1, end as int);
            assert(ws.subrange(start as int, i + 1).drop_last() == ws.subrange(
                start as int,
                i as int,
            ));
        }
        let cw = w[i] as u128;
        if display + cw <= offset {
            display = display + cw;
            i = i + 1;
        } else if display < offset || used + cw > width {
            proof {
                assert(out@ + Seq::<char>::empty() == out@);
            }
            return out;
        } else {
            proof {
                assert(views[i as int] == gs@[i as int]@);
                let rest = visible_from(
                    views,
                    ws,
                    i + 1,
                    end as int,
                    display + cw,
                    used + cw,
                    width as int,
                    offset as int,
                );
                assert(out@ + (views[i as int] + rest) == (out@ + views[i as int]) + rest);
            }
            push_str(&mut out, gs[i].as_str());
            display = display + cw;
            used = used + cw;
            i = i + 1;
        }
    }
    proof {
        assert(out@ + Seq::<char>::empty() == out@);
    }
    out
}

/// `locate_from` names an existing line whenever there is one.
pub proof fn lemma_locate_in_range(rs: Seq<(int, int)>, c: int, l: int)
    requires
        rs.len() >= 1,
    ensures
        0 <= locate_from(rs, c, l).0 < rs.len(),
    decreases rs.len() - l,
{
    if 0 <= l < rs.len() && c > rs[l].1 {
        lemma_locate_in_range(rs, c, l + 1);
    }
}

/// The abstract state of a [`TextArea`].
pub struct AreaState {
    pub text: Seq<char>,
    pub cursor: int,
    pub top_line: int,
    pub horizontal_offset: int,
    pub preferred_column: Option<int>,
    pub page_height: int,
}

/// Line and column of the cursor, the cursor clamped to the end of the text.
pub open spec fn area_location(m: AreaState) -> (int, int) {
    let gs = grapheme_clusters(m.text);
    let c = if m.cursor < gs.len() {
        m.cursor
    } else {
        gs.len() as int
    };
    locate_from(line_ranges(gs), c, 0)
}

/// The state after moving the cursor to the cluster of `line` reached within `target` columns,
/// remembering `target` as the preferred column.
pub open spec fn area_moved(m: AreaState, line: int, target: int) -> AreaState {
    let gs = grapheme_clusters(m.text);
    let rs = line_ranges(gs);
    AreaState {
        cursor: fit_end(cluster_widths(gs), 0, target, rs[line].0, rs[line].1),
        preferred_column: Some(target),
        ..m
    }
}

/// The state after inserting `c` at the cursor.
pub open spec fn area_insert(m: AreaState, c: char) -> AreaState {
    AreaState {
        text: text_after_insert(m.text, m.cursor, c),
        cursor: cursor_after_insert(m.text, m.cursor, c),
        preferred_column: None,
        ..m
    }
}

/// The state and result after a key (the state unchanged when the key is not handled).
pub open spec fn area_key(m: AreaState, key: KeyEvent) -> (AreaState, bool) {
    let gs = grapheme_clusters(m.text);
    let count = gs.len() as int;
    let rs = line_ranges(gs);
    let (line, column) = area_location(m);
    let page = if m.page_height > 1 {
        m.page_height
    } else {
        1
    };
    let target = match m.preferred_column {
        Some(p) => p,
        None => column,
    };
    if key.modifiers.ctrl || key.modifiers.alt {
        (m, false)
    } else {
        match key.code {
            KeyCode::Char(c) => if !control_char(c) {
                (area_insert(m, c), true)
            } else {
                (m, false)
            },
            KeyCode::Enter => (area_insert(m, '\n'), true),
            KeyCode::Backspace => if m.cursor == 0 {
                (m, false)
            } else {
                (
                    AreaState {
                        text: without_cluster(m.text, m.cursor - 1),
                        cursor: m.cursor - 1,
                        preferred_column: None,
                        ..m
                    },
                    true,
                )
            },
            KeyCode::Delete => if m.cursor >= count {
                (m, false)
            } else {
                (
                    AreaState {
                        text: without_cluster(m.text, m.cursor),
                        preferred_column: None,
                        ..m
                    },
                    true,
                )
            },
            KeyCode::Left => if m.cursor == 0 {
                (m, false)
            } else {
                (AreaState { cursor: m.cursor - 1, preferred_column: None, ..m }, true)
            },
            KeyCode::Right => if m.cursor >= count {
                (m, false)
            } else {
                (AreaState { cursor: m.cursor + 1, preferred_column: None, ..m }, true)
            },
            KeyCode::Up => if line == 0 {
                (m, false)
            } else {
                (area_moved(m, line - 1, target), true)
            },
            KeyCode::Down => if line + 1 >= rs.len() {
                (m, false)
            } else {
                (area_moved(m, line + 1, target), true)
            },
            KeyCode::Home => if m.cursor == rs[line].0 {
                (m, false)
            } else {
                (AreaState { cursor: rs[line].0, preferred_column: None, ..m }, true)
            },
            KeyCode::End => if m.cursor == rs[line].1 {
                (m, false)
            } else {
                (AreaState { cursor: rs[line].1, preferred_column: None, ..m }, true)
            },
            KeyCode::PageUp => if line == 0 {
                (m, false)
            } else {
                (area_moved(m, sat_diff(line, page), column), true)
            },
            KeyCode::PageDown => if line + 1 >= rs.len() {
                (m, false)
            } else {
                let dest = if line + page <= rs.len() - 1 {
                    line + page
                } else {
                    rs.len() - 1
                };
                (area_moved(m, dest, column), true)
            },
            _ => (m, false),
        }
    }
}

/// The visible part of lines `top..top + count` when scrolled by `offset` columns.
pub open spec fn area_visible_lines(
    gs: Seq<Seq<char>>,
    rs: Seq<(int, int)>,
    top: int,
    count: int,
    width: int,
    offset: int,
) -> Seq<Seq<char>> {
    Seq::new(
        count as nat,
        |k: int| visible_from(gs, cluster_widths(gs), rs[top + k].0, rs[top + k].1, 0, 0, width, offset),
    )
}

/// The state after rendering into `rect` (scrolled so the cursor is visible), the text of each
/// row drawn, and the terminal cursor position.
pub open spec fn area_render(m: AreaState, rect: Rect) -> (AreaState, Seq<Seq<char>>, Option<
    Position,
>) {
    let h = rect.height as int;
    let width = rect.width as int;
    let gs = grapheme_clusters(m.text);
    let ws = cluster_widths(gs);
    let rs = line_ranges(gs);
    let (line, column) = area_location(m);
    let last = rs.len() - 1;
    let top0 = if m.top_line < last {
        m.top_line
    } else {
        last
    };
    let top = if line < top0 {
        line
    } else if line - top0 >= h {
        line + 1 - h
    } else {
        top0
    };
    let s = rs[line].0;
    let e = rs[line].1;
    let stop = if column <= e - s {
        s + column
    } else {
        e
    };
    let display = sum_widths(ws.subrange(s, stop));
    let off0 = m.horizontal_offset;
    let off1 = if display < off0 {
        display
    } else if display - off0 >= width {
        display + 1 - width
    } else {
        off0
    };
    let off = aligned_from(ws, s, e, 0, off1);
    let count = if h <= rs.len() - top {
        h
    } else {
        rs.len() - top
    };
    let x = sat_diff(display, off);
    let y = sat_diff(line, top);
    let pos = if x >= width || y >= h {
        None
    } else if rect.x + x <= u16::MAX && rect.y + y <= u16::MAX {
        Some(Position { x: (rect.x + x) as u16, y: (rect.y + y) as u16 })
    } else {
        None
    };
    (
        AreaState { top_line: top, horizontal_offset: off, page_height: h, ..m },
        area_visible_lines(gs, rs, top, count, width, off),
        pos,
    )
}

/// Multi-line editor with intrinsic grapheme-safe text, cursor, and scroll state.
///
/// Render mutates viewport bookkeeping and returns the application-owned terminal cursor position.
#[derive(Clone, Debug, PartialEq, Eq)]
pub struct TextArea {
    text: String,
    cursor: usize,
    top_line: usize,
    horizontal_offset: u128,
    preferred_column: Option<usize>,
    page_height: u16,
}

impl View for TextArea {
    type V = AreaState;

    closed spec fn view(&self) -> AreaState {
        AreaState {
            text: self.text@,
            cursor: self.cursor as int,
            top_line: self.top_line as int,
            horizontal_offset: self.horizontal_offset as int,
            preferred_column: match self.preferred_column {
                Some(p) => Some(p as int),
                None => None,
            },
            page_height: self.page_height as int,
        }
    }
}

/// The state of a new, empty editor.
pub open spec fn empty_area() -> AreaState {
    AreaState {
        text: Seq::empty(),
        cursor: 0,
        top_line: 0,
        horizontal_offset: 0,
        preferred_column: None,
        page_height: 0,
    }
}

impl Default for TextArea {
    fn default() -> (r: Self)
        ensures
            r@ == empty_area(),
    {
        TextArea::new()
    }
}

impl TextArea {
    pub fn new() -> (r: Self)
        ensures
            r@ == empty_area(),
    {
        TextArea {
            text: String::new(),
            cursor: 0,
            top_line: 0,
            horizontal_offset: 0,
            preferred_column: None,
            page_height: 0,
        }
    }

    /// An editor holding `text`, with the cursor after its last cluster.
    pub fn from_text(text: &str) -> (r: Self)
        ensures
            r@ == (AreaState {
                text: text@,
                cursor: grapheme_clusters(text@).len() as int,
                ..empty_area()
            }),
    {
        let cursor = grapheme_count(text);
        TextArea {
            text: crate::chars::copy_string(text),
            cursor,
            top_line: 0,
            horizontal_offset: 0,
            preferred_column: None,
            page_height: 0,
        }
    }

    pub fn text(&self) -> (r: &str)
        ensures
            r@ == self@.text,
    {
        self.text.as_str()
    }

    /// Cursor is an extended grapheme-cluster index, never a UTF-8 byte offset.
    pub fn cursor(&self) -> (r: usize)
        ensures
            r == self@.cursor,
    {
        self.cursor
    }

    /// Inserts `character` at the cursor (a line break for `'\n'`).
    pub fn insert(&mut self, character: char)
        ensures
            final(self)@ == area_insert(old(self)@, character),
    {
        let (text, cursor) = insert_at_cluster(self.text.as_str(), self.cursor, character);
        self.text = text;
        self.cursor = cursor;
        self.preferred_column = None;
    }

    /// Inserts a line break at the cursor; always handled.
    pub fn enter(&mut self) -> (r: bool)
        ensures
            (final(self)@, r) == area_key(old(self)@, KeyEvent::spec_plain(KeyCode::Enter)),
    {
        self.insert('\n');
        true
    }

    pub fn backspace(&mut self) -> (r: bool)
        ensures
            (final(self)@, r) == area_key(old(self)@, KeyEvent::spec_plain(KeyCode::Backspace)),
    {
        if self.cursor == 0 {
            return false;
        }
        self.text = remove_cluster(self.text.as_str(), self.cursor - 1);
        self.cursor = self.cursor - 1;
        self.preferred_column = None;
        true
    }

    pub fn delete(&mut self) -> (r: bool)
        ensures
            (final(self)@, r) == area_key(old(self)@, KeyEvent::spec_plain(KeyCode::Delete)),
    {
        if self.cursor >= grapheme_count(self.text.as_str()) {
            return false;
        }
        self.text = remove_cluster(self.text.as_str(), self.cursor);
        self.preferred_column = None;
        true
    }

    pub fn left(&mut self) -> (r: bool)
        ensures
            (final(self)@, r) == area_key(old(self)@, KeyEvent::spec_plain(KeyCode::Left)),
    {
        if self.cursor == 0 {
            return false;
        }
        self.cursor = self.cursor - 1;
        self.preferred_column = None;
        true
    }

    pub fn right(&mut self) -> (r: bool)
        ensures
            (final(self)@, r) == area_key(old(self)@, KeyEvent::spec_plain(KeyCode::Right)),
    {
        if self.cursor >= grapheme_count(self.text.as_str()) {
            return false;
        }
        self.cursor = self.cursor + 1;
        self.preferred_column = None;
        true
    }

    /// The cursor's line and column, and the line ranges.
    fn cursor_location(&self) -> (r: (usize, usize, Vec<(usize, usize)>))
        ensures
            (r.0 as int, r.1 as int) == area_location(self@),
            ranges_view(r.2@) == line_ranges(grapheme_clusters(self@.text)),
            r.0 < r.2@.len(),
    {
        let gs = graphemes(self.text.as_str());
        let ranges = line_ranges_of(&gs);
        let n = gs.len();
        let c = if self.cursor < n {
            self.cursor
        } else {
            n
        };
        let (line, column) = locate(&ranges, c);
        proof {
            lemma_line_ranges_bounds(string_views(gs@));
            lemma_locate_in_range(ranges_view(ranges@), c as int, 0);
        }
        (line, column, ranges)
    }

    /// Moves the cursor to the cluster of `line` reached within `target` columns.
    fn move_to_line_column(&mut self, line: usize, target: usize)
        requires
            line < line_ranges(grapheme_clusters(old(self)@.text)).len(),
        ensures
            final(self)@ == area_moved(old(self)@, line as int, target as int),
    {
        let gs = graphemes(self.text.as_str());
        let w = widths_of(&gs);
        let ranges = line_ranges_of(&gs);
        proof {
            lemma_line_ranges_bounds(string_views(gs@));
            assert(widths_view(w@) =~= cluster_widths(string_views(gs@)));
            assert(ranges_view(ranges@)[line as int] == (
                ranges@[line as int].0 as int,
                ranges@[line as int].1 as int,
            ));
        }
        let (start, end) = ranges[line];
        self.cursor = fit_cursor(&w, start, end, target);
        self.preferred_column = Some(target);
    }

    pub fn up(&mut self) -> (r: bool)
        ensures
            (final(self)@, r) == area_key(old(self)@, KeyEvent::spec_plain(KeyCode::Up)),
    {
        let (line, column, _ranges) = self.cursor_location();
        if line == 0 {
            return false;
        }
        let target = match self.preferred_column {
            Some(p) => p,
            None => column,
        };
        self.move_to_line_column(line - 1, target);
        true
    }

    pub fn down(&mut self) -> (r: bool)
        ensures
            (final(self)@, r) == area_key(old(self)@, KeyEvent::spec_plain(KeyCode::Down)),
    {
        let (line, column, ranges) = self.cursor_location();
        if line + 1 >= ranges.len() {
            return false;
        }
        let target = match self.preferred_column {
            Some(p) => p,
            None => column,
        };
        self.move_to_line_column(line + 1, target);
        true
    }

    pub fn home(&mut self) -> (r: bool)
        ensures
            (final(self)@, r) == area_key(old(self)@, KeyEvent::spec_plain(KeyCode::Home)),
    {
        let (line, _column, ranges) = self.cursor_location();
        let start = ranges[line].0;
        proof {
            assert(ranges_view(ranges@)[line as int].0 == start as int);
        }
        if self.cursor == start {
            return false;
        }
        self.cursor = start;
        self.preferred_column = None;
        true
    }

    pub fn end(&mut self) -> (r: bool)
        ensures
            (final(self)@, r) == area_key(old(self)@, KeyEvent::spec_plain(KeyCode::End)),
    {
        let (line, _column, ranges) = self.cursor_location();
        let end = ranges[line].1;
        proof {
            assert(ranges_view(ranges@)[line as int].1 == end as int);
        }
        if self.cursor == end {
            return false;
        }
        self.cursor = end;
        self.preferred_column = None;
        true
    }

    pub fn page_up(&mut self) -> (r: bool)
        ensures
            (final(self)@, r) == area_key(old(self)@, KeyEvent::spec_plain(KeyCode::PageUp)),
    {
        let (line, column, _ranges) = self.cursor_location();
        if line == 0 {
            return false;
        }
        let page: usize = if self.page_height > 1 {
            self.page_height as usize
        } else {
            1
        };
        let dest = if line >= page {
            line - page
        } else {
            0
        };
        self.move_to_line_column(dest, column);
        true
    }

    pub fn page_down(&mut self) -> (r: bool)
        ensures
            (final(self)@, r) == area_key(old(self)@, KeyEvent::spec_plain(KeyCode::PageDown)),
    {
        let (line, column, ranges) = self.cursor_location();
        let count = ranges.len();
        if line + 1 >= count {
            return false;
        }
        let page: usize = if self.page_height > 1 {
            self.page_height as usize
        } else {
            1
        };
        let dest = if page <= count - 1 - line {
            line + page
        } else {
            count - 1
        };
        self.move_to_line_column(dest, column);
        true
    }

    pub fn clear(&mut self)
        ensures
            final(self)@ == (AreaState { page_height: old(self)@.page_height, ..empty_area() }),
    {
        self.text = String::new();
        self.cursor = 0;
        self.top_line = 0;
        self.horizontal_offset = 0;
        self.preferred_column = None;
    }

    /// Applies an editing or movement key; returns whether it was handled. Keys with Ctrl or Alt
    /// are not.
    pub fn handle_key(&mut self, key: KeyEvent) -> (r: bool)
        ensures
            (final(self)@, r) == area_key(old(self)@, key),
    {
        if key.modifiers.ctrl || key.modifiers.alt {
            return false;
        }
        match key.code {
            KeyCode::Char(c) => {
                if is_control(c) {
                    false
                } else {
                    self.insert(c);
                    true
                }
            },
            KeyCode::Enter => self.enter(),
            KeyCode::Backspace => self.backspace(),
            KeyCode::Delete => self.delete(),
            KeyCode::Left => self.left(),
            KeyCode::Right => self.right(),
            KeyCode::Up => self.up(),
            KeyCode::Down => self.down(),
            KeyCode::Home => self.home(),
            KeyCode::End => self.end(),
            KeyCode::PageUp => self.page_up(),
            KeyCode::PageDown => self.page_down(),
            _ => false,
        }
    }

    /// Renders the visible lines into `rect`, scrolling so the cursor stays visible; returns the
    /// terminal cursor position, or `None` for an empty rectangle or a cursor outside it.
    #[verifier::spinoff_prover]
    #[verifier::rlimit(40)]
    pub fn render(&mut self, frame: &mut Frame, rect: Rect, style: Style) -> (r: Option<Position>)
        requires
            old(frame).wf(),
        ensures
            final(frame).wf(),
            final(frame).same_size(old(frame)),
            rect.width == 0 || rect.height == 0 ==> r is None && *final(frame) == *old(frame)
                && final(self)@ == old(self)@,
            rect.width > 0 && rect.height > 0 ==> {
                let (m, lines, pos) = area_render(old(self)@, rect);
                &&& final(self)@ == m
                &&& final(frame).spec_buffer().cells() == rows_written(
                    old(frame).spec_buffer(),
                    rect,
                    lines,
                    style,
                )
                &&& r == pos
            },
    {
        if rect.width == 0 || rect.height == 0 {
            return None;
        }
        let ghost m0 = self@;
        self.page_height = rect.height;
        let gs = graphemes(self.text.as_str());
        let w = widths_of(&gs);
        let ranges = line_ranges_of(&gs);
        let ghost views = string_views(gs@);
        let ghost ws = widths_view(w@);
        let ghost rs = ranges_view(ranges@);
        proof {
            lemma_line_ranges_bounds(views);
            assert(ws =~= cluster_widths(views));
            assert forall|k: int| 0 <= k < ws.len() implies 0 <= #[trigger] ws[k]
                <= usize::MAX by {
                assert(ws[k] == w@[k] as int);
            }
        }
        let n = gs.len();
        let c = if self.cursor < n {
            self.cursor
        } else {
            n
        };
        let (line, column) = locate(&ranges, c);
        proof {
            lemma_locate_in_range(rs, c as int, 0);
        }
        let last = ranges.len() - 1;
        let mut top = if self.top_line < last {
            self.top_line
        } else {
            last
        };
        let h = rect.height as usize;
        if line < top {
            top = line;
        } else if line - top >= h {
            top = line + 1 - h;
        }
        self.top_line = top;
        proof {
            assert(rs[line as int] == (ranges@[line as int].0 as int, ranges@[line as int].1 as int));
        }
        let (start, end) = ranges[line];
        let stop = if column <= end - start {
            start + column
        } else {
            end
        };
        let display = span_width(&w, start, stop);
        proof {
            lemma_subrange_width_mono(ws, start as int, stop as int, end as int);
        }
        let width = rect.width as u128;
        let mut off = self.horizontal_offset;
        if display < off {
            off = display;
        } else if display - off >= width {
            off = display + 1 - width;
        }
        let off = aligned_offset(&w, start, end, off);
        self.horizontal_offset = off;
        let count = if h <= ranges.len() - top {
            h
        } else {
            ranges.len() - top
        };
        let line_count = ranges.len();
        let mut visible: Vec<String> = Vec::new();
        let mut k: usize = 0;
        while k < count
            invariant
                k <= count <= h,
                line_count == ranges@.len(),
                top + count <= line_count,
                rs == ranges_view(ranges@),
                views == string_views(gs@),
                ws == widths_view(w@),
                ws == cluster_widths(views),
                w@.len() == gs@.len() == views.len(),
                ranges_within(rs, views.len() as int),
                visible@.map_values(|s: String| s@) == area_visible_lines(
                    views,
                    rs,
                    top as int,
                    count as int,
                    width as int,
                    off as int,
                ).take(k as int),
            decreases count - k,
        {
            proof {
                assert(rs[top + k] == (ranges@[top + k].0 as int, ranges@[top + k].1 as int));
            }
            let (a, b) = ranges[top + k];
            let seg = visible_segment(&gs, &w, a, b, width, off);
            proof {
                let target = area_visible_lines(
                    views,
                    rs,
                    top as int,
                    count as int,
                    width as int,
                    off as int,
                );
                assert(target.take(k + 1) == target.take(k as int).push(target[k as int]));
                assert(visible@.push(seg).map_values(|s: String| s@) == visible@.map_values(
                    |s: String| s@,
                ).push(seg@));
            }
            visible.push(seg);
            k = k + 1;
        }
        proof {
            let target = area_visible_lines(
                views,
                rs,
                top as int,
                count as int,
                width as int,
                off as int,
            );
            assert(target.take(count as int) == target);
            assert(visible@.map_values(|s: String| s@).subrange(0, count as int) == target);
        }
        frame.write_rows(rect, visible.as_slice(), 0, count, style);
        let x = if display >= off {
            display - off
        } else {
            0
        };
        let y = if line >= top {
            line - top
        } else {
            0
        };
        if x >= width || y >= h {
            return None;
        }
        let x16 = x as u16;
        let y16 = y as u16;
        match rect.x.checked_add(x16) {
            Some(px) => match rect.y.checked_add(y16) {
                Some(py) => Some(Position { x: px, y: py }),
                None => None,
            },
            None => None,
        }
    }
}

/// The line ranges closed by a scan follow one another: the first starts at 0, each starts
/// just after the line feed ending the one before, and the open line starts after the last.
proof fn lemma_scan_ranges_adjacent(gs: Seq<Seq<char>>, k: int)
    requires
        0 <= k <= gs.len(),
    ensures
        line_scan_ranges(gs, k).0.len() == 0 ==> line_scan_ranges(gs, k).1 == 0,
        line_scan_ranges(gs, k).0.len() > 0 ==> line_scan_ranges(gs, k).0[0].0 == 0
            && line_scan_ranges(gs, k).1 == line_scan_ranges(gs, k).0.last().1 + 1,
        forall|l: int|
            0 < l < line_scan_ranges(gs, k).0.len() ==> #[trigger] line_scan_ranges(gs, k).0[l].0
                == line_scan_ranges(gs, k).0[l - 1].1 + 1,
    decreases k,
{
    if k > 0 {
        lemma_scan_ranges_adjacent(gs, k - 1);
    }
}

/// The lines' ranges follow one another: the first starts at 0 and each starts just after the
/// end of the one before.
proof fn lemma_line_ranges_adjacent(gs: Seq<Seq<char>>)
    ensures
        line_ranges(gs)[0].0 == 0,
        forall|l: int|
            0 < l < line_ranges(gs).len() ==> #[trigger] line_ranges(gs)[l].0
                == line_ranges(gs)[l - 1].1 + 1,
{
    lemma_scan_ranges_adjacent(gs, gs.len() as int);
    let (rs, start) = line_scan_ranges(gs, gs.len() as int);
    assert forall|l: int| 0 < l < line_ranges(gs).len() implies #[trigger] line_ranges(gs)[l].0
        == line_ranges(gs)[l - 1].1 + 1 by {
        if l < rs.len() {
            assert(rs[l].0 == rs[l - 1].1 + 1);
        }
    }
}

/// Every earlier line ends before a later line starts.
proof fn lemma_earlier_lines_end_before(gs: Seq<Seq<char>>, l: int, line: int)
    requires
        0 <= l < line < line_ranges(gs).len(),
    ensures
        line_ranges(gs)[l].1 < line_ranges(gs)[line].0,
    decreases line - l,
{
    lemma_line_ranges_adjacent(gs);
    lemma_line_ranges_bounds(gs);
    let rs = line_ranges(gs);
    assert(rs[line].0 == rs[line - 1].1 + 1);
    if l < line - 1 {
        lemma_earlier_lines_end_before(gs, l, line - 1);
        assert(rs[line - 1].0 <= rs[line - 1].1);
    }
}

/// The first cluster of a line is found on that line, at column 0.
proof fn lemma_locate_line_start(gs: Seq<Seq<char>>, line: int, l: int)
    requires
        0 <= l <= line < line_ranges(gs).len(),
    ensures
        locate_from(line_ranges(gs), line_ranges(gs)[line].0, l) == (line, 0int),
    decreases line - l,
{
    lemma_line_ranges_bounds(gs);
    let rs = line_ranges(gs);
    if l < line {
        lemma_earlier_lines_end_before(gs, l, line);
        lemma_locate_line_start(gs, line, l + 1);
    } else {
        assert(rs[line].0 <= rs[line].1);
    }
}

/// Home keeps the text and the cursor's line, and puts the cursor at the line's first cluster:
/// afterwards the cursor's column is 0. It reports a change exactly when the cursor moved.
pub proof fn lemma_home_goes_to_line_start(m: AreaState)
    ensures
        ({
            let (after, r) = area_key(m, KeyEvent::spec_plain(KeyCode::Home));
            &&& after.text == m.text
            &&& area_location(after).0 == area_location(m).0
            &&& area_location(after).1 == 0
            &&& r == (after.cursor != m.cursor)
            &&& r ==> after.preferred_column is None
        }),
{
    let gs = grapheme_clusters(m.text);
    let rs = line_ranges(gs);
    lemma_line_ranges_bounds(gs);
    let c = if m.cursor < gs.len() {
        m.cursor
    } else {
        gs.len() as int
    };
    lemma_locate_in_range(rs, c, 0);
    let line = area_location(m).0;
    assert(0 <= rs[line].0 <= gs.len());
    lemma_locate_line_start(gs, line, 0);
}

/// Every line closed by a scan ends at a lone line-feed cluster.
proof fn lemma_scan_ranges_end_at_newline(gs: Seq<Seq<char>>, k: int)
    requires
        0 <= k <= gs.len(),
    ensures
        forall|l: int|
            0 <= l < line_scan_ranges(gs, k).0.len() ==> #[trigger] line_scan_ranges(gs, k).0[l].1
                < k && newline_cluster(gs[line_scan_ranges(gs, k).0[l].1]),
    decreases k,
{
    if k > 0 {
        lemma_scan_ranges_end_at_newline(gs, k - 1);
        let (rs, start) = line_scan_ranges(gs, k - 1);
        let now = line_scan_ranges(gs, k).0;
        assert forall|l: int| 0 <= l < now.len() implies #[trigger] now[l].1 < k && newline_cluster(
            gs[now[l].1],
        ) by {
            if l < rs.len() {
                assert(now[l] == rs[l]);
            }
        }
    }
}

/// Each line ends at a lone line feed, except the last, which ends at the end of the text.
proof fn lemma_line_ends(gs: Seq<Seq<char>>, line: int)
    requires
        0 <= line < line_ranges(gs).len(),
    ensures
        line_ranges(gs)[line].1 == gs.len() || (line_ranges(gs)[line].1 < gs.len()
            && newline_cluster(gs[line_ranges(gs)[line].1])),
{
    lemma_scan_ranges_end_at_newline(gs, gs.len() as int);
    let (rs, start) = line_scan_ranges(gs, gs.len() as int);
    if line < rs.len() {
        assert(line_ranges(gs)[line] == rs[line]);
    }
}

/// The cluster just past a line's last is found on that line, at the line's length.
proof fn lemma_locate_line_end(gs: Seq<Seq<char>>, line: int, l: int)
    requires
        0 <= l <= line < line_ranges(gs).len(),
    ensures
        locate_from(line_ranges(gs), line_ranges(gs)[line].1, l) == (line, line_ranges(gs)[line].1
            - line_ranges(gs)[line].0),
    decreases line - l,
{
    lemma_line_ranges_bounds(gs);
    let rs = line_ranges(gs);
    assert(rs[line].0 <= rs[line].1);
    if l < line {
        lemma_earlier_lines_end_before(gs, l, line);
        lemma_locate_line_end(gs, line, l + 1);
    }
}

/// End keeps the text and the cursor's line, and puts the cursor just after the line's last
/// cluster: at the end of the text or on the line feed that ends the line.
pub proof fn lemma_end_goes_to_line_end(m: AreaState)
    ensures
        ({
            let (after, r) = area_key(m, KeyEvent::spec_plain(KeyCode::End));
            let gs = grapheme_clusters(m.text);
            &&& after.text == m.text
            &&& area_location(after).0 == area_location(m).0
            &&& (after.cursor == gs.len() || (0 <= after.cursor < gs.len() && gs[after.cursor]
                == seq!['\n']))
            &&& r == (after.cursor != m.cursor)
            &&& r ==> after.preferred_column is None
        }),
{
    let gs = grapheme_clusters(m.text);
    let rs = line_ranges(gs);
    lemma_line_ranges_bounds(gs);
    let c = if m.cursor < gs.len() {
        m.cursor
    } else {
        gs.len() as int
    };
    lemma_locate_in_range(rs, c, 0);
    let line = area_location(m).0;
    assert(0 <= rs[line].0 <= rs[line].1 <= gs.len());
    lemma_locate_line_end(gs, line, 0);
    lemma_line_ends(gs, line);
}

} // verus!
