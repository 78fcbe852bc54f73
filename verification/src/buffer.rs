use vstd::arithmetic::div_mod::lemma_fundamental_div_mod_converse;
use vstd::prelude::*;

use crate::cell::{Cell, CellKind};
use crate::chars::str_chars;
use crate::geometry::sat_sub16;
use crate::style::Style;
use crate::width::{char_width, unicode_char_width};

verus! {

/// Row-major index of cell `(x, y)` in a grid `w` cells wide.
pub open spec fn idx(w: int, x: int, y: int) -> int {
    y * w + x
}

/// Whether flat index `i` is the first cell of a row.
pub open spec fn row_start(w: int, i: int) -> bool {
    i % w == 0
}

/// Wide-glyph pairing at flat index `i`: a wide lead is followed, in the same row, by its
/// continuation, and a continuation is preceded, in the same row, by its lead.
pub open spec fn pair_ok(cells: Seq<Cell>, w: int, i: int) -> bool {
    &&& cells[i].kind == CellKind::Wide ==> {
        &&& i + 1 < cells.len()
        &&& !row_start(w, i + 1)
        &&& cells[i + 1].kind == CellKind::WideContinuation
    }
    &&& cells[i].kind == CellKind::WideContinuation ==> {
        &&& i >= 1
        &&& !row_start(w, i)
        &&& cells[i - 1].kind == CellKind::Wide
    }
}

/// A grid of `w * h` cells whose wide glyphs are all correctly paired.
pub open spec fn grid_wf(cells: Seq<Cell>, w: int, h: int) -> bool {
    &&& w >= 0
    &&& h >= 0
    &&& cells.len() == w * h
    &&& forall|i: int| 0 <= i < cells.len() ==> #[trigger] pair_ok(cells, w, i)
}

/// The grid after blanking cell `(x, y)` together with the other half of a wide glyph it
/// belongs to.
pub open spec fn clear_partner(cells: Seq<Cell>, w: int, x: int, y: int) -> Seq<Cell> {
    let i = idx(w, x, y);
    let blanked = cells.update(i, Cell::blank());
    match cells[i].kind {
        CellKind::Normal => blanked,
        CellKind::Wide => if x + 1 < w {
            blanked.update(i + 1, Cell::blank())
        } else {
            blanked
        },
        CellKind::WideContinuation => if x > 0 && cells[i - 1].kind == CellKind::Wide {
            blanked.update(i - 1, Cell::blank())
        } else {
            blanked
        },
    }
}

/// The grid after a scalar write of `cell` at `(x, y)`: the partner is cleared and the written
/// cell is normalized to a one-column cell.
pub open spec fn set_grid(cells: Seq<Cell>, w: int, x: int, y: int, cell: Cell) -> Seq<Cell> {
    clear_partner(cells, w, x, y).update(
        idx(w, x, y),
        Cell { character: cell.character, style: cell.style, kind: CellKind::Normal },
    )
}

/// The grid after writing a two-column glyph whose lead is at `(x, y)`.
pub open spec fn wide_grid(cells: Seq<Cell>, w: int, x: int, y: int, c: char, style: Style) -> Seq<
    Cell,
> {
    let i = idx(w, x, y);
    clear_partner(clear_partner(cells, w, x, y), w, x + 1, y).update(
        i,
        Cell { character: c, style, kind: CellKind::Wide },
    ).update(i + 1, Cell { character: ' ', style, kind: CellKind::WideContinuation })
}

/// State while writing a run of text: the grid, the columns written, and whether writing stopped.
pub type RunState = (Seq<Cell>, int, bool);

/// The one-column or two-column width that a character occupies in a buffer (0 when skipped).
pub open spec fn cell_columns(c: char) -> int {
    match unicode_char_width(c) {
        Some(v) => if v == 0 {
            0
        } else if v >= 2 {
            2
        } else {
            1
        },
        None => 0,
    }
}

/// One character of a clipped text write starting at column `x0` of row `y`.
pub open spec fn text_step(
    st: RunState,
    c: char,
    w: int,
    x0: int,
    y: int,
    style: Style,
    available: int,
) -> RunState {
    let width = cell_columns(c);
    if st.2 || width == 0 {
        st
    } else if width > available - st.1 {
        (st.0, st.1, true)
    } else if width == 1 {
        (
            set_grid(st.0, w, x0 + st.1, y, Cell { character: c, style, kind: CellKind::Normal }),
            st.1 + 1,
            false,
        )
    } else if x0 + st.1 + 1 < w {
        (wide_grid(st.0, w, x0 + st.1, y, c, style), st.1 + 2, false)
    } else {
        (st.0, st.1, true)
    }
}

/// The state after writing `chars` one by one.
pub open spec fn text_run(
    cells: Seq<Cell>,
    chars: Seq<char>,
    w: int,
    x0: int,
    y: int,
    style: Style,
    available: int,
) -> RunState
    decreases chars.len(),
{
    if chars.len() == 0 {
        (cells, 0, false)
    } else {
        text_step(
            text_run(cells, chars.drop_last(), w, x0, y, style, available),
            chars.last(),
            w,
            x0,
            y,
            style,
            available,
        )
    }
}

/// The columns available to a write at column `x`: the rest of the row, at most `max_width`.
pub open spec fn available_columns(w: int, x: int, max_width: int) -> int {
    if w - x <= max_width {
        w - x
    } else {
        max_width
    }
}

/// The buffer cells after a clipped text write, and the number of columns written.
pub open spec fn clipped_write(
    cells: Seq<Cell>,
    w: int,
    h: int,
    x: int,
    y: int,
    text: Seq<char>,
    style: Style,
    max_width: int,
) -> (Seq<Cell>, int) {
    if y >= h || x >= w {
        (cells, 0)
    } else {
        let st = text_run(cells, text, w, x, y, style, available_columns(w, x, max_width));
        (st.0, st.1)
    }
}

/// The written column count never exceeds the columns available, and the grid stays well formed.
pub proof fn lemma_text_run_bounds(
    cells: Seq<Cell>,
    chars: Seq<char>,
    w: int,
    h: int,
    x0: int,
    y: int,
    style: Style,
    available: int,
)
    requires
        grid_wf(cells, w, h),
        0 <= x0,
        0 <= y < h,
        0 <= available,
        x0 + available <= w,
    ensures
        0 <= text_run(cells, chars, w, x0, y, style, available).1 <= available,
        grid_wf(text_run(cells, chars, w, x0, y, style, available).0, w, h),
    decreases chars.len(),
{
    if chars.len() > 0 {
        lemma_text_run_bounds(cells, chars.drop_last(), w, h, x0, y, style, available);
        let st = text_run(cells, chars.drop_last(), w, x0, y, style, available);
        let width = cell_columns(chars.last());
        if !st.2 && width != 0 && width <= available - st.1 {
            if width == 1 {
                lemma_set_grid_wf(
                    st.0,
                    w,
                    h,
                    x0 + st.1,
                    y,
                    Cell { character: chars.last(), style, kind: CellKind::Normal },
                );
            } else if x0 + st.1 + 1 < w {
                lemma_wide_grid_wf(st.0, w, h, x0 + st.1, y, chars.last(), style);
            }
        }
    }
}

/// The cell of `previous` at `(x, y)`, if there is a previous buffer and it covers that cell.
pub open spec fn previous_cell(previous: Option<&Buffer>, x: int, y: int) -> Option<Cell> {
    match previous {
        Some(b) => if b.in_bounds(x, y) {
            Some(b.cell_at(x, y))
        } else {
            None
        },
        None => None,
    }
}

/// Whether there is no previous buffer or its dimensions differ from `current`.
pub open spec fn is_resized(previous: Option<&Buffer>, current: &Buffer) -> bool {
    match previous {
        Some(b) => b.spec_width() != current.spec_width() || b.spec_height()
            != current.spec_height(),
        None => true,
    }
}

/// Whether cell `(x, y)` belongs in the diff.
pub open spec fn cell_changed(previous: Option<&Buffer>, current: &Buffer, x: int, y: int) -> bool {
    is_resized(previous, current) || previous_cell(previous, x, y) != Some(current.cell_at(x, y))
}

/// The diff entry for `(x, y)`.
pub open spec fn change_entry(previous: Option<&Buffer>, current: &Buffer, x: int, y: int) -> ChangedCell {
    ChangedCell {
        x: x as u16,
        y: y as u16,
        previous: previous_cell(previous, x, y),
        current: current.cell_at(x, y),
    }
}

/// The entries for the first `n` cells of row `y`, left to right.
pub open spec fn row_changes(previous: Option<&Buffer>, current: &Buffer, y: int, n: int) -> Seq<
    ChangedCell,
>
    decreases n,
{
    if n <= 0 {
        Seq::empty()
    } else {
        let before = row_changes(previous, current, y, n - 1);
        if cell_changed(previous, current, n - 1, y) {
            before.push(change_entry(previous, current, n - 1, y))
        } else {
            before
        }
    }
}

/// The entries for the first `m` rows, top to bottom.
pub open spec fn grid_changes(previous: Option<&Buffer>, current: &Buffer, m: int) -> Seq<
    ChangedCell,
>
    decreases m,
{
    if m <= 0 {
        Seq::empty()
    } else {
        grid_changes(previous, current, m - 1) + row_changes(
            previous,
            current,
            m - 1,
            current.spec_width() as int,
        )
    }
}

/// Returns cells that changed from `previous` to `current` in row-major order.
///
/// Passing `None` treats every current cell as changed. A dimension change likewise produces a
/// full current-buffer redraw.
pub fn diff(previous: Option<&Buffer>, current: &Buffer) -> (r: Vec<ChangedCell>)
    requires
        current.wf(),
        previous matches Some(b) ==> b.wf(),
    ensures
        r@ == grid_changes(previous, current, current.spec_height() as int),
{
    let resized = match previous {
        Some(b) => b.width != current.width || b.height != current.height,
        None => true,
    };
    let mut changed: Vec<ChangedCell> = Vec::new();
    let mut y: u16 = 0;
    while y < current.height
        invariant
            y <= current.spec_height(),
            resized == is_resized(previous, current),
            current.wf(),
            previous matches Some(b) ==> b.wf(),
            changed@ == grid_changes(previous, current, y as int),
        decreases current.spec_height() - y,
    {
        let mut x: u16 = 0;
        let ghost before = changed@;
        while x < current.width
            invariant
                x <= current.spec_width(),
                y < current.spec_height(),
                resized == is_resized(previous, current),
                current.wf(),
                previous matches Some(b) ==> b.wf(),
                before == grid_changes(previous, current, y as int),
                changed@ == before + row_changes(previous, current, y as int, x as int),
            decreases current.spec_width() - x,
        {
            let current_cell = match current.get(x, y) {
                Some(c) => *c,
                None => {
                    proof {
                        assert(false);
                    }
                    Cell::new(' ', Style::new())
                },
            };
            let previous_cell: Option<Cell> = match previous {
                Some(b) => match b.get(x, y) {
                    Some(c) => Some(*c),
                    None => None,
                },
                None => None,
            };
            let differs = match previous_cell {
                Some(p) => p != current_cell,
                None => true,
            };
            if resized || differs {
                changed.push(ChangedCell { x, y, previous: previous_cell, current: current_cell });
            }
            proof {
                assert(changed@ == before + row_changes(previous, current, y as int, x + 1));
            }
            x = x + 1;
        }
        y = y + 1;
    }
    changed
}

/// Distinct in-bounds cells have distinct flat indices.
pub proof fn lemma_idx_injective(w: int, x1: int, y1: int, x2: int, y2: int)
    requires
        0 <= x1 < w,
        0 <= x2 < w,
        0 <= y1,
        0 <= y2,
        idx(w, x1, y1) == idx(w, x2, y2),
    ensures
        x1 == x2,
        y1 == y2,
{
    lemma_fundamental_div_mod_converse(y1 * w + x1, w, y1, x1);
    lemma_fundamental_div_mod_converse(y2 * w + x2, w, y2, x2);
}

/// A scalar write at `(x, y)` leaves every other one-column cell untouched, and every other cell
/// either untouched or blank.
pub proof fn lemma_set_keeps_other_cells(
    cells: Seq<Cell>,
    w: int,
    h: int,
    x: int,
    y: int,
    cell: Cell,
    x2: int,
    y2: int,
)
    requires
        grid_wf(cells, w, h),
        0 <= x < w,
        0 <= y < h,
        0 <= x2 < w,
        0 <= y2 < h,
        x2 != x || y2 != y,
    ensures
        cells[idx(w, x2, y2)].kind == CellKind::Normal ==> set_grid(cells, w, x, y, cell)[idx(
            w,
            x2,
            y2,
        )] == cells[idx(w, x2, y2)],
        set_grid(cells, w, x, y, cell)[idx(w, x2, y2)] == cells[idx(w, x2, y2)] || set_grid(
            cells,
            w,
            x,
            y,
            cell,
        )[idx(w, x2, y2)] == Cell::blank(),
{
    let i = idx(w, x, y);
    let j = idx(w, x2, y2);
    lemma_idx_bounds(w, h, x, y);
    lemma_idx_bounds(w, h, x2, y2);
    if i == j {
        lemma_idx_injective(w, x, y, x2, y2);
    }
    assert(pair_ok(cells, w, i));
}

/// A scalar write at `(x, y)` changes another cell only when that cell is the other half of a
/// wide glyph at `(x, y)`: the lead just left of it, or the continuation just right of it.
pub proof fn lemma_set_changes_only_partner(
    cells: Seq<Cell>,
    w: int,
    h: int,
    x: int,
    y: int,
    cell: Cell,
    x2: int,
    y2: int,
)
    requires
        grid_wf(cells, w, h),
        0 <= x < w,
        0 <= y < h,
        0 <= x2 < w,
        0 <= y2 < h,
        x2 != x || y2 != y,
    ensures
        set_grid(cells, w, x, y, cell)[idx(w, x2, y2)] == cells[idx(w, x2, y2)] || (set_grid(
            cells,
            w,
            x,
            y,
            cell,
        )[idx(w, x2, y2)] == Cell::blank() && y2 == y && ((cells[idx(w, x2, y2)].kind
            == CellKind::Wide && x2 + 1 == x) || (cells[idx(w, x2, y2)].kind
            == CellKind::WideContinuation && x2 == x + 1))),
{
    let i = idx(w, x, y);
    let j = idx(w, x2, y2);
    lemma_set_keeps_other_cells(cells, w, h, x, y, cell, x2, y2);
    lemma_idx_bounds(w, h, x, y);
    lemma_idx_bounds(w, h, x2, y2);
    assert(pair_ok(cells, w, i));
    let r = set_grid(cells, w, x, y, cell);
    if i == j {
        lemma_idx_injective(w, x, y, x2, y2);
    }
    if x + 1 < w {
        lemma_idx_bounds(w, h, x + 1, y);
    }
    if r[j] != cells[j] {
        assert(r[j] == clear_partner(cells, w, x, y)[j]);
        if cells[i].kind == CellKind::Wide {
            assert(j == i + 1 && x + 1 < w);
            lemma_idx_injective(w, x + 1, y, x2, y2);
        } else {
            assert(cells[i].kind == CellKind::WideContinuation);
            assert(j == i - 1 && x > 0);
            lemma_idx_injective(w, x - 1, y, x2, y2);
        }
    }
}

/// A scalar write is read back: after `set(x, y, cell)` on an in-bounds cell, the cell at
/// `(x, y)` holds the written character and style as a one-column cell, and every cell outside
/// the target and its two row neighbours is unchanged.
pub proof fn lemma_set_then_get(cells: Seq<Cell>, w: int, h: int, x: int, y: int, cell: Cell)
    requires
        grid_wf(cells, w, h),
        0 <= x < w,
        0 <= y < h,
    ensures
        set_grid(cells, w, x, y, cell)[idx(w, x, y)] == (Cell {
            character: cell.character,
            style: cell.style,
            kind: CellKind::Normal,
        }),
        forall|j: int|
            0 <= j < w * h && j != idx(w, x, y) && j != idx(w, x, y) - 1 && j != idx(w, x, y) + 1
                ==> #[trigger] set_grid(cells, w, x, y, cell)[j] == cells[j],
        grid_wf(set_grid(cells, w, x, y, cell), w, h),
{
    lemma_clear_partner_wf(cells, w, h, x, y);
    lemma_idx_bounds(w, h, x, y);
    lemma_set_grid_wf(cells, w, h, x, y, cell);
}

proof fn lemma_row_changes_shape(previous: Option<&Buffer>, current: &Buffer, y: int, n: int)
    requires
        0 <= y < current.spec_height(),
        0 <= n <= current.spec_width(),
    ensures
        forall|k: int|
            0 <= k < row_changes(previous, current, y, n).len() ==> {
                let e = #[trigger] row_changes(previous, current, y, n)[k];
                &&& e.x < n
                &&& e.y == y
                &&& cell_changed(previous, current, e.x as int, y)
                &&& e == change_entry(previous, current, e.x as int, y)
            },
        forall|x: int|
            0 <= x < n && cell_changed(previous, current, x, y) ==> exists|k: int|
                0 <= k < row_changes(previous, current, y, n).len() && #[trigger] row_changes(
                    previous,
                    current,
                    y,
                    n,
                )[k] == change_entry(previous, current, x, y),
        is_resized(previous, current) ==> row_changes(previous, current, y, n).len() == n,
    decreases n,
{
    if n > 0 {
        lemma_row_changes_shape(previous, current, y, n - 1);
        let before = row_changes(previous, current, y, n - 1);
        let after = row_changes(previous, current, y, n);
        assert forall|x: int|
            0 <= x < n && cell_changed(previous, current, x, y) implies exists|k: int|
                0 <= k < after.len() && #[trigger] after[k] == change_entry(
                    previous,
                    current,
                    x,
                    y,
                ) by {
            if x < n - 1 {
                let k = choose|k: int|
                    0 <= k < before.len() && #[trigger] before[k] == change_entry(
                        previous,
                        current,
                        x,
                        y,
                    );
                assert(after[k] == before[k]);
            } else {
                assert(after[before.len() as int] == change_entry(previous, current, x, y));
            }
        }
    }
}

/// The diff lists exactly the changed cells: every entry is an in-bounds cell that changed,
/// carrying its previous and current contents, and every changed cell has an entry. So applying
/// the entries of `diff(previous, current)` to `previous` reproduces `current`.
pub proof fn lemma_diff_exact(previous: Option<&Buffer>, current: &Buffer, m: int)
    requires
        0 <= m <= current.spec_height(),
    ensures
        forall|k: int|
            0 <= k < grid_changes(previous, current, m).len() ==> {
                let e = #[trigger] grid_changes(previous, current, m)[k];
                &&& e.x < current.spec_width()
                &&& e.y < m
                &&& cell_changed(previous, current, e.x as int, e.y as int)
                &&& e == change_entry(previous, current, e.x as int, e.y as int)
            },
        forall|x: int, y: int|
            0 <= x < current.spec_width() && 0 <= y < m && cell_changed(previous, current, x, y)
                ==> exists|k: int|
                0 <= k < grid_changes(previous, current, m).len() && #[trigger] grid_changes(
                    previous,
                    current,
                    m,
                )[k] == change_entry(previous, current, x, y),
    decreases m,
{
    if m > 0 {
        lemma_diff_exact(previous, current, m - 1);
        lemma_row_changes_shape(previous, current, m - 1, current.spec_width() as int);
        let before = grid_changes(previous, current, m - 1);
        let row = row_changes(previous, current, m - 1, current.spec_width() as int);
        let after = grid_changes(previous, current, m);
        assert(after == before + row);
        assert forall|k: int| 0 <= k < after.len() implies {
            let e = #[trigger] after[k];
            &&& e.x < current.spec_width()
            &&& e.y < m
            &&& cell_changed(previous, current, e.x as int, e.y as int)
            &&& e == change_entry(previous, current, e.x as int, e.y as int)
        } by {
            if k < before.len() {
                assert(after[k] == before[k]);
            } else {
                assert(after[k] == row[k - before.len()]);
            }
        }
        assert forall|x: int, y: int|
            0 <= x < current.spec_width() && 0 <= y < m && cell_changed(
                previous,
                current,
                x,
                y,
            ) implies exists|k: int|
            0 <= k < after.len() && #[trigger] after[k] == change_entry(previous, current, x, y) by {
            if y < m - 1 {
                let k = choose|k: int|
                    0 <= k < before.len() && #[trigger] before[k] == change_entry(
                        previous,
                        current,
                        x,
                        y,
                    );
                assert(after[k] == before[k]);
            } else {
                let k = choose|k: int|
                    0 <= k < row.len() && #[trigger] row[k] == change_entry(
                        previous,
                        current,
                        x,
                        y,
                    );
                assert(after[before.len() + k] == row[k]);
            }
        }
    }
}

proof fn lemma_row_changes_same(b: &Buffer, y: int, n: int)
    requires
        b.wf(),
        0 <= y < b.spec_height(),
        0 <= n <= b.spec_width(),
    ensures
        row_changes(Some(b), b, y, n).len() == 0,
    decreases n,
{
    if n > 0 {
        lemma_row_changes_same(b, y, n - 1);
    }
}

/// Diffing a buffer against itself reports no change.
pub proof fn lemma_diff_same_is_empty(b: &Buffer, m: int)
    requires
        b.wf(),
        0 <= m <= b.spec_height(),
    ensures
        grid_changes(Some(b), b, m).len() == 0,
    decreases m,
{
    if m > 0 {
        lemma_diff_same_is_empty(b, m - 1);
        lemma_row_changes_same(b, m - 1, b.spec_width() as int);
    }
}

/// `cells` with each change's current cell written at the change's position, in order.
pub open spec fn apply_changes(cells: Seq<Cell>, w: int, changes: Seq<ChangedCell>) -> Seq<Cell>
    decreases changes.len(),
{
    if changes.len() == 0 {
        cells
    } else {
        let c = changes.last();
        apply_changes(cells, w, changes.drop_last()).update(idx(w, c.x as int, c.y as int), c.current)
    }
}

/// The cells of `current` before flat index `k` and those of `previous` from it on.
pub open spec fn cells_up_to(previous: Seq<Cell>, current: Seq<Cell>, k: int) -> Seq<Cell> {
    Seq::new(previous.len(), |i: int| if i < k { current[i] } else { previous[i] })
}

proof fn lemma_apply_concat(cells: Seq<Cell>, w: int, a: Seq<ChangedCell>, b: Seq<ChangedCell>)
    ensures
        apply_changes(cells, w, a + b) == apply_changes(apply_changes(cells, w, a), w, b),
    decreases b.len(),
{
    if b.len() == 0 {
        assert(a + b =~= a);
    } else {
        lemma_apply_concat(cells, w, a, b.drop_last());
        assert((a + b).drop_last() =~= a + b.drop_last());
        assert((a + b).last() == b.last());
    }
}

proof fn lemma_apply_row(previous: &Buffer, current: &Buffer, y: int, n: int)
    requires
        previous.wf(),
        current.wf(),
        previous.spec_width() == current.spec_width(),
        previous.spec_height() == current.spec_height(),
        0 <= y < current.spec_height(),
        0 <= n <= current.spec_width(),
    ensures
        apply_changes(
            cells_up_to(previous.cells(), current.cells(), y * current.spec_width()),
            current.spec_width() as int,
            row_changes(Some(previous), current, y, n),
        ) == cells_up_to(previous.cells(), current.cells(), y * current.spec_width() + n),
    decreases n,
{
    let w = current.spec_width() as int;
    let h = current.spec_height() as int;
    let p = previous.cells();
    let c = current.cells();
    if n == 0 {
        assert(cells_up_to(p, c, y * w) =~= cells_up_to(p, c, y * w + 0));
    } else {
        lemma_apply_row(previous, current, y, n - 1);
        let x = n - 1;
        lemma_idx_bounds(w, h, x, y);
        let before = apply_changes(
            cells_up_to(p, c, y * w),
            w,
            row_changes(Some(previous), current, y, n - 1),
        );
        if cell_changed(Some(previous), current, x, y) {
            let e = change_entry(Some(previous), current, x, y);
            let rows = row_changes(Some(previous), current, y, n);
            assert(rows.drop_last() =~= row_changes(Some(previous), current, y, n - 1));
            assert(rows.last() == e);
            assert(e.x as int == x && e.y as int == y);
            assert(apply_changes(cells_up_to(p, c, y * w), w, rows) == before.update(
                idx(w, x, y),
                current.cell_at(x, y),
            ));
        } else {
            assert(p[idx(w, x, y)] == c[idx(w, x, y)]);
        }
        assert(apply_changes(
            cells_up_to(p, c, y * w),
            w,
            row_changes(Some(previous), current, y, n),
        ) =~= cells_up_to(p, c, y * w + n));
    }
}

proof fn lemma_apply_grid(previous: &Buffer, current: &Buffer, m: int)
    requires
        previous.wf(),
        current.wf(),
        previous.spec_width() == current.spec_width(),
        previous.spec_height() == current.spec_height(),
        0 <= m <= current.spec_height(),
    ensures
        apply_changes(
            previous.cells(),
            current.spec_width() as int,
            grid_changes(Some(previous), current, m),
        ) == cells_up_to(previous.cells(), current.cells(), m * current.spec_width()),
    decreases m,
{
    let w = current.spec_width() as int;
    let p = previous.cells();
    let c = current.cells();
    if m == 0 {
        assert(cells_up_to(p, c, 0 * w) =~= p);
    } else {
        lemma_apply_grid(previous, current, m - 1);
        lemma_apply_concat(
            p,
            w,
            grid_changes(Some(previous), current, m - 1),
            row_changes(Some(previous), current, m - 1, w),
        );
        lemma_apply_row(previous, current, m - 1, w);
        assert((m - 1) * w + w == m * w) by (nonlinear_arith);
    }
}

/// Writing every diff entry's current cell over the previous buffer's cells, in order, gives
/// the current buffer's cells, when both buffers have the same size.
pub proof fn lemma_diff_applies(previous: &Buffer, current: &Buffer)
    requires
        previous.wf(),
        current.wf(),
        previous.spec_width() == current.spec_width(),
        previous.spec_height() == current.spec_height(),
    ensures
        apply_changes(
            previous.cells(),
            current.spec_width() as int,
            grid_changes(Some(previous), current, current.spec_height() as int),
        ) == current.cells(),
{
    let w = current.spec_width() as int;
    let h = current.spec_height() as int;
    lemma_apply_grid(previous, current, h);
    assert(h * w == w * h) by (nonlinear_arith);
    assert(cells_up_to(previous.cells(), current.cells(), h * w) =~= current.cells());
}

/// A buffer diffed against itself reports no change.
pub proof fn lemma_diff_of_itself_is_empty(b: &Buffer)
    requires
        b.wf(),
    ensures
        grid_changes(Some(b), b, b.spec_height() as int).len() == 0,
{
    lemma_diff_same_is_empty(b, b.spec_height() as int);
}

/// Without a previous buffer, every cell of the current buffer is reported.
pub proof fn lemma_diff_full_redraw(current: &Buffer, m: int)
    requires
        0 <= m <= current.spec_height(),
    ensures
        grid_changes(None, current, m).len() == m * current.spec_width(),
    decreases m,
{
    if m > 0 {
        lemma_diff_full_redraw(current, m - 1);
        lemma_row_changes_shape(None, current, m - 1, current.spec_width() as int);
        assert(is_resized(None, current));
        assert(grid_changes(None, current, m) == grid_changes(None, current, m - 1) + row_changes(
            None,
            current,
            m - 1,
            current.spec_width() as int,
        ));
        assert((m - 1) * current.spec_width() + current.spec_width() == m * current.spec_width())
            by (nonlinear_arith);
    } else {
        assert(m * current.spec_width() == 0) by (nonlinear_arith)
            requires
                m == 0,
        ;
    }
}

/// Terminal-sized cell storage used by frames and the runtime.
///
/// A buffer preserves wide-character lead/continuation cells and clips writes to its bounds.
#[derive(Clone, Debug, PartialEq, Eq)]
pub struct Buffer {
    width: u16,
    height: u16,
    cells: Vec<Cell>,
}

/// One changed cell in deterministic row-major diff order.
#[derive(Clone, Copy, Debug, PartialEq, Eq, Structural)]
pub struct ChangedCell {
    pub x: u16,
    pub y: u16,
    pub previous: Option<Cell>,
    pub current: Cell,
}

pub proof fn lemma_idx_bounds(w: int, h: int, x: int, y: int)
    requires
        0 <= x < w,
        0 <= y < h,
    ensures
        0 <= idx(w, x, y),
        idx(w, x, y) < w * h,
        idx(w, x, y) + 1 <= w * h,
{
    assert(y * w + x < w * h) by (nonlinear_arith)
        requires
            0 <= x < w,
            0 <= y < h,
    ;
    assert(0 <= y * w) by (nonlinear_arith)
        requires
            0 <= y,
            0 <= w,
    ;
}

pub proof fn lemma_area_fits(w: int, h: int)
    requires
        0 <= w <= 0xffff,
        0 <= h <= 0xffff,
    ensures
        w * h <= 0xfffe0001,
        w * h <= usize::MAX,
{
    assert(w * h <= 0xffff * 0xffff) by (nonlinear_arith)
        requires
            0 <= w <= 0xffff,
            0 <= h <= 0xffff,
    ;
}

pub proof fn lemma_row_start(w: int, x: int, y: int)
    requires
        0 <= x < w,
        0 <= y,
    ensures
        row_start(w, idx(w, x, y)) == (x == 0),
        row_start(w, idx(w, x, y) + 1) == (x + 1 == w),
{
    lemma_fundamental_div_mod_converse(y * w + x, w, y, x);
    if x + 1 < w {
        lemma_fundamental_div_mod_converse(y * w + x + 1, w, y, x + 1);
    } else {
        assert((y + 1) * w == y * w + w) by (nonlinear_arith);
        lemma_fundamental_div_mod_converse(y * w + x + 1, w, y + 1, 0);
    }
}

/// Clearing a cell together with its partner keeps a well-formed grid well formed, and leaves
/// no neighbouring glyph half that points at the cleared cell.
pub proof fn lemma_clear_partner_wf(cells: Seq<Cell>, w: int, h: int, x: int, y: int)
    requires
        grid_wf(cells, w, h),
        0 <= x < w,
        0 <= y < h,
    ensures
        grid_wf(clear_partner(cells, w, x, y), w, h),
        clear_partner(cells, w, x, y)[idx(w, x, y)] == Cell::blank(),
        idx(w, x, y) >= 1 ==> clear_partner(cells, w, x, y)[idx(w, x, y) - 1].kind
            != CellKind::Wide || row_start(w, idx(w, x, y)),
        idx(w, x, y) + 1 < w * h ==> clear_partner(cells, w, x, y)[idx(w, x, y) + 1].kind
            != CellKind::WideContinuation || row_start(w, idx(w, x, y) + 1),
        forall|j: int|
            0 <= j < w * h && j != idx(w, x, y) && j != idx(w, x, y) - 1 && j != idx(w, x, y) + 1
                ==> #[trigger] clear_partner(cells, w, x, y)[j] == cells[j],
{
    let i = idx(w, x, y);
    lemma_idx_bounds(w, h, x, y);
    lemma_row_start(w, x, y);
    let n = clear_partner(cells, w, x, y);
    assert(pair_ok(cells, w, i));
    if i >= 1 {
        assert(pair_ok(cells, w, i - 1));
    }
    if i + 1 < w * h {
        assert(pair_ok(cells, w, i + 1));
    }
    assert forall|j: int| 0 <= j < n.len() implies #[trigger] pair_ok(n, w, j) by {
        assert(pair_ok(cells, w, j));
        if j >= 1 {
            assert(pair_ok(cells, w, j - 1));
        }
        if j + 1 < n.len() {
            assert(pair_ok(cells, w, j + 1));
        }
    }
}

/// A scalar write keeps a well-formed grid well formed.
pub proof fn lemma_set_grid_wf(cells: Seq<Cell>, w: int, h: int, x: int, y: int, cell: Cell)
    requires
        grid_wf(cells, w, h),
        0 <= x < w,
        0 <= y < h,
    ensures
        grid_wf(set_grid(cells, w, x, y, cell), w, h),
{
    let i = idx(w, x, y);
    lemma_clear_partner_wf(cells, w, h, x, y);
    lemma_idx_bounds(w, h, x, y);
    let c = clear_partner(cells, w, x, y);
    let n = set_grid(cells, w, x, y, cell);
    assert forall|j: int| 0 <= j < n.len() implies #[trigger] pair_ok(n, w, j) by {
        assert(pair_ok(c, w, j));
        if j >= 1 {
            assert(pair_ok(c, w, j - 1));
        }
        if j + 1 < n.len() {
            assert(pair_ok(c, w, j + 1));
        }
    }
}

/// Writing a wide glyph whose two columns fit in the row keeps a well-formed grid well formed.
pub proof fn lemma_wide_grid_wf(
    cells: Seq<Cell>,
    w: int,
    h: int,
    x: int,
    y: int,
    c: char,
    style: Style,
)
    requires
        grid_wf(cells, w, h),
        0 <= x,
        x + 1 < w,
        0 <= y < h,
    ensures
        grid_wf(wide_grid(cells, w, x, y, c, style), w, h),
{
    let i = idx(w, x, y);
    lemma_clear_partner_wf(cells, w, h, x, y);
    let c1 = clear_partner(cells, w, x, y);
    lemma_clear_partner_wf(c1, w, h, x + 1, y);
    let c2 = clear_partner(c1, w, x + 1, y);
    lemma_idx_bounds(w, h, x + 1, y);
    lemma_row_start(w, x, y);
    lemma_row_start(w, x + 1, y);
    assert(idx(w, x + 1, y) == i + 1);
    let n = wide_grid(cells, w, x, y, c, style);
    assert(pair_ok(c1, w, i));
    assert(c2[i - 1] == c1[i - 1] || i == 0);
    assert forall|j: int| 0 <= j < n.len() implies #[trigger] pair_ok(n, w, j) by {
        assert(pair_ok(c2, w, j));
        if j >= 1 {
            assert(pair_ok(c2, w, j - 1));
        }
        if j + 1 < n.len() {
            assert(pair_ok(c2, w, j + 1));
        }
    }
}

impl Buffer {
    pub closed spec fn spec_width(&self) -> u16 {
        self.width
    }

    pub closed spec fn spec_height(&self) -> u16 {
        self.height
    }

    /// The cells in row-major order.
    pub closed spec fn cells(&self) -> Seq<Cell> {
        self.cells@
    }

    /// The cell count matches the dimensions and every wide glyph is paired.
    pub open spec fn wf(&self) -> bool {
        grid_wf(self.cells(), self.spec_width() as int, self.spec_height() as int)
    }

    pub open spec fn in_bounds(&self, x: int, y: int) -> bool {
        0 <= x < self.spec_width() && 0 <= y < self.spec_height()
    }

    /// The cell at column `x` of row `y`.
    pub open spec fn cell_at(&self, x: int, y: int) -> Cell {
        self.cells()[idx(self.spec_width() as int, x, y)]
    }

    pub fn new(width: u16, height: u16) -> (b: Self)
        ensures
            b.wf(),
            b.spec_width() == width,
            b.spec_height() == height,
            forall|i: int| 0 <= i < b.cells().len() ==> #[trigger] b.cells()[i] == Cell::blank(),
    {
        proof {
            lemma_area_fits(width as int, height as int);
        }
        let n = (width as usize) * (height as usize);
        let mut cells: Vec<Cell> = Vec::new();
        let mut k: usize = 0;
        while k < n
            invariant
                k <= n,
                cells@.len() == k,
                forall|i: int| 0 <= i < k ==> #[trigger] cells@[i] == Cell::blank(),
            decreases n - k,
        {
            cells.push(Cell::default());
            k = k + 1;
        }
        let b = Buffer { width, height, cells };
        assert forall|i: int| 0 <= i < b.cells().len() implies #[trigger] pair_ok(
            b.cells(),
            width as int,
            i,
        ) by {
            assert(b.cells()[i] == Cell::blank());
        }
        b
    }

    pub fn width(&self) -> (w: u16)
        ensures
            w == self.spec_width(),
    {
        self.width
    }

    pub fn height(&self) -> (h: u16)
        ensures
            h == self.spec_height(),
    {
        self.height
    }

    fn index(&self, x: u16, y: u16) -> (r: Option<usize>)
        requires
            self.wf(),
        ensures
            r == (if self.in_bounds(x as int, y as int) {
                Some(idx(self.spec_width() as int, x as int, y as int) as usize)
            } else {
                None
            }),
            r matches Some(i) ==> i < self.cells().len() && i as int == idx(
                self.spec_width() as int,
                x as int,
                y as int,
            ),
    {
        if x < self.width && y < self.height {
            proof {
                lemma_idx_bounds(self.width as int, self.height as int, x as int, y as int);
                lemma_area_fits(self.width as int, self.height as int);
            }
            Some((y as usize) * (self.width as usize) + (x as usize))
        } else {
            None
        }
    }

    /// Returns the cell at `(x, y)`, or `None` outside the buffer.
    pub fn get(&self, x: u16, y: u16) -> (r: Option<&Cell>)
        requires
            self.wf(),
        ensures
            r == (if self.in_bounds(x as int, y as int) {
                Some(&self.cell_at(x as int, y as int))
            } else {
                None
            }),
    {
        match self.index(x, y) {
            Some(i) => Some(&self.cells[i]),
            None => None,
        }
    }

    fn clear_cell_and_partner(&mut self, x: u16, y: u16)
        requires
            old(self).wf(),
            old(self).in_bounds(x as int, y as int),
        ensures
            final(self).wf(),
            final(self).spec_width() == old(self).spec_width(),
            final(self).spec_height() == old(self).spec_height(),
            final(self).cells() == clear_partner(
                old(self).cells(),
                old(self).spec_width() as int,
                x as int,
                y as int,
            ),
    {
        proof {
            lemma_clear_partner_wf(
                self.cells@,
                self.width as int,
                self.height as int,
                x as int,
                y as int,
            );
            lemma_idx_bounds(self.width as int, self.height as int, x as int, y as int);
            lemma_area_fits(self.width as int, self.height as int);
            if x + 1 < self.width {
                lemma_idx_bounds(self.width as int, self.height as int, x + 1, y as int);
            }
        }
        let index = (y as usize) * (self.width as usize) + (x as usize);
        let kind = self.cells[index].kind;
        self.cells.set(index, Cell::default());
        match kind {
            CellKind::Normal => {},
            CellKind::Wide => {
                if x < self.width - 1 {
                    self.cells.set(index + 1, Cell::default());
                }
            },
            CellKind::WideContinuation => {
                if x > 0 {
                    if self.cells[index - 1].kind == CellKind::Wide {
                        self.cells.set(index - 1, Cell::default());
                    }
                }
            },
        }
    }

    /// Replaces one in-bounds cell and returns whether the coordinate existed.
    ///
    /// This is a scalar-cell write: it normalizes `cell.kind` to [`CellKind::Normal`] and repairs
    /// any wide-cell partner at the target.
    pub fn set(&mut self, x: u16, y: u16, cell: Cell) -> (r: bool)
        requires
            old(self).wf(),
        ensures
            final(self).wf(),
            r == old(self).in_bounds(x as int, y as int),
            final(self).spec_width() == old(self).spec_width(),
            final(self).spec_height() == old(self).spec_height(),
            final(self).cells() == (if r {
                set_grid(old(self).cells(), old(self).spec_width() as int, x as int, y as int, cell)
            } else {
                old(self).cells()
            }),
    {
        match self.index(x, y) {
            None => false,
            Some(index) => {
                proof {
                    lemma_set_grid_wf(
                        self.cells@,
                        self.width as int,
                        self.height as int,
                        x as int,
                        y as int,
                        cell,
                    );
                }
                self.clear_cell_and_partner(x, y);
                self.cells.set(index, Cell::new(cell.character, cell.style));
                true
            },
        }
    }

    fn write_wide(&mut self, x: u16, y: u16, character: char, style: Style) -> (r: bool)
        requires
            old(self).wf(),
        ensures
            final(self).wf(),
            r == (old(self).in_bounds(x as int, y as int) && old(self).in_bounds(
                x + 1,
                y as int,
            )),
            final(self).spec_width() == old(self).spec_width(),
            final(self).spec_height() == old(self).spec_height(),
            final(self).cells() == (if r {
                wide_grid(
                    old(self).cells(),
                    old(self).spec_width() as int,
                    x as int,
                    y as int,
                    character,
                    style,
                )
            } else {
                old(self).cells()
            }),
    {
        if x == u16::MAX {
            return false;
        }
        let continuation_x = x + 1;
        let index = match self.index(x, y) {
            Some(i) => i,
            None => {
                return false;
            },
        };
        let continuation_index = match self.index(continuation_x, y) {
            Some(i) => i,
            None => {
                return false;
            },
        };
        proof {
            lemma_wide_grid_wf(
                self.cells@,
                self.width as int,
                self.height as int,
                x as int,
                y as int,
                character,
                style,
            );
        }
        self.clear_cell_and_partner(x, y);
        self.clear_cell_and_partner(continuation_x, y);
        self.cells.set(index, Cell::wide(character, style));
        self.cells.set(continuation_index, Cell::continuation(style));
        true
    }


    /// Writes by Unicode scalar display width starting at `(x, y)`, clipped to the row; returns
    /// the columns written. Zero-width and control scalars are skipped.
    pub fn write_text(&mut self, x: u16, y: u16, text: &str, style: Style) -> (r: usize)
        requires
            old(self).wf(),
        ensures
            final(self).wf(),
            final(self).spec_width() == old(self).spec_width(),
            final(self).spec_height() == old(self).spec_height(),
            (final(self).cells(), r as int) == clipped_write(
                old(self).cells(),
                old(self).spec_width() as int,
                old(self).spec_height() as int,
                x as int,
                y as int,
                text@,
                style,
                sat_sub16(old(self).spec_width() as int, x as int) as int,
            ),
            r <= sat_sub16(old(self).spec_width() as int, x as int),
    {
        let max_width = self.width.saturating_sub(x);
        self.write_text_clipped(x, y, text, style, max_width)
    }

    pub(crate) fn write_text_clipped(
        &mut self,
        x: u16,
        y: u16,
        text: &str,
        style: Style,
        max_width: u16,
    ) -> (r: usize)
        requires
            old(self).wf(),
        ensures
            final(self).wf(),
            final(self).spec_width() == old(self).spec_width(),
            final(self).spec_height() == old(self).spec_height(),
            (final(self).cells(), r as int) == clipped_write(
                old(self).cells(),
                old(self).spec_width() as int,
                old(self).spec_height() as int,
                x as int,
                y as int,
                text@,
                style,
                max_width as int,
            ),
            r <= max_width,
    {
        if y >= self.height || x >= self.width {
            return 0;
        }
        let rest = self.width - x;
        let available = if rest <= max_width {
            rest
        } else {
            max_width
        };
        let chars = str_chars(text);
        let ghost w = self.width as int;
        let ghost h = self.height as int;
        let ghost cells0 = self.cells@;
        let mut written: u16 = 0;
        let mut i: usize = 0;
        let mut stopped = false;
        while i < chars.len()
            invariant
                0 <= i <= chars@.len(),
                self.width as int == w,
                self.height as int == h,
                (y as int) < h,
                (x as int) < w,
                x + available <= w,
                available <= max_width,
                self.wf(),
                (self.cells@, written as int, stopped) == text_run(
                    cells0,
                    chars@.take(i as int),
                    w,
                    x as int,
                    y as int,
                    style,
                    available as int,
                ),
                written <= available,
                grid_wf(cells0, w, h),
            decreases chars@.len() - i,
        {
            let character = chars[i];
            proof {
                assert(chars@.take(i + 1).drop_last() == chars@.take(i as int));
                assert(chars@.take(i + 1).last() == character);
            }
            if !stopped {
                let cw = match char_width(character) {
                    Some(v) => v,
                    None => 0,
                };
                if cw != 0 {
                    let width: u16 = if cw >= 2 {
                        2
                    } else {
                        1
                    };
                    if width > available - written {
                        stopped = true;
                    } else {
                        let cursor = x + written;
                        if width == 1 {
                            self.set(cursor, y, Cell::new(character, style));
                            written = written + 1;
                        } else if self.write_wide(cursor, y, character, style) {
                            written = written + 2;
                        } else {
                            stopped = true;
                        }
                    }
                }
            }
            i = i + 1;
        }
        proof {
            assert(chars@.take(chars@.len() as int) == chars@);
            assert(chars@ == text@);
        }
        written as usize
    }

    /// Resets every cell to a blank cell.
    pub fn clear(&mut self)
        requires
            old(self).wf(),
        ensures
            final(self).wf(),
            final(self).spec_width() == old(self).spec_width(),
            final(self).spec_height() == old(self).spec_height(),
            final(self).cells().len() == old(self).cells().len(),
            forall|i: int|
                0 <= i < final(self).cells().len() ==> #[trigger] final(self).cells()[i]
                    == Cell::blank(),
    {
        let n = self.cells.len();
        let mut k: usize = 0;
        while k < n
            invariant
                k <= n,
                n == self.cells@.len(),
                self.cells@.len() == old(self).cells@.len(),
                self.width == old(self).width,
                self.height == old(self).height,
                forall|i: int| 0 <= i < k ==> #[trigger] self.cells@[i] == Cell::blank(),
            decreases n - k,
        {
            self.cells.set(k, Cell::default());
            k = k + 1;
        }
        assert forall|i: int| 0 <= i < self.cells@.len() implies #[trigger] pair_ok(
            self.cells@,
            self.width as int,
            i,
        ) by {
            assert(self.cells@[i] == Cell::blank());
        }
    }
}

} // verus!
