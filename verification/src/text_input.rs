use vstd::prelude::*;

use crate::chars::{control_char, is_control, push_str, string_views};
use crate::event::{KeyCode, KeyEvent};
use crate::frame::{Frame, write_in};
use crate::geometry::{Position, Rect};
use crate::grapheme::{
    cursor_after_insert, flatten, grapheme_clusters, grapheme_count, graphemes, insert_at_cluster,
    printable_ascii, remove_cluster, text_after_insert, without_cluster,
};
use crate::style::Style;
use crate::width::{display_width, unicode_str_width};

verus! {

/// Display width of each cluster.
pub open spec fn cluster_widths(gs: Seq<Seq<char>>) -> Seq<int> {
    gs.map_values(|g: Seq<char>| unicode_str_width(g) as int)
}

/// Sum of a sequence of widths.
pub open spec fn sum_widths(ws: Seq<int>) -> int
    decreases ws.len(),
{
    if ws.len() == 0 {
        0
    } else {
        sum_widths(ws.drop_last()) + ws.last()
    }
}

/// First cluster shown when the cursor sits after `cursor` clusters of total width `cursor_width`:
/// leading clusters are dropped, starting from `s`, until the cursor column is at most `max_col`.
pub open spec fn scroll_start(ws: Seq<int>, cursor: int, cursor_width: int, max_col: int, s: int) -> int
    decreases cursor - s,
{
    if s < cursor && cursor_width - sum_widths(ws.take(s)) > max_col {
        scroll_start(ws, cursor, cursor_width, max_col, s + 1)
    } else {
        s
    }
}

/// End of the run of clusters from `i` up to `end` that fits in `limit` columns when `used`
/// columns are already taken.
pub open spec fn fit_end(ws: Seq<int>, used: int, limit: int, i: int, end: int) -> int
    decreases end - i,
{
    if 0 <= i < end && i < ws.len() && used + ws[i] <= limit {
        fit_end(ws, used + ws[i], limit, i + 1, end)
    } else {
        i
    }
}

/// The visible text and the cursor column when clusters `gs` of widths `ws` are shown in
/// `width` columns with the cursor before cluster `cursor`: the view scrolls right just enough
/// for the cursor column to stay below `width`, and shows the clusters that fit from there.
pub open spec fn clipped_line(gs: Seq<Seq<char>>, ws: Seq<int>, cursor: int, width: int) -> (
    Seq<char>,
    int,
) {
    if width == 0 {
        (Seq::empty(), 0)
    } else {
        let cur = if cursor < gs.len() {
            cursor
        } else {
            gs.len() as int
        };
        let cw = sum_widths(ws.take(cur));
        let start = scroll_start(ws, cur, cw, width - 1, 0);
        let end = fit_end(ws, 0, width, start, ws.len() as int);
        (flatten(gs.subrange(start, end)), cw - sum_widths(ws.take(start)))
    }
}

/// The visible text and the cursor column of a single-line editor holding `t` with the cursor
/// before cluster `cursor`, in `width` columns.
pub open spec fn input_viewport(t: Seq<char>, cursor: int, width: int) -> (Seq<char>, int) {
    let gs = grapheme_clusters(t);
    clipped_line(gs, cluster_widths(gs), cursor, width)
}

pub proof fn lemma_sum_widths_step(ws: Seq<int>, i: int)
    requires
        0 <= i < ws.len(),
    ensures
        sum_widths(ws.take(i + 1)) == sum_widths(ws.take(i)) + ws[i],
{
    assert(ws.take(i + 1).drop_last() == ws.take(i));
}

/// Prefix sums of non-negative widths grow with the prefix and stay within `len * bound`.
pub proof fn lemma_sum_widths_bounds(ws: Seq<int>, i: int, j: int, bound: int)
    requires
        0 <= i <= j <= ws.len(),
        bound >= 0,
        forall|k: int| 0 <= k < ws.len() ==> 0 <= #[trigger] ws[k] <= bound,
    ensures
        0 <= sum_widths(ws.take(i)) <= sum_widths(ws.take(j)),
        sum_widths(ws.take(j)) <= j * bound,
    decreases j,
{
    if j == 0 {
        assert(ws.take(i) =~= Seq::<int>::empty());
        assert(ws.take(j) =~= Seq::<int>::empty());
    } else if i == j {
        lemma_sum_widths_bounds(ws, i - 1, j - 1, bound);
        lemma_sum_widths_step(ws, j - 1);
        assert(sum_widths(ws.take(j - 1)) + ws[j - 1] <= j * bound) by (nonlinear_arith)
            requires
                sum_widths(ws.take(j - 1)) <= (j - 1) * bound,
                ws[j - 1] <= bound,
        ;
    } else {
        lemma_sum_widths_bounds(ws, i, j - 1, bound);
        lemma_sum_widths_step(ws, j - 1);
        assert(sum_widths(ws.take(j - 1)) + ws[j - 1] <= j * bound) by (nonlinear_arith)
            requires
                sum_widths(ws.take(j - 1)) <= (j - 1) * bound,
                ws[j - 1] <= bound,
        ;
    }
}

/// The display width of each cluster.
pub(crate) fn widths_of(gs: &Vec<String>) -> (w: Vec<usize>)
    ensures
        w@.len() == gs@.len(),
        forall|k: int| 0 <= k < gs@.len() ==> #[trigger] w@[k] as int == cluster_widths(string_views(gs@))[k],
{
    let mut w: Vec<usize> = Vec::new();
    let mut i: usize = 0;
    while i < gs.len()
        invariant
            i <= gs@.len(),
            w@.len() == i,
            forall|k: int| 0 <= k < i ==> #[trigger] w@[k] as int == cluster_widths(string_views(gs@))[k],
        decreases gs@.len() - i,
    {
        let x = display_width(gs[i].as_str());
        w.push(x);
        i = i + 1;
    }
    w
}

/// Sum of the first `n` widths.
pub(crate) fn prefix_width(w: &Vec<usize>, n: usize, Ghost(ws): Ghost<Seq<int>>) -> (r: u128)
    requires
        n <= w@.len(),
        ws.len() == w@.len(),
        forall|k: int| 0 <= k < w@.len() ==> #[trigger] w@[k] as int == ws[k],
    ensures
        r == sum_widths(ws.take(n as int)),
{
    let mut total: u128 = 0;
    let mut i: usize = 0;
    while i < n
        invariant
            i <= n <= w@.len(),
            ws.len() == w@.len(),
            forall|k: int| 0 <= k < w@.len() ==> #[trigger] w@[k] as int == ws[k],
            total == sum_widths(ws.take(i as int)),
        decreases n - i,
    {
        proof {
            assert forall|k: int| 0 <= k < ws.len() implies 0 <= #[trigger] ws[k] <= usize::MAX by {
                assert(w@[k] as int == ws[k]);
            }
            lemma_sum_widths_step(ws, i as int);
            lemma_sum_widths_bounds(ws, i + 1, i + 1, usize::MAX as int);
            assert((i + 1) * (usize::MAX as int) <= 0xffff_ffff_ffff_ffff * 0xffff_ffff_ffff_ffff)
                by (nonlinear_arith)
                requires
                    i + 1 <= usize::MAX,
                    usize::MAX <= 0xffff_ffff_ffff_ffff,
            ;
        }
        total = total + w[i] as u128;
        i = i + 1;
    }
    total
}

/// The part of `clusters` shown in `width` columns with the cursor before cluster `cursor`,
/// given the display width of each cluster, and the cursor's column within it.
pub fn clip_line(clusters: &Vec<String>, widths: &Vec<usize>, cursor: usize, width: u16) -> (r:
    InputViewport)
    requires
        widths@.len() == clusters@.len(),
    ensures
        (r.text@, r.cursor_column as int) == clipped_line(
            string_views(clusters@),
            widths@.map_values(|x: usize| x as int),
            cursor as int,
            width as int,
        ),
{
    if width == 0 {
        return InputViewport { text: String::new(), cursor_column: 0 };
    }
    let ghost views = string_views(clusters@);
    let ghost ws = widths@.map_values(|x: usize| x as int);
    let n = clusters.len();
    let cur = if cursor < n {
        cursor
    } else {
        n
    };
    let cw = prefix_width(widths, cur, Ghost(ws));
    let max_col: u128 = (width - 1) as u128;
    let mut start: usize = 0;
    let mut sw: u128 = 0;
    proof {
        assert(ws.take(0) =~= Seq::<int>::empty());
    }
    while start < cur && cw - sw > max_col
        invariant
            start <= cur <= n == widths@.len() == ws.len(),
            forall|k: int| 0 <= k < widths@.len() ==> #[trigger] widths@[k] as int == ws[k],
            cw == sum_widths(ws.take(cur as int)),
            sw == sum_widths(ws.take(start as int)),
            sw <= cw,
            scroll_start(ws, cur as int, cw as int, max_col as int, 0) == scroll_start(
                ws,
                cur as int,
                cw as int,
                max_col as int,
                start as int,
            ),
        decreases cur - start,
    {
        proof {
            assert forall|k: int| 0 <= k < ws.len() implies 0 <= #[trigger] ws[k]
                <= usize::MAX by {
                assert(widths@[k] as int == ws[k]);
            }
            lemma_sum_widths_step(ws, start as int);
            lemma_sum_widths_bounds(ws, start + 1, cur as int, usize::MAX as int);
        }
        sw = sw + widths[start] as u128;
        start = start + 1;
    }
    let limit: u128 = width as u128;
    let mut text = String::new();
    let mut used: u128 = 0;
    let mut i: usize = start;
    proof {
        assert(views.subrange(start as int, start as int) =~= Seq::<Seq<char>>::empty());
    }
    while i < n && used + widths[i] as u128 <= limit
        invariant
            start <= i <= n == widths@.len() == ws.len() == views.len(),
            views == string_views(clusters@),
            forall|k: int| 0 <= k < widths@.len() ==> #[trigger] widths@[k] as int == ws[k],
            used <= limit <= 0xffff,
            text@ == flatten(views.subrange(start as int, i as int)),
            fit_end(ws, 0, limit as int, start as int, n as int) == fit_end(
                ws,
                used as int,
                limit as int,
                i as int,
                n as int,
            ),
        decreases n - i,
    {
        proof {
            assert(views.subrange(start as int, i + 1).drop_last() == views.subrange(
                start as int,
                i as int,
            ));
            assert(views[i as int] == clusters@[i as int]@);
        }
        push_str(&mut text, clusters[i].as_str());
        used = used + widths[i] as u128;
        i = i + 1;
    }
    let column = cw - sw;
    InputViewport { text, cursor_column: column as u16 }
}

/// The clipped text and cursor column returned by [`TextInput::viewport`].
#[derive(Clone, Debug, PartialEq, Eq)]
pub struct InputViewport {
    pub text: String,
    pub cursor_column: u16,
}

/// Text, cursor and result of a key for a single-line editor (text and cursor unchanged when the
/// key is not handled).
pub open spec fn input_key_outcome(t: Seq<char>, cursor: int, key: KeyEvent) -> (
    Seq<char>,
    int,
    bool,
) {
    let count = grapheme_clusters(t).len() as int;
    if key.modifiers.ctrl || key.modifiers.alt {
        (t, cursor, false)
    } else {
        match key.code {
            KeyCode::Char(c) => if !control_char(c) {
                (text_after_insert(t, cursor, c), cursor_after_insert(t, cursor, c), true)
            } else {
                (t, cursor, false)
            },
            KeyCode::Backspace => if cursor == 0 {
                (t, cursor, false)
            } else {
                (without_cluster(t, cursor - 1), cursor - 1, true)
            },
            KeyCode::Delete => if cursor >= count {
                (t, cursor, false)
            } else {
                (without_cluster(t, cursor), cursor, true)
            },
            KeyCode::Left => if cursor == 0 {
                (t, cursor, false)
            } else {
                (t, cursor - 1, true)
            },
            KeyCode::Right => if cursor >= count {
                (t, cursor, false)
            } else {
                (t, cursor + 1, true)
            },
            _ => (t, cursor, false),
        }
    }
}

/// Single-line editor with intrinsic grapheme-safe editing state.
///
/// Edits extended grapheme clusters; terminal emoji widths remain terminal-dependent. Rendering
/// returns the application-owned terminal cursor position rather than managing it automatically.
#[derive(Clone, Debug, PartialEq, Eq)]
pub struct TextInput {
    text: String,
    cursor: usize,
}

impl Default for TextInput {
    fn default() -> (r: Self)
        ensures
            r.text_view() == Seq::<char>::empty(),
            r.cursor_view() == 0,
    {
        TextInput { text: String::new(), cursor: 0 }
    }
}

impl TextInput {
    /// The characters of the text.
    pub closed spec fn text_view(&self) -> Seq<char> {
        self.text@
    }

    /// The cursor as a cluster index.
    pub closed spec fn cursor_view(&self) -> int {
        self.cursor as int
    }

    pub fn new() -> (r: Self)
        ensures
            r.text_view() == Seq::<char>::empty(),
            r.cursor_view() == 0,
    {
        TextInput { text: String::new(), cursor: 0 }
    }

    pub fn text(&self) -> (r: &str)
        ensures
            r@ == self.text_view(),
    {
        self.text.as_str()
    }

    /// Cursor is an extended grapheme-cluster index, never a UTF-8 byte offset.
    pub fn cursor(&self) -> (r: usize)
        ensures
            r == self.cursor_view(),
    {
        self.cursor
    }

    /// Inserts `character` before the cursor's cluster and moves the cursor past it.
    pub fn insert(&mut self, character: char)
        ensures
            final(self).text_view() == text_after_insert(
                old(self).text_view(),
                old(self).cursor_view(),
                character,
            ),
            final(self).cursor_view() == cursor_after_insert(
                old(self).text_view(),
                old(self).cursor_view(),
                character,
            ),
            printable_ascii(old(self).text_view()) && ' ' <= character <= '~' ==> {
                let k = if old(self).cursor_view() < old(self).text_view().len() {
                    old(self).cursor_view()
                } else {
                    old(self).text_view().len() as int
                };
                &&& final(self).text_view() == old(self).text_view().insert(k, character)
                &&& final(self).cursor_view() == k + 1
            },
    {
        let (text, cursor) = insert_at_cluster(self.text.as_str(), self.cursor, character);
        self.text = text;
        self.cursor = cursor;
    }

    /// Removes the cluster before the cursor; false at the start of the text.
    pub fn backspace(&mut self) -> (r: bool)
        ensures
            (final(self).text_view(), final(self).cursor_view(), r) == input_key_outcome(
                old(self).text_view(),
                old(self).cursor_view(),
                KeyEvent::spec_plain(KeyCode::Backspace),
            ),
            printable_ascii(old(self).text_view()) && 0 < old(self).cursor_view()
                <= old(self).text_view().len() ==> {
                &&& r
                &&& final(self).text_view() == old(self).text_view().remove(old(self).cursor_view() - 1)
                &&& final(self).cursor_view() == old(self).cursor_view() - 1
            },
    {
        if self.cursor == 0 {
            return false;
        }
        self.text = remove_cluster(self.text.as_str(), self.cursor - 1);
        self.cursor = self.cursor - 1;
        true
    }

    /// Removes the cluster at the cursor; false at the end of the text.
    pub fn delete(&mut self) -> (r: bool)
        ensures
            (final(self).text_view(), final(self).cursor_view(), r) == input_key_outcome(
                old(self).text_view(),
                old(self).cursor_view(),
                KeyEvent::spec_plain(KeyCode::Delete),
            ),
    {
        if self.cursor >= grapheme_count(self.text.as_str()) {
            return false;
        }
        self.text = remove_cluster(self.text.as_str(), self.cursor);
        true
    }

    /// Moves the cursor one cluster left; false at the start.
    pub fn left(&mut self) -> (r: bool)
        ensures
            (final(self).text_view(), final(self).cursor_view(), r) == input_key_outcome(
                old(self).text_view(),
                old(self).cursor_view(),
                KeyEvent::spec_plain(KeyCode::Left),
            ),
    {
        if self.cursor == 0 {
            return false;
        }
        self.cursor = self.cursor - 1;
        true
    }

    /// Moves the cursor one cluster right; false at the end.
    pub fn right(&mut self) -> (r: bool)
        ensures
            (final(self).text_view(), final(self).cursor_view(), r) == input_key_outcome(
                old(self).text_view(),
                old(self).cursor_view(),
                KeyEvent::spec_plain(KeyCode::Right),
            ),
    {
        if self.cursor >= grapheme_count(self.text.as_str()) {
            return false;
        }
        self.cursor = self.cursor + 1;
        true
    }

    pub fn clear(&mut self)
        ensures
            final(self).text_view() == Seq::<char>::empty(),
            final(self).cursor_view() == 0,
    {
        self.text = String::new();
        self.cursor = 0;
    }

    /// Applies an editing key; returns whether it was handled. Keys with Ctrl or Alt are not.
    pub fn handle_key(&mut self, key: KeyEvent) -> (r: bool)
        ensures
            (final(self).text_view(), final(self).cursor_view(), r) == input_key_outcome(
                old(self).text_view(),
                old(self).cursor_view(),
                key,
            ),
    {
        if key.modifiers.ctrl || key.modifiers.alt {
            return false;
        }
        match key.code {
            KeyCode::Char(character) => {
                if is_control(character) {
                    false
                } else {
                    self.insert(character);
                    true
                }
            },
            KeyCode::Backspace => self.backspace(),
            KeyCode::Delete => self.delete(),
            KeyCode::Left => self.left(),
            KeyCode::Right => self.right(),
            _ => false,
        }
    }

    /// The part of the text shown in `width` columns, scrolled so the cursor stays visible, and
    /// the cursor's column within it.
    pub fn viewport(&self, width: u16) -> (r: InputViewport)
        ensures
            (r.text@, r.cursor_column as int) == input_viewport(
                self.text_view(),
                self.cursor_view(),
                width as int,
            ),
    {
        let gs = graphemes(self.text.as_str());
        let w = widths_of(&gs);
        proof {
            assert(w@.map_values(|x: usize| x as int) =~= cluster_widths(string_views(gs@)));
        }
        clip_line(&gs, &w, self.cursor, width)
    }

    /// Renders the visible part into the first row of `rect`; returns the terminal cursor
    /// position, or `None` for an empty rectangle or a cursor column past `u16::MAX`.
    pub fn render(&self, frame: &mut Frame, rect: Rect, style: Style) -> (r: Option<Position>)
        requires
            old(frame).wf(),
        ensures
            final(frame).wf(),
            final(frame).same_size(old(frame)),
            rect.width == 0 || rect.height == 0 ==> r is None && *final(frame) == *old(frame),
            rect.width > 0 && rect.height > 0 ==> {
                let (vt, col) = input_viewport(
                    self.text_view(),
                    self.cursor_view(),
                    rect.width as int,
                );
                &&& final(frame).spec_buffer().cells() == write_in(
                    old(frame).spec_buffer().cells(),
                    old(frame).spec_width() as int,
                    old(frame).spec_height() as int,
                    rect,
                    0,
                    0,
                    vt,
                    style,
                ).0
                &&& r == if rect.x + col <= u16::MAX {
                    Some(Position { x: (rect.x + col) as u16, y: rect.y })
                } else {
                    None::<Position>
                }
            },
    {
        if rect.width == 0 || rect.height == 0 {
            return None;
        }
        let viewport = self.viewport(rect.width);
        frame.write_text_in(rect, 0, 0, viewport.text.as_str(), style);
        match rect.x.checked_add(viewport.cursor_column) {
            Some(x) => Some(Position { x, y: rect.y }),
            None => None,
        }
    }
}


/// Moving left and then right returns to the same text and cursor, whenever the left move
/// happened and the cursor was within the text.
pub proof fn lemma_left_then_right(t: Seq<char>, cursor: int)
    requires
        0 < cursor <= grapheme_clusters(t).len(),
    ensures
        input_key_outcome(t, cursor, KeyEvent::spec_plain(KeyCode::Left)) == (t, cursor - 1, true),
        input_key_outcome(t, cursor - 1, KeyEvent::spec_plain(KeyCode::Right)) == (t, cursor, true),
{
}

/// Moving right and then left returns to the same text and cursor, whenever the right move
/// happened.
pub proof fn lemma_right_then_left(t: Seq<char>, cursor: int)
    requires
        0 <= cursor < grapheme_clusters(t).len(),
    ensures
        input_key_outcome(t, cursor, KeyEvent::spec_plain(KeyCode::Right)) == (t, cursor + 1, true),
        input_key_outcome(t, cursor + 1, KeyEvent::spec_plain(KeyCode::Left)) == (t, cursor, true),
{
}

/// Keys held with Ctrl or Alt never change the editor.
pub proof fn lemma_modified_keys_ignored(t: Seq<char>, cursor: int, key: KeyEvent)
    requires
        key.modifiers.ctrl || key.modifiers.alt,
    ensures
        input_key_outcome(t, cursor, key) == (t, cursor, false),
{
}

} // verus!
