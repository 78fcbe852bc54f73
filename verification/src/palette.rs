use vstd::prelude::*;

use crate::chars::{concat_strs, copy_string, str_chars, string_views};
use crate::event::{KeyCode, KeyEvent};
use crate::frame::Frame;
use crate::geometry::{Rect, min_int, sat_add16, sat_sub16};
use crate::keymap::CommandId;
use crate::list::{List, ListState, list_rows};
use crate::overlay::{Modal, modal_drawn, spec_centered_rect};
use crate::rich_text::{Line, SpanView, line_views};
use crate::style::Style;
use crate::text_input::{TextInput, input_key_outcome};

verus! {

/// The lowercase form of a string as `str::to_lowercase` maps it.
pub uninterp spec fn lowercase(s: Seq<char>) -> Seq<char>;

/// Calls `str::to_lowercase`, which maps each character to its Unicode lowercase form. The
/// mapping is the standard library's tables and is not restated here.
#[verifier::external_body]
fn to_lowercase(s: &str) -> (r: String)
    ensures
        r@ == lowercase(s@),
{
    s.to_lowercase()
}

/// Whether `needle` occurs in `haystack` as a contiguous run.
pub open spec fn contains_seq(haystack: Seq<char>, needle: Seq<char>) -> bool {
    exists|i: int| 0 <= i <= haystack.len() - needle.len() && #[trigger] haystack.subrange(
        i,
        i + needle.len(),
    ) == needle
}

/// `str::contains` for a string pattern: whether `needle` occurs in `haystack`.
pub fn contains_text(haystack: &str, needle: &str) -> (r: bool)
    ensures
        r == contains_seq(haystack@, needle@),
{
    let h = str_chars(haystack);
    let n = str_chars(needle);
    if n.len() > h.len() {
        return false;
    }
    let mut i: usize = 0;
    while i <= h.len() - n.len()
        invariant
            n.len() <= h.len(),
            h@ == haystack@,
            n@ == needle@,
            forall|k: int| 0 <= k < i ==> #[trigger] h@.subrange(k, k + n@.len()) != n@,
        decreases h.len() - n.len() + 1 - i,
    {
        let mut j: usize = 0;
        while j < n.len() && h[i + j] == n[j]
            invariant
                i + n.len() <= h.len(),
                j <= n.len(),
                forall|m: int| 0 <= m < j ==> h@[i + m] == n@[m],
            decreases n.len() - j,
        {
            j = j + 1;
        }
        if j == n.len() {
            proof {
                assert(h@.subrange(i as int, i + n@.len()) =~= n@);
            }
            return true;
        }
        proof {
            assert(h@.subrange(i as int, i + n@.len())[j as int] != n@[j as int]);
        }
        i = i + 1;
    }
    proof {
        assert forall|k: int| 0 <= k <= haystack@.len() - needle@.len() implies #[trigger] haystack@.subrange(
            k,
            k + needle@.len(),
        ) != needle@ by {
            assert(h@.subrange(k, k + n@.len()) != n@);
        }
    }
    false
}

/// One executable [`CommandPalette`] entry.
#[derive(Clone, Debug, PartialEq, Eq)]
pub struct PaletteCommand {
    pub id: CommandId,
    pub title: String,
}

impl PaletteCommand {
    pub fn new(id: CommandId, title: &str) -> (r: Self)
        ensures
            r.id == id,
            r.title@ == title@,
    {
        PaletteCommand { id, title: copy_string(title) }
    }
}

/// Whether a command title matches a query: the lowercased query occurs in the lowercased
/// title.
pub open spec fn title_matches(title: Seq<char>, query: Seq<char>) -> bool {
    contains_seq(lowercase(title), lowercase(query))
}

/// The indices of the commands whose titles match `query`, in order.
pub open spec fn matching_indices(commands: Seq<PaletteCommand>, query: Seq<char>) -> Seq<int>
    decreases commands.len(),
{
    if commands.len() == 0 {
        Seq::empty()
    } else {
        let prev = matching_indices(commands.drop_last(), query);
        if title_matches(commands.last().title@, query) {
            prev.push(commands.len() - 1)
        } else {
            prev
        }
    }
}

proof fn lemma_matching_indices_bound(commands: Seq<PaletteCommand>, query: Seq<char>)
    ensures
        matching_indices(commands, query).len() <= commands.len(),
        forall|k: int|
            0 <= k < matching_indices(commands, query).len() ==> 0 <= #[trigger] matching_indices(
                commands,
                query,
            )[k] < commands.len(),
    decreases commands.len(),
{
    if commands.len() > 0 {
        lemma_matching_indices_bound(commands.drop_last(), query);
    }
}

/// The selection resolved against `count` matches (`None` without matches).
pub open spec fn resolved_selection(selected: int, count: int) -> Option<int> {
    if count == 0 {
        None
    } else if selected <= count - 1 {
        Some(selected)
    } else {
        Some(count - 1)
    }
}

/// The selection after Up among `count` matches: the clamped selection moved up one, stopping
/// at the first match.
pub open spec fn selection_up(selected: int, count: int) -> int {
    let clamped = if selected <= count - 1 {
        selected
    } else {
        count - 1
    };
    if clamped > 0 {
        clamped - 1
    } else {
        0
    }
}

/// The selection after Down among `count` matches: the clamped selection moved down one,
/// stopping at the last match.
pub open spec fn selection_down(selected: int, count: int) -> int {
    let clamped = if selected <= count - 1 {
        selected
    } else {
        count - 1
    };
    if clamped + 1 <= count - 1 {
        clamped + 1
    } else {
        count - 1
    }
}

/// Down and then Up return to the selection whenever Down moved it.
pub proof fn lemma_down_then_up(selected: int, count: int)
    requires
        0 <= selected,
        selected + 1 <= count - 1,
    ensures
        selection_down(selected, count) == selected + 1,
        selection_up(selection_down(selected, count), count) == selected,
{
}

/// Query-owning command overlay composed from existing modal, input, and list primitives.
///
/// Applications open it, route keys to it, and execute the returned [`CommandId`].
#[derive(Clone, Debug, PartialEq, Eq)]
pub struct CommandPalette {
    commands: Vec<PaletteCommand>,
    query: TextInput,
    selected: usize,
}

/// What [`CommandPalette::handle_key`] does with `key`, taking `before` to `after` with result
/// `r`: Up and Down move the selection among the matches, other keys edit the query.
pub open spec fn palette_key_result(before: CommandPalette, after: CommandPalette, key: KeyEvent, r: bool) -> bool {
    &&& after.spec_commands() == before.spec_commands()
    &&& {
        let count = before.spec_matches().len() as int;
        let sel = before.spec_selected();
        match key.code {
            KeyCode::Up => if count > 0 {
                r && after.spec_selected() == selection_up(sel, count)
                    && after.spec_query() == before.spec_query()
            } else {
                !r && after == before
            },
            KeyCode::Down => if count > 0 {
                r && after.spec_selected() == selection_down(sel, count)
                    && after.spec_query() == before.spec_query()
            } else {
                !r && after == before
            },
            _ => {
                let (t, c, changed) = input_key_outcome(
                    before.spec_query().text_view(),
                    before.spec_query().cursor_view(),
                    key,
                );
                &&& r == changed
                &&& after.spec_query().text_view() == t
                &&& after.spec_query().cursor_view() == c
                &&& after.spec_selected() == (if changed {
                    0
                } else {
                    sel
                })
            },
        }
    }
}

/// `after` is `before` with palette `p` drawn in `parent`: a 42 by 12 modal with the query after
/// `> `, and the matching titles listed below the query row with the selected match highlighted.
pub open spec fn palette_drawn(
    p: CommandPalette,
    parent: Rect,
    border_style: Style,
    content_style: Style,
    selected_style: Style,
    before: Frame,
    after: Frame,
) -> bool {
    let r = spec_centered_rect(parent, 42, 12);
    exists|modal: Frame|
        #[trigger] modal_drawn(
            palette_title(),
            palette_lines(p.spec_query().text_view()),
            border_style,
            border_style,
            content_style,
            r,
            before,
            modal,
        ) && modal.wf() && modal.same_size(&before) && after.spec_buffer().cells() == list_rows(
            modal.spec_buffer().cells(),
            modal.spec_width() as int,
            modal.spec_height() as int,
            palette_list_area(r),
            p.match_titles(),
            list_selection(resolved_selection(p.spec_selected(), p.spec_matches().len() as int)),
            content_style,
            selected_style,
            min_int(
                min_int(p.spec_matches().len() as int, palette_list_area(r).height as int),
                u16::MAX - palette_list_area(r).y + 1,
            ),
        )
}

/// The palette's modal title.
pub open spec fn palette_title() -> Seq<char> {
    seq!['C', 'o', 'm', 'm', 'a', 'n', 'd', ' ', 'P', 'a', 'l', 'e', 't', 't', 'e']
}

/// The list area inside a palette modal at `r`: its inner area below the query row.
pub open spec fn palette_list_area(r: Rect) -> Rect {
    let inner = r.spec_inner();
    Rect {
        x: inner.x,
        y: sat_add16(inner.y as int, 1),
        width: inner.width,
        height: sat_sub16(inner.height as int, 1),
    }
}

/// The palette modal's content: the query after `> `, unstyled.
pub open spec fn palette_lines(query: Seq<char>) -> Seq<Seq<SpanView>> {
    seq![seq![(seq!['>', ' '] + query, Style::plain())]]
}

/// A selection as the list draws it.
pub open spec fn list_selection(selection: Option<int>) -> Option<usize> {
    match selection {
        Some(i) => Some(i as usize),
        None => None,
    }
}

impl CommandPalette {
    pub closed spec fn spec_commands(&self) -> Seq<PaletteCommand> {
        self.commands@
    }

    pub closed spec fn spec_query(&self) -> TextInput {
        self.query
    }

    pub closed spec fn spec_selected(&self) -> int {
        self.selected as int
    }

    /// The indices of the commands matching the current query.
    pub open spec fn spec_matches(&self) -> Seq<int> {
        matching_indices(self.spec_commands(), self.spec_query().text_view())
    }

    /// The titles of the commands matching the current query, in order.
    pub open spec fn match_titles(&self) -> Seq<Seq<char>> {
        Seq::new(
            self.spec_matches().len(),
            |k: int| self.spec_commands()[self.spec_matches()[k]].title@,
        )
    }

    pub fn new(commands: Vec<PaletteCommand>) -> (r: Self)
        ensures
            r.spec_commands() == commands@,
            r.spec_query().text_view() == Seq::<char>::empty(),
            r.spec_query().cursor_view() == 0,
            r.spec_selected() == 0,
    {
        CommandPalette { commands, query: TextInput::new(), selected: 0 }
    }

    pub fn query(&self) -> (r: &str)
        ensures
            r@ == self.spec_query().text_view(),
    {
        self.query.text()
    }

    /// Indices of the commands matching the query.
    fn filtered(&self) -> (r: Vec<usize>)
        ensures
            r@.map_values(|i: usize| i as int) == self.spec_matches(),
            forall|k: int| 0 <= k < r@.len() ==> #[trigger] r@[k] < self.spec_commands().len(),
    {
        let query = to_lowercase(self.query.text());
        let mut out: Vec<usize> = Vec::new();
        let mut i: usize = 0;
        while i < self.commands.len()
            invariant
                i <= self.commands@.len(),
                query@ == lowercase(self.query.text_view()),
                out@.map_values(|x: usize| x as int) == matching_indices(
                    self.commands@.take(i as int),
                    self.query.text_view(),
                ),
                forall|k: int| 0 <= k < out@.len() ==> #[trigger] out@[k] < i,
            decreases self.commands@.len() - i,
        {
            proof {
                assert(self.commands@.take(i + 1).drop_last() == self.commands@.take(i as int));
                assert(self.commands@.take(i + 1).last() == self.commands@[i as int]);
            }
            let title = to_lowercase(self.commands[i].title.as_str());
            if contains_text(title.as_str(), query.as_str()) {
                let ghost before = out@;
                out.push(i);
                proof {
                    assert(out@.map_values(|x: usize| x as int) =~= before.map_values(
                        |x: usize| x as int,
                    ).push(i as int));
                }
            }
            i = i + 1;
        }
        proof {
            assert(self.commands@.take(self.commands@.len() as int) == self.commands@);
        }
        out
    }

    /// The titles of the commands matching the query, in order.
    pub fn filtered_titles(&self) -> (r: Vec<String>)
        ensures
            r@.len() == self.spec_matches().len(),
            forall|k: int|
                0 <= k < r@.len() ==> #[trigger] r@[k]@ == self.spec_commands()[self.spec_matches()[k]].title@,
    {
        let indices = self.filtered();
        let mut out: Vec<String> = Vec::new();
        let mut k: usize = 0;
        while k < indices.len()
            invariant
                k <= indices@.len(),
                indices@.map_values(|i: usize| i as int) == self.spec_matches(),
                forall|m: int| 0 <= m < indices@.len() ==> #[trigger] indices@[m] < self.spec_commands().len(),
                out@.len() == k,
                forall|m: int|
                    0 <= m < k ==> #[trigger] out@[m]@ == self.spec_commands()[self.spec_matches()[m]].title@,
            decreases indices@.len() - k,
        {
            proof {
                assert(self.spec_matches()[k as int] == indices@[k as int] as int);
            }
            out.push(copy_string(self.commands[indices[k]].title.as_str()));
            k = k + 1;
        }
        out
    }

    /// The selected match index, clamped to the matches (`None` without matches).
    pub fn selected_index(&self) -> (r: Option<usize>)
        ensures
            match r {
                Some(i) => resolved_selection(self.spec_selected(), self.spec_matches().len() as int)
                    == Some(i as int),
                None => resolved_selection(self.spec_selected(), self.spec_matches().len() as int)
                    is None,
            },
    {
        let count = self.filtered().len();
        if count == 0 {
            None
        } else if self.selected <= count - 1 {
            Some(self.selected)
        } else {
            Some(count - 1)
        }
    }

    /// The command of the selected match, if any.
    pub fn execute_selected(&self) -> (r: Option<CommandId>)
        ensures
            match resolved_selection(self.spec_selected(), self.spec_matches().len() as int) {
                Some(i) => r matches Some(id) && id.spec_text() == self.spec_commands()[self.spec_matches()[i]].id.spec_text(),
                None => r is None,
            },
    {
        let indices = self.filtered();
        let count = indices.len();
        if count == 0 {
            return None;
        }
        let selected = if self.selected <= count - 1 {
            self.selected
        } else {
            count - 1
        };
        proof {
            assert(self.spec_matches()[selected as int] == indices@[selected as int] as int);
        }
        Some(self.commands[indices[selected]].id.duplicate())
    }

    /// Moves the selection with Up and Down (when there are matches); routes other keys to the
    /// query, resetting the selection when the query changes. Returns whether the key was
    /// handled.
    pub fn handle_key(&mut self, key: KeyEvent) -> (r: bool)
        ensures
            palette_key_result(*old(self), *final(self), key, r),
    {
        let count = self.filtered().len();
        match key.code {
            KeyCode::Up => {
                if count > 0 {
                    let selected = if self.selected <= count - 1 {
                        self.selected
                    } else {
                        count - 1
                    };
                    self.selected = if selected > 0 {
                        selected - 1
                    } else {
                        0
                    };
                    true
                } else {
                    false
                }
            },
            KeyCode::Down => {
                if count > 0 {
                    let selected = if self.selected <= count - 1 {
                        self.selected
                    } else {
                        count - 1
                    };
                    self.selected = if selected + 1 <= count - 1 {
                        selected + 1
                    } else {
                        count - 1
                    };
                    true
                } else {
                    false
                }
            },
            _ => {
                let changed = self.query.handle_key(key);
                if changed {
                    self.selected = 0;
                }
                changed
            },
        }
    }

    /// Draws the palette as a 42 by 12 modal centered in `parent`: the query after `> ` and the
    /// matching titles as a list below it, the selected match highlighted. Returns the modal's
    /// rectangle.
    pub fn render(
        &self,
        frame: &mut Frame,
        parent: Rect,
        border_style: Style,
        content_style: Style,
        selected_style: Style,
    ) -> (r: Rect)
        requires
            old(frame).wf(),
        ensures
            final(frame).wf(),
            final(frame).same_size(old(frame)),
            r == spec_centered_rect(parent, 42, 12),
            palette_drawn(
                *self,
                parent,
                border_style,
                content_style,
                selected_style,
                *old(frame),
                *final(frame),
            ),
    {
        let marker = "> ";
        let title = "Command Palette";
        proof {
            reveal_strlit("> ");
            reveal_strlit("Command Palette");
        }
        let prompt = concat_strs(marker, self.query());
        let mut lines: Vec<Line> = Vec::new();
        lines.push(Line::raw(prompt.as_str()));
        assert(marker@ =~= seq!['>', ' ']);
        assert(prompt@ =~= seq!['>', ' '] + self.spec_query().text_view());
        assert(line_views(lines@) =~~= palette_lines(self.spec_query().text_view()));
        assert(title@ == palette_title());
        let rect = Modal::new(title, lines).size(42, 12).border_style(
            border_style,
        ).title_style(border_style).content_style(content_style).render(frame, parent);
        let ghost modal = *frame;
        let inner = rect.inner();
        let list_rect = Rect::new(
            inner.x,
            inner.y.saturating_add(1),
            inner.width,
            inner.height.saturating_sub(1),
        );
        let titles = self.filtered_titles();
        let mut items: Vec<&str> = Vec::new();
        let mut k: usize = 0;
        while k < titles.len()
            invariant
                k <= titles@.len(),
                items@.len() == k,
                forall|m: int| 0 <= m < k ==> #[trigger] items@[m]@ == titles@[m]@,
            decreases titles@.len() - k,
        {
            items.push(titles[k].as_str());
            k = k + 1;
        }
        let mut state = ListState::new();
        match self.selected_index() {
            Some(selected) => state.set_selected(selected),
            None => {},
        }
        assert(items@.map_values(|s: &str| s@) =~= self.match_titles());
        assert(list_rect == palette_list_area(rect));
        List::new(items.as_slice()).normal_style(content_style).selected_style(
            selected_style,
        ).render(frame, list_rect, &mut state);
        assert(modal_drawn(
            palette_title(),
            palette_lines(self.spec_query().text_view()),
            border_style,
            border_style,
            content_style,
            rect,
            *old(frame),
            modal,
        ));
        rect
    }
}

/// A key that changes the query's text puts the selection back on the first match of the new
/// query: afterwards the selected index is 0, so running the selection runs the first command
/// the new query matches (none when nothing matches).
pub proof fn lemma_query_edit_selects_first_match(
    before: CommandPalette,
    after: CommandPalette,
    key: KeyEvent,
    r: bool,
)
    requires
        palette_key_result(before, after, key, r),
        after.spec_query().text_view() != before.spec_query().text_view(),
    ensures
        r,
        after.spec_selected() == 0,
        resolved_selection(after.spec_selected(), after.spec_matches().len() as int) == if after.spec_matches().len() > 0 {
            Some(0int)
        } else {
            None::<int>
        },
{
}

/// Down and then Up leave the query alone and come back to the selected match whenever Down
/// moved the selection; Down never goes past the last match and Up never before the first.
pub proof fn lemma_down_up_round_trip(
    p1: CommandPalette,
    p2: CommandPalette,
    p3: CommandPalette,
    r1: bool,
    r2: bool,
)
    requires
        p1.spec_selected() >= 0,
        palette_key_result(p1, p2, KeyEvent::spec_plain(KeyCode::Down), r1),
        palette_key_result(p2, p3, KeyEvent::spec_plain(KeyCode::Up), r2),
        p1.spec_matches().len() > 0,
    ensures
        r1 && r2,
        p3.spec_query() == p1.spec_query(),
        0 <= p2.spec_selected() < p1.spec_matches().len(),
        0 <= p3.spec_selected() < p1.spec_matches().len(),
        resolved_selection(p1.spec_selected(), p1.spec_matches().len() as int) matches Some(s) && (
        s + 1 < p1.spec_matches().len() ==> p2.spec_selected() == s + 1 && p3.spec_selected() == s),
{
}

} // verus!
