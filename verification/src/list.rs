use vstd::prelude::*;

use crate::chars::{concat_strs, copy_string, string_views};
use crate::frame::Frame;
use crate::geometry::Rect;
use crate::style::Style;
use crate::text::{Alignment, Text, text_cells};

verus! {

/// The index a selection resolves to among `count` items (the last one when out of range).
pub open spec fn clamp_selection(selected: int, count: int) -> int {
    if selected <= count - 1 {
        selected
    } else {
        count - 1
    }
}

/// Caller-owned selected-index state for [`List`].
///
/// Navigation clamps safely when the backing item count changes.
#[derive(Clone, Debug, Default, PartialEq, Eq)]
pub struct ListState {
    selected: usize,
}

impl ListState {
    pub closed spec fn spec_selected(&self) -> usize {
        self.selected
    }

    pub fn new() -> (s: Self)
        ensures
            s.spec_selected() == 0,
    {
        ListState { selected: 0 }
    }

    pub fn set_selected(&mut self, selected: usize)
        ensures
            final(self).spec_selected() == selected,
    {
        self.selected = selected;
    }

    /// Clamps the selection to the item count and returns it (`None` with no items).
    pub fn selected_index(&mut self, item_count: usize) -> (r: Option<usize>)
        ensures
            item_count == 0 ==> r is None && final(self).spec_selected() == 0,
            item_count > 0 ==> r == Some(final(self).spec_selected()) && final(self).spec_selected() == clamp_selection(old(self).spec_selected() as int, item_count as int),
    {
        if item_count == 0 {
            self.selected = 0;
            return None;
        }
        if self.selected > item_count - 1 {
            self.selected = item_count - 1;
        }
        Some(self.selected)
    }

    /// Selects the next item, wrapping from the last to the first.
    pub fn next(&mut self, item_count: usize)
        ensures
            item_count == 0 ==> final(self).spec_selected() == 0,
            item_count > 0 ==> final(self).spec_selected() == (clamp_selection(
                old(self).spec_selected() as int,
                item_count as int,
            ) + 1) % (item_count as int),
    {
        match self.selected_index(item_count) {
            Some(selected) => {
                self.selected = (selected + 1) % item_count;
            },
            None => {},
        }
    }

    /// Selects the previous item, wrapping from the first to the last.
    pub fn previous(&mut self, item_count: usize)
        ensures
            item_count == 0 ==> final(self).spec_selected() == 0,
            item_count > 0 ==> final(self).spec_selected() == (clamp_selection(
                old(self).spec_selected() as int,
                item_count as int,
            ) + item_count - 1) % (item_count as int),
    {
        match self.selected_index(item_count) {
            Some(selected) => {
                let previous = if selected == 0 {
                    item_count - 1
                } else {
                    selected - 1
                };
                proof {
                    let n = item_count as int;
                    if selected == 0 {
                        vstd::arithmetic::div_mod::lemma_fundamental_div_mod_converse(
                            n - 1,
                            n,
                            0,
                            n - 1,
                        );
                    } else {
                        vstd::arithmetic::div_mod::lemma_fundamental_div_mod_converse(
                            selected + n - 1,
                            n,
                            1,
                            selected - 1,
                        );
                    }
                }
                self.selected = previous;
            },
            None => {},
        }
    }
}

/// Moving to the previous item undoes moving to the next one: for an in-range selection among
/// `count` items, `previous(next(s)) == s`.
pub proof fn lemma_list_previous_undoes_next(selected: int, count: int)
    requires
        0 <= selected < count,
    ensures
        ((selected + 1) % count + count - 1) % count == selected,
{
    if selected + 1 < count {
        vstd::arithmetic::div_mod::lemma_fundamental_div_mod_converse(selected + 1, count, 0, selected + 1);
        vstd::arithmetic::div_mod::lemma_fundamental_div_mod_converse(
            selected + count,
            count,
            1,
            selected,
        );
    } else {
        vstd::arithmetic::div_mod::lemma_fundamental_div_mod_converse(selected + 1, count, 1, 0);
        vstd::arithmetic::div_mod::lemma_fundamental_div_mod_converse(count - 1, count, 0, count - 1);
    }
}

/// The text of list row `row`: a selection marker and the item.
pub open spec fn list_row_text(item: Seq<char>, selected: bool) -> Seq<char> {
    (if selected {
        seq!['>', ' ']
    } else {
        seq![' ', ' ']
    }) + item
}

/// The cells after drawing the first `n` list rows.
pub open spec fn list_rows(
    cells: Seq<crate::cell::Cell>,
    w: int,
    h: int,
    rect: Rect,
    items: Seq<Seq<char>>,
    selected: Option<usize>,
    normal: Style,
    highlight: Style,
    n: int,
) -> Seq<crate::cell::Cell>
    decreases n,
{
    if n <= 0 {
        cells
    } else {
        let row = n - 1;
        let is_selected = selected == Some(row as usize);
        text_cells(
            list_rows(cells, w, h, rect, items, selected, normal, highlight, n - 1),
            w,
            h,
            Rect { x: rect.x, y: (rect.y + row) as u16, width: rect.width, height: 1 },
            list_row_text(items[row], is_selected),
            if is_selected {
                highlight
            } else {
                normal
            },
            Alignment::Left,
        )
    }
}

/// A selectable string list rendered with explicit [`ListState`].
///
/// The list stores its display items; applications own selection and route input to that state.
pub struct List {
    items: Vec<String>,
    normal_style: Style,
    selected_style: Style,
}

impl List {
    pub closed spec fn spec_items(&self) -> Seq<Seq<char>> {
        string_views(self.items@)
    }

    pub closed spec fn spec_styles(&self) -> (Style, Style) {
        (self.normal_style, self.selected_style)
    }

    pub fn new(items: &[&str]) -> (l: Self)
        ensures
            l.spec_items() == items@.map_values(|s: &str| s@),
            l.spec_styles() == (Style::plain(), Style::plain()),
    {
        let mut owned: Vec<String> = Vec::new();
        let mut i: usize = 0;
        while i < items.len()
            invariant
                i <= items@.len(),
                string_views(owned@) == items@.take(i as int).map_values(|s: &str| s@),
            decreases items@.len() - i,
        {
            let item = copy_string(items[i]);
            proof {
                assert(items@.take(i + 1).map_values(|s: &str| s@) =~= items@.take(
                    i as int,
                ).map_values(|s: &str| s@).push(items@[i as int]@));
                assert(string_views(owned@.push(item)) =~= string_views(owned@).push(item@));
            }
            owned.push(item);
            i = i + 1;
        }
        proof {
            assert(items@.take(items@.len() as int) == items@);
        }
        List { items: owned, normal_style: Style::new(), selected_style: Style::new() }
    }

    pub fn normal_style(self, style: Style) -> (l: Self)
        ensures
            l.spec_items() == self.spec_items(),
            l.spec_styles() == (style, self.spec_styles().1),
    {
        List { normal_style: style, ..self }
    }

    pub fn selected_style(self, style: Style) -> (l: Self)
        ensures
            l.spec_items() == self.spec_items(),
            l.spec_styles() == (self.spec_styles().0, style),
    {
        List { selected_style: style, ..self }
    }

    /// Clamps the state's selection, then draws one item per row (marked `> ` when selected) for
    /// as many items as fit the rect and the coordinate range.
    pub fn render(&self, frame: &mut Frame, rect: Rect, state: &mut ListState)
        requires
            old(frame).wf(),
        ensures
            final(frame).wf(),
            final(frame).same_size(old(frame)),
            self.spec_items().len() == 0 ==> final(state).spec_selected() == 0,
            self.spec_items().len() > 0 ==> final(state).spec_selected() == clamp_selection(
                old(state).spec_selected() as int,
                self.spec_items().len() as int,
            ),
            final(frame).spec_buffer().cells() == list_rows(
                old(frame).spec_buffer().cells(),
                old(frame).spec_width() as int,
                old(frame).spec_height() as int,
                rect,
                self.spec_items(),
                if self.spec_items().len() > 0 {
                    Some(final(state).spec_selected())
                } else {
                    None
                },
                self.spec_styles().0,
                self.spec_styles().1,
                crate::geometry::min_int(
                    crate::geometry::min_int(self.spec_items().len() as int, rect.height as int),
                    u16::MAX - rect.y + 1,
                ),
            ),
    {
        let selected = state.selected_index(self.items.len());
        let count = if self.items.len() <= rect.height as usize {
            self.items.len()
        } else {
            rect.height as usize
        };
        let room = (u16::MAX - rect.y) as usize + 1;
        let count = if count <= room {
            count
        } else {
            room
        };
        let ghost items = self.spec_items();
        let ghost w = frame.spec_width() as int;
        let ghost h = frame.spec_height() as int;
        let ghost c0 = frame.spec_buffer().cells();
        let mut row: usize = 0;
        while row < count
            invariant
                row <= count,
                count <= self.items@.len(),
                count <= rect.height,
                items == string_views(self.items@),
                frame.wf(),
                frame.same_size(old(frame)),
                w == frame.spec_width(),
                h == frame.spec_height(),
                c0 == old(frame).spec_buffer().cells(),
                count <= u16::MAX - rect.y + 1,
                frame.spec_buffer().cells() == list_rows(
                    c0,
                    w,
                    h,
                    rect,
                    items,
                    selected,
                    self.normal_style,
                    self.selected_style,
                    row as int,
                ),
            decreases count - row,
        {
            let y = rect.y + row as u16;
            let is_selected = match selected {
                Some(s) => s == row,
                None => false,
            };
            let marker = if is_selected {
                "> "
            } else {
                "  "
            };
            let style = if is_selected {
                self.selected_style
            } else {
                self.normal_style
            };
            let content = concat_strs(marker, self.items[row].as_str());
            proof {
                reveal_strlit("> ");
                reveal_strlit("  ");
                assert(content@ == list_row_text(items[row as int], is_selected));
            }
            Text::new(content.as_str()).style(style).render(frame, Rect::new(rect.x, y, rect.width, 1));
            row = row + 1;
        }
    }
}

} // verus!
