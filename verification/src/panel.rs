use vstd::prelude::*;

use crate::border::BorderSet;
use crate::chars::{concat_strs, copy_string};
use crate::frame::Frame;
use crate::geometry::{Rect, sat_add16, sat_sub16};
use crate::style::Style;
use crate::text::{Alignment, Text, text_cells};

verus! {

/// `after` is `before` with a panel drawn at `rect`: nothing for an empty rectangle; otherwise
/// the outline in `set` and `border_style`, and for a titled panel the title, preceded by a space,
/// written in `title_style` on the top row from two cells in.
pub open spec fn panel_drawn(
    title: Option<Seq<char>>,
    set: BorderSet,
    border_style: Style,
    title_style: Style,
    rect: Rect,
    before: Frame,
    after: Frame,
) -> bool {
    &&& rect.width == 0 || rect.height == 0 ==> after == before
    &&& rect.width > 0 && rect.height > 0 ==> match title {
        None => after.bordered_from(&before, rect, set, border_style),
        Some(t) => exists|bordered: Frame|
            #[trigger] bordered.bordered_from(&before, rect, set, border_style)
                && after.spec_buffer().cells() == text_cells(
                bordered.spec_buffer().cells(),
                bordered.spec_width() as int,
                bordered.spec_height() as int,
                Panel::title_area(rect),
                seq![' '] + t,
                title_style,
                Alignment::Left,
            ),
    }
}

/// Bordered display container that returns its inner rectangle for caller composition.
///
/// A panel is not a component tree node: callers render child primitives into the returned area.
pub struct Panel {
    title: Option<String>,
    border_style: Style,
    border_set: BorderSet,
    title_style: Style,
}

impl Panel {
    pub closed spec fn spec_title(&self) -> Option<Seq<char>> {
        match self.title {
            Some(t) => Some(t@),
            None => None,
        }
    }

    pub closed spec fn spec_border_style(&self) -> Style {
        self.border_style
    }

    pub closed spec fn spec_border_set(&self) -> BorderSet {
        self.border_set
    }

    pub closed spec fn spec_title_style(&self) -> Style {
        self.title_style
    }

    pub fn new(title: &str) -> (p: Self)
        ensures
            p.spec_title() == Some(title@),
            p.spec_border_style() == Style::plain(),
            p.spec_border_set() == BorderSet::spec_rounded(),
            p.spec_title_style() == Style::plain(),
    {
        Panel {
            title: Some(copy_string(title)),
            border_style: Style::new(),
            border_set: BorderSet::rounded(),
            title_style: Style::new(),
        }
    }

    pub fn untitled() -> (p: Self)
        ensures
            p.spec_title() is None,
            p.spec_border_style() == Style::plain(),
            p.spec_border_set() == BorderSet::spec_rounded(),
            p.spec_title_style() == Style::plain(),
    {
        Panel {
            title: None,
            border_style: Style::new(),
            border_set: BorderSet::rounded(),
            title_style: Style::new(),
        }
    }

    pub fn border_style(self, style: Style) -> (p: Self)
        ensures
            p.spec_title() == self.spec_title(),
            p.spec_border_style() == style,
            p.spec_border_set() == self.spec_border_set(),
            p.spec_title_style() == self.spec_title_style(),
    {
        Panel { border_style: style, ..self }
    }

    pub fn border_set(self, border_set: BorderSet) -> (p: Self)
        ensures
            p.spec_title() == self.spec_title(),
            p.spec_border_style() == self.spec_border_style(),
            p.spec_border_set() == border_set,
            p.spec_title_style() == self.spec_title_style(),
    {
        Panel { border_set, ..self }
    }

    pub fn title_style(self, style: Style) -> (p: Self)
        ensures
            p.spec_title() == self.spec_title(),
            p.spec_border_style() == self.spec_border_style(),
            p.spec_border_set() == self.spec_border_set(),
            p.spec_title_style() == style,
    {
        Panel { title_style: style, ..self }
    }

    /// The one-row area the title is written into.
    pub open spec fn title_area(rect: Rect) -> Rect {
        Rect {
            x: sat_add16(rect.x as int, 2),
            y: rect.y,
            width: sat_sub16(rect.width as int, 3),
            height: 1,
        }
    }

    /// Draws the border and the title (preceded by a space, two cells in from the left corner)
    /// and returns the inner area. An untitled panel leaves every border cell holding its glyph.
    pub fn render(&self, frame: &mut Frame, rect: Rect) -> (inner: Rect)
        requires
            old(frame).wf(),
        ensures
            final(frame).wf(),
            final(frame).same_size(old(frame)),
            inner == rect.spec_inner(),
            panel_drawn(
                self.spec_title(),
                self.spec_border_set(),
                self.spec_border_style(),
                self.spec_title_style(),
                rect,
                *old(frame),
                *final(frame),
            ),
    {
        if rect.width == 0 || rect.height == 0 {
            return rect.inner();
        }
        frame.draw_border_with_set(rect, self.border_style, self.border_set);
        let ghost bordered = *frame;
        assert(bordered.bordered_from(old(frame), rect, self.border_set, self.border_style));
        match &self.title {
            Some(title) => {
                let space = " ";
                proof {
                    reveal_strlit(" ");
                }
                let text = concat_strs(space, title.as_str());
                let area = Rect::new(rect.x.saturating_add(2), rect.y, rect.width.saturating_sub(3), 1);
                assert(area == Panel::title_area(rect));
                assert(text@ == seq![' '] + title@);
                Text::new(text.as_str()).style(self.title_style).render(frame, area);
                assert(bordered.bordered_from(
                    old(frame),
                    rect,
                    self.spec_border_set(),
                    self.spec_border_style(),
                ));
            },
            None => {},
        }
        rect.inner()
    }
}

} // verus!
