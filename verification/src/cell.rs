use vstd::prelude::*;

use crate::style::Style;

verus! {

/// Storage role of a terminal cell.
///
/// [`CellKind::WideContinuation`] is the second column of a wide glyph and is never emitted as
/// an independent terminal character.
#[derive(Clone, Copy, Debug, PartialEq, Eq, Structural)]
pub enum CellKind {
    Normal,
    Wide,
    WideContinuation,
}

impl Default for CellKind {
    fn default() -> (k: Self)
        ensures
            k == CellKind::Normal,
    {
        CellKind::Normal
    }
}

/// A styled terminal character with wide-glyph metadata.
#[derive(Clone, Copy, Debug, PartialEq, Eq, Structural)]
pub struct Cell {
    pub character: char,
    pub style: Style,
    pub kind: CellKind,
}

impl Cell {
    /// The blank cell that fills a fresh or cleared buffer.
    pub open spec fn blank() -> Cell {
        Cell { character: ' ', style: Style::plain(), kind: CellKind::Normal }
    }

    /// A one-column cell holding `character` in `style`.
    pub open spec fn spec_new(character: char, style: Style) -> Cell {
        Cell { character, style, kind: CellKind::Normal }
    }

    pub fn new(character: char, style: Style) -> (c: Self)
        ensures
            c == (Cell { character, style, kind: CellKind::Normal }),
    {
        Cell { character, style, kind: CellKind::Normal }
    }

    pub(crate) fn wide(character: char, style: Style) -> (c: Self)
        ensures
            c == (Cell { character, style, kind: CellKind::Wide }),
    {
        Cell { character, style, kind: CellKind::Wide }
    }

    pub(crate) fn continuation(style: Style) -> (c: Self)
        ensures
            c == (Cell { character: ' ', style, kind: CellKind::WideContinuation }),
    {
        Cell { character: ' ', style, kind: CellKind::WideContinuation }
    }
}

impl Default for Cell {
    fn default() -> (c: Self)
        ensures
            c == Cell::blank(),
    {
        Cell::new(' ', Style::new())
    }
}

} // verus!
