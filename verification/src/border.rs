use vstd::prelude::*;

verus! {

/// The six characters used to draw a rectangular border.
#[derive(Clone, Copy, Debug, PartialEq, Eq, Structural)]
pub struct BorderSet {
    pub top_left: char,
    pub top_right: char,
    pub bottom_left: char,
    pub bottom_right: char,
    pub horizontal: char,
    pub vertical: char,
}

impl BorderSet {
    /// Rounded corners with light lines; the default border.
    pub open spec fn spec_rounded() -> BorderSet {
        BorderSet {
            top_left: '╭',
            top_right: '╮',
            bottom_left: '╰',
            bottom_right: '╯',
            horizontal: '─',
            vertical: '│',
        }
    }

    pub fn rounded() -> (b: Self)
        ensures
            b == BorderSet::spec_rounded(),
    {
        BorderSet {
            top_left: '╭',
            top_right: '╮',
            bottom_left: '╰',
            bottom_right: '╯',
            horizontal: '─',
            vertical: '│',
        }
    }

    pub open spec fn spec_square() -> BorderSet {
        BorderSet {
            top_left: '┌',
            top_right: '┐',
            bottom_left: '└',
            bottom_right: '┘',
            horizontal: '─',
            vertical: '│',
        }
    }

    pub fn square() -> (b: Self)
        ensures
            b == BorderSet::spec_square(),
    {
        BorderSet {
            top_left: '┌',
            top_right: '┐',
            bottom_left: '└',
            bottom_right: '┘',
            horizontal: '─',
            vertical: '│',
        }
    }

    pub open spec fn spec_double() -> BorderSet {
        BorderSet {
            top_left: '╔',
            top_right: '╗',
            bottom_left: '╚',
            bottom_right: '╝',
            horizontal: '═',
            vertical: '║',
        }
    }

    pub fn double() -> (b: Self)
        ensures
            b == BorderSet::spec_double(),
    {
        BorderSet {
            top_left: '╔',
            top_right: '╗',
            bottom_left: '╚',
            bottom_right: '╝',
            horizontal: '═',
            vertical: '║',
        }
    }
}

impl Default for BorderSet {
    fn default() -> (b: Self)
        ensures
            b == BorderSet::spec_rounded(),
    {
        BorderSet::rounded()
    }
}

} // verus!
