use vstd::prelude::*;

use crate::style::Color;

verus! {

/// Dragonfire's semantic RGB palette value.
///
/// Themes are plain values: primitives receive styles from the application rather than storing a
/// global theme or a theme-switching runtime.
#[derive(Clone, Copy, Debug, PartialEq, Eq, Structural)]
pub struct Theme {
    pub background: Color,
    pub primary: Color,
    pub secondary: Color,
    pub success: Color,
    pub warning: Color,
    pub error: Color,
    pub surface: Color,
    pub text: Color,
    pub muted: Color,
}

impl Theme {
    /// The Dragonfire palette.
    pub open spec fn dragonfire() -> Theme {
        Theme {
            background: Color::Rgb { r: 10, g: 8, b: 6 },
            primary: Color::Rgb { r: 120, g: 20, b: 10 },
            secondary: Color::Rgb { r: 220, g: 70, b: 10 },
            success: Color::Rgb { r: 255, g: 200, b: 55 },
            warning: Color::Rgb { r: 245, g: 130, b: 20 },
            error: Color::Rgb { r: 180, g: 35, b: 10 },
            surface: Color::Rgb { r: 20, g: 14, b: 10 },
            text: Color::Rgb { r: 240, g: 225, b: 205 },
            muted: Color::Rgb { r: 145, g: 105, b: 75 },
        }
    }

    pub fn new() -> (t: Self)
        ensures
            t == Theme::dragonfire(),
    {
        Theme {
            background: Color::rgb(10, 8, 6),
            primary: Color::rgb(120, 20, 10),
            secondary: Color::rgb(220, 70, 10),
            success: Color::rgb(255, 200, 55),
            warning: Color::rgb(245, 130, 20),
            error: Color::rgb(180, 35, 10),
            surface: Color::rgb(20, 14, 10),
            text: Color::rgb(240, 225, 205),
            muted: Color::rgb(145, 105, 75),
        }
    }
}

impl Default for Theme {
    fn default() -> (t: Self)
        ensures
            t == Theme::dragonfire(),
    {
        Theme::new()
    }
}

} // verus!
