use vstd::prelude::*;

verus! {

/// `a + b` clamped to the range of `u16`.
pub open spec fn sat_add16(a: int, b: int) -> u16 {
    if a + b > u16::MAX {
        u16::MAX
    } else if a + b < 0 {
        0
    } else {
        (a + b) as u16
    }
}

/// `a - b` clamped at zero.
pub open spec fn sat_sub16(a: int, b: int) -> u16 {
    if a - b < 0 {
        0
    } else if a - b > u16::MAX {
        u16::MAX
    } else {
        (a - b) as u16
    }
}

/// The smaller of two integers.
pub open spec fn min_int(a: int, b: int) -> int {
    if a <= b { a } else { b }
}

/// The larger of two integers.
pub open spec fn max_int(a: int, b: int) -> int {
    if a >= b { a } else { b }
}

/// A zero-based terminal cell coordinate.
#[derive(Clone, Copy, Debug, Default, PartialEq, Eq, Structural)]
pub struct Position {
    pub x: u16,
    pub y: u16,
}

/// Terminal width and height in cells.
#[derive(Clone, Copy, Debug, Default, PartialEq, Eq, Structural)]
pub struct Size {
    pub width: u16,
    pub height: u16,
}

impl Size {
    pub fn new(width: u16, height: u16) -> (s: Self)
        ensures
            s == (Size { width, height }),
    {
        Size { width, height }
    }
}

/// A zero-based, width/height rectangle in terminal cells.
///
/// Geometry helpers use saturating arithmetic so tiny and extreme terminal sizes remain safe.
#[derive(Clone, Copy, Debug, Default, PartialEq, Eq, Structural)]
pub struct Rect {
    pub x: u16,
    pub y: u16,
    pub width: u16,
    pub height: u16,
}

impl Rect {
    /// The saturated right edge (exclusive).
    pub open spec fn spec_right(self) -> u16 {
        sat_add16(self.x as int, self.width as int)
    }

    /// The saturated bottom edge (exclusive).
    pub open spec fn spec_bottom(self) -> u16 {
        sat_add16(self.y as int, self.height as int)
    }

    /// Whether a cell lies inside the saturated bounds of the rectangle.
    pub open spec fn spec_contains(self, p: Position) -> bool {
        &&& self.x <= p.x < self.spec_right()
        &&& self.y <= p.y < self.spec_bottom()
    }

    /// The rectangle shrunk by a one-cell border on each side.
    pub open spec fn spec_inner(self) -> Rect {
        Rect {
            x: sat_add16(self.x as int, if self.width > 0 { 1 } else { 0 }),
            y: sat_add16(self.y as int, if self.height > 0 { 1 } else { 0 }),
            width: sat_sub16(self.width as int, 2),
            height: sat_sub16(self.height as int, 2),
        }
    }

    pub fn new(x: u16, y: u16, width: u16, height: u16) -> (r: Self)
        ensures
            r == (Rect { x, y, width, height }),
    {
        Rect { x, y, width, height }
    }

    pub fn position(self) -> (p: Position)
        ensures
            p == (Position { x: self.x, y: self.y }),
    {
        Position { x: self.x, y: self.y }
    }

    pub fn size(self) -> (s: Size)
        ensures
            s == (Size { width: self.width, height: self.height }),
    {
        Size { width: self.width, height: self.height }
    }

    pub fn right(self) -> (r: u16)
        ensures
            r == self.spec_right(),
    {
        self.x.saturating_add(self.width)
    }

    pub fn bottom(self) -> (b: u16)
        ensures
            b == self.spec_bottom(),
    {
        self.y.saturating_add(self.height)
    }

    pub fn contains(self, position: Position) -> (b: bool)
        ensures
            b == self.spec_contains(position),
    {
        position.x >= self.x && position.x < self.right() && position.y >= self.y
            && position.y < self.bottom()
    }

    pub fn inner(self) -> (r: Self)
        ensures
            r == self.spec_inner(),
    {
        Rect {
            x: self.x.saturating_add(if self.width > 0 { 1 } else { 0 }),
            y: self.y.saturating_add(if self.height > 0 { 1 } else { 0 }),
            width: self.width.saturating_sub(2),
            height: self.height.saturating_sub(2),
        }
    }
}

/// Splits off a left column of at most `left_width` cells; the right part takes the rest.
pub fn split_horizontal(rect: Rect, left_width: u16) -> (r: (Rect, Rect))
    ensures
        r.0 == (Rect {
            x: rect.x,
            y: rect.y,
            width: min_int(left_width as int, rect.width as int) as u16,
            height: rect.height,
        }),
        r.1 == (Rect {
            x: sat_add16(rect.x as int, min_int(left_width as int, rect.width as int)),
            y: rect.y,
            width: (rect.width - min_int(left_width as int, rect.width as int)) as u16,
            height: rect.height,
        }),
        r.0.width + r.1.width == rect.width,
{
    let left_width = if left_width < rect.width { left_width } else { rect.width };
    let right_width = rect.width - left_width;
    (
        Rect::new(rect.x, rect.y, left_width, rect.height),
        Rect::new(rect.x.saturating_add(left_width), rect.y, right_width, rect.height),
    )
}

/// Splits off a top row band of at most `top_height` cells; the bottom part takes the rest.
pub fn split_vertical(rect: Rect, top_height: u16) -> (r: (Rect, Rect))
    ensures
        r.0 == (Rect {
            x: rect.x,
            y: rect.y,
            width: rect.width,
            height: min_int(top_height as int, rect.height as int) as u16,
        }),
        r.1 == (Rect {
            x: rect.x,
            y: sat_add16(rect.y as int, min_int(top_height as int, rect.height as int)),
            width: rect.width,
            height: (rect.height - min_int(top_height as int, rect.height as int)) as u16,
        }),
        r.0.height + r.1.height == rect.height,
{
    let top_height = if top_height < rect.height { top_height } else { rect.height };
    let bottom_height = rect.height - top_height;
    (
        Rect::new(rect.x, rect.y, rect.width, top_height),
        Rect::new(rect.x, rect.y.saturating_add(top_height), rect.width, bottom_height),
    )
}

} // verus!
