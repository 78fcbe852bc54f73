use vstd::prelude::*;

use crate::buffer::set_grid;
use crate::cell::Cell;
use crate::frame::Frame;
use crate::geometry::Rect;
use crate::style::Style;

verus! {

/// The dot bit for column `dx` (0 or 1) and row `dy` (0 to 3) of a Braille cell.
pub open spec fn braille_bit_spec(dx: int, dy: int) -> u8 {
    if dx == 0 && dy == 0 {
        1
    } else if dx == 0 && dy == 1 {
        2
    } else if dx == 0 && dy == 2 {
        4
    } else if dx == 1 && dy == 0 {
        8
    } else if dx == 1 && dy == 1 {
        16
    } else if dx == 1 && dy == 2 {
        32
    } else if dx == 0 && dy == 3 {
        64
    } else if dx == 1 && dy == 3 {
        128
    } else {
        0
    }
}

/// The character for a cell's dot mask: a space when empty, else the Braille pattern
/// U+2800 plus the mask.
pub open spec fn braille_char_spec(mask: u8) -> char {
    if mask == 0 {
        ' '
    } else {
        (0x2800 + mask) as char
    }
}

/// Index of the cell holding logical dot `(x, y)` in a canvas `w` cells wide.
pub open spec fn dot_index(w: int, x: int, y: int) -> int {
    (y / 4) * w + x / 2
}

/// The dots after setting logical dot `(x, y)`.
pub open spec fn with_dot(dots: Seq<u8>, w: int, x: int, y: int) -> Seq<u8> {
    dots.update(dot_index(w, x, y), dots[dot_index(w, x, y)] | braille_bit_spec(x % 2, y % 4))
}

/// The dots after setting each point of `points` in order.
pub open spec fn with_points(dots: Seq<u8>, w: int, points: Seq<(int, int)>) -> Seq<u8>
    decreases points.len(),
{
    if points.len() == 0 {
        dots
    } else {
        let p = points.last();
        with_dot(with_points(dots, w, points.drop_last()), w, p.0, p.1)
    }
}

/// `|v|`.
pub open spec fn abs(v: int) -> int {
    if v < 0 {
        -v
    } else {
        v
    }
}

/// Integer division rounding toward zero.
pub open spec fn trunc_div(a: int, b: int) -> int {
    let q = abs(a) / abs(b);
    if (a < 0) != (b < 0) {
        -q
    } else {
        q
    }
}

/// -1 below 0, 1 above `max`, else 0.
pub open spec fn side(v: int, max: int) -> int {
    if v < 0 {
        -1
    } else if v > max {
        1
    } else {
        0
    }
}

/// Cohen–Sutherland clipping of the segment to `0..=max_x` by `0..=max_y` in at most `fuel`
/// rounds: each round accepts a segment whose ends are both inside, rejects one whose ends lie
/// beyond the same edge, or moves an outside end onto the first edge it crosses (top, bottom,
/// right, then left), with coordinates rounded toward zero.
pub open spec fn clip_steps(
    x0: int,
    y0: int,
    x1: int,
    y1: int,
    max_x: int,
    max_y: int,
    fuel: nat,
) -> Option<(int, int, int, int)>
    decreases fuel,
{
    if fuel == 0 {
        None
    } else {
        let h0 = side(x0, max_x);
        let v0 = side(y0, max_y);
        let h1 = side(x1, max_x);
        let v1 = side(y1, max_y);
        if h0 == 0 && v0 == 0 && h1 == 0 && v1 == 0 {
            Some((x0, y0, x1, y1))
        } else if (h0 != 0 && h0 == h1) || (v0 != 0 && v0 == v1) {
            None
        } else {
            let first = h0 != 0 || v0 != 0;
            let h = if first {
                h0
            } else {
                h1
            };
            let v = if first {
                v0
            } else {
                v1
            };
            let (x, y) = if v == -1 {
                (x0 + trunc_div((x1 - x0) * (0 - y0), y1 - y0), 0)
            } else if v == 1 {
                (x0 + trunc_div((x1 - x0) * (max_y - y0), y1 - y0), max_y)
            } else if h == 1 {
                (max_x, y0 + trunc_div((y1 - y0) * (max_x - x0), x1 - x0))
            } else {
                (0, y0 + trunc_div((y1 - y0) * (0 - x0), x1 - x0))
            };
            if first {
                clip_steps(x, y, x1, y1, max_x, max_y, (fuel - 1) as nat)
            } else {
                clip_steps(x0, y0, x, y, max_x, max_y, (fuel - 1) as nat)
            }
        }
    }
}

/// The segment clipped to a `lw` by `lh` dot surface (eight clipping rounds).
pub open spec fn clip_segment(lw: int, lh: int, x0: int, y0: int, x1: int, y1: int) -> Option<
    (int, int, int, int),
> {
    clip_steps(x0, y0, x1, y1, lw - 1, lh - 1, 8)
}

/// Position `n` steps from `from` toward `to`.
pub open spec fn toward(from: int, to: int, n: int) -> int {
    if from < to {
        from + n
    } else {
        from - n
    }
}

/// The Bresenham trace from `(x0, y0)` to `(x1, y1)` after `nx` horizontal and `ny` vertical
/// steps, with at most `fuel` more points.
pub open spec fn bresenham_from(
    x0: int,
    y0: int,
    x1: int,
    y1: int,
    nx: int,
    ny: int,
    fuel: nat,
) -> Seq<(int, int)>
    decreases fuel,
{
    let a = abs(x1 - x0);
    let b = abs(y1 - y0);
    let x = toward(x0, x1, nx);
    let y = toward(y0, y1, ny);
    let e = a - b - nx * b + ny * a;
    if fuel == 0 {
        Seq::empty()
    } else if x == x1 && y == y1 {
        seq![(x, y)]
    } else {
        seq![(x, y)] + bresenham_from(
            x0,
            y0,
            x1,
            y1,
            if 2 * e >= -b {
                nx + 1
            } else {
                nx
            },
            if 2 * e <= a {
                ny + 1
            } else {
                ny
            },
            (fuel - 1) as nat,
        )
    }
}

/// The dots of the Bresenham line from `(x0, y0)` to `(x1, y1)`, both ends included.
pub open spec fn line_points(x0: int, y0: int, x1: int, y1: int) -> Seq<(int, int)> {
    bresenham_from(x0, y0, x1, y1, 0, 0, (abs(x1 - x0) + abs(y1 - y0) + 1) as nat)
}

/// The dots after drawing the clipped line.
pub open spec fn with_line(
    dots: Seq<u8>,
    w: int,
    h: int,
    x0: int,
    y0: int,
    x1: int,
    y1: int,
) -> Seq<u8> {
    match clip_segment(2 * w, 4 * h, x0, y0, x1, y1) {
        Some((a, b, c, d)) => with_points(dots, w, line_points(a, b, c, d)),
        None => dots,
    }
}

/// The frame cells after putting `cell` at `(x, y)` when it lies in the `fw` by `fh` frame.
pub open spec fn put_cell(cells: Seq<Cell>, fw: int, fh: int, x: int, y: int, cell: Cell) -> Seq<
    Cell,
> {
    if 0 <= x < fw && 0 <= y < fh {
        set_grid(cells, fw, x, y, cell)
    } else {
        cells
    }
}

/// Cells after painting the first `n` cells of canvas row `y` into the frame at `target`.
pub open spec fn paint_row(
    cells: Seq<Cell>,
    fw: int,
    fh: int,
    target: Rect,
    style: Style,
    dots: Seq<u8>,
    cw: int,
    y: int,
    n: int,
) -> Seq<Cell>
    decreases n,
{
    if n <= 0 {
        cells
    } else {
        let prev = paint_row(cells, fw, fh, target, style, dots, cw, y, n - 1);
        let x = n - 1;
        if target.x + x <= u16::MAX && target.y + y <= u16::MAX {
            put_cell(
                prev,
                fw,
                fh,
                target.x + x,
                target.y + y,
                Cell::spec_new(braille_char_spec(dots[y * cw + x]), style),
            )
        } else {
            prev
        }
    }
}

/// Cells after painting the first `rows` rows, `columns` cells each.
pub open spec fn paint_rows(
    cells: Seq<Cell>,
    fw: int,
    fh: int,
    target: Rect,
    style: Style,
    dots: Seq<u8>,
    cw: int,
    columns: int,
    rows: int,
) -> Seq<Cell>
    decreases rows,
{
    if rows <= 0 {
        cells
    } else {
        paint_row(
            paint_rows(cells, fw, fh, target, style, dots, cw, columns, rows - 1),
            fw,
            fh,
            target,
            style,
            dots,
            cw,
            rows - 1,
            columns,
        )
    }
}

/// Calls `char::from_u32`, which gives the character with that scalar value, or `None` for a
/// surrogate or a value above U+10FFFF.
#[verifier::external_body]
fn char_from_u32(v: u32) -> (r: Option<char>)
    ensures
        (v <= 0x10ffff && !(0xd800 <= v <= 0xdfff)) ==> r == Some(v as char),
        (v > 0x10ffff || (0xd800 <= v <= 0xdfff)) ==> r is None,
{
    char::from_u32(v)
}

fn braille_bit(x: u8, y: u8) -> (r: u8)
    ensures
        r == braille_bit_spec(x as int, y as int),
{
    match (x, y) {
        (0, 0) => 1,
        (0, 1) => 2,
        (0, 2) => 4,
        (1, 0) => 8,
        (1, 1) => 16,
        (1, 2) => 32,
        (0, 3) => 64,
        (1, 3) => 128,
        _ => 0,
    }
}

fn braille_character(mask: u8) -> (r: char)
    ensures
        r == braille_char_spec(mask),
{
    if mask == 0 {
        ' '
    } else {
        match char_from_u32(0x2800 + mask as u32) {
            Some(c) => c,
            None => ' ',
        }
    }
}

/// An owned 2×4-dot-per-cell Unicode Braille drawing surface.
///
/// Draw in logical dot coordinates, then render the canvas explicitly into a frame rectangle.
#[derive(Clone, Debug, PartialEq, Eq)]
pub struct Canvas {
    width: u16,
    height: u16,
    dots: Vec<u8>,
}

impl Canvas {
    pub closed spec fn spec_width(&self) -> u16 {
        self.width
    }

    pub closed spec fn spec_height(&self) -> u16 {
        self.height
    }

    /// The dot masks, one per cell, row by row.
    pub closed spec fn spec_dots(&self) -> Seq<u8> {
        self.dots@
    }

    /// One mask per cell.
    pub open spec fn wf(&self) -> bool {
        self.spec_dots().len() == self.spec_width() * self.spec_height()
    }

    pub fn new(width: u16, height: u16) -> (r: Self)
        ensures
            r.wf(),
            r.spec_width() == width,
            r.spec_height() == height,
            r.spec_dots() == Seq::new((width * height) as nat, |i: int| 0u8),
    {
        proof {
            assert(width * height <= 0xffff * 0xffff) by (nonlinear_arith)
                requires
                    width <= 0xffff,
                    height <= 0xffff,
            ;
        }
        let n = width as usize * height as usize;
        let mut dots: Vec<u8> = Vec::new();
        let mut i: usize = 0;
        while i < n
            invariant
                i <= n,
                n == width * height,
                dots@ == Seq::new(i as nat, |k: int| 0u8),
            decreases n - i,
        {
            dots.push(0);
            proof {
                assert(dots@ =~= Seq::new((i + 1) as nat, |k: int| 0u8));
            }
            i = i + 1;
        }
        Canvas { width, height, dots }
    }

    pub fn width(&self) -> (r: u16)
        ensures
            r == self.spec_width(),
    {
        self.width
    }

    pub fn height(&self) -> (r: u16)
        ensures
            r == self.spec_height(),
    {
        self.height
    }

    /// Dot columns: two per cell.
    pub fn logical_width(&self) -> (r: u32)
        ensures
            r == 2 * self.spec_width(),
    {
        self.width as u32 * 2
    }

    /// Dot rows: four per cell.
    pub fn logical_height(&self) -> (r: u32)
        ensures
            r == 4 * self.spec_height(),
    {
        self.height as u32 * 4
    }

    /// Sets logical dot `(x, y)`; false (and nothing drawn) outside the canvas.
    pub fn set_point(&mut self, x: u32, y: u32) -> (r: bool)
        requires
            old(self).wf(),
        ensures
            final(self).wf(),
            final(self).spec_width() == old(self).spec_width(),
            final(self).spec_height() == old(self).spec_height(),
            r == (x < 2 * old(self).spec_width() && y < 4 * old(self).spec_height()),
            final(self).spec_dots() == if r {
                with_dot(old(self).spec_dots(), old(self).spec_width() as int, x as int, y as int)
            } else {
                old(self).spec_dots()
            },
    {
        if x >= self.logical_width() || y >= self.logical_height() {
            return false;
        }
        let cell_x = (x / 2) as u16;
        let cell_y = (y / 4) as u16;
        let bit = braille_bit((x % 2) as u8, (y % 4) as u8);
        let index = self.index(cell_x, cell_y);
        proof {
            assert(index == dot_index(self.width as int, x as int, y as int));
        }
        let mask = self.dots[index] | bit;
        self.dots.set(index, mask);
        true
    }

    /// Clears every dot.
    pub fn clear(&mut self)
        requires
            old(self).wf(),
        ensures
            final(self).wf(),
            final(self).spec_width() == old(self).spec_width(),
            final(self).spec_height() == old(self).spec_height(),
            final(self).spec_dots() == Seq::new(old(self).spec_dots().len(), |i: int| 0u8),
    {
        let n = self.dots.len();
        let mut i: usize = 0;
        while i < n
            invariant
                i <= n == self.dots@.len(),
                self.width == old(self).width,
                self.height == old(self).height,
                n == old(self).dots@.len(),
                forall|k: int| 0 <= k < i ==> self.dots@[k] == 0u8,
            decreases n - i,
        {
            self.dots.set(i, 0);
            i = i + 1;
        }
        proof {
            assert(self.dots@ =~= Seq::new(n as nat, |i: int| 0u8));
        }
    }

    fn index(&self, x: u16, y: u16) -> (r: usize)
        requires
            self.wf(),
            x < self.spec_width(),
            y < self.spec_height(),
        ensures
            r == y * self.spec_width() + x,
            r < self.spec_dots().len(),
    {
        proof {
            assert(y * self.width + x < self.width * self.height) by (nonlinear_arith)
                requires
                    x < self.width,
                    y < self.height,
            ;
            assert(self.width * self.height <= 0xffff * 0xffff) by (nonlinear_arith)
                requires
                    self.width <= 0xffff,
                    self.height <= 0xffff,
            ;
            assert(y * self.width <= y * self.width + x);
        }
        y as usize * self.width as usize + x as usize
    }

    /// Draws the canvas into `target`, one character per cell, clipped to the target and to the
    /// frame.
    pub fn render(&self, frame: &mut Frame, target: Rect, style: Style)
        requires
            self.wf(),
            old(frame).wf(),
        ensures
            final(frame).wf(),
            final(frame).same_size(old(frame)),
            final(frame).spec_buffer().cells() == paint_rows(
                old(frame).spec_buffer().cells(),
                old(frame).spec_width() as int,
                old(frame).spec_height() as int,
                target,
                style,
                self.spec_dots(),
                self.spec_width() as int,
                if self.spec_width() <= target.width {
                    self.spec_width() as int
                } else {
                    target.width as int
                },
                if self.spec_height() <= target.height {
                    self.spec_height() as int
                } else {
                    target.height as int
                },
            ),
    {
        let visible_width = if self.width <= target.width {
            self.width
        } else {
            target.width
        };
        let visible_height = if self.height <= target.height {
            self.height
        } else {
            target.height
        };
        let ghost fw = old(frame).spec_width() as int;
        let ghost fh = old(frame).spec_height() as int;
        let ghost cells0 = old(frame).spec_buffer().cells();
        let mut y: u16 = 0;
        while y < visible_height
            invariant
                y <= visible_height <= self.height,
                visible_width <= self.width,
                self.wf(),
                frame.wf(),
                frame.same_size(old(frame)),
                fw == old(frame).spec_width(),
                fh == old(frame).spec_height(),
                cells0 == old(frame).spec_buffer().cells(),
                frame.spec_buffer().cells() == paint_rows(
                    cells0,
                    fw,
                    fh,
                    target,
                    style,
                    self.dots@,
                    self.width as int,
                    visible_width as int,
                    y as int,
                ),
            decreases visible_height - y,
        {
            let ghost row_start = frame.spec_buffer().cells();
            let mut x: u16 = 0;
            while x < visible_width
                invariant
                    x <= visible_width <= self.width,
                    y < visible_height <= self.height,
                    self.wf(),
                    frame.wf(),
                    frame.same_size(old(frame)),
                    fw == old(frame).spec_width(),
                    fh == old(frame).spec_height(),
                    frame.spec_buffer().cells() == paint_row(
                        row_start,
                        fw,
                        fh,
                        target,
                        style,
                        self.dots@,
                        self.width as int,
                        y as int,
                        x as int,
                    ),
                decreases visible_width - x,
            {
                match target.y.checked_add(y) {
                    Some(frame_y) => match target.x.checked_add(x) {
                        Some(frame_x) => {
                            let index = self.index(x, y);
                            let character = braille_character(self.dots[index]);
                            frame.set_cell(frame_x, frame_y, Cell::new(character, style));
                        },
                        None => {},
                    },
                    None => {},
                }
                x = x + 1;
            }
            y = y + 1;
        }
    }
}

/// -1 below 0, 1 above `max`, else 0.
fn side_of(v: i128, max: i128) -> (r: i8)
    ensures
        r == side(v as int, max as int),
{
    if v < 0 {
        -1
    } else if v > max {
        1
    } else {
        0
    }
}

/// Division rounding toward zero.
fn div_toward_zero(a: i128, b: i128) -> (r: i128)
    requires
        b != 0,
        -0x1_0000_0000_0000_0000_0000_0000 <= a <= 0x1_0000_0000_0000_0000_0000_0000,
        -0x1_0000_0000_0000_0000_0000_0000 <= b <= 0x1_0000_0000_0000_0000_0000_0000,
    ensures
        r == trunc_div(a as int, b as int),
{
    let ua: u128 = if a < 0 {
        (-a) as u128
    } else {
        a as u128
    };
    let ub: u128 = if b < 0 {
        (-b) as u128
    } else {
        b as u128
    };
    let q = ua / ub;
    proof {
        assert(ua as int == abs(a as int));
        assert(ub as int == abs(b as int));
        assert(q <= ua) by (nonlinear_arith)
            requires
                q == ua / ub,
                ub >= 1,
        ;
    }
    if (a < 0) != (b < 0) {
        -(q as i128)
    } else {
        q as i128
    }
}

/// `d * n / den` rounded toward zero lies between 0 and `d` when `n / den` lies in `0..=1`.
proof fn lemma_scaled_between(d: int, n: int, den: int)
    requires
        den != 0,
        (0 <= n <= den) || (den <= n <= 0),
    ensures
        0 <= d ==> 0 <= trunc_div(d * n, den) <= d,
        d < 0 ==> d <= trunc_div(d * n, den) <= 0,
{
    let an = abs(n);
    let ad = abs(d);
    let aden = abs(den);
    assert(abs(d * n) == ad * an) by (nonlinear_arith)
        requires
            ad == abs(d),
            an == abs(n),
    ;
    assert(ad * an <= ad * aden) by (nonlinear_arith)
        requires
            0 <= an <= aden,
            0 <= ad,
    ;
    assert((ad * an) / aden <= ad) by (nonlinear_arith)
        requires
            ad * an <= ad * aden,
            aden > 0,
            ad >= 0,
            an >= 0,
    ;
    assert((ad * an) / aden >= 0) by (nonlinear_arith)
        requires
            aden > 0,
            ad >= 0,
            an >= 0,
    ;
    if d * n != 0 {
        assert((d * n < 0) != (den < 0) <==> d < 0) by (nonlinear_arith)
            requires
                d * n != 0,
                (0 <= n <= den) || (den <= n <= 0),
        ;
    }
}

/// Products of clipping offsets stay far inside `i128`.
proof fn lemma_product_bound(p: int, q: int)
    requires
        within(p, 0x10_0000_0000),
        within(q, 0x10_0000_0000),
    ensures
        within(p * q, 0x100_0000_0000_0000_0000),
{
    assert(-0x100_0000_0000_0000_0000 <= p * q <= 0x100_0000_0000_0000_0000) by (nonlinear_arith)
        requires
            -0x10_0000_0000 <= p <= 0x10_0000_0000,
            -0x10_0000_0000 <= q <= 0x10_0000_0000,
    ;
}

/// Bounds kept by clipping: coordinates stay within `limit` of the origin.
pub open spec fn within(v: int, limit: int) -> bool {
    -limit <= v <= limit
}

impl Canvas {
    /// The segment clipped to the dot surface, or `None` when nothing of it is visible.
    fn clip_line(&self, x0: i64, y0: i64, x1: i64, y1: i64) -> (r: Option<(i64, i64, i64, i64)>)
        requires
            within(x0 as int, 0x4_0000_0000),
            within(y0 as int, 0x4_0000_0000),
            within(x1 as int, 0x4_0000_0000),
            within(y1 as int, 0x4_0000_0000),
        ensures
            clip_segment(
                2 * self.spec_width(),
                4 * self.spec_height(),
                x0 as int,
                y0 as int,
                x1 as int,
                y1 as int,
            ) == match r {
                Some((a, b, c, d)) => Some((a as int, b as int, c as int, d as int)),
                None => None,
            },
    {
        let max_x: i128 = self.logical_width() as i128 - 1;
        let max_y: i128 = self.logical_height() as i128 - 1;
        let ghost goal = clip_segment(
            2 * self.spec_width(),
            4 * self.spec_height(),
            x0 as int,
            y0 as int,
            x1 as int,
            y1 as int,
        );
        let limit: i128 = 0x4_0000_0000;
        let mut ax: i128 = x0 as i128;
        let mut ay: i128 = y0 as i128;
        let mut bx: i128 = x1 as i128;
        let mut by_: i128 = y1 as i128;
        let mut round: usize = 0;
        while round < 8
            invariant
                round <= 8,
                -1 <= max_x <= 0x2_0000,
                -1 <= max_y <= 0x4_0000,
                limit == 0x4_0000_0000,
                goal == clip_segment(
                    2 * self.spec_width(),
                    4 * self.spec_height(),
                    x0 as int,
                    y0 as int,
                    x1 as int,
                    y1 as int,
                ),
                within(ax as int, limit as int),
                within(ay as int, limit as int),
                within(bx as int, limit as int),
                within(by_ as int, limit as int),
                goal == clip_steps(
                    ax as int,
                    ay as int,
                    bx as int,
                    by_ as int,
                    max_x as int,
                    max_y as int,
                    (8 - round) as nat,
                ),
            decreases 8 - round,
        {
            let h0 = side_of(ax, max_x);
            let v0 = side_of(ay, max_y);
            let h1 = side_of(bx, max_x);
            let v1 = side_of(by_, max_y);
            if h0 == 0 && v0 == 0 && h1 == 0 && v1 == 0 {
                return Some((ax as i64, ay as i64, bx as i64, by_ as i64));
            }
            if (h0 != 0 && h0 == h1) || (v0 != 0 && v0 == v1) {
                return None;
            }
            let first = h0 != 0 || v0 != 0;
            let h = if first {
                h0
            } else {
                h1
            };
            let v = if first {
                v0
            } else {
                v1
            };
            let (x, y) = if v == -1 {
                proof {
                    lemma_scaled_between(bx - ax, 0 - ay, by_ - ay);
                    lemma_product_bound((bx - ax) as int, (0 - ay) as int);
                }
                (ax + div_toward_zero((bx - ax) * (0 - ay), by_ - ay), 0)
            } else if v == 1 {
                proof {
                    lemma_scaled_between(bx - ax, max_y - ay, by_ - ay);
                    lemma_product_bound((bx - ax) as int, (max_y - ay) as int);
                }
                (ax + div_toward_zero((bx - ax) * (max_y - ay), by_ - ay), max_y)
            } else if h == 1 {
                proof {
                    lemma_scaled_between(by_ - ay, max_x - ax, bx - ax);
                    lemma_product_bound((by_ - ay) as int, (max_x - ax) as int);
                }
                (max_x, ay + div_toward_zero((by_ - ay) * (max_x - ax), bx - ax))
            } else {
                proof {
                    lemma_scaled_between(by_ - ay, 0 - ax, bx - ax);
                    lemma_product_bound((by_ - ay) as int, (0 - ax) as int);
                }
                (0, ay + div_toward_zero((by_ - ay) * (0 - ax), bx - ax))
            };
            if first {
                ax = x;
                ay = y;
            } else {
                bx = x;
                by_ = y;
            }
            round = round + 1;
        }
        None
    }
}

/// A clipped segment lies inside the surface.
pub proof fn lemma_clip_inside(
    x0: int,
    y0: int,
    x1: int,
    y1: int,
    max_x: int,
    max_y: int,
    fuel: nat,
)
    ensures
        clip_steps(x0, y0, x1, y1, max_x, max_y, fuel) matches Some((a, b, c, d)) ==> 0 <= a
            <= max_x && 0 <= b <= max_y && 0 <= c <= max_x && 0 <= d <= max_y,
    decreases fuel,
{
    if fuel > 0 {
        let h0 = side(x0, max_x);
        let v0 = side(y0, max_y);
        let h1 = side(x1, max_x);
        let v1 = side(y1, max_y);
        if !(h0 == 0 && v0 == 0 && h1 == 0 && v1 == 0) && !((h0 != 0 && h0 == h1) || (v0 != 0
            && v0 == v1)) {
            let first = h0 != 0 || v0 != 0;
            let h = if first {
                h0
            } else {
                h1
            };
            let v = if first {
                v0
            } else {
                v1
            };
            let (x, y) = if v == -1 {
                (x0 + trunc_div((x1 - x0) * (0 - y0), y1 - y0), 0)
            } else if v == 1 {
                (x0 + trunc_div((x1 - x0) * (max_y - y0), y1 - y0), max_y)
            } else if h == 1 {
                (max_x, y0 + trunc_div((y1 - y0) * (max_x - x0), x1 - x0))
            } else {
                (0, y0 + trunc_div((y1 - y0) * (0 - x0), x1 - x0))
            };
            if first {
                lemma_clip_inside(x, y, x1, y1, max_x, max_y, (fuel - 1) as nat);
            } else {
                lemma_clip_inside(x0, y0, x, y, max_x, max_y, (fuel - 1) as nat);
            }
        }
    }
}

/// A Bresenham step moves along at least one axis and never past the end.
pub proof fn lemma_bresenham_step(a: int, b: int, nx: int, ny: int)
    requires
        0 <= nx <= a,
        0 <= ny <= b,
        !(nx == a && ny == b),
    ensures
        2 * (a - b - nx * b + ny * a) >= -b || 2 * (a - b - nx * b + ny * a) <= a,
        2 * (a - b - nx * b + ny * a) >= -b ==> nx < a,
        2 * (a - b - nx * b + ny * a) <= a ==> ny < b,
{
    assert(2 * (a - b - nx * b + ny * a) >= -b ==> nx < a) by (nonlinear_arith)
        requires
            0 <= nx <= a,
            0 <= ny <= b,
            !(nx == a && ny == b),
    ;
    assert(2 * (a - b - nx * b + ny * a) <= a ==> ny < b) by (nonlinear_arith)
        requires
            0 <= nx <= a,
            0 <= ny <= b,
            !(nx == a && ny == b),
    ;
}

/// The Bresenham error term stays small while the counts stay within the deltas.
proof fn lemma_error_bound(a: int, b: int, nx: int, ny: int)
    requires
        0 <= nx <= a <= 0x10_0000,
        0 <= ny <= b <= 0x10_0000,
    ensures
        within(a - b - nx * b + ny * a, 0x200_0000_0000),
{
    assert(nx * b <= 0x10_0000 * 0x10_0000) by (nonlinear_arith)
        requires
            0 <= nx <= 0x10_0000,
            0 <= b <= 0x10_0000,
    ;
    assert(ny * a <= 0x10_0000 * 0x10_0000) by (nonlinear_arith)
        requires
            0 <= ny <= 0x10_0000,
            0 <= a <= 0x10_0000,
    ;
    assert(nx * b >= 0) by (nonlinear_arith)
        requires
            0 <= nx,
            0 <= b,
    ;
    assert(ny * a >= 0) by (nonlinear_arith)
        requires
            0 <= ny,
            0 <= a,
    ;
}

impl Canvas {
    /// Draws the clipped Bresenham line between two logical points.
    fn draw_line_i64(&mut self, x0: i64, y0: i64, x1: i64, y1: i64)
        requires
            old(self).wf(),
            within(x0 as int, 0x4_0000_0000),
            within(y0 as int, 0x4_0000_0000),
            within(x1 as int, 0x4_0000_0000),
            within(y1 as int, 0x4_0000_0000),
        ensures
            final(self).wf(),
            final(self).spec_width() == old(self).spec_width(),
            final(self).spec_height() == old(self).spec_height(),
            final(self).spec_dots() == with_line(
                old(self).spec_dots(),
                old(self).spec_width() as int,
                old(self).spec_height() as int,
                x0 as int,
                y0 as int,
                x1 as int,
                y1 as int,
            ),
    {
        let (sx0, sy0, tx, ty) = match self.clip_line(x0, y0, x1, y1) {
            Some(t) => t,
            None => {
                return;
            },
        };
        let ghost w = self.spec_width() as int;
        let ghost h = self.spec_height() as int;
        proof {
            lemma_clip_inside(x0 as int, y0 as int, x1 as int, y1 as int, 2 * w - 1, 4 * h - 1, 8);
        }
        let mut x: i64 = sx0;
        let mut y: i64 = sy0;
        let dx: i64 = if tx >= x {
            tx - x
        } else {
            x - tx
        };
        let sx: i64 = if x < tx {
            1
        } else {
            -1
        };
        let dy: i64 = if ty >= y {
            y - ty
        } else {
            ty - y
        };
        let sy: i64 = if y < ty {
            1
        } else {
            -1
        };
        let mut error: i64 = dx + dy;
        let ghost a = dx as int;
        let ghost b = -dy;
        let ghost fuel = (a + b + 1) as nat;
        let ghost full = line_points(sx0 as int, sy0 as int, tx as int, ty as int);
        let ghost d0 = self.spec_dots();
        let ghost mut nx: int = 0;
        let ghost mut ny: int = 0;
        let ghost mut done: Seq<(int, int)> = Seq::empty();
        while !(x == tx && y == ty)
            invariant
                self.wf(),
                self.spec_width() == w,
                self.spec_height() == h,
                0 <= sx0 < 2 * w,
                0 <= tx < 2 * w,
                0 <= sy0 < 4 * h,
                0 <= ty < 4 * h,
                w <= 0xffff,
                h <= 0xffff,
                a == abs(tx - sx0),
                b == abs(ty - sy0),
                dx == a,
                dy == -b,
                sx == (if sx0 < tx {
                    1int
                } else {
                    -1int
                }),
                sy == (if sy0 < ty {
                    1int
                } else {
                    -1int
                }),
                0 <= nx <= a,
                0 <= ny <= b,
                x == toward(sx0 as int, tx as int, nx),
                y == toward(sy0 as int, ty as int, ny),
                error == a - b - nx * b + ny * a,
                fuel == a + b + 1,
                full == line_points(sx0 as int, sy0 as int, tx as int, ty as int),
                done.len() <= nx + ny,
                full == done + bresenham_from(
                    sx0 as int,
                    sy0 as int,
                    tx as int,
                    ty as int,
                    nx,
                    ny,
                    (fuel - done.len()) as nat,
                ),
                self.spec_dots() == with_points(d0, w, done),
            decreases (a - nx) + (b - ny),
        {
            proof {
                lemma_bresenham_step(a, b, nx, ny);
                lemma_error_bound(a, b, nx, ny);
                let rest = bresenham_from(
                    sx0 as int,
                    sy0 as int,
                    tx as int,
                    ty as int,
                    nx,
                    ny,
                    (fuel - done.len()) as nat,
                );
                assert(rest[0] == (x as int, y as int));
            }
            self.set_point(x as u32, y as u32);
            let ghost before = done;
            proof {
                done = done.push((x as int, y as int));
                assert(done.drop_last() == before);
            }
            let twice_error = error * 2;
            let ghost step_x = twice_error >= dy;
            let ghost step_y = twice_error <= dx;
            if twice_error >= dy {
                error = error + dy;
                x = x + sx;
            }
            if twice_error <= dx {
                error = error + dx;
                y = y + sy;
            }
            proof {
                let next = bresenham_from(
                    sx0 as int,
                    sy0 as int,
                    tx as int,
                    ty as int,
                    if step_x {
                        nx + 1
                    } else {
                        nx
                    },
                    if step_y {
                        ny + 1
                    } else {
                        ny
                    },
                    (fuel - done.len()) as nat,
                );
                assert((nx + 1) * b == nx * b + b) by (nonlinear_arith);
                assert((ny + 1) * a == ny * a + a) by (nonlinear_arith);
                if step_x {
                    nx = nx + 1;
                }
                if step_y {
                    ny = ny + 1;
                }
                assert(full =~= done + next);
            }
        }
        proof {
            let rest = bresenham_from(
                sx0 as int,
                sy0 as int,
                tx as int,
                ty as int,
                nx,
                ny,
                (fuel - done.len()) as nat,
            );
            assert(nx == a && ny == b);
            assert(rest == seq![(tx as int, ty as int)]);
        }
        self.set_point(tx as u32, ty as u32);
        proof {
            let before = done;
            done = done.push((tx as int, ty as int));
            assert(done.drop_last() == before);
            assert(full =~= done);
        }
    }

    /// Draws the line between two logical points, clipped to the canvas.
    pub fn draw_line(&mut self, x0: i32, y0: i32, x1: i32, y1: i32)
        requires
            old(self).wf(),
        ensures
            final(self).wf(),
            final(self).spec_width() == old(self).spec_width(),
            final(self).spec_height() == old(self).spec_height(),
            final(self).spec_dots() == with_line(
                old(self).spec_dots(),
                old(self).spec_width() as int,
                old(self).spec_height() as int,
                x0 as int,
                y0 as int,
                x1 as int,
                y1 as int,
            ),
    {
        self.draw_line_i64(x0 as i64, y0 as i64, x1 as i64, y1 as i64);
    }

    /// Draws the outline of the `width` by `height` dot rectangle at `(x, y)`: top, bottom,
    /// left and right edges in that order; nothing for an empty size.
    pub fn draw_rect(&mut self, x: u32, y: u32, width: u32, height: u32)
        requires
            old(self).wf(),
        ensures
            final(self).wf(),
            final(self).spec_width() == old(self).spec_width(),
            final(self).spec_height() == old(self).spec_height(),
            width == 0 || height == 0 ==> final(self).spec_dots() == old(self).spec_dots(),
            width > 0 && height > 0 ==> {
                let w = old(self).spec_width() as int;
                let h = old(self).spec_height() as int;
                let x1 = x + width - 1;
                let y1 = y + height - 1;
                final(self).spec_dots() == with_line(
                    with_line(
                        with_line(
                            with_line(old(self).spec_dots(), w, h, x as int, y as int, x1, y as int),
                            w,
                            h,
                            x as int,
                            y1,
                            x1,
                            y1,
                        ),
                        w,
                        h,
                        x as int,
                        y as int,
                        x as int,
                        y1,
                    ),
                    w,
                    h,
                    x1,
                    y as int,
                    x1,
                    y1,
                )
            },
    {
        if width == 0 || height == 0 {
            return;
        }
        let x0 = x as i64;
        let y0 = y as i64;
        let x1 = x0 + width as i64 - 1;
        let y1 = y0 + height as i64 - 1;
        self.draw_line_i64(x0, y0, x1, y0);
        self.draw_line_i64(x0, y1, x1, y1);
        self.draw_line_i64(x0, y0, x0, y1);
        self.draw_line_i64(x1, y0, x1, y1);
    }
}

proof fn lemma_trace_ends(x0: int, y0: int, x1: int, y1: int, nx: int, ny: int, fuel: nat)
    requires
        0 <= nx <= abs(x1 - x0),
        0 <= ny <= abs(y1 - y0),
        fuel >= (abs(x1 - x0) - nx) + (abs(y1 - y0) - ny) + 1,
    ensures
        bresenham_from(x0, y0, x1, y1, nx, ny, fuel).len() >= 1,
        bresenham_from(x0, y0, x1, y1, nx, ny, fuel).last() == (x1, y1),
    decreases fuel,
{
    let a = abs(x1 - x0);
    let b = abs(y1 - y0);
    let x = toward(x0, x1, nx);
    let y = toward(y0, y1, ny);
    if !(x == x1 && y == y1) {
        lemma_bresenham_step(a, b, nx, ny);
        let e = a - b - nx * b + ny * a;
        let nx2 = if 2 * e >= -b {
            nx + 1
        } else {
            nx
        };
        let ny2 = if 2 * e <= a {
            ny + 1
        } else {
            ny
        };
        lemma_trace_ends(x0, y0, x1, y1, nx2, ny2, (fuel - 1) as nat);
    }
}

/// A line's dots start at its first end and finish at its second end.
pub proof fn lemma_line_endpoints(x0: int, y0: int, x1: int, y1: int)
    ensures
        line_points(x0, y0, x1, y1).len() >= 1,
        line_points(x0, y0, x1, y1)[0] == (x0, y0),
        line_points(x0, y0, x1, y1).last() == (x1, y1),
{
    lemma_trace_ends(x0, y0, x1, y1, 0, 0, (abs(x1 - x0) + abs(y1 - y0) + 1) as nat);
}

} // verus!
