use vstd::prelude::*;

use crate::canvas::put_cell;
use crate::cell::Cell;
use crate::frame::Frame;
use crate::geometry::{Position, Rect, sat_add16, sat_sub16};
use crate::style::Style;
use crate::viewport::{ViewportState, sat_sub};

verus! {

/// `a * b` saturated at `usize::MAX`.
pub open spec fn sat_mul(a: int, b: int) -> int {
    if a * b > usize::MAX {
        usize::MAX as int
    } else {
        a * b
    }
}

/// `a + b` saturated at `usize::MAX`.
pub open spec fn sat_add(a: int, b: int) -> int {
    if a + b > usize::MAX {
        usize::MAX as int
    } else {
        a + b
    }
}

fn saturating_mul(a: usize, b: usize) -> (r: usize)
    ensures
        r == sat_mul(a as int, b as int),
{
    match a.checked_mul(b) {
        Some(v) => v,
        None => usize::MAX,
    }
}

/// The track and thumb rectangles derived from a [`ViewportState`].
#[derive(Clone, Copy, Debug, PartialEq, Eq, Structural)]
pub struct ScrollbarGeometry {
    pub track: Rect,
    pub thumb: Rect,
}

/// The thumb's height in cells for a track `track_height` cells high.
pub open spec fn thumb_height(track_height: int, content_height: int, viewport_height: int) -> int {
    let content = if content_height >= 1 {
        content_height
    } else {
        1
    };
    let visible = if viewport_height <= content {
        viewport_height
    } else {
        content
    };
    let raw = sat_add(sat_mul(track_height, visible), content - 1) / content;
    if raw < 1 {
        1
    } else if raw > track_height {
        track_height
    } else {
        raw
    }
}

/// The thumb's offset from the top of the track.
pub open spec fn thumb_offset(travel: int, offset: int, max_scroll: int) -> int {
    if travel == 0 {
        0
    } else {
        sat_mul(travel, offset) / max_scroll
    }
}

/// The scrollbar geometry for `viewport` in `track`, or `None` when nothing can scroll or the
/// track is empty.
pub open spec fn spec_geometry(viewport: ViewportState, track: Rect) -> Option<ScrollbarGeometry> {
    if track.width == 0 || track.height == 0 || viewport.spec_max_scroll() == 0 {
        None
    } else {
        let th = track.height as int;
        let size = thumb_height(
            th,
            viewport.spec_content_height() as int,
            viewport.spec_viewport_height() as int,
        );
        let off = thumb_offset(th - size, viewport.spec_offset() as int, viewport.spec_max_scroll());
        Some(
            ScrollbarGeometry {
                track,
                thumb: Rect {
                    x: track.x,
                    y: sat_add16(
                        track.y as int,
                        if off > u16::MAX {
                            u16::MAX as int
                        } else {
                            off
                        },
                    ),
                    width: track.width,
                    height: size as u16,
                },
            },
        )
    }
}

/// Cells after drawing a scrollbar with geometry `g`: the whole track in `│`, then the thumb
/// over it in `█`.
pub open spec fn scrollbar_cells(
    cells: Seq<Cell>,
    w: int,
    h: int,
    g: ScrollbarGeometry,
    track_style: Style,
    thumb_style: Style,
) -> Seq<Cell> {
    column_cells(
        column_cells(
            cells,
            w,
            h,
            g.track,
            Cell::spec_new('\u{2502}', track_style),
            g.track.height as int,
        ),
        w,
        h,
        g.thumb,
        Cell::spec_new('\u{2588}', thumb_style),
        g.thumb.height as int,
    )
}

/// The area left of a scrollbar that takes the last column of `rect`.
pub open spec fn content_area(rect: Rect) -> Rect {
    Rect { x: rect.x, y: rect.y, width: sat_sub16(rect.width as int, 1), height: rect.height }
}

/// Stateless rendering and geometry helpers for a vertical viewport scrollbar.
pub struct Scrollbar;

impl Scrollbar {
    /// Returns no geometry when the viewport cannot scroll or the track has no height.
    pub fn geometry(viewport: &ViewportState, track: Rect) -> (r: Option<ScrollbarGeometry>)
        ensures
            r == spec_geometry(*viewport, track),
    {
        let max_scroll = viewport.max_scroll();
        if track.width == 0 || track.height == 0 || max_scroll == 0 {
            return None;
        }
        let track_height = track.height as usize;
        let content_height = if viewport.content_height() >= 1 {
            viewport.content_height()
        } else {
            1
        };
        let viewport_height = if viewport.viewport_height() <= content_height {
            viewport.viewport_height()
        } else {
            content_height
        };
        let raw = saturating_mul(track_height, viewport_height).saturating_add(content_height - 1)
            / content_height;
        let size = if raw < 1 {
            1
        } else if raw > track_height {
            track_height
        } else {
            raw
        };
        let travel = track_height - size;
        let offset = if travel == 0 {
            0
        } else {
            saturating_mul(travel, viewport.offset()) / max_scroll
        };
        let offset16: u16 = if offset > u16::MAX as usize {
            u16::MAX
        } else {
            offset as u16
        };
        Some(
            ScrollbarGeometry {
                track,
                thumb: Rect::new(
                    track.x,
                    track.y.saturating_add(offset16),
                    track.width,
                    size as u16,
                ),
            },
        )
    }

    /// Draws the whole track and then the thumb over it, without reserving any layout width.
    pub fn render(
        frame: &mut Frame,
        viewport: &ViewportState,
        track: Rect,
        track_style: Style,
        thumb_style: Style,
    ) -> (r: Option<ScrollbarGeometry>)
        requires
            old(frame).wf(),
        ensures
            final(frame).wf(),
            final(frame).same_size(old(frame)),
            r == spec_geometry(*viewport, track),
            r is None ==> *final(frame) == *old(frame),
            r matches Some(g) ==> final(frame).spec_buffer().cells() == scrollbar_cells(
                old(frame).spec_buffer().cells(),
                old(frame).spec_width() as int,
                old(frame).spec_height() as int,
                g,
                track_style,
                thumb_style,
            ),
    {
        let geometry = match Scrollbar::geometry(viewport, track) {
            Some(g) => g,
            None => {
                return None;
            },
        };
        let ghost cells0 = old(frame).spec_buffer().cells();
        let ghost fw = old(frame).spec_width() as int;
        let ghost fh = old(frame).spec_height() as int;
        let mut offset: u16 = 0;
        while offset < geometry.track.height
            invariant
                offset <= geometry.track.height,
                frame.wf(),
                frame.same_size(old(frame)),
                fw == old(frame).spec_width(),
                fh == old(frame).spec_height(),
                frame.spec_buffer().cells() == column_cells(
                    cells0,
                    fw,
                    fh,
                    geometry.track,
                    Cell::spec_new('\u{2502}', track_style),
                    offset as int,
                ),
            decreases geometry.track.height - offset,
        {
            frame.set_cell(
                geometry.track.x,
                geometry.track.y.saturating_add(offset),
                Cell::new('\u{2502}', track_style),
            );
            offset = offset + 1;
        }
        let ghost cells1 = frame.spec_buffer().cells();
        let mut offset: u16 = 0;
        while offset < geometry.thumb.height
            invariant
                offset <= geometry.thumb.height,
                frame.wf(),
                frame.same_size(old(frame)),
                fw == old(frame).spec_width(),
                fh == old(frame).spec_height(),
                cells1 == column_cells(
                    cells0,
                    fw,
                    fh,
                    geometry.track,
                    Cell::spec_new('\u{2502}', track_style),
                    geometry.track.height as int,
                ),
                cells0 == old(frame).spec_buffer().cells(),
                frame.spec_buffer().cells() == column_cells(
                    cells1,
                    fw,
                    fh,
                    geometry.thumb,
                    Cell::spec_new('\u{2588}', thumb_style),
                    offset as int,
                ),
            decreases geometry.thumb.height - offset,
        {
            frame.set_cell(
                geometry.thumb.x,
                geometry.thumb.y.saturating_add(offset),
                Cell::new('\u{2588}', thumb_style),
            );
            offset = offset + 1;
        }
        Some(geometry)
    }
}

/// Cells after putting `cell` in the first `n` rows of `rect`'s left column (rows past
/// `u16::MAX` repeat the last row).
pub open spec fn column_cells(cells: Seq<Cell>, fw: int, fh: int, rect: Rect, cell: Cell, n: int) -> Seq<
    Cell,
>
    decreases n,
{
    if n <= 0 {
        cells
    } else {
        put_cell(
            column_cells(cells, fw, fh, rect, cell, n - 1),
            fw,
            fh,
            rect.x as int,
            sat_add16(rect.y as int, n - 1) as int,
            cell,
        )
    }
}

/// The thumb always fits in its track: it is at least one cell high, and for a viewport whose
/// offset lies in its scroll range, the thumb's offset plus its height never exceeds the track.
pub proof fn lemma_thumb_within_track(
    track_height: int,
    content_height: int,
    viewport_height: int,
    offset: int,
    max_scroll: int,
)
    requires
        1 <= track_height <= u16::MAX,
        0 <= content_height <= usize::MAX,
        0 <= viewport_height <= usize::MAX,
        0 <= offset <= max_scroll,
        max_scroll > 0,
    ensures
        1 <= thumb_height(track_height, content_height, viewport_height) <= track_height,
        thumb_offset(
            track_height - thumb_height(track_height, content_height, viewport_height),
            offset,
            max_scroll,
        ) + thumb_height(track_height, content_height, viewport_height) <= track_height,
{
    let size = thumb_height(track_height, content_height, viewport_height);
    let travel = track_height - size;
    if travel > 0 {
        let product = sat_mul(travel, offset);
        assert(travel * offset <= travel * max_scroll) by (nonlinear_arith)
            requires
                0 <= travel,
                offset <= max_scroll,
        ;
        assert(product <= travel * max_scroll);
        assert(product / max_scroll <= travel) by (nonlinear_arith)
            requires
                0 <= product <= travel * max_scroll,
                max_scroll > 0,
        ;
    }
}

/// Caller-owned pointer capture for a [`Scrollbar`] thumb.
#[derive(Clone, Copy, Debug, Default, PartialEq, Eq, Structural)]
pub struct ScrollbarState {
    dragging: bool,
}

/// The offset that puts the thumb's centre at `pointer_y`, scaled from track travel to the
/// scroll range.
pub open spec fn offset_for_pointer(viewport: ViewportState, geometry: ScrollbarGeometry, pointer_y: int) -> int {
    let track_height = geometry.track.height as int;
    let thumb = geometry.thumb.height as int;
    let travel = sat_sub(track_height, thumb);
    if travel == 0 {
        0
    } else {
        let from_top = sat_sub(sat_sub(pointer_y, geometry.track.y as int), thumb / 2);
        let centered = if from_top <= travel {
            from_top
        } else {
            travel
        };
        sat_mul(centered, viewport.spec_max_scroll()) / travel
    }
}

fn set_viewport_from_thumb_top(
    viewport: &mut ViewportState,
    geometry: ScrollbarGeometry,
    pointer_y: u16,
) -> (changed: bool)
    ensures
        final(viewport).wf(),
        final(viewport).same_dimensions(&*old(viewport)),
        final(viewport).spec_offset() == old(viewport).clamped(
            offset_for_pointer(*old(viewport), geometry, pointer_y as int),
        ),
        changed == (final(viewport).spec_offset() != old(viewport).spec_offset()),
{
    let track_height = geometry.track.height as usize;
    let thumb = geometry.thumb.height as usize;
    let travel = track_height.saturating_sub(thumb);
    if travel == 0 {
        return viewport.set_offset(0);
    }
    let from_top = (pointer_y.saturating_sub(geometry.track.y) as usize).saturating_sub(thumb / 2);
    let centered = if from_top <= travel {
        from_top
    } else {
        travel
    };
    let target = saturating_mul(centered, viewport.max_scroll()) / travel;
    viewport.set_offset(target)
}

impl ScrollbarState {
    pub closed spec fn spec_dragging(&self) -> bool {
        self.dragging
    }

    pub fn new() -> (s: Self)
        ensures
            !s.spec_dragging(),
    {
        ScrollbarState { dragging: false }
    }

    pub fn is_dragging(&self) -> (b: bool)
        ensures
            b == self.spec_dragging(),
    {
        self.dragging
    }

    /// Captures the pointer when it presses on the thumb.
    pub fn start_drag(&mut self, geometry: ScrollbarGeometry, point: Position) -> (hit: bool)
        ensures
            hit == geometry.thumb.spec_contains(point),
            final(self).spec_dragging() == (hit || old(self).spec_dragging()),
    {
        if geometry.thumb.contains(point) {
            self.dragging = true;
            true
        } else {
            false
        }
    }

    /// Moves the shared viewport by centering the thumb around a track click.
    pub fn track_click(&mut self, viewport: &mut ViewportState, track: Rect, point: Position) -> (changed: bool)
        ensures
            *final(self) == *old(self),
            match spec_geometry(*old(viewport), track) {
                Some(g) => if g.track.spec_contains(point) {
                    &&& final(viewport).wf()
                    &&& final(viewport).same_dimensions(&*old(viewport))
                    &&& final(viewport).spec_offset() == old(viewport).clamped(
                        offset_for_pointer(*old(viewport), g, point.y as int),
                    )
                    &&& changed == (final(viewport).spec_offset() != old(viewport).spec_offset())
                } else {
                    !changed && *final(viewport) == *old(viewport)
                },
                None => !changed && *final(viewport) == *old(viewport),
            },
    {
        let geometry = match Scrollbar::geometry(viewport, track) {
            Some(g) => g,
            None => {
                return false;
            },
        };
        if !geometry.track.contains(point) {
            return false;
        }
        set_viewport_from_thumb_top(viewport, geometry, point.y)
    }

    /// While dragging, moves the shared viewport so the thumb follows the pointer.
    pub fn drag_to(&mut self, viewport: &mut ViewportState, track: Rect, point: Position) -> (changed: bool)
        ensures
            *final(self) == *old(self),
            !old(self).spec_dragging() ==> !changed && *final(viewport) == *old(viewport),
            old(self).spec_dragging() ==> match spec_geometry(*old(viewport), track) {
                Some(g) => {
                    &&& final(viewport).wf()
                    &&& final(viewport).same_dimensions(&*old(viewport))
                    &&& final(viewport).spec_offset() == old(viewport).clamped(
                        offset_for_pointer(*old(viewport), g, point.y as int),
                    )
                    &&& changed == (final(viewport).spec_offset() != old(viewport).spec_offset())
                },
                None => !changed && *final(viewport) == *old(viewport),
            },
    {
        if !self.dragging {
            return false;
        }
        let geometry = match Scrollbar::geometry(viewport, track) {
            Some(g) => g,
            None => {
                return false;
            },
        };
        set_viewport_from_thumb_top(viewport, geometry, point.y)
    }

    /// Ends a drag; returns whether one was active.
    pub fn stop_drag(&mut self) -> (was_dragging: bool)
        ensures
            was_dragging == old(self).spec_dragging(),
            !final(self).spec_dragging(),
    {
        let was_dragging = self.dragging;
        self.dragging = false;
        was_dragging
    }
}

/// The thumb's position is proportional to the scroll position: its top sits
/// `floor((track height - thumb height) * offset / max scroll)` cells below the top of the
/// track, so it touches the top at offset 0 and the bottom at the largest offset. (Stated where
/// the product fits in a `usize` and the track ends within the `u16` range, where the geometry
/// does not saturate.)
pub proof fn lemma_thumb_proportional(viewport: ViewportState, track: Rect)
    requires
        viewport.wf(),
        viewport.spec_max_scroll() > 0,
        track.width > 0,
        track.height > 0,
        track.y + track.height <= u16::MAX,
        track.height * viewport.spec_offset() <= usize::MAX,
    ensures
        spec_geometry(viewport, track) is Some,
        ({
            let g = spec_geometry(viewport, track).unwrap();
            &&& g.track == track
            &&& g.thumb.x == track.x && g.thumb.width == track.width
            &&& 1 <= g.thumb.height <= track.height
            &&& g.thumb.y - track.y == (track.height - g.thumb.height) * viewport.spec_offset()
                / viewport.spec_max_scroll()
            &&& viewport.spec_offset() == 0 ==> g.thumb.y == track.y
            &&& viewport.spec_offset() == viewport.spec_max_scroll() ==> g.thumb.y + g.thumb.height
                == track.y + track.height
        }),
{
    let th = track.height as int;
    let size = thumb_height(th, viewport.spec_content_height() as int, viewport.spec_viewport_height() as int);
    let offset = viewport.spec_offset() as int;
    let max = viewport.spec_max_scroll();
    lemma_thumb_within_track(
        th,
        viewport.spec_content_height() as int,
        viewport.spec_viewport_height() as int,
        offset,
        max,
    );
    let travel = th - size;
    assert(travel * offset <= th * offset) by (nonlinear_arith)
        requires
            0 <= travel <= th,
            0 <= offset,
    ;
    assert(sat_mul(travel, offset) == travel * offset);
    let off = thumb_offset(travel, offset, max);
    assert(off == travel * offset / max) by {
        if travel == 0 {
            assert(travel * offset == 0) by (nonlinear_arith)
                requires
                    travel == 0,
            ;
        }
    }
    if offset == 0 {
        assert(travel * offset == 0) by (nonlinear_arith)
            requires
                offset == 0,
        ;
    }
    if offset == max {
        assert(travel * max / max == travel) by (nonlinear_arith)
            requires
                max > 0,
                travel >= 0,
        ;
    }
}

/// The thumb's height is the track's share of the visible rows, rounded up: a thumb strictly
/// between one cell and the whole track is the least height `h` with `h * content >= track *
/// visible`. (Stated where `track * visible + content` fits in a `usize`.)
pub proof fn lemma_thumb_height_is_visible_share(viewport: ViewportState, track: Rect)
    requires
        viewport.wf(),
        viewport.spec_max_scroll() > 0,
        track.width > 0,
        track.height > 0,
        track.height * viewport.spec_viewport_height() + viewport.spec_content_height() <= usize::MAX,
    ensures
        spec_geometry(viewport, track) is Some,
        ({
            let h = spec_geometry(viewport, track).unwrap().thumb.height as int;
            let content = viewport.spec_content_height() as int;
            let share = track.height * viewport.spec_viewport_height();
            &&& 1 <= h <= track.height
            &&& 1 < h < track.height ==> (h - 1) * content < share && share <= h * content
        }),
{
    let th = track.height as int;
    let content = viewport.spec_content_height() as int;
    let visible = viewport.spec_viewport_height() as int;
    assert(content > visible);
    assert(content >= 1);
    let share = th * visible;
    assert(share <= share + content - 1);
    assert(sat_mul(th, visible) == share);
    assert(sat_add(share, content - 1) == share + content - 1);
    let raw = (share + content - 1) / content;
    vstd::arithmetic::div_mod::lemma_fundamental_div_mod(share + content - 1, content);
    vstd::arithmetic::div_mod::lemma_mod_bound(share + content - 1, content);
    lemma_thumb_within_track(th, content, visible, viewport.spec_offset() as int, viewport.spec_max_scroll());
    let h = thumb_height(th, content, visible);
    if 1 < h < th {
        assert(h == raw);
        let r = (share + content - 1) % content;
        assert(share + content - 1 == content * raw + r);
        assert((h - 1) * content < share && share <= h * content) by (nonlinear_arith)
            requires
                share + content - 1 == content * h + r,
                0 <= r < content,
        ;
    }
}

} // verus!
