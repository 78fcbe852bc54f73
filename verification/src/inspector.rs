use vstd::prelude::*;

use crate::geometry::{Position, Rect, max_int, min_int, sat_add16, sat_sub16};
use crate::overlay::percent_of;

verus! {

/// Derived master/detail rectangles for a reusable inspector surface.
#[derive(Clone, Copy, Debug, PartialEq, Eq, Structural)]
pub struct InspectorAreas {
    pub master: Rect,
    pub divider: Option<Rect>,
    pub detail: Rect,
    /// Whether the panes stand side by side (else the master is stacked above the detail).
    pub horizontal: bool,
}

impl InspectorAreas {
    pub open spec fn spec_horizontal(&self) -> bool {
        self.horizontal
    }

    pub fn is_horizontal(self) -> (b: bool)
        ensures
            b == self.spec_horizontal(),
    {
        self.horizontal
    }
}

/// Small responsive master/detail layout with a one-cell divider in horizontal mode.
///
/// If the requested minimum widths cannot fit, the layout uses a vertical stack rather than
/// collapsing or overlapping either pane.
#[derive(Clone, Copy, Debug, PartialEq, Eq, Structural)]
pub struct InspectorLayout {
    master_percent: u16,
    minimum_master_width: u16,
    minimum_detail_width: u16,
}

impl InspectorLayout {
    pub closed spec fn spec_params(&self) -> (u16, u16, u16) {
        (self.master_percent, self.minimum_master_width, self.minimum_detail_width)
    }

    /// Whether `area` is too narrow for both minimum widths and the divider.
    pub open spec fn stacks(&self, area: Rect) -> bool {
        area.width < sat_add16(sat_add16(self.spec_params().1 as int, self.spec_params().2 as int) as int, 1)
    }

    /// The master pane's width when side by side: the requested (or percentage) width, at least
    /// the master minimum, at most what leaves the detail minimum and the divider.
    pub open spec fn master_width(&self, area: Rect, requested: Option<u16>) -> int {
        let maximum = sat_sub16(sat_sub16(area.width as int, 1) as int, self.spec_params().2 as int) as int;
        let desired = match requested {
            Some(w) => w as int,
            None => percent_of(area.width as int, self.spec_params().0 as int),
        };
        min_int(max_int(desired, self.spec_params().1 as int), maximum)
    }

    /// The master pane's height when stacked: the upper half, rounded up.
    pub open spec fn stacked_master_height(area: Rect) -> int {
        sat_add16(area.height as int, 1) as int / 2
    }

    /// The master pane for `area` given an optional requested master width.
    pub open spec fn spec_master(&self, area: Rect, requested: Option<u16>) -> Rect {
        if self.stacks(area) {
            Rect {
                x: area.x,
                y: area.y,
                width: area.width,
                height: Self::stacked_master_height(area) as u16,
            }
        } else {
            Rect {
                x: area.x,
                y: area.y,
                width: self.master_width(area, requested) as u16,
                height: area.height,
            }
        }
    }

    /// The one-cell divider, present only side by side.
    pub open spec fn spec_divider(&self, area: Rect, requested: Option<u16>) -> Option<Rect> {
        if self.stacks(area) {
            None
        } else {
            Some(
                Rect {
                    x: sat_add16(area.x as int, self.master_width(area, requested)),
                    y: area.y,
                    width: 1,
                    height: area.height,
                },
            )
        }
    }

    /// The detail pane for `area` given an optional requested master width.
    pub open spec fn spec_detail(&self, area: Rect, requested: Option<u16>) -> Rect {
        if self.stacks(area) {
            let mh = Self::stacked_master_height(area);
            Rect {
                x: area.x,
                y: sat_add16(area.y as int, mh),
                width: area.width,
                height: sat_sub16(area.height as int, mh),
            }
        } else {
            let m = self.master_width(area, requested);
            Rect {
                x: sat_add16(sat_add16(area.x as int, m) as int, 1),
                y: area.y,
                width: sat_sub16(sat_sub16(area.width as int, m) as int, 1),
                height: area.height,
            }
        }
    }


    pub fn new(master_percent: u16, minimum_master_width: u16, minimum_detail_width: u16) -> (l: Self)
        ensures
            l.spec_params() == (master_percent, minimum_master_width, minimum_detail_width),
    {
        InspectorLayout { master_percent, minimum_master_width, minimum_detail_width }
    }

    pub fn split(self, area: Rect) -> (r: InspectorAreas)
        ensures
            r.master == self.spec_master(area, None),
            r.divider == self.spec_divider(area, None),
            r.detail == self.spec_detail(area, None),
            r.spec_horizontal() == !self.stacks(area),
    {
        self.split_at(area, None)
    }

    fn split_at(self, area: Rect, requested_master_width: Option<u16>) -> (r: InspectorAreas)
        ensures
            r.master == self.spec_master(area, requested_master_width),
            r.divider == self.spec_divider(area, requested_master_width),
            r.detail == self.spec_detail(area, requested_master_width),
            r.spec_horizontal() == !self.stacks(area),
    {
        let divider_width: u16 = 1;
        let required_width = self.minimum_master_width.saturating_add(self.minimum_detail_width).saturating_add(
            divider_width,
        );
        if area.width < required_width {
            let master_height = area.height.saturating_add(1) / 2;
            return InspectorAreas {
                master: Rect::new(area.x, area.y, area.width, master_height),
                divider: None,
                detail: Rect::new(
                    area.x,
                    area.y.saturating_add(master_height),
                    area.width,
                    area.height.saturating_sub(master_height),
                ),
                horizontal: false,
            };
        }
        let maximum_master_width = area.width.saturating_sub(divider_width).saturating_sub(
            self.minimum_detail_width,
        );
        let desired_master_width = match requested_master_width {
            Some(w) => w,
            None => {
                let p: u32 = if self.master_percent < 100 {
                    self.master_percent as u32
                } else {
                    100
                };
                proof {
                    assert((area.width as int) * (p as int) <= (area.width as int) * 100)
                        by (nonlinear_arith)
                        requires
                            p <= 100,
                    ;
                }
                ((area.width as u32) * p / 100) as u16
            },
        };
        let at_least = if desired_master_width > self.minimum_master_width {
            desired_master_width
        } else {
            self.minimum_master_width
        };
        let master_width = if at_least < maximum_master_width {
            at_least
        } else {
            maximum_master_width
        };
        let detail_x = area.x.saturating_add(master_width).saturating_add(divider_width);
        InspectorAreas {
            master: Rect::new(area.x, area.y, master_width, area.height),
            divider: Some(
                Rect::new(area.x.saturating_add(master_width), area.y, divider_width, area.height),
            ),
            detail: Rect::new(
                detail_x,
                area.y,
                area.width.saturating_sub(master_width).saturating_sub(divider_width),
                area.height,
            ),
            horizontal: true,
        }
    }
}

/// Side by side, the master pane honours both minimums and master, divider and detail exactly
/// span the area's width.
pub proof fn lemma_inspector_panes_fit(layout: InspectorLayout, area: Rect, requested: Option<u16>)
    requires
        !layout.stacks(area),
        layout.spec_params().1 + layout.spec_params().2 + 1 <= u16::MAX,
    ensures
        layout.spec_master(area, requested).width >= layout.spec_params().1,
        layout.spec_detail(area, requested).width >= layout.spec_params().2,
        layout.spec_master(area, requested).width + 1 + layout.spec_detail(area, requested).width
            == area.width,
{
}

/// Persistent divider state for a master/detail inspector layout.
///
/// The state stores a terminal-cell master width. Resolution remains delegated to
/// [`InspectorLayout`] so every drag and terminal resize shares the same minimum constraints.
#[derive(Clone, Copy, Debug, Default, PartialEq, Eq, Structural)]
pub struct InspectorSplitState {
    requested_master_width: Option<u16>,
    dragging: bool,
}

impl InspectorSplitState {
    pub closed spec fn spec_requested(&self) -> Option<u16> {
        self.requested_master_width
    }

    pub closed spec fn spec_dragging(&self) -> bool {
        self.dragging
    }

    pub fn new() -> (s: Self)
        ensures
            s.spec_requested() is None,
            !s.spec_dragging(),
    {
        InspectorSplitState { requested_master_width: None, dragging: false }
    }

    pub fn split(&self, layout: InspectorLayout, area: Rect) -> (r: InspectorAreas)
        ensures
            r.master == layout.spec_master(area, self.spec_requested()),
            r.divider == layout.spec_divider(area, self.spec_requested()),
            r.detail == layout.spec_detail(area, self.spec_requested()),
            r.spec_horizontal() == !layout.stacks(area),
    {
        layout.split_at(area, self.requested_master_width)
    }

    pub fn is_dragging(&self) -> (b: bool)
        ensures
            b == self.spec_dragging(),
    {
        self.dragging
    }

    /// Begins a drag only when the pointer is on the current divider.
    pub fn start_drag(&mut self, layout: InspectorLayout, area: Rect, point: Position) -> (hit: bool)
        ensures
            hit == (layout.spec_divider(area, old(self).spec_requested()) matches Some(d)
                && d.spec_contains(point)),
            final(self).spec_requested() == old(self).spec_requested(),
            final(self).spec_dragging() == (hit || old(self).spec_dragging()),
    {
        let hit = match self.split(layout, area).divider {
            Some(divider) => divider.contains(point),
            None => false,
        };
        if hit {
            self.dragging = true;
        }
        hit
    }

    /// Updates the requested master width from a zero-based terminal-cell coordinate.
    pub fn drag_to(&mut self, layout: InspectorLayout, area: Rect, point: Position) -> (changed: bool)
        ensures
            final(self).spec_dragging() == old(self).spec_dragging(),
            !old(self).spec_dragging() || layout.stacks(area) ==> !changed && *final(self) == *old(self),
            old(self).spec_dragging() && !layout.stacks(area) ==> {
                &&& final(self).spec_requested() == Some(
                    layout.master_width(area, Some(sat_sub16(point.x as int, area.x as int))) as u16,
                )
                &&& changed == (old(self).spec_requested() != final(self).spec_requested())
            },
    {
        if !self.dragging || !self.split(layout, area).is_horizontal() {
            return false;
        }
        let resolved = layout.split_at(area, Some(point.x.saturating_sub(area.x)));
        let changed = match self.requested_master_width {
            Some(w) => w != resolved.master.width,
            None => true,
        };
        self.requested_master_width = Some(resolved.master.width);
        changed
    }

    /// Ends an active divider drag. Further pointer movement has no effect until another hit.
    pub fn stop_drag(&mut self) -> (was_dragging: bool)
        ensures
            was_dragging == old(self).spec_dragging(),
            !final(self).spec_dragging(),
            final(self).spec_requested() == old(self).spec_requested(),
    {
        let was_dragging = self.dragging;
        self.dragging = false;
        was_dragging
    }
}

} // verus!
