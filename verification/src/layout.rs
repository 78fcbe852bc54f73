use vstd::prelude::*;

use crate::geometry::{Rect, min_int, sat_add16};

verus! {

/// Primary axis used by [`Layout`].
#[derive(Clone, Copy, Debug, PartialEq, Eq, Structural)]
pub enum Direction {
    Horizontal,
    Vertical,
}

/// A fixed, proportional, or weighted layout allocation.
#[derive(Clone, Copy, Debug, PartialEq, Eq, Structural)]
pub enum Constraint {
    Length(u16),
    /// Percentage values above 100 are treated as 100.
    Percentage(u16),
    /// Zero-weight fills receive no space and do not participate in weight sharing.
    Fill(u16),
}

/// Sizes after the length pass over `cs`, and the space still unclaimed.
pub open spec fn length_pass(cs: Seq<Constraint>, available: int) -> (Seq<int>, int)
    decreases cs.len(),
{
    if cs.len() == 0 {
        (Seq::empty(), available)
    } else {
        let (s, r) = length_pass(cs.drop_last(), available);
        match cs.last() {
            Constraint::Length(l) => (s.push(min_int(l as int, r)), r - min_int(l as int, r)),
            _ => (s.push(0), r),
        }
    }
}

/// The share of `distributable` that a percentage requests (percentages above 100 count as 100).
pub open spec fn percent_request(p: u16, distributable: int) -> int {
    distributable * min_int(p as int, 100) / 100
}

/// Sizes after the percentage pass over `cs` (other entries keep `prior`), and the space left.
pub open spec fn percentage_pass(
    cs: Seq<Constraint>,
    prior: Seq<int>,
    available: int,
    distributable: int,
) -> (Seq<int>, int)
    decreases cs.len(),
{
    if cs.len() == 0 {
        (Seq::empty(), available)
    } else {
        let (s, r) = percentage_pass(cs.drop_last(), prior, available, distributable);
        match cs.last() {
            Constraint::Percentage(p) => {
                let z = min_int(percent_request(p, distributable), r);
                (s.push(z), r - z)
            },
            _ => (s.push(prior[cs.len() - 1]), r),
        }
    }
}

/// The weight a constraint contributes to fill sharing.
pub open spec fn fill_weight(c: Constraint) -> int {
    match c {
        Constraint::Fill(w) => w as int,
        _ => 0,
    }
}

/// Whether a constraint is a fill with positive weight.
pub open spec fn is_positive_fill(c: Constraint) -> bool {
    fill_weight(c) > 0
}

/// Sum of the fill weights of `cs`.
pub open spec fn total_weight(cs: Seq<Constraint>) -> int
    decreases cs.len(),
{
    if cs.len() == 0 {
        0
    } else {
        total_weight(cs.drop_last()) + fill_weight(cs.last())
    }
}

/// Number of positive-weight fills in `cs`.
pub open spec fn positive_fills(cs: Seq<Constraint>) -> int
    decreases cs.len(),
{
    if cs.len() == 0 {
        0
    } else {
        positive_fills(cs.drop_last()) + if is_positive_fill(cs.last()) {
            1int
        } else {
            0
        }
    }
}

/// The proportional share of `remaining` for a fill of weight `w`.
pub open spec fn fill_share(remaining: int, w: int, total: int) -> int {
    remaining * w / total
}

/// Sum of the proportional shares of the fills of `cs`.
pub open spec fn assigned_sum(cs: Seq<Constraint>, remaining: int, total: int) -> int
    decreases cs.len(),
{
    if cs.len() == 0 {
        0
    } else {
        assigned_sum(cs.drop_last(), remaining, total) + match cs.last() {
            Constraint::Fill(w) => fill_share(remaining, w as int, total),
            _ => 0,
        }
    }
}

/// Sizes after the proportional fill pass: each fill gets its share, other entries keep `prior`.
pub open spec fn fill_pass(cs: Seq<Constraint>, prior: Seq<int>, remaining: int, total: int) -> Seq<
    int,
>
    decreases cs.len(),
{
    if cs.len() == 0 {
        Seq::empty()
    } else {
        let s = fill_pass(cs.drop_last(), prior, remaining, total);
        match cs.last() {
            Constraint::Fill(w) => s.push(fill_share(remaining, w as int, total)),
            _ => s.push(prior[cs.len() - 1]),
        }
    }
}

/// Sizes after handing one extra cell to each leading positive fill while `left` cells remain,
/// and the cells still left.
pub open spec fn bonus_pass(cs: Seq<Constraint>, prior: Seq<int>, left: int) -> (Seq<int>, int)
    decreases cs.len(),
{
    if cs.len() == 0 {
        (Seq::empty(), left)
    } else {
        let (s, l) = bonus_pass(cs.drop_last(), prior, left);
        let i = cs.len() - 1;
        if l > 0 && is_positive_fill(cs.last()) {
            (s.push(prior[i] + 1), l - 1)
        } else {
            (s.push(prior[i]), l)
        }
    }
}

/// The total gap: `gap` per separator (the separator count taken as `u32`), at most `primary`.
pub open spec fn total_gap(count: int, gap: u16, primary: int) -> int {
    let requested = gap as int * ((count - 1) as u32) as int;
    min_int(requested, primary)
}

/// The resolved sizes along the primary axis.
pub open spec fn resolved_sizes(cs: Seq<Constraint>, primary: int, gap: u16) -> Seq<int> {
    let distributable = primary - total_gap(cs.len() as int, gap, primary);
    let (s1, r1) = length_pass(cs, distributable);
    let (s2, r2) = percentage_pass(cs, s1, r1, distributable);
    let total = total_weight(cs);
    if total > 0 && r2 > 0 {
        let s3 = fill_pass(cs, s2, r2, total);
        bonus_pass(cs, s3, r2 - assigned_sum(cs, r2, total)).0
    } else {
        s2
    }
}

/// Start positions along the primary axis for the first `sizes.len()` areas, the position after
/// them, and the gap budget left.
pub open spec fn positions(sizes: Seq<int>, start: int, gap: int, budget: int) -> (Seq<int>, int, int)
    decreases sizes.len(),
{
    if sizes.len() == 0 {
        (Seq::empty(), start, budget)
    } else {
        let (ps, pos, g) = positions(sizes.drop_last(), start, gap, budget);
        let step = min_int(gap, g);
        (
            ps.push(pos),
            sat_add16(sat_add16(pos, sizes.last()) as int, step) as int,
            g - step,
        )
    }
}

/// The rectangle at `position` with `size` cells along the primary axis, spanning `parent` on
/// the cross axis.
pub open spec fn area_of(direction: Direction, parent: Rect, position: int, size: int) -> Rect {
    match direction {
        Direction::Horizontal => Rect {
            x: position as u16,
            y: parent.y,
            width: size as u16,
            height: parent.height,
        },
        Direction::Vertical => Rect {
            x: parent.x,
            y: position as u16,
            width: parent.width,
            height: size as u16,
        },
    }
}

/// The rectangles at the given positions and sizes.
pub open spec fn areas_at(direction: Direction, parent: Rect, ps: Seq<int>, sizes: Seq<int>) -> Seq<
    Rect,
> {
    Seq::new(ps.len(), |i: int| area_of(direction, parent, ps[i], sizes[i]))
}

/// The primary-axis extent of `parent`.
pub open spec fn primary_extent(direction: Direction, parent: Rect) -> int {
    match direction {
        Direction::Horizontal => parent.width as int,
        Direction::Vertical => parent.height as int,
    }
}

/// The primary-axis start of `parent`.
pub open spec fn primary_start(direction: Direction, parent: Rect) -> int {
    match direction {
        Direction::Horizontal => parent.x as int,
        Direction::Vertical => parent.y as int,
    }
}

/// The rectangles a layout produces for `parent`.
pub open spec fn layout_areas(
    direction: Direction,
    cs: Seq<Constraint>,
    gap: u16,
    parent: Rect,
) -> Seq<Rect> {
    let primary = primary_extent(direction, parent);
    let sizes = resolved_sizes(cs, primary, gap);
    let ps = positions(
        sizes,
        primary_start(direction, parent),
        gap as int,
        total_gap(cs.len() as int, gap, primary),
    ).0;
    areas_at(direction, parent, ps, sizes)
}

/// Sum of a sequence of sizes.
pub open spec fn seq_sum(s: Seq<int>) -> int
    decreases s.len(),
{
    if s.len() == 0 {
        0
    } else {
        seq_sum(s.drop_last()) + s.last()
    }
}

proof fn lemma_length_pass_sum(cs: Seq<Constraint>, available: int)
    requires
        available >= 0,
    ensures
        seq_sum(length_pass(cs, available).0) + length_pass(cs, available).1 == available,
    decreases cs.len(),
{
    if cs.len() > 0 {
        lemma_length_pass_sum(cs.drop_last(), available);
        lemma_length_pass(cs.drop_last(), available);
        let (s, r) = length_pass(cs.drop_last(), available);
        match cs.last() {
            Constraint::Length(l) => {
                assert(s.push(min_int(l as int, r)).drop_last() == s);
            },
            _ => {
                assert(s.push(0).drop_last() == s);
            },
        }
    }
}

proof fn lemma_percentage_pass_sum(
    cs: Seq<Constraint>,
    prior: Seq<int>,
    available: int,
    distributable: int,
)
    requires
        prior.len() >= cs.len(),
        forall|i: int| 0 <= i < cs.len() && cs[i] is Percentage ==> #[trigger] prior[i] == 0,
    ensures
        seq_sum(percentage_pass(cs, prior, available, distributable).0) + percentage_pass(
            cs,
            prior,
            available,
            distributable,
        ).1 == seq_sum(prior.take(cs.len() as int)) + available,
    decreases cs.len(),
{
    if cs.len() > 0 {
        let n = cs.len() as int;
        assert forall|i: int|
            0 <= i < n - 1 && cs.drop_last()[i] is Percentage implies #[trigger] prior[i] == 0 by {
            assert(cs.drop_last()[i] == cs[i]);
        }
        lemma_percentage_pass_sum(cs.drop_last(), prior, available, distributable);
        let (s, r) = percentage_pass(cs.drop_last(), prior, available, distributable);
        assert(prior.take(n).drop_last() == prior.take(n - 1));
        match cs.last() {
            Constraint::Percentage(p) => {
                let z = min_int(percent_request(p, distributable), r);
                assert(s.push(z).drop_last() == s);
            },
            _ => {
                assert(s.push(prior[n - 1]).drop_last() == s);
            },
        }
    }
}

proof fn lemma_fill_pass_sum(cs: Seq<Constraint>, prior: Seq<int>, remaining: int, total: int)
    requires
        prior.len() >= cs.len(),
        forall|i: int| 0 <= i < cs.len() && cs[i] is Fill ==> #[trigger] prior[i] == 0,
    ensures
        seq_sum(fill_pass(cs, prior, remaining, total)) == seq_sum(prior.take(cs.len() as int))
            + assigned_sum(cs, remaining, total),
    decreases cs.len(),
{
    if cs.len() > 0 {
        let n = cs.len() as int;
        assert forall|i: int| 0 <= i < n - 1 && cs.drop_last()[i] is Fill implies #[trigger] prior[i]
            == 0 by {
            assert(cs.drop_last()[i] == cs[i]);
        }
        lemma_fill_pass_sum(cs.drop_last(), prior, remaining, total);
        let s = fill_pass(cs.drop_last(), prior, remaining, total);
        assert(prior.take(n).drop_last() == prior.take(n - 1));
        match cs.last() {
            Constraint::Fill(w) => {
                assert(s.push(fill_share(remaining, w as int, total)).drop_last() == s);
            },
            _ => {
                assert(s.push(prior[n - 1]).drop_last() == s);
            },
        }
    }
}

proof fn lemma_bonus_pass_sum(cs: Seq<Constraint>, prior: Seq<int>, left: int)
    requires
        prior.len() >= cs.len(),
        left >= 0,
    ensures
        seq_sum(bonus_pass(cs, prior, left).0) + bonus_pass(cs, prior, left).1 == seq_sum(
            prior.take(cs.len() as int),
        ) + left,
        bonus_pass(cs, prior, left).1 == (if left >= positive_fills(cs) {
            left - positive_fills(cs)
        } else {
            0
        }),
    decreases cs.len(),
{
    if cs.len() > 0 {
        let n = cs.len() as int;
        lemma_bonus_pass_sum(cs.drop_last(), prior, left);
        let (s, l) = bonus_pass(cs.drop_last(), prior, left);
        assert(prior.take(n).drop_last() == prior.take(n - 1));
        if l > 0 && is_positive_fill(cs.last()) {
            assert(s.push(prior[n - 1] + 1).drop_last() == s);
        } else {
            assert(s.push(prior[n - 1]).drop_last() == s);
        }
    }
}

proof fn lemma_fixed_passes(cs: Seq<Constraint>, primary: int, gap: u16)
    requires
        0 <= primary <= 0xffff,
    ensures
        ({
            let distributable = primary - total_gap(cs.len() as int, gap, primary);
            let (s1, r1) = length_pass(cs, distributable);
            let (s2, r2) = percentage_pass(cs, s1, r1, distributable);
            &&& 0 <= distributable <= primary
            &&& seq_sum(s2) + r2 == distributable
            &&& 0 <= r2 <= distributable
            &&& s2.len() == cs.len()
            &&& forall|i: int| 0 <= i < cs.len() && cs[i] is Fill ==> #[trigger] s2[i] == 0
            &&& forall|i: int| 0 <= i < cs.len() ==> 0 <= #[trigger] s2[i] <= distributable
        }),
{
    let distributable = primary - total_gap(cs.len() as int, gap, primary);
    assert(gap as int * ((cs.len() - 1) as u32) as int >= 0) by (nonlinear_arith)
        requires
            gap >= 0,
            ((cs.len() - 1) as u32) >= 0,
    ;
    lemma_length_pass(cs, distributable);
    lemma_length_pass_sum(cs, distributable);
    let (s1, r1) = length_pass(cs, distributable);
    lemma_percentage_pass(cs, s1, r1, distributable);
    lemma_percentage_pass_sum(cs, s1, r1, distributable);
    assert(s1.take(cs.len() as int) == s1);
}

/// The resolved sizes never claim more than the parent axis minus the gaps, and as soon as a
/// positive-weight fill is present they claim all of it: fills absorb every cell that lengths and
/// percentages leave, so no space is left trailing.
pub proof fn lemma_layout_sizes(cs: Seq<Constraint>, primary: int, gap: u16)
    requires
        0 <= primary <= 0xffff,
    ensures
        resolved_sizes(cs, primary, gap).len() == cs.len(),
        forall|i: int| 0 <= i < cs.len() ==> 0 <= #[trigger] resolved_sizes(cs, primary, gap)[i],
        seq_sum(resolved_sizes(cs, primary, gap)) + total_gap(cs.len() as int, gap, primary)
            <= primary,
        positive_fills(cs) > 0 ==> seq_sum(resolved_sizes(cs, primary, gap)) + total_gap(
            cs.len() as int,
            gap,
            primary,
        ) == primary,
{
    lemma_fixed_passes(cs, primary, gap);
    let distributable = primary - total_gap(cs.len() as int, gap, primary);
    let (s1, r1) = length_pass(cs, distributable);
    let (s2, r2) = percentage_pass(cs, s1, r1, distributable);
    let total = total_weight(cs);
    lemma_total_weight(cs);
    if total > 0 && r2 > 0 {
        lemma_assigned_sum(cs, r2, total);
        let a = assigned_sum(cs, r2, total);
        let s3 = fill_pass(cs, s2, r2, total);
        lemma_fill_pass_sum(cs, s2, r2, total);
        lemma_fill_pass_entries(cs, s2, r2, total);
        assert(s2.take(cs.len() as int) == s2);
        assert(r2 < a + positive_fills(cs)) by (nonlinear_arith)
            requires
                r2 * total < total * (a + positive_fills(cs)),
                total > 0,
        ;
        lemma_bonus_pass_sum(cs, s3, r2 - a);
        lemma_bonus_pass_len(cs, s3, r2 - a);
        assert(s3.take(cs.len() as int) == s3);
        lemma_bonus_pass_entries(cs, s3, r2 - a);
        assert(r2 - a >= 0);
        assert(bonus_pass(cs, s3, r2 - a).1 == 0);
        assert(seq_sum(s3) == seq_sum(s2) + a);
        assert(seq_sum(bonus_pass(cs, s3, r2 - a).0) == seq_sum(s2) + r2);
        assert(resolved_sizes(cs, primary, gap) == bonus_pass(cs, s3, r2 - a).0);
        assert forall|i: int| 0 <= i < cs.len() implies 0 <= #[trigger] s3[i] by {
            match cs[i] {
                Constraint::Fill(w) => {
                    lemma_fill_share_bound(r2, w as int, total);
                },
                _ => {},
            }
        }
    } else {
        lemma_assigned_sum_core(cs, 0, total + 1);
        assert(resolved_sizes(cs, primary, gap) == s2);
        if positive_fills(cs) > 0 {
            assert(total > 0);
            assert(r2 == 0);
        }
    }
}

proof fn lemma_bonus_pass_entries(cs: Seq<Constraint>, prior: Seq<int>, left: int)
    ensures
        forall|i: int|
            0 <= i < cs.len() ==> #[trigger] bonus_pass(cs, prior, left).0[i] >= prior[i],
    decreases cs.len(),
{
    if cs.len() > 0 {
        lemma_bonus_pass_entries(cs.drop_last(), prior, left);
        lemma_bonus_pass_len(cs.drop_last(), prior, left);
    }
}

/// Laid-out areas follow each other in order: each area starts at or after the end of the
/// previous one (with coordinates saturating at the edge of the terminal), and when the parent
/// lies entirely within the coordinate range every area ends within the parent.
pub proof fn lemma_layout_positions(sizes: Seq<int>, start: int, gap: int, budget: int, i: int)
    requires
        0 <= start <= 0xffff,
        0 <= gap <= 0xffff,
        0 <= budget <= 0xffff,
        forall|k: int| 0 <= k < sizes.len() ==> 0 <= #[trigger] sizes[k] <= 0xffff,
        0 <= i < sizes.len(),
    ensures
        i + 1 < sizes.len() ==> positions(sizes, start, gap, budget).0[i + 1] >= min_int(
            positions(sizes, start, gap, budget).0[i] + sizes[i],
            0xffff,
        ),
        start + seq_sum(sizes) + budget <= 0xffff ==> positions(sizes, start, gap, budget).0[i]
            + sizes[i] <= start + seq_sum(sizes) + budget,
    decreases sizes.len(),
{
    lemma_positions_len(sizes, start, gap, budget);
    let n = sizes.len() as int;
    let p = sizes.drop_last();
    lemma_positions_len(p, start, gap, budget);
    lemma_positions_gap(p, start, gap, budget);
    if i < n - 1 {
        assert(p[i] == sizes[i]);
        lemma_layout_positions(p, start, gap, budget, i);
        lemma_positions_exact(p, start, gap, budget);
        lemma_seq_sum_nonneg(p);
        if i + 1 == n - 1 {
            lemma_positions_step_bound(p, start, gap, budget);
        } else {
            assert(p[i + 1] == sizes[i + 1]);
        }
    } else {
        lemma_positions_exact(p, start, gap, budget);
        lemma_seq_sum_nonneg(p);
    }
}

proof fn lemma_seq_sum_nonneg(s: Seq<int>)
    requires
        forall|k: int| 0 <= k < s.len() ==> 0 <= #[trigger] s[k],
    ensures
        seq_sum(s) >= 0,
    decreases s.len(),
{
    if s.len() > 0 {
        assert forall|k: int| 0 <= k < s.len() - 1 implies 0 <= #[trigger] s.drop_last()[k] by {
            assert(s.drop_last()[k] == s[k]);
        }
        lemma_seq_sum_nonneg(s.drop_last());
    }
}

/// Without saturation, the next position is the start plus the sizes and the gaps spent so far.
proof fn lemma_positions_exact(sizes: Seq<int>, start: int, gap: int, budget: int)
    requires
        0 <= start <= 0xffff,
        0 <= gap <= 0xffff,
        0 <= budget <= 0xffff,
        forall|k: int| 0 <= k < sizes.len() ==> 0 <= #[trigger] sizes[k],
    ensures
        start + seq_sum(sizes) + budget <= 0xffff ==> positions(sizes, start, gap, budget).1
            == start + seq_sum(sizes) + (budget - positions(sizes, start, gap, budget).2),
        0 <= positions(sizes, start, gap, budget).2 <= budget,
        positions(sizes, start, gap, budget).1 >= min_int(start + seq_sum(sizes), 0xffff),
        forall|k: int|
            0 <= k < sizes.len() ==> #[trigger] positions(sizes, start, gap, budget).0[k] <= positions(
                sizes,
                start,
                gap,
                budget,
            ).1,
    decreases sizes.len(),
{
    lemma_positions_len(sizes, start, gap, budget);
    if sizes.len() > 0 {
        let p = sizes.drop_last();
        assert forall|k: int| 0 <= k < p.len() implies 0 <= #[trigger] p[k] by {
            assert(p[k] == sizes[k]);
        }
        lemma_positions_exact(p, start, gap, budget);
        lemma_positions_len(p, start, gap, budget);
        lemma_positions_gap(p, start, gap, budget);
        lemma_seq_sum_nonneg(p);
    }
}

proof fn lemma_positions_step_bound(p: Seq<int>, start: int, gap: int, budget: int)
    requires
        0 <= start,
        0 <= gap,
        0 <= budget,
        forall|k: int| 0 <= k < p.len() ==> 0 <= #[trigger] p[k],
        p.len() > 0,
    ensures
        positions(p, start, gap, budget).1 >= min_int(
            positions(p, start, gap, budget).0[p.len() - 1] + p.last(),
            0xffff,
        ),
{
    let q = p.drop_last();
    lemma_positions_len(q, start, gap, budget);
}

/// Explicit layout resolver for deriving child rectangles.
///
/// Resolves lengths first, then percentages of the gap-adjusted parent axis, then distributes
/// the remainder among positive fills. Any unclaimed space is left trailing.
pub struct Layout {
    direction: Direction,
    constraints: Vec<Constraint>,
    gap: u16,
}

impl Layout {
    pub closed spec fn spec_direction(&self) -> Direction {
        self.direction
    }

    pub closed spec fn spec_constraints(&self) -> Seq<Constraint> {
        self.constraints@
    }

    pub closed spec fn spec_gap(&self) -> u16 {
        self.gap
    }

    pub fn new(direction: Direction) -> (l: Self)
        ensures
            l.spec_direction() == direction,
            l.spec_constraints().len() == 0,
            l.spec_gap() == 0,
    {
        Layout { direction, constraints: Vec::new(), gap: 0 }
    }

    pub fn horizontal(constraints: Vec<Constraint>) -> (l: Self)
        ensures
            l.spec_direction() == Direction::Horizontal,
            l.spec_constraints() == constraints@,
            l.spec_gap() == 0,
    {
        Layout::new(Direction::Horizontal).constraints(constraints)
    }

    pub fn vertical(constraints: Vec<Constraint>) -> (l: Self)
        ensures
            l.spec_direction() == Direction::Vertical,
            l.spec_constraints() == constraints@,
            l.spec_gap() == 0,
    {
        Layout::new(Direction::Vertical).constraints(constraints)
    }

    pub fn constraints(self, constraints: Vec<Constraint>) -> (l: Self)
        ensures
            l.spec_direction() == self.spec_direction(),
            l.spec_constraints() == constraints@,
            l.spec_gap() == self.spec_gap(),
    {
        Layout { direction: self.direction, constraints, gap: self.gap }
    }

    pub fn gap(self, gap: u16) -> (l: Self)
        ensures
            l.spec_direction() == self.spec_direction(),
            l.spec_constraints() == self.spec_constraints(),
            l.spec_gap() == gap,
    {
        Layout { direction: self.direction, constraints: self.constraints, gap }
    }
}

/// Sizes as integers.
pub open spec fn as_ints(v: Seq<u16>) -> Seq<int> {
    v.map_values(|x: u16| x as int)
}

proof fn lemma_as_ints_push(v: Seq<u16>, x: u16)
    ensures
        as_ints(v.push(x)) == as_ints(v).push(x as int),
{
    assert(as_ints(v.push(x)) =~= as_ints(v).push(x as int));
}

proof fn lemma_as_ints_update(v: Seq<u16>, i: int, x: u16)
    requires
        0 <= i < v.len(),
    ensures
        as_ints(v.update(i, x)) == as_ints(v).update(i, x as int),
{
    assert(as_ints(v.update(i, x)) =~= as_ints(v).update(i, x as int));
}

proof fn lemma_length_pass(cs: Seq<Constraint>, available: int)
    requires
        available >= 0,
    ensures
        length_pass(cs, available).0.len() == cs.len(),
        0 <= length_pass(cs, available).1 <= available,
        forall|i: int|
            0 <= i < cs.len() ==> 0 <= #[trigger] length_pass(cs, available).0[i] <= available,
        forall|i: int|
            0 <= i < cs.len() && !(cs[i] is Length) ==> #[trigger] length_pass(cs, available).0[i]
                == 0,
    decreases cs.len(),
{
    if cs.len() > 0 {
        lemma_length_pass(cs.drop_last(), available);
        let (s, r) = length_pass(cs.drop_last(), available);
        assert forall|i: int| 0 <= i < cs.len() - 1 implies cs[i] == cs.drop_last()[i] by {}
    }
}

proof fn lemma_percentage_pass(
    cs: Seq<Constraint>,
    prior: Seq<int>,
    available: int,
    distributable: int,
)
    requires
        0 <= available <= distributable,
        prior.len() >= cs.len(),
        forall|i: int| 0 <= i < cs.len() ==> 0 <= #[trigger] prior[i] <= distributable,
    ensures
        percentage_pass(cs, prior, available, distributable).0.len() == cs.len(),
        0 <= percentage_pass(cs, prior, available, distributable).1 <= available,
        forall|i: int|
            0 <= i < cs.len() ==> 0 <= #[trigger] percentage_pass(
                cs,
                prior,
                available,
                distributable,
            ).0[i] <= distributable,
        forall|i: int|
            0 <= i < cs.len() && !(cs[i] is Percentage) ==> #[trigger] percentage_pass(
                cs,
                prior,
                available,
                distributable,
            ).0[i] == prior[i],
    decreases cs.len(),
{
    if cs.len() > 0 {
        lemma_percentage_pass(cs.drop_last(), prior, available, distributable);
        assert forall|i: int| 0 <= i < cs.len() - 1 implies cs[i] == cs.drop_last()[i] by {}
    }
}

proof fn lemma_total_weight(cs: Seq<Constraint>)
    ensures
        0 <= total_weight(cs) <= cs.len() * 0xffff,
        total_weight(cs) >= positive_fills(cs),
        forall|i: int| 0 <= i < cs.len() ==> fill_weight(#[trigger] cs[i]) <= total_weight(cs),
    decreases cs.len(),
{
    if cs.len() > 0 {
        lemma_total_weight(cs.drop_last());
        assert forall|i: int| 0 <= i < cs.len() - 1 implies cs[i] == cs.drop_last()[i] by {}
        assert(cs.len() * 0xffff == (cs.len() - 1) * 0xffff + 0xffff) by (nonlinear_arith);
    }
}

/// Shares of a weight no larger than the total never exceed what remains.
proof fn lemma_fill_share_bound(remaining: int, w: int, total: int)
    requires
        0 <= remaining,
        0 <= w <= total,
        total > 0,
    ensures
        0 <= fill_share(remaining, w, total) <= remaining,
        total * fill_share(remaining, w, total) <= remaining * w,
        remaining * w < total * (fill_share(remaining, w, total) + 1),
{
    let q = remaining * w / total;
    assert(0 <= remaining * w) by (nonlinear_arith)
        requires
            0 <= remaining,
            0 <= w,
    ;
    assert(remaining * w <= remaining * total) by (nonlinear_arith)
        requires
            0 <= remaining,
            w <= total,
    ;
    vstd::arithmetic::div_mod::lemma_fundamental_div_mod(remaining * w, total);
    let r = (remaining * w) % total;
    assert(0 <= r < total) by {
        vstd::arithmetic::div_mod::lemma_mod_pos_bound(remaining * w, total);
    }
    assert(q >= 0) by {
        vstd::arithmetic::div_mod::lemma_div_pos_is_pos(remaining * w, total);
    }
    assert(q <= remaining) by (nonlinear_arith)
        requires
            remaining * w == total * q + r,
            0 <= r,
            remaining * w <= remaining * total,
            total > 0,
    ;
    assert(remaining * w < total * (q + 1)) by (nonlinear_arith)
        requires
            remaining * w == total * q + r,
            r < total,
    ;
}

/// Each fill's share, and their sum, is bounded by what remains; and the shares fall short of
/// what remains by less than one cell per positive fill.
proof fn lemma_assigned_sum(cs: Seq<Constraint>, remaining: int, total: int)
    requires
        0 <= remaining,
        total > 0,
        total_weight(cs) <= total,
    ensures
        0 <= assigned_sum(cs, remaining, total),
        total * assigned_sum(cs, remaining, total) <= remaining * total_weight(cs),
        positive_fills(cs) > 0 ==> remaining * total_weight(cs) < total * (assigned_sum(
            cs,
            remaining,
            total,
        ) + positive_fills(cs)),
        positive_fills(cs) == 0 ==> assigned_sum(cs, remaining, total) == 0 && total_weight(cs)
            == 0,
        0 <= positive_fills(cs) <= cs.len(),
        assigned_sum(cs, remaining, total) <= remaining,
    decreases cs.len(),
{
    lemma_assigned_sum_core(cs, remaining, total);
    lemma_total_weight(cs);
    let a = assigned_sum(cs, remaining, total);
    let tw = total_weight(cs);
    assert(remaining * tw <= remaining * total) by (nonlinear_arith)
        requires
            0 <= remaining,
            tw <= total,
    ;
    assert(a <= remaining) by (nonlinear_arith)
        requires
            total * a <= remaining * total,
            total > 0,
    ;
}

proof fn lemma_assigned_sum_core(cs: Seq<Constraint>, remaining: int, total: int)
    requires
        0 <= remaining,
        total > 0,
        total_weight(cs) <= total,
    ensures
        0 <= assigned_sum(cs, remaining, total),
        total * assigned_sum(cs, remaining, total) <= remaining * total_weight(cs),
        positive_fills(cs) > 0 ==> remaining * total_weight(cs) < total * (assigned_sum(
            cs,
            remaining,
            total,
        ) + positive_fills(cs)),
        positive_fills(cs) == 0 ==> assigned_sum(cs, remaining, total) == 0 && total_weight(cs)
            == 0,
        0 <= positive_fills(cs) <= cs.len(),
    decreases cs.len(),
{
    if cs.len() > 0 {
        lemma_total_weight(cs);
        let p = cs.drop_last();
        lemma_total_weight(p);
        lemma_assigned_sum_core(p, remaining, total);
        let a = assigned_sum(p, remaining, total);
        let tw = total_weight(p);
        let pf = positive_fills(p);
        match cs.last() {
            Constraint::Fill(w) => {
                lemma_fill_share_bound(remaining, w as int, total);
                let s = fill_share(remaining, w as int, total);
                assert(total * (a + s) == total * a + total * s) by (nonlinear_arith);
                assert(remaining * (tw + w) == remaining * tw + remaining * w) by (nonlinear_arith);
                if w > 0 {
                    assert(total * (a + s + pf + 1) == total * (a + pf) + total * (s + 1))
                        by (nonlinear_arith);
                    if pf == 0 {
                        assert(remaining * tw == 0) by (nonlinear_arith)
                            requires
                                tw == 0,
                        ;
                        assert(total * a == 0) by (nonlinear_arith)
                            requires
                                a == 0,
                        ;
                    }
                } else {
                    assert(remaining * w == 0) by (nonlinear_arith)
                        requires
                            w == 0,
                    ;
                    assert(s == 0) by {
                        assert(remaining * w == 0) by (nonlinear_arith)
                            requires
                                w == 0,
                        ;
                    }
                    assert(total * (a + pf) == total * a + total * pf) by (nonlinear_arith);
                }
            },
            _ => {},
        }
    }
}

impl Layout {
    /// Resolves the constraints into one rectangle per constraint, laid out along the layout's
    /// direction inside `parent`.
    pub fn split(&self, parent: Rect) -> (r: Vec<Rect>)
        requires
            self.spec_constraints().len() <= 0xffff_ffff_ffff,
        ensures
            r@ == layout_areas(self.spec_direction(), self.spec_constraints(), self.spec_gap(), parent),
            r@.len() == self.spec_constraints().len(),
    {
        let count = self.constraints.len();
        if count == 0 {
            let r: Vec<Rect> = Vec::new();
            assert(r@ =~= layout_areas(
                self.spec_direction(),
                self.spec_constraints(),
                self.spec_gap(),
                parent,
            ));
            return r;
        }
        let ghost cs = self.constraints@;
        let primary = match self.direction {
            Direction::Horizontal => parent.width,
            Direction::Vertical => parent.height,
        };
        let separators = count - 1;
        proof {
            let g = self.gap as int;
            let k = (separators as u32) as int;
            assert(g * k <= 0xffff * 0xffff_ffff) by (nonlinear_arith)
                requires
                    0 <= g <= 0xffff,
                    0 <= k <= 0xffff_ffff,
            ;
        }
        let requested_gap: u64 = (self.gap as u64) * ((separators as u32) as u64);
        let total_gap: u16 = if requested_gap < primary as u64 {
            requested_gap as u16
        } else {
            primary
        };
        let distributable = primary - total_gap;
        // Lengths.
        let mut sizes: Vec<u16> = Vec::new();
        let mut remaining = distributable;
        let mut i: usize = 0;
        while i < count
            invariant
                count == cs.len(),
                cs == self.constraints@,
                i <= count,
                (as_ints(sizes@), remaining as int) == length_pass(
                    cs.take(i as int),
                    distributable as int,
                ),
            decreases count - i,
        {
            proof {
                assert(cs.take(i + 1).drop_last() == cs.take(i as int));
                assert(cs.take(i + 1).last() == cs[i as int]);
                lemma_length_pass(cs.take(i as int), distributable as int);
            }
            match self.constraints[i] {
                Constraint::Length(length) => {
                    let size = if length < remaining {
                        length
                    } else {
                        remaining
                    };
                    proof {
                        lemma_as_ints_push(sizes@, size);
                    }
                    sizes.push(size);
                    remaining = remaining - size;
                },
                _ => {
                    proof {
                        lemma_as_ints_push(sizes@, 0);
                    }
                    sizes.push(0);
                },
            }
            i = i + 1;
        }
        proof {
            assert(cs.take(count as int) == cs);
            lemma_length_pass(cs, distributable as int);
        }
        let ghost s1 = as_ints(sizes@);
        let ghost r1 = remaining as int;
        proof {
            assert(cs.take(0) == Seq::<Constraint>::empty());
            assert(as_ints(sizes@) =~= percentage_pass(
                cs.take(0),
                s1,
                r1,
                distributable as int,
            ).0 + s1.skip(0));
        }
        // Percentages of the distributable space.
        let mut i: usize = 0;
        while i < count
            invariant
                count == cs.len(),
                cs == self.constraints@,
                i <= count,
                sizes@.len() == count,
                s1.len() == count,
                forall|j: int| 0 <= j < count ==> 0 <= #[trigger] s1[j] <= distributable,
                0 <= r1 <= distributable,
                as_ints(sizes@) == percentage_pass(
                    cs.take(i as int),
                    s1,
                    r1,
                    distributable as int,
                ).0 + s1.skip(i as int),
                remaining as int == percentage_pass(
                    cs.take(i as int),
                    s1,
                    r1,
                    distributable as int,
                ).1,
                percentage_pass(cs.take(i as int), s1, r1, distributable as int).0.len() == i,
            decreases count - i,
        {
            proof {
                assert(cs.take(i + 1).drop_last() == cs.take(i as int));
                assert(cs.take(i + 1).last() == cs[i as int]);
                lemma_percentage_pass(cs.take(i as int), s1, r1, distributable as int);
            }
            match self.constraints[i] {
                Constraint::Percentage(percentage) => {
                    let p: u32 = if percentage < 100 {
                        percentage as u32
                    } else {
                        100
                    };
                    proof {
                        let d = distributable as int;
                        assert(d * (p as int) <= d * 100) by (nonlinear_arith)
                            requires
                                0 <= d <= 0xffff,
                                0 <= p <= 100,
                        ;
                    }
                    let product: u32 = (distributable as u32) * p;
                    let requested = product / 100;
                    let requested = requested as u16;
                    let size = if requested < remaining {
                        requested
                    } else {
                        remaining
                    };
                    proof {
                        lemma_as_ints_update(sizes@, i as int, size);
                        assert(percentage_pass(cs.take(i + 1), s1, r1, distributable as int).0
                            == percentage_pass(cs.take(i as int), s1, r1, distributable as int).0.push(
                            size as int,
                        ));
                    }
                    sizes.set(i, size);
                    remaining = remaining - size;
                },
                _ => {
                    proof {
                        assert(percentage_pass(cs.take(i + 1), s1, r1, distributable as int).0
                            == percentage_pass(cs.take(i as int), s1, r1, distributable as int).0.push(
                            s1[i as int],
                        ));
                    }
                },
            }
            proof {
                assert(as_ints(sizes@) =~= percentage_pass(
                    cs.take(i + 1),
                    s1,
                    r1,
                    distributable as int,
                ).0 + s1.skip(i + 1));
            }
            i = i + 1;
        }
        proof {
            assert(cs.take(count as int) == cs);
            lemma_percentage_pass(cs, s1, r1, distributable as int);
            assert(as_ints(sizes@) =~= percentage_pass(cs, s1, r1, distributable as int).0);
        }
        let ghost s2 = as_ints(sizes@);
        let ghost r2 = remaining as int;
        // Total positive fill weight.
        let mut total: u64 = 0;
        let mut i: usize = 0;
        while i < count
            invariant
                count == cs.len(),
                cs == self.constraints@,
                count <= 0xffff_ffff_ffff,
                i <= count,
                total as int == total_weight(cs.take(i as int)),
                total <= i * 0xffff,
            decreases count - i,
        {
            proof {
                assert(cs.take(i + 1).drop_last() == cs.take(i as int));
                assert(cs.take(i + 1).last() == cs[i as int]);
                assert(i * 0xffff + 0xffff == (i + 1) * 0xffff) by (nonlinear_arith);
                assert((i + 1) * 0xffff <= 0xffff_ffff_ffff * 0xffff) by (nonlinear_arith)
                    requires
                        i + 1 <= 0xffff_ffff_ffff,
                ;
            }
            match self.constraints[i] {
                Constraint::Fill(weight) => {
                    if weight > 0 {
                        total = total + weight as u64;
                    }
                },
                _ => {},
            }
            i = i + 1;
        }
        proof {
            assert(cs.take(count as int) == cs);
        }
        if total > 0 && remaining > 0 {
            let rem = remaining;
            let mut assigned: u16 = 0;
            proof {
                assert(cs.take(0) == Seq::<Constraint>::empty());
                assert(as_ints(sizes@) =~= fill_pass(cs.take(0), s2, r2, total as int) + s2.skip(
                    0,
                ));
            }
            let mut i: usize = 0;
            while i < count
                invariant
                    count == cs.len(),
                    cs == self.constraints@,
                    i <= count,
                    total as int == total_weight(cs),
                    total > 0,
                    rem as int == r2,
                    r2 > 0,
                    sizes@.len() == count,
                    s2.len() == count,
                    as_ints(sizes@) == fill_pass(cs.take(i as int), s2, r2, total as int) + s2.skip(
                        i as int,
                    ),
                    fill_pass(cs.take(i as int), s2, r2, total as int).len() == i,
                    assigned as int == assigned_sum(cs.take(i as int), r2, total as int),
                    assigned <= rem,
                decreases count - i,
            {
                proof {
                    assert(cs.take(i + 1).drop_last() == cs.take(i as int));
                    assert(cs.take(i + 1).last() == cs[i as int]);
                    lemma_weight_prefix(cs, i + 1);
                    lemma_assigned_sum(cs.take(i + 1), r2, total as int);
                    lemma_total_weight(cs);
                }
                match self.constraints[i] {
                    Constraint::Fill(weight) => {
                        proof {
                            assert(fill_weight(cs[i as int]) <= total_weight(cs));
                            lemma_fill_share_bound(r2, weight as int, total as int);
                            assert((rem as int) * (weight as int) <= 0xffff * 0xffff)
                                by (nonlinear_arith)
                                requires
                                    rem <= 0xffff,
                                    weight <= 0xffff,
                            ;
                        }
                        let size = ((rem as u64) * (weight as u64) / total) as u16;
                        proof {
                            lemma_as_ints_update(sizes@, i as int, size);
                            assert(fill_pass(cs.take(i + 1), s2, r2, total as int) == fill_pass(
                                cs.take(i as int),
                                s2,
                                r2,
                                total as int,
                            ).push(size as int));
                        }
                        sizes.set(i, size);
                        assigned = assigned + size;
                    },
                    _ => {
                        proof {
                            assert(fill_pass(cs.take(i + 1), s2, r2, total as int) == fill_pass(
                                cs.take(i as int),
                                s2,
                                r2,
                                total as int,
                            ).push(s2[i as int]));
                        }
                    },
                }
                proof {
                    assert(as_ints(sizes@) =~= fill_pass(cs.take(i + 1), s2, r2, total as int)
                        + s2.skip(i + 1));
                }
                i = i + 1;
            }
            proof {
                assert(cs.take(count as int) == cs);
                assert(as_ints(sizes@) =~= fill_pass(cs, s2, r2, total as int));
            }
            let ghost s3 = as_ints(sizes@);
            let ghost left0 = (rem - assigned) as int;
            let mut remainder = rem - assigned;
            let mut i: usize = 0;
            proof {
                assert(cs.take(0) == Seq::<Constraint>::empty());
                assert(as_ints(sizes@) =~= bonus_pass(cs.take(0), s3, left0).0 + s3.skip(0));
            }
            while i < count
                invariant
                    count == cs.len(),
                    cs == self.constraints@,
                    i <= count,
                    total as int == total_weight(cs),
                    total > 0,
                    r2 > 0,
                    rem as int == r2,
                    sizes@.len() == count,
                    s3.len() == count,
                    s3 == fill_pass(cs, s2, r2, total as int),
                    left0 == r2 - assigned_sum(cs, r2, total as int),
                    as_ints(sizes@) == bonus_pass(cs.take(i as int), s3, left0).0 + s3.skip(
                        i as int,
                    ),
                    r2 <= 0xffff,
                    bonus_pass(cs.take(i as int), s3, left0).0.len() == i,
                    remainder as int == bonus_pass(cs.take(i as int), s3, left0).1,
                decreases count - i,
            {
                proof {
                    assert(cs.take(i + 1).drop_last() == cs.take(i as int));
                    assert(cs.take(i + 1).last() == cs[i as int]);
                    lemma_bonus_pass_len(cs.take(i as int), s3, left0);
                }
                let positive = match self.constraints[i] {
                    Constraint::Fill(weight) => weight > 0,
                    _ => false,
                };
                if remainder > 0 && positive {
                    proof {
                        lemma_share_within_assigned(cs, s2, r2, total as int, i as int);
                        lemma_bonus_left_bound(cs.take(i as int), s3, left0);
                        assert(as_ints(sizes@)[i as int] == s3[i as int]);
                        assert(sizes@[i as int] as int == as_ints(sizes@)[i as int]);
                    }
                    let bumped = sizes[i] + 1;
                    proof {
                        lemma_as_ints_update(sizes@, i as int, bumped);
                        assert(bonus_pass(cs.take(i + 1), s3, left0).0 == bonus_pass(
                            cs.take(i as int),
                            s3,
                            left0,
                        ).0.push(s3[i as int] + 1));
                    }
                    sizes.set(i, bumped);
                    remainder = remainder - 1;
                } else {
                    proof {
                        assert(bonus_pass(cs.take(i + 1), s3, left0).0 == bonus_pass(
                            cs.take(i as int),
                            s3,
                            left0,
                        ).0.push(s3[i as int]));
                    }
                }
                proof {
                    assert(as_ints(sizes@) =~= bonus_pass(cs.take(i + 1), s3, left0).0 + s3.skip(
                        i + 1,
                    ));
                }
                i = i + 1;
            }
            proof {
                assert(cs.take(count as int) == cs);
                assert(as_ints(sizes@) =~= bonus_pass(cs, s3, left0).0);
            }
        }
        proof {
            assert(as_ints(sizes@) == resolved_sizes(cs, primary as int, self.gap));
        }
        // Positions.
        let ghost sz = as_ints(sizes@);
        let start = match self.direction {
            Direction::Horizontal => parent.x,
            Direction::Vertical => parent.y,
        };
        let mut areas: Vec<Rect> = Vec::new();
        let mut position = start;
        let mut gap_remaining = total_gap;
        let mut i: usize = 0;
        proof {
            assert(sz.take(0) == Seq::<int>::empty());
            assert(areas@ =~= areas_at(
                self.direction,
                parent,
                positions(sz.take(0), start as int, self.gap as int, total_gap as int).0,
                sz,
            ));
        }
        while i < count
            invariant
                count == cs.len(),
                cs == self.constraints@,
                i <= count,
                sz.len() == count,
                sz == as_ints(sizes@),
                sizes@.len() == count,
                (position as int, gap_remaining as int) == (if i < count {
                    (
                        positions(sz.take(i as int), start as int, self.gap as int, total_gap as int).1,
                        positions(sz.take(i as int), start as int, self.gap as int, total_gap as int).2,
                    )
                } else {
                    (position as int, gap_remaining as int)
                }),
                areas@ == areas_at(
                    self.direction,
                    parent,
                    positions(sz.take(i as int), start as int, self.gap as int, total_gap as int).0,
                    sz,
                ),
            decreases count - i,
        {
            let ghost ps = positions(sz.take(i as int), start as int, self.gap as int, total_gap as int);
            proof {
                assert(sz.take(i + 1).drop_last() == sz.take(i as int));
                assert(sz.take(i + 1).last() == sz[i as int]);
                lemma_positions_len(sz.take(i as int), start as int, self.gap as int, total_gap as int);
                lemma_positions_gap(sz.take(i as int), start as int, self.gap as int, total_gap as int);
            }
            let size = sizes[i];
            let area = match self.direction {
                Direction::Horizontal => Rect::new(position, parent.y, size, parent.height),
                Direction::Vertical => Rect::new(parent.x, position, parent.width, size),
            };
            areas.push(area);
            if i + 1 < count {
                position = position.saturating_add(size);
                let gap = if self.gap < gap_remaining {
                    self.gap
                } else {
                    gap_remaining
                };
                position = position.saturating_add(gap);
                gap_remaining = gap_remaining - gap;
            }
            proof {
                assert(areas@ =~= areas_at(
                    self.direction,
                    parent,
                    positions(sz.take(i + 1), start as int, self.gap as int, total_gap as int).0,
                    sz,
                ));
            }
            i = i + 1;
        }
        proof {
            assert(sz.take(count as int) == sz);
            lemma_positions_len(sz, start as int, self.gap as int, total_gap as int);
        }
        areas
    }
}

proof fn lemma_weight_prefix(cs: Seq<Constraint>, i: int)
    requires
        0 <= i <= cs.len(),
    ensures
        0 <= total_weight(cs.take(i)) <= total_weight(cs),
    decreases cs.len() - i,
{
    lemma_total_weight(cs.take(i));
    if i < cs.len() {
        lemma_weight_prefix(cs, i + 1);
        assert(cs.take(i + 1).drop_last() == cs.take(i));
        assert(cs.take(i + 1).last() == cs[i]);
    } else {
        assert(cs.take(i) == cs);
    }
}

proof fn lemma_bonus_pass_len(cs: Seq<Constraint>, prior: Seq<int>, left: int)
    ensures
        bonus_pass(cs, prior, left).0.len() == cs.len(),
    decreases cs.len(),
{
    if cs.len() > 0 {
        lemma_bonus_pass_len(cs.drop_last(), prior, left);
    }
}

proof fn lemma_bonus_left_bound(cs: Seq<Constraint>, prior: Seq<int>, left: int)
    ensures
        bonus_pass(cs, prior, left).1 <= left,
    decreases cs.len(),
{
    if cs.len() > 0 {
        lemma_bonus_left_bound(cs.drop_last(), prior, left);
    }
}

proof fn lemma_fill_pass_entries(cs: Seq<Constraint>, prior: Seq<int>, r: int, total: int)
    ensures
        fill_pass(cs, prior, r, total).len() == cs.len(),
        forall|j: int|
            0 <= j < cs.len() ==> #[trigger] fill_pass(cs, prior, r, total)[j] == match cs[j] {
                Constraint::Fill(w) => fill_share(r, w as int, total),
                _ => prior[j],
            },
    decreases cs.len(),
{
    if cs.len() > 0 {
        lemma_fill_pass_entries(cs.drop_last(), prior, r, total);
        assert forall|j: int| 0 <= j < cs.len() - 1 implies cs[j] == cs.drop_last()[j] by {}
    }
}

proof fn lemma_share_le_sum(cs: Seq<Constraint>, r: int, total: int, j: int)
    requires
        0 <= j < cs.len(),
        0 <= r,
        total > 0,
        total_weight(cs) <= total,
        cs[j] is Fill,
    ensures
        fill_share(r, fill_weight(cs[j]), total) <= assigned_sum(cs, r, total),
    decreases cs.len(),
{
    let p = cs.drop_last();
    lemma_total_weight(cs);
    lemma_weight_prefix(cs, cs.len() - 1);
    assert(cs.take(cs.len() - 1) == p);
    lemma_assigned_sum(p, r, total);
    if j < cs.len() - 1 {
        assert(p[j] == cs[j]);
        lemma_share_le_sum(p, r, total, j);
        match cs.last() {
            Constraint::Fill(w) => {
                lemma_fill_share_bound(r, w as int, total);
            },
            _ => {},
        }
    }
}

proof fn lemma_share_within_assigned(
    cs: Seq<Constraint>,
    s2: Seq<int>,
    r2: int,
    total: int,
    i: int,
)
    requires
        0 <= i < cs.len(),
        r2 > 0,
        total == total_weight(cs),
        total > 0,
        cs[i] is Fill,
    ensures
        fill_pass(cs, s2, r2, total)[i] <= assigned_sum(cs, r2, total),
{
    lemma_fill_pass_entries(cs, s2, r2, total);
    lemma_share_le_sum(cs, r2, total, i);
}

proof fn lemma_positions_len(sizes: Seq<int>, start: int, gap: int, budget: int)
    ensures
        positions(sizes, start, gap, budget).0.len() == sizes.len(),
    decreases sizes.len(),
{
    if sizes.len() > 0 {
        lemma_positions_len(sizes.drop_last(), start, gap, budget);
    }
}

proof fn lemma_positions_gap(sizes: Seq<int>, start: int, gap: int, budget: int)
    requires
        0 <= gap <= 0xffff,
        0 <= budget <= 0xffff,
        0 <= start <= 0xffff,
    ensures
        0 <= positions(sizes, start, gap, budget).2 <= budget,
        0 <= positions(sizes, start, gap, budget).1 <= 0xffff,
    decreases sizes.len(),
{
    if sizes.len() > 0 {
        lemma_positions_gap(sizes.drop_last(), start, gap, budget);
    }
}

proof fn lemma_positions_prefix(sizes: Seq<int>, start: int, gap: int, budget: int, a: int, b: int)
    requires
        0 < a <= b <= sizes.len(),
    ensures
        positions(sizes.take(b), start, gap, budget).0[a - 1] == positions(
            sizes.take(a),
            start,
            gap,
            budget,
        ).0[a - 1],
    decreases b - a,
{
    lemma_positions_len(sizes.take(a), start, gap, budget);
    if a < b {
        lemma_positions_prefix(sizes, start, gap, budget, a, b - 1);
        assert(sizes.take(b).drop_last() == sizes.take(b - 1));
        lemma_positions_len(sizes.take(b - 1), start, gap, budget);
    }
}

} // verus!
