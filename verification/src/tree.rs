use std::collections::BTreeSet;

use vstd::prelude::*;

use crate::cell::Cell;
use crate::chars::push_char;
use crate::frame::Frame;
use crate::geometry::Rect;
use crate::rich_text::{Line, Span, SpanView, line_cells, span_views};
use crate::text::Alignment;
use crate::style::Style;
use crate::viewport::ViewportState;

verus! {

broadcast use {vstd::std_specs::btree::group_btree_axioms, vstd::laws_cmp::group_laws_cmp};

/// A stable, unique-ID tree node with a rich-text label and owned children.
///
/// IDs identify selection and expansion in [`TreeState`], so every node in one [`Tree`] must have
/// a distinct ID that remains stable while its state is retained.
#[derive(Debug, PartialEq, Eq)]
pub struct TreeNode {
    id: u64,
    label: Line,
    children: Vec<TreeNode>,
}

/// A row of the flattened tree: the node, its parent's ID, and its depth.
pub type RowView = (TreeNode, Option<u64>, int);

/// The rows shown for `node` and, when it is expanded, its descendants, depth first.
pub open spec fn node_rows(node: TreeNode, parent: Option<u64>, depth: int, expanded: Set<u64>) -> Seq<
    RowView,
>
    decreases node, 1int,
{
    let own = seq![(node, parent, depth)];
    if expanded.contains(node.spec_id()) {
        own + forest_rows(
            node.spec_children(),
            Some(node.spec_id()),
            if depth < usize::MAX {
                depth + 1
            } else {
                depth
            },
            expanded,
        )
    } else {
        own
    }
}

/// The rows shown for a list of sibling nodes, in order.
pub open spec fn forest_rows(
    nodes: Seq<TreeNode>,
    parent: Option<u64>,
    depth: int,
    expanded: Set<u64>,
) -> Seq<RowView>
    decreases nodes, 0int,
{
    if nodes.len() == 0 {
        Seq::empty()
    } else {
        forest_rows(nodes.drop_last(), parent, depth, expanded) + node_rows(
            nodes.last(),
            parent,
            depth,
            expanded,
        )
    }
}

impl TreeNode {
    pub closed spec fn spec_id(&self) -> u64 {
        self.id
    }

    pub closed spec fn spec_label(&self) -> Line {
        self.label
    }

    pub closed spec fn spec_children(&self) -> Seq<TreeNode> {
        self.children@
    }
}

/// The IDs of `node` and all its descendants.
pub open spec fn node_ids(node: TreeNode) -> Set<u64>
    decreases node, 1int,
{
    set![node.spec_id()].union(forest_ids(node.spec_children()))
}

/// The IDs of a list of nodes and all their descendants.
pub open spec fn forest_ids(nodes: Seq<TreeNode>) -> Set<u64>
    decreases nodes, 0int,
{
    if nodes.len() == 0 {
        Set::empty()
    } else {
        forest_ids(nodes.drop_last()).union(node_ids(nodes.last()))
    }
}

impl TreeNode {
    /// Creates a node whose ID is unique within its containing tree.
    pub fn new(id: u64, label: Line) -> (r: Self)
        ensures
            r.spec_id() == id,
            r.spec_label() == label,
            r.spec_children() == Seq::<TreeNode>::empty(),
    {
        TreeNode { id, label, children: Vec::new() }
    }

    pub fn children(self, children: Vec<TreeNode>) -> (r: Self)
        ensures
            r.spec_id() == self.spec_id(),
            r.spec_label() == self.spec_label(),
            r.spec_children() == children@,
    {
        TreeNode { id: self.id, label: self.label, children }
    }

    pub fn id(&self) -> (r: u64)
        ensures
            r == self.spec_id(),
    {
        self.id
    }

    pub fn label(&self) -> (r: &Line)
        ensures
            *r == self.spec_label(),
    {
        &self.label
    }

    pub fn children_ref(&self) -> (r: &[TreeNode])
        ensures
            r@ == self.spec_children(),
    {
        self.children.as_slice()
    }
}

/// Adds to `kept` the IDs of `nodes` and their descendants that `expanded` holds.
fn keep_expanded(nodes: &[TreeNode], expanded: &BTreeSet<u64>, kept: &mut BTreeSet<u64>)
    ensures
        final(kept)@ == old(kept)@.union(forest_ids(nodes@).intersect(expanded@)),
    decreases nodes@,
{
    let ghost start = kept@;
    let mut i: usize = 0;
    while i < nodes.len()
        invariant
            i <= nodes@.len(),
            kept@ == start.union(forest_ids(nodes@.take(i as int)).intersect(expanded@)),
        decreases nodes@.len() - i,
    {
        let node = &nodes[i];
        proof {
            assert(nodes@.take(i + 1).drop_last() == nodes@.take(i as int));
            assert(nodes@.take(i + 1).last() == *node);
            assert(decreases_to!(nodes@ => nodes@[i as int]));
        }
        let ghost before = kept@;
        let present = expanded.contains(&node.id);
        if present {
            kept.insert(node.id);
        }
        let ghost middle = kept@;
        assert(middle == (if expanded@.contains(node.id) {
            before.insert(node.id)
        } else {
            before
        }));
        keep_expanded(node.children.as_slice(), expanded, kept);
        proof {
            let ids = forest_ids(nodes@.take(i + 1));
            assert(ids == forest_ids(nodes@.take(i as int)).union(node_ids(*node)));
            assert(node_ids(*node) == set![node.id].union(forest_ids(node.children@)));
            assert(kept@ =~= start.union(ids.intersect(expanded@)));
        }
        i = i + 1;
    }
    proof {
        assert(nodes@.take(nodes@.len() as int) == nodes@);
    }
}

/// A row of the flattened tree, borrowing its node.
struct VisibleRow<'a> {
    node: &'a TreeNode,
    parent: Option<u64>,
    depth: usize,
}

spec fn rows_view(rows: Seq<VisibleRow>) -> Seq<RowView> {
    rows.map_values(|r: VisibleRow| (*r.node, r.parent, r.depth as int))
}

/// Appends the rows of `nodes` (and of expanded descendants) to `visible`.
fn flatten_into<'a>(
    nodes: &'a [TreeNode],
    parent: Option<u64>,
    depth: usize,
    expanded: &BTreeSet<u64>,
    visible: &mut Vec<VisibleRow<'a>>,
)
    ensures
        rows_view(final(visible)@) == rows_view(old(visible)@) + forest_rows(
            nodes@,
            parent,
            depth as int,
            expanded@,
        ),
    decreases nodes@,
{
    let ghost start = rows_view(visible@);
    let mut i: usize = 0;
    while i < nodes.len()
        invariant
            i <= nodes@.len(),
            rows_view(visible@) == start + forest_rows(
                nodes@.take(i as int),
                parent,
                depth as int,
                expanded@,
            ),
        decreases nodes@.len() - i,
    {
        let node = &nodes[i];
        proof {
            assert(nodes@.take(i + 1).drop_last() == nodes@.take(i as int));
            assert(nodes@.take(i + 1).last() == *node);
            assert(decreases_to!(nodes@ => nodes@[i as int]));
        }
        let ghost before = rows_view(visible@);
        visible.push(VisibleRow { node, parent, depth });
        proof {
            assert(rows_view(visible@) =~= before.push((*node, parent, depth as int)));
        }
        let ghost middle = rows_view(visible@);
        if expanded.contains(&node.id) {
            flatten_into(
                node.children.as_slice(),
                Some(node.id),
                depth.saturating_add(1),
                expanded,
                visible,
            );
        }
        proof {
            let rows = node_rows(*node, parent, depth as int, expanded@);
            assert(forest_rows(nodes@.take(i + 1), parent, depth as int, expanded@) == forest_rows(
                nodes@.take(i as int),
                parent,
                depth as int,
                expanded@,
            ) + rows);
            assert(rows_view(visible@) =~= before + rows);
        }
        i = i + 1;
    }
    proof {
        assert(nodes@.take(nodes@.len() as int) == nodes@);
    }
}

/// Caller-owned selection, expansion, and scroll state for [`Tree`].
#[derive(Clone, Debug, PartialEq, Eq)]
pub struct TreeState {
    selected: Option<u64>,
    expanded: BTreeSet<u64>,
    viewport: ViewportState,
}

impl TreeState {
    pub closed spec fn spec_selected(&self) -> Option<u64> {
        self.selected
    }

    pub closed spec fn spec_expanded(&self) -> Set<u64> {
        self.expanded@
    }

    pub closed spec fn spec_viewport(&self) -> ViewportState {
        self.viewport
    }

    pub fn new() -> (r: Self)
        ensures
            r.spec_selected() is None,
            r.spec_expanded() == Set::<u64>::empty(),
            r.spec_viewport() == ViewportState::spec_initial(),
    {
        TreeState { selected: None, expanded: BTreeSet::new(), viewport: ViewportState::new() }
    }

    pub fn set_selected(&mut self, id: u64)
        ensures
            final(self).spec_selected() == Some(id),
            final(self).spec_expanded() == old(self).spec_expanded(),
            final(self).spec_viewport() == old(self).spec_viewport(),
    {
        self.selected = Some(id);
    }

    pub fn selected(&self) -> (r: Option<u64>)
        ensures
            r == self.spec_selected(),
    {
        self.selected
    }

    pub fn expand(&mut self, id: u64)
        ensures
            final(self).spec_expanded() == old(self).spec_expanded().insert(id),
            final(self).spec_selected() == old(self).spec_selected(),
            final(self).spec_viewport() == old(self).spec_viewport(),
    {
        self.expanded.insert(id);
    }

    pub fn collapse(&mut self, id: u64)
        ensures
            final(self).spec_expanded() == old(self).spec_expanded().remove(id),
            final(self).spec_selected() == old(self).spec_selected(),
            final(self).spec_viewport() == old(self).spec_viewport(),
    {
        self.expanded.remove(&id);
    }

    pub fn is_expanded(&self, id: u64) -> (r: bool)
        ensures
            r == self.spec_expanded().contains(id),
    {
        self.expanded.contains(&id)
    }

    pub fn scroll_up(&mut self) -> (r: bool)
        ensures
            final(self).spec_viewport().wf(),
            final(self).spec_viewport().same_dimensions(&old(self).spec_viewport()),
            final(self).spec_viewport().spec_offset() == old(self).spec_viewport().clamped(
                crate::viewport::sat_sub(old(self).spec_viewport().spec_offset() as int, 1),
            ),
            r == (final(self).spec_viewport().spec_offset() != old(self).spec_viewport().spec_offset()),
            final(self).spec_selected() == old(self).spec_selected(),
            final(self).spec_expanded() == old(self).spec_expanded(),
    {
        self.viewport.scroll_up()
    }

    pub fn scroll_down(&mut self) -> (r: bool)
        ensures
            final(self).spec_viewport().wf(),
            final(self).spec_viewport().same_dimensions(&old(self).spec_viewport()),
            final(self).spec_viewport().spec_offset() == old(self).spec_viewport().clamped(
                old(self).spec_viewport().spec_offset() + 1,
            ),
            r == (final(self).spec_viewport().spec_offset() != old(self).spec_viewport().spec_offset()),
            final(self).spec_selected() == old(self).spec_selected(),
            final(self).spec_expanded() == old(self).spec_expanded(),
    {
        self.viewport.scroll_down()
    }

    pub fn page_up(&mut self) -> (r: bool)
        ensures
            final(self).spec_viewport().wf(),
            final(self).spec_viewport().same_dimensions(&old(self).spec_viewport()),
            final(self).spec_viewport().spec_offset() == old(self).spec_viewport().clamped(
                crate::viewport::sat_sub(
                    old(self).spec_viewport().spec_offset() as int,
                    old(self).spec_viewport().spec_viewport_height() as int,
                ),
            ),
            r == (final(self).spec_viewport().spec_offset() != old(self).spec_viewport().spec_offset()),
            final(self).spec_selected() == old(self).spec_selected(),
            final(self).spec_expanded() == old(self).spec_expanded(),
    {
        self.viewport.page_up()
    }

    pub fn page_down(&mut self) -> (r: bool)
        ensures
            final(self).spec_viewport().wf(),
            final(self).spec_viewport().same_dimensions(&old(self).spec_viewport()),
            final(self).spec_viewport().spec_offset() == old(self).spec_viewport().clamped(
                old(self).spec_viewport().spec_offset() + old(self).spec_viewport().spec_viewport_height(),
            ),
            r == (final(self).spec_viewport().spec_offset() != old(self).spec_viewport().spec_offset()),
            final(self).spec_selected() == old(self).spec_selected(),
            final(self).spec_expanded() == old(self).spec_expanded(),
    {
        self.viewport.page_down()
    }

    pub fn viewport(&self) -> (r: &ViewportState)
        ensures
            *r == self.spec_viewport(),
    {
        &self.viewport
    }
}

impl Default for TreeState {
    fn default() -> (r: Self)
        ensures
            r.spec_selected() is None,
            r.spec_expanded() == Set::<u64>::empty(),
            r.spec_viewport() == ViewportState::spec_initial(),
    {
        TreeState::new()
    }
}

/// Index of the first row showing node `id`, searching from `i`.
pub open spec fn row_index_from(rows: Seq<RowView>, id: u64, i: int) -> Option<int>
    decreases rows.len() - i,
{
    if i < 0 || i >= rows.len() {
        None
    } else if rows[i].0.spec_id() == id {
        Some(i)
    } else {
        row_index_from(rows, id, i + 1)
    }
}

/// Index of the first row showing the selected node.
pub open spec fn selected_index(rows: Seq<RowView>, selected: Option<u64>) -> Option<int> {
    match selected {
        Some(id) => row_index_from(rows, id, 0),
        None => None,
    }
}

/// Expansion limited to IDs present in the tree.
pub open spec fn normalized_expanded(roots: Seq<TreeNode>, expanded: Set<u64>) -> Set<u64> {
    expanded.intersect(forest_ids(roots))
}

/// The selection kept when it names a visible row, else the first visible row (if any).
pub open spec fn normalized_selection(rows: Seq<RowView>, selected: Option<u64>) -> Option<u64> {
    if selected_index(rows, selected) is Some {
        selected
    } else if rows.len() > 0 {
        Some(rows[0].0.spec_id())
    } else {
        None
    }
}

/// Selection, expansion and result of a tree navigation command, after normalization.
pub enum TreeCommand {
    Up,
    Down,
    Right,
    Left,
    Toggle,
}

/// The selection and expansion after `command`, and whether it changed anything beyond
/// normalization.
pub open spec fn tree_command(
    roots: Seq<TreeNode>,
    selected: Option<u64>,
    expanded: Set<u64>,
    command: TreeCommand,
) -> (Option<u64>, Set<u64>, bool) {
    let e = normalized_expanded(roots, expanded);
    let rows = forest_rows(roots, None, 0, e);
    let s = normalized_selection(rows, selected);
    match selected_index(rows, s) {
        None => (s, e, false),
        Some(i) => {
            let row = rows[i];
            let node = row.0;
            let id = node.spec_id();
            let kids = node.spec_children();
            match command {
                TreeCommand::Up => if i == 0 {
                    (s, e, false)
                } else {
                    (Some(rows[i - 1].0.spec_id()), e, true)
                },
                TreeCommand::Down => if i + 1 >= rows.len() {
                    (s, e, false)
                } else {
                    (Some(rows[i + 1].0.spec_id()), e, true)
                },
                TreeCommand::Right => if kids.len() == 0 {
                    (s, e, false)
                } else if !e.contains(id) {
                    (s, e.insert(id), true)
                } else if s == Some(kids[0].spec_id()) {
                    (s, e, false)
                } else {
                    (Some(kids[0].spec_id()), e, true)
                },
                TreeCommand::Left => if e.contains(id) {
                    (s, e.remove(id), true)
                } else {
                    match row.1 {
                        None => (s, e, false),
                        Some(parent) => (Some(parent), e, true),
                    }
                },
                TreeCommand::Toggle => if kids.len() == 0 {
                    (s, e, false)
                } else if e.contains(id) {
                    (s, e.remove(id), true)
                } else {
                    (s, e.insert(id), true)
                },
            }
        },
    }
}

/// A collapsible tree rendered with explicit [`TreeState`].
///
/// Node IDs must be stable within an application's data set because expansion and selection are
/// keyed by ID rather than by tree position.
pub struct Tree {
    roots: Vec<TreeNode>,
    selected_style: Style,
}

impl Tree {
    pub closed spec fn spec_roots(&self) -> Seq<TreeNode> {
        self.roots@
    }

    pub closed spec fn spec_selected_style(&self) -> Style {
        self.selected_style
    }

    pub fn new(roots: Vec<TreeNode>) -> (r: Self)
        ensures
            r.spec_roots() == roots@,
            r.spec_selected_style() == Style::plain(),
    {
        Tree { roots, selected_style: Style::new() }
    }

    pub fn selected_style(self, style: Style) -> (r: Self)
        ensures
            r.spec_roots() == self.spec_roots(),
            r.spec_selected_style() == style,
    {
        Tree { roots: self.roots, selected_style: style }
    }

    /// Drops expansion of IDs not in the tree, flattens the visible rows, and moves the selection
    /// to the first row when it names no visible row.
    fn normalize<'a>(&'a self, state: &mut TreeState) -> (rows: Vec<VisibleRow<'a>>)
        ensures
            final(state).spec_expanded() == normalized_expanded(
                self.spec_roots(),
                old(state).spec_expanded(),
            ),
            rows_view(rows@) == forest_rows(self.spec_roots(), None, 0, final(state).spec_expanded()),
            final(state).spec_selected() == normalized_selection(
                rows_view(rows@),
                old(state).spec_selected(),
            ),
            final(state).spec_viewport() == old(state).spec_viewport(),
    {
        let mut kept: BTreeSet<u64> = BTreeSet::new();
        keep_expanded(self.roots.as_slice(), &state.expanded, &mut kept);
        proof {
            assert(kept@ =~= normalized_expanded(self.roots@, state.expanded@));
        }
        state.expanded = kept;
        let mut visible: Vec<VisibleRow<'a>> = Vec::new();
        proof {
            assert(rows_view(visible@) =~= Seq::<RowView>::empty());
        }
        flatten_into(self.roots.as_slice(), None, 0, &state.expanded, &mut visible);
        proof {
            assert(rows_view(visible@) =~= forest_rows(self.roots@, None, 0, state.expanded@));
        }
        let found = Self::find_row(&visible, state.selected);
        if found.is_none() {
            if visible.len() > 0 {
                state.selected = Some(visible[0].node.id);
            } else {
                state.selected = None;
            }
        }
        visible
    }

    /// Index of the first row showing the selected node.
    fn find_row(rows: &Vec<VisibleRow>, selected: Option<u64>) -> (r: Option<usize>)
        ensures
            match r {
                Some(i) => i < rows@.len() && selected_index(rows_view(rows@), selected) == Some(
                    i as int,
                ),
                None => selected_index(rows_view(rows@), selected) is None,
            },
    {
        let ghost rv = rows_view(rows@);
        match selected {
            None => None,
            Some(id) => {
                let mut i: usize = 0;
                while i < rows.len()
                    invariant
                        i <= rows@.len(),
                        rv == rows_view(rows@),
                        selected == Some(id),
                        row_index_from(rv, id, 0) == row_index_from(rv, id, i as int),
                    decreases rows@.len() - i,
                {
                    proof {
                        assert(rv[i as int].0 == *rows@[i as int].node);
                    }
                    if rows[i].node.id == id {
                        return Some(i);
                    }
                    i = i + 1;
                }
                None
            },
        }
    }

    pub fn move_up(&self, state: &mut TreeState) -> (r: bool)
        ensures
            (final(state).spec_selected(), final(state).spec_expanded(), r) == tree_command(
                self.spec_roots(),
                old(state).spec_selected(),
                old(state).spec_expanded(),
                TreeCommand::Up,
            ),
            final(state).spec_viewport() == old(state).spec_viewport(),
    {
        let visible = self.normalize(state);
        let index = match Self::find_row(&visible, state.selected) {
            Some(i) => i,
            None => {
                return false;
            },
        };
        if index == 0 {
            return false;
        }
        state.selected = Some(visible[index - 1].node.id);
        true
    }

    pub fn move_down(&self, state: &mut TreeState) -> (r: bool)
        ensures
            (final(state).spec_selected(), final(state).spec_expanded(), r) == tree_command(
                self.spec_roots(),
                old(state).spec_selected(),
                old(state).spec_expanded(),
                TreeCommand::Down,
            ),
            final(state).spec_viewport() == old(state).spec_viewport(),
    {
        let visible = self.normalize(state);
        let index = match Self::find_row(&visible, state.selected) {
            Some(i) => i,
            None => {
                return false;
            },
        };
        if visible.len() - index <= 1 {
            return false;
        }
        state.selected = Some(visible[index + 1].node.id);
        true
    }

    pub fn move_right(&self, state: &mut TreeState) -> (r: bool)
        ensures
            (final(state).spec_selected(), final(state).spec_expanded(), r) == tree_command(
                self.spec_roots(),
                old(state).spec_selected(),
                old(state).spec_expanded(),
                TreeCommand::Right,
            ),
            final(state).spec_viewport() == old(state).spec_viewport(),
    {
        let visible = self.normalize(state);
        let index = match Self::find_row(&visible, state.selected) {
            Some(i) => i,
            None => {
                return false;
            },
        };
        let node = visible[index].node;
        if node.children.len() == 0 {
            return false;
        }
        if state.expanded.insert(node.id) {
            return true;
        }
        let first = node.children[0].id;
        if state.selected == Some(first) {
            return false;
        }
        state.selected = Some(first);
        true
    }

    pub fn move_left(&self, state: &mut TreeState) -> (r: bool)
        ensures
            (final(state).spec_selected(), final(state).spec_expanded(), r) == tree_command(
                self.spec_roots(),
                old(state).spec_selected(),
                old(state).spec_expanded(),
                TreeCommand::Left,
            ),
            final(state).spec_viewport() == old(state).spec_viewport(),
    {
        let visible = self.normalize(state);
        let index = match Self::find_row(&visible, state.selected) {
            Some(i) => i,
            None => {
                return false;
            },
        };
        let id = visible[index].node.id;
        if state.expanded.remove(&id) {
            return true;
        }
        match visible[index].parent {
            None => false,
            Some(parent) => {
                state.selected = Some(parent);
                true
            },
        }
    }

    pub fn toggle(&self, state: &mut TreeState) -> (r: bool)
        ensures
            (final(state).spec_selected(), final(state).spec_expanded(), r) == tree_command(
                self.spec_roots(),
                old(state).spec_selected(),
                old(state).spec_expanded(),
                TreeCommand::Toggle,
            ),
            final(state).spec_viewport() == old(state).spec_viewport(),
    {
        let visible = self.normalize(state);
        let index = match Self::find_row(&visible, state.selected) {
            Some(i) => i,
            None => {
                return false;
            },
        };
        let node = visible[index].node;
        if node.children.len() == 0 {
            return false;
        }
        if !state.expanded.remove(&node.id) {
            state.expanded.insert(node.id);
        }
        true
    }
}

/// The marker before a node's label: a bullet for a leaf, a down triangle when expanded, a right
/// triangle when collapsed.
pub open spec fn row_glyph(node: TreeNode, expanded: Set<u64>) -> char {
    if node.spec_children().len() == 0 {
        '\u{2022}'
    } else if expanded.contains(node.spec_id()) {
        '\u{25bc}'
    } else {
        '\u{25b6}'
    }
}

/// Two spaces per depth level, the marker, and a space.
pub open spec fn row_prefix(depth: int, glyph: char) -> Seq<char> {
    Seq::new((2 * depth) as nat, |i: int| ' ') + seq![glyph, ' ']
}

/// The spans drawn for a row: the prefix, then the label's spans; a selected row takes the
/// selected style on its prefix and patched over each label span.
pub open spec fn row_spans(row: RowView, expanded: Set<u64>, selected: Option<u64>, style: Style) -> Seq<
    SpanView,
> {
    let node = row.0;
    let is_selected = selected == Some(node.spec_id());
    seq![
        (
            row_prefix(row.2, row_glyph(node, expanded)),
            if is_selected {
                style
            } else {
                Style::plain()
            },
        ),
    ] + node.spec_label().spec_spans().map_values(
        |sp: SpanView|
            (
                sp.0,
                if is_selected {
                    sp.1.spec_patch(style)
                } else {
                    sp.1
                },
            ),
    )
}

/// Cells after drawing `lines[k]` as a one-row line at row `k` of `rect`, for each `k` whose row
/// lies within `u16`.
pub open spec fn tree_lines_written(
    cells: Seq<Cell>,
    w: int,
    h: int,
    rect: Rect,
    lines: Seq<Seq<SpanView>>,
) -> Seq<Cell>
    decreases lines.len(),
{
    if lines.len() == 0 {
        cells
    } else {
        let prev = tree_lines_written(cells, w, h, rect, lines.drop_last());
        let k = lines.len() - 1;
        if rect.y + k <= u16::MAX {
            line_cells(
                prev,
                w,
                h,
                Rect { x: rect.x, y: (rect.y + k) as u16, width: rect.width, height: 1 },
                0,
                lines.last(),
                Alignment::Left,
            )
        } else {
            prev
        }
    }
}

/// What [`Tree::render`] does, for a tree with `roots` and selected-row style `style`: nothing
/// for an empty `rect`; otherwise it normalizes the state, sizes the viewport to the visible rows
/// and writes the rows in view.
pub open spec fn tree_rendered(
    roots: Seq<TreeNode>,
    style: Style,
    rect: Rect,
    old_frame: Frame,
    old_state: TreeState,
    new_frame: Frame,
    new_state: TreeState,
) -> bool {
    &&& rect.width == 0 || rect.height == 0 ==> new_frame == old_frame && new_state == old_state
    &&& rect.width > 0 && rect.height > 0 ==> {
        let e = normalized_expanded(roots, old_state.spec_expanded());
        let rows = forest_rows(roots, None, 0, e);
        let s = normalized_selection(rows, old_state.spec_selected());
        let v = new_state.spec_viewport();
        let start = v.spec_offset() as int;
        let end = if start + rect.height <= rows.len() {
            start + rect.height
        } else {
            rows.len() as int
        };
        &&& new_state.spec_expanded() == e
        &&& new_state.spec_selected() == s
        &&& v.wf()
        &&& v.spec_initialized()
        &&& (start, v.spec_content_height() as int, v.spec_viewport_height() as int)
            == old_state.spec_viewport().updated(rows.len() as int, rect.height as int)
        &&& new_frame.spec_buffer().cells() == tree_lines_written(
            old_frame.spec_buffer().cells(),
            old_frame.spec_width() as int,
            old_frame.spec_height() as int,
            rect,
            tree_row_lines(rows, start, end, e, s, style),
        )
    }
}

/// The spans of each visible row from `start` to `end`.
pub open spec fn tree_row_lines(
    rows: Seq<RowView>,
    start: int,
    end: int,
    expanded: Set<u64>,
    selected: Option<u64>,
    style: Style,
) -> Seq<Seq<SpanView>> {
    Seq::new((end - start) as nat, |k: int| row_spans(rows[start + k], expanded, selected, style))
}

impl Tree {
    /// The spans of one row.
    fn row_line(&self, row: &VisibleRow, expanded: &BTreeSet<u64>, selected: Option<u64>) -> (r:
        Line)
        ensures
            r.spec_spans() == row_spans(
                (*row.node, row.parent, row.depth as int),
                expanded@,
                selected,
                self.selected_style,
            ),
            r.spec_alignment() == Alignment::Left,
    {
        let node = row.node;
        let glyph = if node.children.len() == 0 {
            '\u{2022}'
        } else if expanded.contains(&node.id) {
            '\u{25bc}'
        } else {
            '\u{25b6}'
        };
        let mut prefix = String::new();
        let mut d: usize = 0;
        proof {
            assert(prefix@ =~= Seq::new(0, |i: int| ' '));
        }
        while d < row.depth
            invariant
                d <= row.depth,
                prefix@ == Seq::new((2 * d) as nat, |i: int| ' '),
            decreases row.depth - d,
        {
            push_char(&mut prefix, ' ');
            push_char(&mut prefix, ' ');
            proof {
                assert(prefix@ =~= Seq::new((2 * (d + 1)) as nat, |i: int| ' '));
            }
            d = d + 1;
        }
        push_char(&mut prefix, glyph);
        push_char(&mut prefix, ' ');
        let is_selected = selected == Some(node.id);
        let first_style = if is_selected {
            self.selected_style
        } else {
            Style::new()
        };
        let mut spans: Vec<Span> = Vec::new();
        spans.push(Span::styled(prefix.as_str(), first_style));
        let label_spans = node.label.spans();
        let ghost expected = row_spans(
            (*row.node, row.parent, row.depth as int),
            expanded@,
            selected,
            self.selected_style,
        );
        let ghost mapped = node.label.spec_spans().map_values(
            |sp: SpanView|
                (
                    sp.0,
                    if is_selected {
                        sp.1.spec_patch(self.selected_style)
                    } else {
                        sp.1
                    },
                ),
        );
        proof {
            assert(prefix@ =~= row_prefix(row.depth as int, glyph));
            assert(span_views(spans@) =~= expected.take(1));
        }
        let mut i: usize = 0;
        while i < label_spans.len()
            invariant
                i <= label_spans@.len(),
                span_views(label_spans@) == node.label.spec_spans(),
                expected == seq![expected[0]] + mapped,
                mapped.len() == label_spans@.len(),
                forall|k: int| 0 <= k < mapped.len() ==> #[trigger] mapped[k] == (
                    label_spans@[k].spec_view().0,
                    if is_selected {
                        label_spans@[k].spec_view().1.spec_patch(self.selected_style)
                    } else {
                        label_spans@[k].spec_view().1
                    },
                ),
                span_views(spans@) == expected.take(i + 1),
            decreases label_spans@.len() - i,
        {
            let sp = &label_spans[i];
            let st = if is_selected {
                sp.style().patch(self.selected_style)
            } else {
                sp.style()
            };
            let ghost before = spans@;
            spans.push(Span::styled(sp.content(), st));
            proof {
                assert(span_views(spans@) =~= span_views(before).push(spans@[i + 1].spec_view()));
                assert(expected.take(i + 2) =~= expected.take(i + 1).push(expected[i + 1]));
            }
            i = i + 1;
        }
        proof {
            assert(expected.take(label_spans@.len() + 1int) =~= expected);
        }
        Line::new(spans)
    }

    /// Normalizes the state, sizes the scroll viewport to the visible rows, and draws the rows in
    /// view, one per row of `rect`.
    pub fn render(&self, frame: &mut Frame, rect: Rect, state: &mut TreeState)
        requires
            old(frame).wf(),
        ensures
            final(frame).wf(),
            final(frame).same_size(old(frame)),
            rect.width == 0 || rect.height == 0 ==> *final(frame) == *old(frame) && *final(state)
                == *old(state),
            rect.width > 0 && rect.height > 0 ==> {
                let e = normalized_expanded(self.spec_roots(), old(state).spec_expanded());
                let rows = forest_rows(self.spec_roots(), None, 0, e);
                let s = normalized_selection(rows, old(state).spec_selected());
                let v = final(state).spec_viewport();
                let start = v.spec_offset() as int;
                let end = if start + rect.height <= rows.len() {
                    start + rect.height
                } else {
                    rows.len() as int
                };
                &&& final(state).spec_expanded() == e
                &&& final(state).spec_selected() == s
                &&& v.wf()
                &&& v.spec_initialized()
                &&& (start, v.spec_content_height() as int, v.spec_viewport_height() as int)
                    == old(state).spec_viewport().updated(rows.len() as int, rect.height as int)
                &&& final(frame).spec_buffer().cells() == tree_lines_written(
                    old(frame).spec_buffer().cells(),
                    old(frame).spec_width() as int,
                    old(frame).spec_height() as int,
                    rect,
                    tree_row_lines(rows, start, end, e, s, self.spec_selected_style()),
                )
            },
    {
        if rect.width == 0 || rect.height == 0 {
            return;
        }
        let visible = self.normalize(state);
        state.viewport.update_dimensions(visible.len(), rect.height);
        let start = state.viewport.offset();
        let len = visible.len();
        let h = rect.height as usize;
        let end = if h <= len - start {
            start + h
        } else {
            len
        };
        let ghost rows = rows_view(visible@);
        let ghost lines = tree_row_lines(
            rows,
            start as int,
            end as int,
            state.expanded@,
            state.selected,
            self.selected_style,
        );
        let ghost cells0 = frame.spec_buffer().cells();
        let room: usize = (u16::MAX - rect.y) as usize + 1;
        let drawn = if end - start <= room {
            end - start
        } else {
            room
        };
        let mut k: usize = 0;
        while k < drawn
            invariant
                start <= end <= len == visible@.len(),
                end - start <= h == rect.height,
                drawn <= end - start,
                drawn <= u16::MAX - rect.y + 1,
                k <= drawn,
                rows == rows_view(visible@),
                frame.wf(),
                frame.same_size(old(frame)),
                cells0 == old(frame).spec_buffer().cells(),
                lines == tree_row_lines(
                    rows,
                    start as int,
                    end as int,
                    state.expanded@,
                    state.selected,
                    self.selected_style,
                ),
                frame.spec_buffer().cells() == tree_lines_written(
                    cells0,
                    old(frame).spec_width() as int,
                    old(frame).spec_height() as int,
                    rect,
                    lines.take(k as int),
                ),
            decreases drawn - k,
        {
            proof {
                assert(lines.take(k + 1).drop_last() == lines.take(k as int));
            }
            let y = rect.y + k as u16;
            let line = self.row_line(&visible[start + k], &state.expanded, state.selected);
            proof {
                assert(rows[start + k] == (
                    *visible@[start + k].node,
                    visible@[start + k].parent,
                    visible@[start + k].depth as int,
                ));
                assert(lines.take(k + 1).last() == line.spec_spans());
            }
            line.render(frame, Rect::new(rect.x, y, rect.width, 1));
            k = k + 1;
        }
        proof {
            if drawn < end - start {
                lemma_rows_past_u16(
                    cells0,
                    old(frame).spec_width() as int,
                    old(frame).spec_height() as int,
                    rect,
                    lines,
                    drawn as int,
                );
            } else {
                assert(lines.take((end - start) as int) == lines);
            }
        }
    }
}

/// Rows past the last `u16` row draw nothing.
proof fn lemma_rows_past_u16(
    cells: Seq<Cell>,
    w: int,
    h: int,
    rect: Rect,
    lines: Seq<Seq<SpanView>>,
    k: int,
)
    requires
        0 <= k <= lines.len(),
        rect.y + k > u16::MAX,
    ensures
        tree_lines_written(cells, w, h, rect, lines) == tree_lines_written(
            cells,
            w,
            h,
            rect,
            lines.take(k),
        ),
    decreases lines.len() - k,
{
    if k < lines.len() {
        lemma_rows_past_u16(cells, w, h, rect, lines.drop_last(), k);
        assert(lines.drop_last().take(k) == lines.take(k));
    } else {
        assert(lines.take(k) == lines);
    }
}

/// No two rows show nodes with the same ID.
pub open spec fn distinct_row_ids(rows: Seq<RowView>) -> bool {
    forall|i: int, j: int|
        0 <= i < rows.len() && 0 <= j < rows.len() && i != j ==> #[trigger] rows[i].0.spec_id()
            != #[trigger] rows[j].0.spec_id()
}

proof fn lemma_row_index_unique(rows: Seq<RowView>, id: u64, k: int, i: int)
    requires
        distinct_row_ids(rows),
        0 <= i <= k < rows.len(),
        rows[k].0.spec_id() == id,
    ensures
        row_index_from(rows, id, i) == Some(k),
    decreases k - i,
{
    if i < k {
        assert(rows[i].0.spec_id() != rows[k].0.spec_id());
        lemma_row_index_unique(rows, id, k, i + 1);
    }
}

proof fn lemma_row_index_found(rows: Seq<RowView>, id: u64, i: int)
    ensures
        row_index_from(rows, id, i) matches Some(k) ==> i <= k < rows.len() && rows[k].0.spec_id()
            == id,
    decreases rows.len() - i,
{
    if 0 <= i < rows.len() && rows[i].0.spec_id() != id {
        lemma_row_index_found(rows, id, i + 1);
    }
}

/// Normalizing an already normalized expansion changes nothing.
pub proof fn lemma_normalized_expanded_idempotent(roots: Seq<TreeNode>, expanded: Set<u64>)
    ensures
        normalized_expanded(roots, normalized_expanded(roots, expanded)) == normalized_expanded(
            roots,
            expanded,
        ),
{
    assert(normalized_expanded(roots, normalized_expanded(roots, expanded)) =~= normalized_expanded(
        roots,
        expanded,
    ));
}

/// Moving down and then up returns to the (normalized) selection, whenever the move down
/// happened and the visible rows show distinct IDs.
pub proof fn lemma_down_then_up(roots: Seq<TreeNode>, selected: Option<u64>, expanded: Set<u64>)
    requires
        tree_command(roots, selected, expanded, TreeCommand::Down).2,
        distinct_row_ids(forest_rows(roots, None, 0, normalized_expanded(roots, expanded))),
    ensures
        ({
            let (s1, e1, _) = tree_command(roots, selected, expanded, TreeCommand::Down);
            let (s2, e2, r2) = tree_command(roots, s1, e1, TreeCommand::Up);
            &&& r2
            &&& e2 == e1
            &&& s2 == normalized_selection(
                forest_rows(roots, None, 0, normalized_expanded(roots, expanded)),
                selected,
            )
        }),
{
    let e = normalized_expanded(roots, expanded);
    let rows = forest_rows(roots, None, 0, e);
    let s = normalized_selection(rows, selected);
    lemma_normalized_expanded_idempotent(roots, expanded);
    let i = selected_index(rows, s)->0;
    lemma_row_index_found(rows, s->0, 0);
    let id = rows[i + 1].0.spec_id();
    lemma_row_index_unique(rows, id, i + 1, 0);
    assert(normalized_selection(rows, Some(id)) == Some(id));
}

} // verus!

verus! {

/// What the tree reads of a node agrees between `a` and `b`: the ID, the label's spans, and the
/// same of every child, in order.
pub open spec fn same_shape(a: TreeNode, b: TreeNode) -> bool
    decreases a, 1int,
{
    &&& a.spec_id() == b.spec_id()
    &&& a.spec_label().spec_spans() == b.spec_label().spec_spans()
    &&& same_shapes(a.spec_children(), b.spec_children())
}

/// [`same_shape`] for two lists of nodes, position by position.
pub open spec fn same_shapes(a: Seq<TreeNode>, b: Seq<TreeNode>) -> bool
    decreases a, 0int,
{
    &&& a.len() == b.len()
    &&& forall|k: int| 0 <= k < a.len() ==> same_shape(#[trigger] a[k], b[k])
}

/// Two lists of rows agree row by row in node shape, parent and depth.
pub open spec fn same_rows(a: Seq<RowView>, b: Seq<RowView>) -> bool {
    &&& a.len() == b.len()
    &&& forall|k: int|
        0 <= k < a.len() ==> same_shape(#[trigger] a[k].0, b[k].0) && a[k].1 == b[k].1 && a[k].2
            == b[k].2
}

proof fn lemma_same_rows_concat(a1: Seq<RowView>, b1: Seq<RowView>, a2: Seq<RowView>, b2: Seq<RowView>)
    requires
        same_rows(a1, b1),
        same_rows(a2, b2),
    ensures
        same_rows(a1 + a2, b1 + b2),
{
    assert forall|k: int| 0 <= k < (a1 + a2).len() implies same_shape(
        #[trigger] (a1 + a2)[k].0,
        (b1 + b2)[k].0,
    ) && (a1 + a2)[k].1 == (b1 + b2)[k].1 && (a1 + a2)[k].2 == (b1 + b2)[k].2 by {
        if k < a1.len() {
            assert(same_shape(a1[k].0, b1[k].0));
        } else {
            assert(same_shape(a2[k - a1.len()].0, b2[k - a1.len()].0));
        }
    }
}

proof fn lemma_same_shapes_prefix(a: Seq<TreeNode>, b: Seq<TreeNode>)
    requires
        same_shapes(a, b),
        a.len() > 0,
    ensures
        same_shapes(a.drop_last(), b.drop_last()),
        same_shape(a.last(), b.last()),
{
    assert forall|k: int| 0 <= k < a.drop_last().len() implies same_shape(
        #[trigger] a.drop_last()[k],
        b.drop_last()[k],
    ) by {
        assert(same_shape(a[k], b[k]));
    }
    assert(same_shape(a[a.len() - 1], b[b.len() - 1]));
}

/// Nodes of the same shape have the same IDs below them.
proof fn lemma_node_ids_same(a: TreeNode, b: TreeNode)
    requires
        same_shape(a, b),
    ensures
        node_ids(a) == node_ids(b),
    decreases a, 1int,
{
    lemma_forest_ids_same(a.spec_children(), b.spec_children());
}

proof fn lemma_forest_ids_same(a: Seq<TreeNode>, b: Seq<TreeNode>)
    requires
        same_shapes(a, b),
    ensures
        forest_ids(a) == forest_ids(b),
    decreases a, 0int,
{
    if a.len() > 0 {
        lemma_same_shapes_prefix(a, b);
        lemma_forest_ids_same(a.drop_last(), b.drop_last());
        lemma_node_ids_same(a.last(), b.last());
    }
}

/// Nodes of the same shape show rows of the same shape.
proof fn lemma_node_rows_same(a: TreeNode, b: TreeNode, parent: Option<u64>, depth: int, expanded: Set<u64>)
    requires
        same_shape(a, b),
    ensures
        same_rows(node_rows(a, parent, depth, expanded), node_rows(b, parent, depth, expanded)),
    decreases a, 1int,
{
    let own_a = seq![(a, parent, depth)];
    let own_b = seq![(b, parent, depth)];
    assert(same_rows(own_a, own_b)) by {
        assert(own_a[0].0 == a);
        assert(own_b[0].0 == b);
    }
    if expanded.contains(a.spec_id()) {
        let d = if depth < usize::MAX {
            depth + 1
        } else {
            depth
        };
        lemma_forest_rows_same(a.spec_children(), b.spec_children(), Some(a.spec_id()), d, expanded);
        lemma_same_rows_concat(
            own_a,
            own_b,
            forest_rows(a.spec_children(), Some(a.spec_id()), d, expanded),
            forest_rows(b.spec_children(), Some(b.spec_id()), d, expanded),
        );
    }
}

proof fn lemma_forest_rows_same(
    a: Seq<TreeNode>,
    b: Seq<TreeNode>,
    parent: Option<u64>,
    depth: int,
    expanded: Set<u64>,
)
    requires
        same_shapes(a, b),
    ensures
        same_rows(forest_rows(a, parent, depth, expanded), forest_rows(b, parent, depth, expanded)),
    decreases a, 0int,
{
    if a.len() > 0 {
        lemma_same_shapes_prefix(a, b);
        lemma_forest_rows_same(a.drop_last(), b.drop_last(), parent, depth, expanded);
        lemma_node_rows_same(a.last(), b.last(), parent, depth, expanded);
        lemma_same_rows_concat(
            forest_rows(a.drop_last(), parent, depth, expanded),
            forest_rows(b.drop_last(), parent, depth, expanded),
            node_rows(a.last(), parent, depth, expanded),
            node_rows(b.last(), parent, depth, expanded),
        );
    }
}

proof fn lemma_row_index_same(a: Seq<RowView>, b: Seq<RowView>, id: u64, i: int)
    requires
        same_rows(a, b),
    ensures
        row_index_from(a, id, i) == row_index_from(b, id, i),
    decreases a.len() - i,
{
    if 0 <= i < a.len() {
        assert(same_shape(a[i].0, b[i].0));
        lemma_row_index_same(a, b, id, i + 1);
    }
}

/// Trees whose roots have the same shape (IDs, label spans and children) behave alike: every
/// navigation command gives the same selection, expansion and result.
pub proof fn lemma_same_shape_same_commands(
    a: Seq<TreeNode>,
    b: Seq<TreeNode>,
    selected: Option<u64>,
    expanded: Set<u64>,
    command: TreeCommand,
)
    requires
        same_shapes(a, b),
    ensures
        tree_command(a, selected, expanded, command) == tree_command(b, selected, expanded, command),
{
    lemma_forest_ids_same(a, b);
    let e = normalized_expanded(a, expanded);
    assert(e == normalized_expanded(b, expanded));
    let ra = forest_rows(a, None, 0, e);
    let rb = forest_rows(b, None, 0, e);
    lemma_forest_rows_same(a, b, None, 0, e);
    if let Some(id) = selected {
        lemma_row_index_same(ra, rb, id, 0);
    }
    if ra.len() > 0 {
        assert(same_shape(ra[0].0, rb[0].0));
    }
    let s = normalized_selection(ra, selected);
    assert(s == normalized_selection(rb, selected));
    if let Some(id) = s {
        lemma_row_index_same(ra, rb, id, 0);
    }
    if let Some(i) = selected_index(ra, s) {
        lemma_row_index_found(ra, s->0, 0);
        assert(same_shape(ra[i].0, rb[i].0));
        if i > 0 {
            assert(same_shape(ra[i - 1].0, rb[i - 1].0));
        }
        if i + 1 < ra.len() {
            assert(same_shape(ra[i + 1].0, rb[i + 1].0));
        }
        let ka = ra[i].0.spec_children();
        let kb = rb[i].0.spec_children();
        if ka.len() > 0 {
            assert(same_shape(ka[0], kb[0]));
        }
    }
}

/// Trees whose roots have the same shape draw alike: for any frame, state, rectangle and style,
/// a render of one is exactly a render of the other.
pub proof fn lemma_same_shape_same_render(
    a: Seq<TreeNode>,
    b: Seq<TreeNode>,
    style: Style,
    rect: Rect,
    old_frame: Frame,
    old_state: TreeState,
    new_frame: Frame,
    new_state: TreeState,
)
    requires
        same_shapes(a, b),
    ensures
        tree_rendered(a, style, rect, old_frame, old_state, new_frame, new_state) == tree_rendered(
            b,
            style,
            rect,
            old_frame,
            old_state,
            new_frame,
            new_state,
        ),
{
    lemma_forest_ids_same(a, b);
    let e = normalized_expanded(a, old_state.spec_expanded());
    assert(e == normalized_expanded(b, old_state.spec_expanded()));
    let ra = forest_rows(a, None, 0, e);
    let rb = forest_rows(b, None, 0, e);
    lemma_forest_rows_same(a, b, None, 0, e);
    if let Some(id) = old_state.spec_selected() {
        lemma_row_index_same(ra, rb, id, 0);
    }
    if ra.len() > 0 {
        assert(same_shape(ra[0].0, rb[0].0));
    }
    let s = normalized_selection(ra, old_state.spec_selected());
    assert(s == normalized_selection(rb, old_state.spec_selected()));
    let start = new_state.spec_viewport().spec_offset() as int;
    let end = if start + rect.height <= ra.len() {
        start + rect.height
    } else {
        ra.len() as int
    };
    if 0 <= start <= end {
        assert forall|k: int| 0 <= k < end - start implies #[trigger] row_spans(ra[start + k], e, s, style)
            == row_spans(rb[start + k], e, s, style) by {
            assert(same_shape(ra[start + k].0, rb[start + k].0));
        }
        assert(tree_row_lines(ra, start, end, e, s, style) =~= tree_row_lines(
            rb,
            start,
            end,
            e,
            s,
            style,
        ));
    }
}

} // verus!
