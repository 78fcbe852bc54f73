use vstd::prelude::*;

use crate::animation::{Animation, update_outcome};
use crate::chars::{concat_strs, copy_string, push_char, push_str};
use crate::event::{KeyCode, KeyEvent, KeyModifiers, MouseEvent, MouseKind};
use crate::focus::{FocusId, FocusState, first_occurrences, lemma_focus_id_by_value};
use crate::geometry::{Position, Rect};
use crate::keymap::{CommandId, KeyMap};
use crate::list::clamp_selection;
use crate::palette::{CommandPalette, PaletteCommand, palette_key_result, resolved_selection};
use crate::rich_text::Line;
use crate::style::Style;
use crate::spinner::{Spinner, braille_frames};
use crate::table::TableState;
use crate::text_area::{AreaState, TextArea, area_key, empty_area};
use crate::theme::Theme;
use crate::time::Moment;
use crate::tree::{Tree, TreeCommand, TreeNode, TreeState, tree_command};
use crate::viewport::{ViewportState, sat_sub};

verus! {

/// The most output lines the dashboard keeps; older lines are dropped first.
pub const MAX_OUTPUT_LINES: usize = 1000;

/// The number of rows in the agents table.
pub const AGENT_COUNT: usize = 4;

/// The ID of the agent tree's root node.
pub const TREE_ROOT: u64 = 1;

/// The ID of the agent tree's `widgets` node.
pub const TREE_WIDGETS: u64 = 4;

/// The focus identity of the agents pane.
pub fn agents_focus() -> (f: FocusId)
    ensures
        f.spec_value() == 1,
{
    FocusId::new(1)
}

/// The focus identity of the output pane.
pub fn output_focus() -> (f: FocusId)
    ensures
        f.spec_value() == 2,
{
    FocusId::new(2)
}

/// The focus identity of the prompt input.
pub fn input_focus() -> (f: FocusId)
    ensures
        f.spec_value() == 3,
{
    FocusId::new(3)
}

/// What handling an input event asks of the event loop.
#[derive(Clone, Copy, Debug, PartialEq, Eq, Structural)]
pub struct KeyOutcome {
    pub quit: bool,
    pub redraw: bool,
}

impl KeyOutcome {
    /// Neither quit nor redraw.
    pub open spec fn spec_none() -> KeyOutcome {
        KeyOutcome { quit: false, redraw: false }
    }

    /// A redraw when `redraw` holds, no quit.
    pub open spec fn spec_redraw(redraw: bool) -> KeyOutcome {
        KeyOutcome { quit: false, redraw }
    }

    /// Quit without a redraw.
    pub open spec fn spec_quit() -> KeyOutcome {
        KeyOutcome { quit: true, redraw: false }
    }
}

impl Default for KeyOutcome {
    fn default() -> (r: Self)
        ensures
            r == KeyOutcome::spec_none(),
    {
        KeyOutcome { quit: false, redraw: false }
    }
}

/// The screen areas that mouse events are routed by, as last rendered.
#[derive(Clone, Copy, Debug, PartialEq, Eq, Structural)]
pub struct HitRegions {
    pub agents: Rect,
    pub agent_rows: Rect,
    pub output: Rect,
    pub input: Rect,
}

impl HitRegions {
    /// No regions: every area is empty at the origin.
    pub open spec fn empty_spec() -> HitRegions {
        let zero = Rect { x: 0, y: 0, width: 0, height: 0 };
        HitRegions { agents: zero, agent_rows: zero, output: zero, input: zero }
    }

    /// No regions: every area is empty at the origin.
    pub fn empty() -> (r: Self)
        ensures
            r == HitRegions::empty_spec(),
    {
        let zero = Rect::new(0, 0, 0, 0);
        HitRegions { agents: zero, agent_rows: zero, output: zero, input: zero }
    }
}

/// Work on the agent process that a key asks the event loop to perform.
#[derive(Debug, PartialEq, Eq)]
pub enum AgentRequest {
    /// Start the agent.
    Start,
    /// Stop the agent if there is one.
    Stop,
    /// Send this prompt to the running agent.
    Send(String),
}

/// The decimal digit `d` (0 to 9) as a character.
pub open spec fn digit_char(d: int) -> char {
    (48 + d) as char
}

/// `n` (below 1000) as three decimal digits with leading zeros.
pub open spec fn three_digits(n: int) -> Seq<char> {
    seq![digit_char(n / 100), digit_char((n / 10) % 10), digit_char(n % 10)]
}

/// The text after the number of a seeded output line.
pub open spec fn seeded_suffix() -> Seq<char> {
    "] DragonsTUI output event"@
}

/// Seeded output line `n`: `[nnn] DragonsTUI output event`.
pub open spec fn seeded_line(n: int) -> Seq<char> {
    seq!['['] + three_digits(n) + seeded_suffix()
}

pub(crate) fn digit(d: u32) -> (c: char)
    requires
        d < 10,
    ensures
        c == digit_char(d as int),
{
    if d == 0 {
        '0'
    } else if d == 1 {
        '1'
    } else if d == 2 {
        '2'
    } else if d == 3 {
        '3'
    } else if d == 4 {
        '4'
    } else if d == 5 {
        '5'
    } else if d == 6 {
        '6'
    } else if d == 7 {
        '7'
    } else if d == 8 {
        '8'
    } else {
        '9'
    }
}

/// The fifty lines the output pane starts with.
pub fn seeded_output() -> (r: Vec<String>)
    ensures
        r@.len() == 50,
        forall|k: int| 0 <= k < 50 ==> #[trigger] r@[k]@ == seeded_line(k + 1),
{
    let suffix = "] DragonsTUI output event";
    let mut lines: Vec<String> = Vec::new();
    let mut n: u32 = 1;
    while n <= 50
        invariant
            1 <= n <= 51,
            lines@.len() == n - 1,
            suffix@ == seeded_suffix(),
            forall|k: int| 0 <= k < n - 1 ==> #[trigger] lines@[k]@ == seeded_line(k + 1),
        decreases 51 - n,
    {
        let mut line = String::new();
        push_char(&mut line, '[');
        push_char(&mut line, digit(n / 100));
        push_char(&mut line, digit((n / 10) % 10));
        push_char(&mut line, digit(n % 10));
        push_str(&mut line, suffix);
        assert(line@ =~= seeded_line(n as int));
        lines.push(line);
        n = n + 1;
    }
    lines
}

/// Whether `node` is a leaf with ID `id` labelled `label`.
pub open spec fn leaf_node(node: TreeNode, id: u64, label: Seq<char>) -> bool {
    &&& node.spec_id() == id
    &&& node.spec_label().spec_spans() == seq![(label, Style::plain())]
    &&& node.spec_children().len() == 0
}

/// Whether `roots` is the agent tree: `src` holding `main.rs`, `runtime.rs` and `widgets`, which
/// holds `table.rs` and `tree.rs`.
pub open spec fn agent_tree_roots(roots: Seq<TreeNode>) -> bool {
    &&& roots.len() == 1
    &&& roots[0].spec_id() == TREE_ROOT
    &&& roots[0].spec_label().spec_spans() == seq![("src"@, Style::plain())]
    &&& roots[0].spec_children().len() == 3
    &&& leaf_node(roots[0].spec_children()[0], 2, "main.rs"@)
    &&& leaf_node(roots[0].spec_children()[1], 3, "runtime.rs"@)
    &&& {
        let widgets = roots[0].spec_children()[2];
        &&& widgets.spec_id() == TREE_WIDGETS
        &&& widgets.spec_label().spec_spans() == seq![("widgets"@, Style::plain())]
        &&& widgets.spec_children().len() == 2
        &&& leaf_node(widgets.spec_children()[0], 5, "table.rs"@)
        &&& leaf_node(widgets.spec_children()[1], 6, "tree.rs"@)
    }
}

/// The tree shown in the agents pane when the tree view is on.
pub fn agent_tree() -> (r: Tree)
    ensures
        agent_tree_roots(r.spec_roots()),
        r.spec_selected_style() == Style::plain(),
{
    let mut widget_children: Vec<TreeNode> = Vec::new();
    widget_children.push(TreeNode::new(5, Line::raw("table.rs")));
    widget_children.push(TreeNode::new(6, Line::raw("tree.rs")));
    let widgets = TreeNode::new(TREE_WIDGETS, Line::raw("widgets")).children(widget_children);
    let mut children: Vec<TreeNode> = Vec::new();
    children.push(TreeNode::new(2, Line::raw("main.rs")));
    children.push(TreeNode::new(3, Line::raw("runtime.rs")));
    children.push(widgets);
    let root = TreeNode::new(TREE_ROOT, Line::raw("src")).children(children);
    let mut roots: Vec<TreeNode> = Vec::new();
    roots.push(root);
    Tree::new(roots)
}

/// The key bindings of the dashboard.
pub open spec fn dashboard_binding(code: KeyCode, modifiers: KeyModifiers) -> Option<Seq<char>> {
    if code == KeyCode::Tab && modifiers == (KeyModifiers { ctrl: false, alt: false, shift: false }) {
        Some("focus-next"@)
    } else if code == KeyCode::Tab && modifiers == (KeyModifiers {
        ctrl: false,
        alt: false,
        shift: true,
    }) {
        Some("focus-previous"@)
    } else if code == KeyCode::Char('p') && modifiers == (KeyModifiers {
        ctrl: true,
        alt: false,
        shift: false,
    }) {
        Some("command-palette"@)
    } else {
        None
    }
}

/// Tab and Shift-Tab move the focus; Ctrl-P opens the command palette.
pub fn dashboard_keymap() -> (r: KeyMap)
    ensures
        r.wf(),
        forall|code: KeyCode, modifiers: KeyModifiers|
            #[trigger] r.lookup(code, modifiers) == dashboard_binding(code, modifiers),
{
    let mut keymap = KeyMap::new();
    let ghost empty = keymap;
    let plain = KeyModifiers { ctrl: false, alt: false, shift: false };
    let shift = KeyModifiers { ctrl: false, alt: false, shift: true };
    let ctrl = KeyModifiers { ctrl: true, alt: false, shift: false };
    keymap.bind(KeyCode::Tab, plain, CommandId::new("focus-next"));
    keymap.bind(KeyCode::Tab, shift, CommandId::new("focus-previous"));
    keymap.bind(KeyCode::Char('p'), ctrl, CommandId::new("command-palette"));
    assert forall|code: KeyCode, modifiers: KeyModifiers|
        #[trigger] keymap.lookup(code, modifiers) == dashboard_binding(code, modifiers) by {
        if !(code == KeyCode::Tab && modifiers == plain) && !(code == KeyCode::Tab && modifiers
            == shift) && !(code == KeyCode::Char('p') && modifiers == ctrl) {
            assert(empty.lookup(code, modifiers) is None);
        }
    }
    keymap
}

/// The palette's commands: `(id, title)` in order.
pub open spec fn palette_entries() -> Seq<(Seq<char>, Seq<char>)> {
    seq![
        ("focus-agents"@, "Focus Agents"@),
        ("focus-output"@, "Focus Output"@),
        ("focus-input"@, "Focus Input"@),
        ("toggle-tree"@, "Toggle Agent Tree"@),
        ("quit"@, "Quit"@),
    ]
}

/// The commands the dashboard's palette offers.
pub fn palette_commands() -> (r: Vec<PaletteCommand>)
    ensures
        r@.len() == palette_entries().len(),
        forall|k: int|
            0 <= k < r@.len() ==> (#[trigger] r@[k]).id.spec_text() == palette_entries()[k].0
                && r@[k].title@ == palette_entries()[k].1,
{
    let mut commands: Vec<PaletteCommand> = Vec::new();
    commands.push(PaletteCommand::new(CommandId::new("focus-agents"), "Focus Agents"));
    commands.push(PaletteCommand::new(CommandId::new("focus-output"), "Focus Output"));
    commands.push(PaletteCommand::new(CommandId::new("focus-input"), "Focus Input"));
    commands.push(PaletteCommand::new(CommandId::new("toggle-tree"), "Toggle Agent Tree"));
    commands.push(PaletteCommand::new(CommandId::new("quit"), "Quit"));
    commands
}

/// The identity numbers of a focus order.
pub open spec fn focus_values(focus: FocusState) -> Seq<u32> {
    focus.spec_order().map_values(|id: FocusId| id.spec_value())
}

/// Whether identity number `value` holds the focus.
pub open spec fn focused(focus: FocusState, value: u32) -> bool {
    focus.spec_current() matches Some(id) && id.spec_value() == value
}

/// The frames of the dragon activity animation.
pub open spec fn dragon_frames() -> Seq<Seq<char>> {
    seq!["[=    ]"@, "[==   ]"@, "[ === ]"@, "[  ===]"@, "[   ==]"@]
}

/// The dashboard's state: focus and input routing, the panes' view state, the agent's status
/// and output, and the screen regions mouse events are routed by.
///
/// The agent process itself belongs to the event loop, which performs each [`AgentRequest`] and
/// reports the result back.
pub struct Dashboard {
    pub theme: Theme,
    pub spinner: Spinner,
    pub dragon: Animation<String>,
    pub ticks: u64,
    pub focus: FocusState,
    pub keymap: KeyMap,
    pub agents: TableState,
    pub tree: TreeState,
    pub show_tree: bool,
    pub modal_active: bool,
    pub modal_previous_focus: Option<FocusId>,
    pub palette: Option<CommandPalette>,
    pub palette_previous_focus: Option<FocusId>,
    pub input: TextArea,
    pub last_prompt: Option<String>,
    pub agent_running: bool,
    pub status: String,
    pub output: Vec<String>,
    pub output_viewport: ViewportState,
    pub hit_regions: HitRegions,
}

impl Dashboard {
    /// The focus state, key map and animations are well formed.
    pub open spec fn wf(&self) -> bool {
        &&& self.focus.wf()
        &&& self.keymap.wf()
        &&& self.spinner.wf()
        &&& self.dragon.wf()
    }

    /// The output lines as text.
    pub open spec fn output_view(&self) -> Seq<Seq<char>> {
        self.output@.map_values(|line: String| line@)
    }

    /// `d` is a fresh dashboard in `theme`: agents focused, the agent stopped, fifty seeded output
    /// lines, the agent tree's `src` and `widgets` nodes expanded, and no overlay open.
    pub open spec fn fresh(d: Dashboard, theme: Theme) -> bool {
        &&& d.wf()
        &&& d.theme == theme
        &&& d.ticks == 0
        &&& focus_values(d.focus) == seq![1u32, 2, 3]
        &&& focused(d.focus, 1)
        &&& forall|code: KeyCode, modifiers: KeyModifiers|
            #[trigger] d.keymap.lookup(code, modifiers) == dashboard_binding(code, modifiers)
        &&& d.agents.spec_selected() == 0
        &&& d.tree.spec_selected() is None
        &&& d.tree.spec_expanded() == set![TREE_ROOT, TREE_WIDGETS]
        &&& !d.show_tree
        &&& !d.modal_active
        &&& d.modal_previous_focus is None
        &&& d.palette is None
        &&& d.palette_previous_focus is None
        &&& d.input@ == empty_area()
        &&& d.last_prompt is None
        &&& !d.agent_running
        &&& d.status@ == "Stopped"@
        &&& d.output@.len() == 50
        &&& forall|k: int| 0 <= k < 50 ==> #[trigger] d.output@[k]@ == seeded_line(k + 1)
        &&& d.output_viewport == ViewportState::spec_initial()
        &&& d.hit_regions == HitRegions::empty_spec()
        &&& d.spinner.spec_frames() == braille_frames()
        &&& d.spinner.spec_index() == 0
        &&& d.dragon.spec_frames().map_values(|f: String| f@) == dragon_frames()
        &&& d.dragon.spec_index() == 0
        &&& d.dragon.spec_frame_nanos() == 250_000_000
    }

    /// A fresh dashboard in `theme`.
    pub fn with_theme(theme: Theme) -> (r: Self)
        ensures
            Dashboard::fresh(r, theme),
    {
        let mut frames: Vec<String> = Vec::new();
        frames.push(copy_string("[=    ]"));
        frames.push(copy_string("[==   ]"));
        frames.push(copy_string("[ === ]"));
        frames.push(copy_string("[  ===]"));
        frames.push(copy_string("[   ==]"));
        assert(frames@.map_values(|f: String| f@) =~= dragon_frames());
        let dragon = Animation::new(frames).frame_duration_nanos(250_000_000);
        let mut order: Vec<FocusId> = Vec::new();
        order.push(agents_focus());
        order.push(output_focus());
        order.push(input_focus());
        proof {
            let ids = order@;
            lemma_focus_id_by_value(ids[0], ids[1]);
            lemma_focus_id_by_value(ids[0], ids[2]);
            lemma_focus_id_by_value(ids[1], ids[2]);
            let one = seq![ids[0]];
            let two = seq![ids[0], ids[1]];
            assert(one.drop_last() =~= Seq::<FocusId>::empty());
            assert(first_occurrences(Seq::<FocusId>::empty()) =~= Seq::<FocusId>::empty());
            assert(one.last() == ids[0]);
            assert(two.last() == ids[1]);
            assert(ids.last() == ids[2]);
            assert(first_occurrences(one) =~= one);
            assert(two.drop_last() =~= one);
            assert(!one.contains(ids[1]));
            assert(first_occurrences(two) =~= two);
            assert(ids.drop_last() =~= two);
            assert(!two.contains(ids[2]));
            assert(first_occurrences(ids) =~= ids);
        }
        let focus = FocusState::new(order);
        let mut tree = TreeState::new();
        tree.expand(TREE_ROOT);
        tree.expand(TREE_WIDGETS);
        assert(tree.spec_expanded() =~= set![TREE_ROOT, TREE_WIDGETS]);
        let r = Dashboard {
            theme,
            spinner: Spinner::braille(),
            dragon,
            ticks: 0,
            focus,
            keymap: dashboard_keymap(),
            agents: TableState::new(),
            tree,
            show_tree: false,
            modal_active: false,
            modal_previous_focus: None,
            palette: None,
            palette_previous_focus: None,
            input: TextArea::new(),
            last_prompt: None,
            agent_running: false,
            status: copy_string("Stopped"),
            output: seeded_output(),
            output_viewport: ViewportState::new(),
            hit_regions: HitRegions::empty(),
        };
        assert(focus_values(r.focus) =~= seq![1u32, 2, 3]);
        r
    }

    /// A dashboard in the Dragonfire theme.
    pub fn new() -> (r: Self)
        ensures
            Dashboard::fresh(r, Theme::dragonfire()),
    {
        Dashboard::with_theme(Theme::new())
    }
}

/// The last `MAX_OUTPUT_LINES` of `lines`.
pub open spec fn kept_output(lines: Seq<Seq<char>>) -> Seq<Seq<char>> {
    if lines.len() > MAX_OUTPUT_LINES {
        lines.subrange(lines.len() - MAX_OUTPUT_LINES, lines.len() as int)
    } else {
        lines
    }
}

/// Whether `s` reads `text`.
fn text_is(s: &String, text: &str) -> (r: bool)
    ensures
        r == (s@ == text@),
{
    let a = crate::chars::str_chars(s.as_str());
    let b = crate::chars::str_chars(text);
    crate::chars::same_chars(&a, &b)
}

impl Dashboard {
    /// Appends `lines` to the output, keeping only the newest `MAX_OUTPUT_LINES`; returns whether
    /// any line was added.
    pub fn push_output(&mut self, lines: Vec<String>) -> (r: bool)
        ensures
            r == (lines@.len() > 0),
            final(self).output_view() == kept_output(
                old(self).output_view() + lines@.map_values(|line: String| line@),
            ),
            *final(self) == (Dashboard { output: final(self).output, ..*old(self) }),
    {
        let ghost old_view = self.output_view();
        let ghost new_view = lines@.map_values(|line: String| line@);
        let ghost all = old_view + new_view;
        let changed = lines.len() > 0;
        let (old_start, new_start) = if lines.len() >= MAX_OUTPUT_LINES {
            (self.output.len(), lines.len() - MAX_OUTPUT_LINES)
        } else {
            let room = MAX_OUTPUT_LINES - lines.len();
            if self.output.len() > room {
                (self.output.len() - room, 0)
            } else {
                (0, 0)
            }
        };
        let mut combined: Vec<String> = Vec::new();
        let mut i: usize = old_start;
        while i < self.output.len()
            invariant
                old_start <= i <= self.output@.len(),
                old_view == self.output@.map_values(|line: String| line@),
                combined@.map_values(|line: String| line@) == old_view.subrange(
                    old_start as int,
                    i as int,
                ),
            decreases self.output@.len() - i,
        {
            let ghost before = combined@;
            combined.push(copy_string(self.output[i].as_str()));
            proof {
                assert(combined@.map_values(|line: String| line@) =~= before.map_values(
                    |line: String| line@,
                ).push(old_view[i as int]));
                assert(old_view.subrange(old_start as int, i + 1) =~= old_view.subrange(
                    old_start as int,
                    i as int,
                ).push(old_view[i as int]));
            }
            i = i + 1;
        }
        let ghost kept_old = combined@.map_values(|line: String| line@);
        let mut k: usize = new_start;
        while k < lines.len()
            invariant
                new_start <= k <= lines@.len(),
                new_view == lines@.map_values(|line: String| line@),
                combined@.map_values(|line: String| line@) == kept_old + new_view.subrange(
                    new_start as int,
                    k as int,
                ),
            decreases lines@.len() - k,
        {
            let ghost before = combined@;
            combined.push(copy_string(lines[k].as_str()));
            proof {
                assert(combined@.map_values(|line: String| line@) =~= before.map_values(
                    |line: String| line@,
                ).push(new_view[k as int]));
                assert(new_view.subrange(new_start as int, k + 1) =~= new_view.subrange(
                    new_start as int,
                    k as int,
                ).push(new_view[k as int]));
            }
            k = k + 1;
        }
        self.output = combined;
        proof {
            assert(self.output_view() =~= old_view.subrange(old_start as int, old_view.len() as int)
                + new_view.subrange(new_start as int, new_view.len() as int));
            assert(old_view.subrange(old_start as int, old_view.len() as int) + new_view.subrange(
                new_start as int,
                new_view.len() as int,
            ) =~= kept_output(all));
        }
        changed
    }
}

/// One output line.
fn single(line: String) -> (r: Vec<String>)
    ensures
        r@.map_values(|l: String| l@) == seq![line@],
{
    let mut v: Vec<String> = Vec::new();
    v.push(line);
    assert(v@.map_values(|l: String| l@) =~= seq![line@]);
    v
}

impl Dashboard {
    /// Sets the status to `status` and appends `line` to the output.
    fn report(&mut self, status: &str, line: String)
        ensures
            final(self).status@ == status@,
            final(self).output_view() == kept_output(old(self).output_view() + seq![line@]),
            *final(self) == (Dashboard {
                output: final(self).output,
                status: final(self).status,
                ..*old(self)
            }),
    {
        self.status = copy_string(status);
        self.push_output(single(line));
    }

    /// The agent process started: it runs, the status reads `Running`, and the output notes it.
    pub fn agent_started(&mut self)
        ensures
            final(self).agent_running,
            final(self).status@ == "Running"@,
            final(self).output_view() == kept_output(
                old(self).output_view() + seq!["[started] hermes --cli"@],
            ),
            *final(self) == (Dashboard {
                output: final(self).output,
                status: final(self).status,
                agent_running: true,
                ..*old(self)
            }),
    {
        self.report("Running", copy_string("[started] hermes --cli"));
        self.agent_running = true;
    }

    /// Starting the agent failed with `error`.
    pub fn agent_start_failed(&mut self, error: &str)
        ensures
            final(self).status@ == "Start failed"@,
            final(self).output_view() == kept_output(
                old(self).output_view() + seq!["[start error] "@ + error@],
            ),
            *final(self) == (Dashboard {
                output: final(self).output,
                status: final(self).status,
                ..*old(self)
            }),
    {
        self.report("Start failed", concat_strs("[start error] ", error));
    }

    /// The agent process stopped.
    pub fn agent_stopped(&mut self)
        ensures
            !final(self).agent_running,
            final(self).status@ == "Stopped"@,
            final(self).output_view() == kept_output(
                old(self).output_view() + seq!["[stopped] Hermes"@],
            ),
            *final(self) == (Dashboard {
                output: final(self).output,
                status: final(self).status,
                agent_running: false,
                ..*old(self)
            }),
    {
        self.report("Stopped", copy_string("[stopped] Hermes"));
        self.agent_running = false;
    }

    /// Stopping the agent failed with `error`.
    pub fn agent_stop_failed(&mut self, error: &str)
        ensures
            final(self).status@ == "Stop failed"@,
            final(self).output_view() == kept_output(
                old(self).output_view() + seq!["[stop error] "@ + error@],
            ),
            *final(self) == (Dashboard {
                output: final(self).output,
                status: final(self).status,
                ..*old(self)
            }),
    {
        self.report("Stop failed", concat_strs("[stop error] ", error));
    }

    /// `prompt` reached the agent: it becomes the last prompt, the input clears, and the output
    /// echoes it.
    pub fn prompt_sent(&mut self, prompt: &str)
        ensures
            final(self).last_prompt matches Some(p) && p@ == prompt@,
            final(self).input@ == (AreaState {
                page_height: old(self).input@.page_height,
                ..empty_area()
            }),
            final(self).output_view() == kept_output(
                old(self).output_view() + seq!["> "@ + prompt@],
            ),
            *final(self) == (Dashboard {
                output: final(self).output,
                input: final(self).input,
                last_prompt: final(self).last_prompt,
                ..*old(self)
            }),
    {
        self.last_prompt = Some(copy_string(prompt));
        self.input.clear();
        self.push_output(single(concat_strs("> ", prompt)));
    }

    /// Sending a prompt failed with `error`; the input keeps the prompt.
    pub fn send_failed(&mut self, error: &str)
        ensures
            final(self).status@ == "Send failed"@,
            final(self).output_view() == kept_output(
                old(self).output_view() + seq!["[send error] "@ + error@],
            ),
            *final(self) == (Dashboard {
                output: final(self).output,
                status: final(self).status,
                ..*old(self)
            }),
    {
        self.report("Send failed", concat_strs("[send error] ", error));
    }

    /// Takes a poll of the agent: its new output lines or a read error, and whether it still
    /// runs. Returns whether anything shown changed.
    pub fn agent_polled(&mut self, output: Result<Vec<String>, String>, running: bool) -> (r: bool)
        ensures
            final(self).agent_running == running,
            ({
                let (lines, status, changed) = match output {
                    Ok(lines) => (
                        lines@.map_values(|l: String| l@),
                        old(self).status@,
                        lines@.len() > 0,
                    ),
                    Err(error) => (
                        seq!["[process error] "@ + error@],
                        "Error"@,
                        true,
                    ),
                };
                &&& final(self).output_view() == kept_output(old(self).output_view() + lines)
                &&& !running && status != "Exited"@ ==> final(self).status@ == "Exited"@ && r
                &&& running || status == "Exited"@ ==> final(self).status@ == status && r == changed
            }),
            *final(self) == (Dashboard {
                output: final(self).output,
                status: final(self).status,
                agent_running: running,
                ..*old(self)
            }),
    {
        let mut changed = match output {
            Ok(lines) => self.push_output(lines),
            Err(error) => {
                self.report("Error", concat_strs("[process error] ", error.as_str()));
                true
            },
        };
        if !running && !text_is(&self.status, "Exited") {
            self.status = copy_string("Exited");
            changed = true;
        }
        self.agent_running = running;
        changed
    }
}

/// Whether `before`'s focus order holds identity number `value`.
pub open spec fn has_focus_value(focus: FocusState, value: u32) -> bool {
    focus_values(focus).contains(value)
}

/// `after` is `before` focused on identity number `value`: the focus moves, and `changed` holds,
/// when the order has that identity and it is not already focused.
pub open spec fn focus_set_to(before: FocusState, after: FocusState, value: u32, changed: bool) -> bool {
    &&& after.wf()
    &&& after.spec_order() == before.spec_order()
    &&& changed == (has_focus_value(before, value) && !focused(before, value))
    &&& if changed {
        focused(after, value)
    } else {
        after.spec_current() == before.spec_current()
    }
}

/// `after` is `before` with the focus moved one step forward (`forward`) or back, wrapping.
pub open spec fn focus_stepped(before: FocusState, after: FocusState, forward: bool, changed: bool) -> bool {
    let n = before.spec_order().len() as int;
    &&& after.wf()
    &&& after.spec_order() == before.spec_order()
    &&& changed == (n > 1)
    &&& after.spec_current() == if changed {
        Some(
            before.spec_order()[if forward {
                (before.focus_index() + 1) % n
            } else {
                (before.focus_index() + n - 1) % n
            }],
        )
    } else {
        before.spec_current()
    }
}

/// `after` is `before` with the focus given back to `previous`, if any.
pub open spec fn focus_restored(before: FocusState, after: FocusState, previous: Option<FocusId>) -> bool {
    match previous {
        None => after == before,
        Some(id) => after.wf() && after.spec_order() == before.spec_order() && after.spec_current()
            == if before.spec_order().contains(id) {
            Some(id)
        } else {
            before.spec_current()
        },
    }
}

/// A palette just opened over the dashboard's commands, with an empty query.
pub open spec fn fresh_palette(p: CommandPalette) -> bool {
    &&& p.spec_commands().len() == palette_entries().len()
    &&& forall|k: int|
        0 <= k < p.spec_commands().len() ==> (#[trigger] p.spec_commands()[k]).id.spec_text()
            == palette_entries()[k].0 && p.spec_commands()[k].title@ == palette_entries()[k].1
    &&& p.spec_query().text_view() == Seq::<char>::empty()
    &&& p.spec_query().cursor_view() == 0
    &&& p.spec_selected() == 0
}

/// The focus numbers that the palette's focus commands name.
pub open spec fn focus_command_value(command: Seq<char>) -> Option<u32> {
    if command == "focus-agents"@ {
        Some(1u32)
    } else if command == "focus-output"@ {
        Some(2u32)
    } else if command == "focus-input"@ {
        Some(3u32)
    } else {
        None
    }
}

/// What running `command` does: `r` is `None` for an unknown command (nothing changes);
/// otherwise the command's effect and whether to quit or redraw.
pub open spec fn command_done(before: Dashboard, after: Dashboard, command: Seq<char>, r: Option<KeyOutcome>) -> bool {
    if command == "focus-next"@ || command == "focus-previous"@ {
        &&& r matches Some(o) && !o.quit && focus_stepped(
            before.focus,
            after.focus,
            command == "focus-next"@,
            o.redraw,
        )
        &&& after == (Dashboard { focus: after.focus, ..before })
    } else if command == "command-palette"@ {
        &&& r == Some(KeyOutcome::spec_redraw(true))
        &&& after.palette matches Some(p) && fresh_palette(p)
        &&& after == (Dashboard {
            palette: after.palette,
            palette_previous_focus: before.focus.spec_current(),
            ..before
        })
    } else if focus_command_value(command) is Some {
        &&& r matches Some(o) && !o.quit && focus_set_to(
            before.focus,
            after.focus,
            focus_command_value(command)->0,
            o.redraw,
        )
        &&& after == (Dashboard { focus: after.focus, ..before })
    } else if command == "toggle-tree"@ {
        &&& r == Some(KeyOutcome::spec_redraw(true))
        &&& after == (Dashboard { show_tree: !before.show_tree, ..before })
    } else if command == "quit"@ {
        r == Some(KeyOutcome::spec_quit()) && after == before
    } else {
        r is None && after == before
    }
}

/// Whether `a` reads `b`.
pub(crate) fn str_is(a: &str, b: &str) -> (r: bool)
    ensures
        r == (a@ == b@),
{
    let x = crate::chars::str_chars(a);
    let y = crate::chars::str_chars(b);
    crate::chars::same_chars(&x, &y)
}

/// An identity is in the order exactly when its number is.
pub(crate) proof fn lemma_order_contains_value(focus: FocusState, id: FocusId)
    ensures
        focus.spec_order().contains(id) == has_focus_value(focus, id.spec_value()),
{
    let order = focus.spec_order();
    let values = focus_values(focus);
    if order.contains(id) {
        let k = choose|k: int| 0 <= k < order.len() && order[k] == id;
        assert(values[k] == id.spec_value());
    }
    if values.contains(id.spec_value()) {
        let k = choose|k: int| 0 <= k < values.len() && values[k] == id.spec_value();
        lemma_focus_id_by_value(order[k], id);
    }
}

impl Dashboard {
    /// Focuses identity `id` (`focus-agents` and the like).
    fn focus_on(&mut self, id: FocusId) -> (changed: bool)
        requires
            old(self).wf(),
        ensures
            final(self).wf(),
            focus_set_to(old(self).focus, final(self).focus, id.spec_value(), changed),
            *final(self) == (Dashboard { focus: final(self).focus, ..*old(self) }),
    {
        proof {
            lemma_order_contains_value(self.focus, id);
            if let Some(c) = self.focus.spec_current() {
                lemma_focus_id_by_value(c, id);
            }
        }
        let changed = self.focus.set_focus(id);
        proof {
            if let Some(c) = self.focus.spec_current() {
                lemma_focus_id_by_value(c, id);
            }
        }
        changed
    }

    /// Opens the command palette, remembering the focus to give back on Escape.
    pub fn open_palette(&mut self)
        ensures
            final(self).palette matches Some(p) && fresh_palette(p),
            *final(self) == (Dashboard {
                palette: final(self).palette,
                palette_previous_focus: old(self).focus.spec_current(),
                ..*old(self)
            }),
    {
        self.palette_previous_focus = self.focus.current();
        self.palette = Some(CommandPalette::new(palette_commands()));
    }

    /// Closes the command palette and gives the focus back to where it was when it opened.
    pub fn close_palette(&mut self)
        requires
            old(self).wf(),
        ensures
            final(self).wf(),
            final(self).palette is None,
            final(self).palette_previous_focus is None,
            focus_restored(old(self).focus, final(self).focus, old(self).palette_previous_focus),
            *final(self) == (Dashboard {
                palette: None,
                palette_previous_focus: None,
                focus: final(self).focus,
                ..*old(self)
            }),
    {
        self.palette = None;
        match self.palette_previous_focus.take() {
            Some(id) => {
                self.focus.set_focus(id);
            },
            None => {},
        }
    }

    /// Runs a named command; `None` for a command the dashboard does not know.
    pub fn execute_command(&mut self, command: &str) -> (r: Option<KeyOutcome>)
        requires
            old(self).wf(),
        ensures
            final(self).wf(),
            command_done(*old(self), *final(self), command@, r),
    {
        if str_is(command, "focus-next") || str_is(command, "focus-previous") {
            let forward = str_is(command, "focus-next");
            let changed = if forward {
                self.focus.focus_next()
            } else {
                self.focus.focus_previous()
            };
            return Some(KeyOutcome { quit: false, redraw: changed });
        }
        if str_is(command, "command-palette") {
            self.open_palette();
            return Some(KeyOutcome { quit: false, redraw: true });
        }
        if str_is(command, "focus-agents") {
            let changed = self.focus_on(agents_focus());
            return Some(KeyOutcome { quit: false, redraw: changed });
        }
        if str_is(command, "focus-output") {
            let changed = self.focus_on(output_focus());
            return Some(KeyOutcome { quit: false, redraw: changed });
        }
        if str_is(command, "focus-input") {
            let changed = self.focus_on(input_focus());
            return Some(KeyOutcome { quit: false, redraw: changed });
        }
        if str_is(command, "toggle-tree") {
            self.show_tree = !self.show_tree;
            return Some(KeyOutcome { quit: false, redraw: true });
        }
        if str_is(command, "quit") {
            return Some(KeyOutcome { quit: true, redraw: false });
        }
        None
    }
}

/// Whether `key` quits: `q`, or Ctrl with `c` or `C`.
pub open spec fn quit_key(key: KeyEvent) -> bool {
    key.code == KeyCode::Char('q') || (key.modifiers.ctrl && (key.code == KeyCode::Char('c')
        || key.code == KeyCode::Char('C')))
}

/// The outcome of an optional command outcome: none when the command was unknown.
pub open spec fn or_none(r: Option<KeyOutcome>) -> KeyOutcome {
    match r {
        Some(o) => o,
        None => KeyOutcome::spec_none(),
    }
}

/// `before` with the command palette closed (its remembered focus dropped).
pub open spec fn palette_dropped(d: Dashboard) -> Dashboard {
    Dashboard { palette: None, palette_previous_focus: None, ..d }
}

/// What Enter does in an open palette: runs the selected match's command after closing the
/// palette, or does nothing without a match.
pub open spec fn palette_selection_done(before: Dashboard, after: Dashboard, r: KeyOutcome) -> bool {
    match before.palette {
        Some(p) => match resolved_selection(p.spec_selected(), p.spec_matches().len() as int) {
            Some(i) => exists|o: Option<KeyOutcome>|
                #[trigger] command_done(
                    palette_dropped(before),
                    after,
                    p.spec_commands()[p.spec_matches()[i]].id.spec_text(),
                    o,
                ) && r == or_none(o),
            None => after == before && r == KeyOutcome::spec_none(),
        },
        None => after == before && r == KeyOutcome::spec_none(),
    }
}

/// What a key does while the command palette is open: Escape or Ctrl-P closes it and gives the
/// focus back, Enter runs the selection, and every other key goes to the palette alone.
pub open spec fn palette_key_done(before: Dashboard, after: Dashboard, key: KeyEvent, r: KeyOutcome) -> bool {
    if key.code == KeyCode::Escape || (key.modifiers.ctrl && (key.code == KeyCode::Char('p')
        || key.code == KeyCode::Char('P'))) {
        &&& r == KeyOutcome::spec_redraw(true)
        &&& focus_restored(before.focus, after.focus, before.palette_previous_focus)
        &&& after == (Dashboard {
            palette: None,
            palette_previous_focus: None,
            focus: after.focus,
            ..before
        })
    } else if key.code == KeyCode::Enter {
        palette_selection_done(before, after, r)
    } else {
        &&& !r.quit
        &&& after.palette matches Some(q) && palette_key_result(
            before.palette->0,
            q,
            key,
            r.redraw,
        )
        &&& after == (Dashboard { palette: after.palette, ..before })
    }
}

/// `after` is the agent tree state `before` after `command`, with result `r`.
pub open spec fn tree_moved(before: TreeState, after: TreeState, command: TreeCommand, r: bool) -> bool {
    &&& after.spec_viewport() == before.spec_viewport()
    &&& exists|roots: Seq<TreeNode>|
        #[trigger] agent_tree_roots(roots) && (after.spec_selected(), after.spec_expanded(), r)
            == tree_command(roots, before.spec_selected(), before.spec_expanded(), command)
}

/// `after` is the agents table state `before` moved one row down (`forward`) or up, wrapping.
pub open spec fn agents_stepped(before: TableState, after: TableState, forward: bool) -> bool {
    let sel = clamp_selection(before.spec_selected() as int, AGENT_COUNT as int);
    &&& after.spec_viewport() == before.spec_viewport()
    &&& after.spec_selected() == if forward {
        (sel + 1) % (AGENT_COUNT as int)
    } else {
        (sel + AGENT_COUNT - 1) % (AGENT_COUNT as int)
    }
}

/// `after` is the output viewport `before` after the scroll key `code`, with result `r`.
pub open spec fn viewport_moved(before: ViewportState, after: ViewportState, code: KeyCode, r: bool) -> bool {
    &&& after.wf()
    &&& after.same_dimensions(&before)
    &&& r == (after.spec_offset() != before.spec_offset())
    &&& after.spec_offset() == match code {
        KeyCode::Up => before.clamped(sat_sub(before.spec_offset() as int, 1)),
        KeyCode::Down => if before.spec_offset() + 1 <= before.spec_max_scroll() {
            before.spec_offset() + 1
        } else {
            before.spec_max_scroll()
        },
        KeyCode::PageUp => before.clamped(
            sat_sub(before.spec_offset() as int, before.spec_viewport_height() as int),
        ),
        KeyCode::PageDown => if before.spec_offset() + before.spec_viewport_height()
            <= before.spec_max_scroll() {
            before.spec_offset() + before.spec_viewport_height()
        } else {
            before.spec_max_scroll()
        },
        KeyCode::Home => 0,
        _ => before.spec_max_scroll(),
    }
}

/// The tree command of Down (`forward`) or Up.
pub open spec fn vertical_command(forward: bool) -> TreeCommand {
    if forward {
        TreeCommand::Down
    } else {
        TreeCommand::Up
    }
}

/// Whether `code` scrolls the output pane.
pub open spec fn scroll_key(code: KeyCode) -> bool {
    code == KeyCode::Up || code == KeyCode::Down || code == KeyCode::PageUp || code
        == KeyCode::PageDown || code == KeyCode::Home || code == KeyCode::End
}

/// What a key does with the agents pane focused.
pub open spec fn agents_key_done(
    before: Dashboard,
    after: Dashboard,
    key: KeyEvent,
    r: (KeyOutcome, Option<AgentRequest>),
) -> bool {
    match key.code {
        KeyCode::Char('t') => r == (KeyOutcome::spec_redraw(true), None::<AgentRequest>) && after
            == (Dashboard { show_tree: !before.show_tree, ..before }),
        KeyCode::Enter => if before.show_tree {
            &&& r.1 is None && !r.0.quit
            &&& tree_moved(before.tree, after.tree, TreeCommand::Toggle, r.0.redraw)
            &&& after == (Dashboard { tree: after.tree, ..before })
        } else {
            r == (KeyOutcome::spec_redraw(true), Some(
                if before.agent_running {
                    AgentRequest::Stop
                } else {
                    AgentRequest::Start
                },
            )) && after == before
        },
        KeyCode::Char('x') => r == (KeyOutcome::spec_redraw(true), Some(AgentRequest::Stop)) && after
            == before,
        KeyCode::Up | KeyCode::Down => {
            let forward = key.code == KeyCode::Down;
            &&& r == (KeyOutcome::spec_redraw(true), None::<AgentRequest>)
            &&& if before.show_tree {
                &&& exists|c: bool|
                    #[trigger] tree_moved(before.tree, after.tree, vertical_command(forward), c)
                &&& after == (Dashboard { tree: after.tree, ..before })
            } else {
                &&& agents_stepped(before.agents, after.agents, forward)
                &&& after == (Dashboard { agents: after.agents, ..before })
            }
        },
        KeyCode::Left | KeyCode::Right => if before.show_tree {
            &&& r.1 is None && !r.0.quit
            &&& tree_moved(
                before.tree,
                after.tree,
                if key.code == KeyCode::Left {
                    TreeCommand::Left
                } else {
                    TreeCommand::Right
                },
                r.0.redraw,
            )
            &&& after == (Dashboard { tree: after.tree, ..before })
        } else {
            r == (KeyOutcome::spec_none(), None::<AgentRequest>) && after == before
        },
        _ => r == (KeyOutcome::spec_none(), None::<AgentRequest>) && after == before,
    }
}

/// What a key does with the output pane focused: the scroll keys scroll it.
pub open spec fn output_key_done(
    before: Dashboard,
    after: Dashboard,
    key: KeyEvent,
    r: (KeyOutcome, Option<AgentRequest>),
) -> bool {
    if scroll_key(key.code) {
        &&& r.1 is None && !r.0.quit
        &&& viewport_moved(before.output_viewport, after.output_viewport, key.code, r.0.redraw)
        &&& after == (Dashboard { output_viewport: after.output_viewport, ..before })
    } else {
        r == (KeyOutcome::spec_none(), None::<AgentRequest>) && after == before
    }
}

/// What a key does with the prompt input focused: Ctrl-Enter submits a non-empty prompt (or
/// notes that the agent is not running); other keys edit the input.
pub open spec fn input_key_done(
    before: Dashboard,
    after: Dashboard,
    key: KeyEvent,
    r: (KeyOutcome, Option<AgentRequest>),
) -> bool {
    if key.code == KeyCode::Enter && key.modifiers.ctrl && before.input@.text.len() > 0 {
        if before.agent_running {
            &&& r.0 == KeyOutcome::spec_redraw(true)
            &&& r.1 matches Some(AgentRequest::Send(p)) && p@ == before.input@.text
            &&& after == before
        } else {
            &&& r == (KeyOutcome::spec_redraw(true), None::<AgentRequest>)
            &&& after.output_view() == kept_output(
                before.output_view() + seq!["[not running] Start Hermes with Enter"@],
            )
            &&& after == (Dashboard { output: after.output, ..before })
        }
    } else {
        &&& r.1 is None && !r.0.quit
        &&& (after.input@, r.0.redraw) == area_key(before.input@, key)
        &&& after == (Dashboard { input: after.input, ..before })
    }
}

/// What the dashboard does with `key`: quit keys quit from anywhere; an open modal or palette
/// takes every other key; `m` opens the modal; bound keys run their command; the rest go to the
/// focused pane.
pub open spec fn key_handled(
    before: Dashboard,
    after: Dashboard,
    key: KeyEvent,
    r: (KeyOutcome, Option<AgentRequest>),
) -> bool {
    if quit_key(key) {
        r == (KeyOutcome::spec_quit(), None::<AgentRequest>) && after == before
    } else if before.modal_active {
        &&& r == (KeyOutcome::spec_redraw(true), None::<AgentRequest>)
        &&& if key.code == KeyCode::Escape || key.code == KeyCode::Enter {
            &&& focus_restored(before.focus, after.focus, before.modal_previous_focus)
            &&& after == (Dashboard {
                modal_active: false,
                modal_previous_focus: None,
                focus: after.focus,
                ..before
            })
        } else {
            after == before
        }
    } else if before.palette is Some {
        r.1 is None && palette_key_done(before, after, key, r.0)
    } else if key.code == KeyCode::Char('m') {
        &&& r == (KeyOutcome::spec_redraw(true), None::<AgentRequest>)
        &&& after == (Dashboard {
            modal_active: true,
            modal_previous_focus: before.focus.spec_current(),
            ..before
        })
    } else if before.keymap.lookup(key.code, key.modifiers) is Some {
        &&& r.1 is None
        &&& exists|o: Option<KeyOutcome>|
            #[trigger] command_done(
                before,
                after,
                before.keymap.lookup(key.code, key.modifiers)->0,
                o,
            ) && r.0 == or_none(o)
    } else if focused(before.focus, 1) {
        agents_key_done(before, after, key, r)
    } else if focused(before.focus, 2) {
        output_key_done(before, after, key, r)
    } else if focused(before.focus, 3) {
        input_key_done(before, after, key, r)
    } else {
        r == (KeyOutcome::spec_none(), None::<AgentRequest>) && after == before
    }
}

impl Dashboard {
    /// Gives the focus back to `previous`, if any.
    fn restore_focus(&mut self, previous: Option<FocusId>)
        requires
            old(self).wf(),
        ensures
            final(self).wf(),
            focus_restored(old(self).focus, final(self).focus, previous),
            *final(self) == (Dashboard { focus: final(self).focus, ..*old(self) }),
    {
        match previous {
            Some(id) => {
                self.focus.set_focus(id);
            },
            None => {},
        }
    }

    /// Runs the palette's selected command after closing the palette; nothing without a match.
    fn execute_palette_selection(&mut self) -> (r: KeyOutcome)
        requires
            old(self).wf(),
        ensures
            final(self).wf(),
            palette_selection_done(*old(self), *final(self), r),
    {
        let command = match &self.palette {
            Some(palette) => palette.execute_selected(),
            None => None,
        };
        match command {
            Some(command) => {
                self.palette = None;
                self.palette_previous_focus = None;
                let ghost dropped = *self;
                let o = self.execute_command(command.as_str());
                assert(command_done(dropped, *self, command.spec_text(), o));
                match o {
                    Some(outcome) => outcome,
                    None => KeyOutcome { quit: false, redraw: false },
                }
            },
            None => KeyOutcome { quit: false, redraw: false },
        }
    }

    /// A key while the palette is open.
    fn handle_palette_key(&mut self, key: KeyEvent) -> (r: KeyOutcome)
        requires
            old(self).wf(),
            old(self).palette is Some,
        ensures
            final(self).wf(),
            palette_key_done(*old(self), *final(self), key, r),
    {
        if key.code == KeyCode::Escape || (key.modifiers.ctrl && (key.code == KeyCode::Char('p')
            || key.code == KeyCode::Char('P'))) {
            self.close_palette();
            return KeyOutcome { quit: false, redraw: true };
        }
        if key.code == KeyCode::Enter {
            return self.execute_palette_selection();
        }
        let redraw = match &mut self.palette {
            Some(palette) => palette.handle_key(key),
            None => false,
        };
        KeyOutcome { quit: false, redraw }
    }

    /// A key with the agents pane focused.
    fn handle_agents_key(&mut self, key: KeyEvent) -> (r: (KeyOutcome, Option<AgentRequest>))
        requires
            old(self).wf(),
        ensures
            final(self).wf(),
            agents_key_done(*old(self), *final(self), key, r),
    {
        match key.code {
            KeyCode::Char('t') => {
                self.show_tree = !self.show_tree;
                (KeyOutcome { quit: false, redraw: true }, None)
            },
            KeyCode::Enter => {
                if self.show_tree {
                    let tree = agent_tree();
                    let redraw = tree.toggle(&mut self.tree);
                    assert(agent_tree_roots(tree.spec_roots()));
                    (KeyOutcome { quit: false, redraw }, None)
                } else {
                    let request = if self.agent_running {
                        AgentRequest::Stop
                    } else {
                        AgentRequest::Start
                    };
                    (KeyOutcome { quit: false, redraw: true }, Some(request))
                }
            },
            KeyCode::Char('x') => (KeyOutcome { quit: false, redraw: true }, Some(AgentRequest::Stop)),
            KeyCode::Up => {
                if self.show_tree {
                    let tree = agent_tree();
                    let moved = tree.move_up(&mut self.tree);
                    assert(agent_tree_roots(tree.spec_roots()));
                    assert(tree_moved(old(self).tree, self.tree, vertical_command(false), moved));
                } else {
                    self.agents.previous(AGENT_COUNT);
                }
                (KeyOutcome { quit: false, redraw: true }, None)
            },
            KeyCode::Down => {
                if self.show_tree {
                    let tree = agent_tree();
                    let moved = tree.move_down(&mut self.tree);
                    assert(agent_tree_roots(tree.spec_roots()));
                    assert(tree_moved(old(self).tree, self.tree, vertical_command(true), moved));
                } else {
                    self.agents.next(AGENT_COUNT);
                }
                (KeyOutcome { quit: false, redraw: true }, None)
            },
            KeyCode::Left => {
                if self.show_tree {
                    let tree = agent_tree();
                    let redraw = tree.move_left(&mut self.tree);
                    assert(agent_tree_roots(tree.spec_roots()));
                    (KeyOutcome { quit: false, redraw }, None)
                } else {
                    (KeyOutcome { quit: false, redraw: false }, None)
                }
            },
            KeyCode::Right => {
                if self.show_tree {
                    let tree = agent_tree();
                    let redraw = tree.move_right(&mut self.tree);
                    assert(agent_tree_roots(tree.spec_roots()));
                    (KeyOutcome { quit: false, redraw }, None)
                } else {
                    (KeyOutcome { quit: false, redraw: false }, None)
                }
            },
            _ => (KeyOutcome { quit: false, redraw: false }, None),
        }
    }

    /// A key with the output pane focused.
    fn handle_output_key(&mut self, key: KeyEvent) -> (r: (KeyOutcome, Option<AgentRequest>))
        requires
            old(self).wf(),
        ensures
            final(self).wf(),
            output_key_done(*old(self), *final(self), key, r),
    {
        let redraw = match key.code {
            KeyCode::Up => self.output_viewport.scroll_up(),
            KeyCode::Down => self.output_viewport.scroll_down(),
            KeyCode::PageUp => self.output_viewport.page_up(),
            KeyCode::PageDown => self.output_viewport.page_down(),
            KeyCode::Home => self.output_viewport.home(),
            KeyCode::End => self.output_viewport.end(),
            _ => {
                return (KeyOutcome { quit: false, redraw: false }, None);
            },
        };
        (KeyOutcome { quit: false, redraw }, None)
    }

    /// A key with the prompt input focused.
    fn handle_input_key(&mut self, key: KeyEvent) -> (r: (KeyOutcome, Option<AgentRequest>))
        requires
            old(self).wf(),
        ensures
            final(self).wf(),
            input_key_done(*old(self), *final(self), key, r),
    {
        let typed = crate::chars::str_chars(self.input.text());
        if key.code == KeyCode::Enter && key.modifiers.ctrl && typed.len() > 0 {
            if self.agent_running {
                let prompt = copy_string(self.input.text());
                return (KeyOutcome { quit: false, redraw: true }, Some(AgentRequest::Send(prompt)));
            }
            self.push_output(single(copy_string("[not running] Start Hermes with Enter")));
            return (KeyOutcome { quit: false, redraw: true }, None);
        }
        let redraw = self.input.handle_key(key);
        (KeyOutcome { quit: false, redraw }, None)
    }

    /// Routes a key: quit keys quit from anywhere, an open modal or palette isolates input, `m`
    /// opens the modal, bound keys run their command, and the rest go to the focused pane. Work
    /// on the agent process comes back as a request.
    pub fn handle_key(&mut self, key: KeyEvent) -> (r: (KeyOutcome, Option<AgentRequest>))
        requires
            old(self).wf(),
        ensures
            final(self).wf(),
            key_handled(*old(self), *final(self), key, r),
    {
        if key.code == KeyCode::Char('q') || (key.modifiers.ctrl && (key.code == KeyCode::Char('c')
            || key.code == KeyCode::Char('C'))) {
            return (KeyOutcome { quit: true, redraw: false }, None);
        }
        if self.modal_active {
            if key.code == KeyCode::Escape || key.code == KeyCode::Enter {
                self.modal_active = false;
                let previous = self.modal_previous_focus.take();
                self.restore_focus(previous);
            }
            return (KeyOutcome { quit: false, redraw: true }, None);
        }
        if self.palette.is_some() {
            let outcome = self.handle_palette_key(key);
            return (outcome, None);
        }
        if key.code == KeyCode::Char('m') {
            self.modal_active = true;
            self.modal_previous_focus = self.focus.current();
            return (KeyOutcome { quit: false, redraw: true }, None);
        }
        let bound = match self.keymap.resolve(key) {
            Some(command) => Some(command.duplicate()),
            None => None,
        };
        match bound {
            Some(command) => {
                let ghost before = *self;
                let o = self.execute_command(command.as_str());
                assert(before == *old(self));
                assert(old(self).keymap.lookup(key.code, key.modifiers)->0 == command.spec_text());
                assert(command_done(
                    *old(self),
                    *self,
                    old(self).keymap.lookup(key.code, key.modifiers)->0,
                    o,
                ));
                let outcome = match o {
                    Some(outcome) => outcome,
                    None => KeyOutcome { quit: false, redraw: false },
                };
                return (outcome, None);
            },
            None => {},
        }
        let current = self.focus.current();
        let agents = agents_focus();
        let output = output_focus();
        let input = input_focus();
        proof {
            if let Some(c) = current {
                lemma_focus_id_by_value(c, agents);
                lemma_focus_id_by_value(c, output);
                lemma_focus_id_by_value(c, input);
            }
        }
        if current == Some(agents) {
            self.handle_agents_key(key)
        } else if current == Some(output) {
            self.handle_output_key(key)
        } else if current == Some(input) {
            self.handle_input_key(key)
        } else {
            (KeyOutcome { quit: false, redraw: false }, None)
        }
    }
}

/// `after` is the agents table `before` after a click at `pos`: a click on the row of agent
/// `k` (the rows start under the header of `rows`) selects it, and `changed` tells whether the
/// selection moved; a click elsewhere changes nothing.
pub open spec fn agent_picked(before: TableState, after: TableState, rows: Rect, pos: Position, changed: bool) -> bool {
    let row = pos.y - rows.y;
    if rows.spec_contains(pos) && 1 <= row <= AGENT_COUNT {
        &&& after.spec_selected() == row - 1
        &&& after.spec_viewport() == before.spec_viewport()
        &&& changed == (clamp_selection(before.spec_selected() as int, AGENT_COUNT as int) != row - 1)
    } else {
        after == before && !changed
    }
}

/// What the dashboard does with a mouse event: nothing under an open modal or palette; a click
/// focuses the pane it lands in (and picks an agent row); the wheel over the output scrolls it.
pub open spec fn mouse_handled(before: Dashboard, after: Dashboard, mouse: MouseEvent, r: KeyOutcome) -> bool {
    let pos = Position { x: mouse.x, y: mouse.y };
    let regions = before.hit_regions;
    if before.modal_active || before.palette is Some {
        r == KeyOutcome::spec_none() && after == before
    } else if mouse.kind == MouseKind::LeftDown && regions.agents.spec_contains(pos) {
        &&& !r.quit
        &&& exists|f: bool, a: bool|
            #[trigger] focus_set_to(before.focus, after.focus, 1, f) && #[trigger] agent_picked(
                before.agents,
                after.agents,
                regions.agent_rows,
                pos,
                a,
            ) && r.redraw == (f || a)
        &&& after == (Dashboard { focus: after.focus, agents: after.agents, ..before })
    } else if mouse.kind == MouseKind::LeftDown && regions.output.spec_contains(pos) {
        &&& !r.quit
        &&& focus_set_to(before.focus, after.focus, 2, r.redraw)
        &&& after == (Dashboard { focus: after.focus, ..before })
    } else if mouse.kind == MouseKind::LeftDown && regions.input.spec_contains(pos) {
        &&& !r.quit
        &&& focus_set_to(before.focus, after.focus, 3, r.redraw)
        &&& after == (Dashboard { focus: after.focus, ..before })
    } else if (mouse.kind == MouseKind::ScrollUp || mouse.kind == MouseKind::ScrollDown)
        && regions.output.spec_contains(pos) {
        &&& !r.quit
        &&& viewport_moved(
            before.output_viewport,
            after.output_viewport,
            if mouse.kind == MouseKind::ScrollUp {
                KeyCode::Up
            } else {
                KeyCode::Down
            },
            r.redraw,
        )
        &&& after == (Dashboard { output_viewport: after.output_viewport, ..before })
    } else {
        r == KeyOutcome::spec_none() && after == before
    }
}

impl Dashboard {
    /// Selects the agent whose row is at `position`; returns whether the selection changed.
    pub fn select_agent_at(&mut self, position: Position) -> (changed: bool)
        ensures
            agent_picked(
                old(self).agents,
                final(self).agents,
                old(self).hit_regions.agent_rows,
                position,
                changed,
            ),
            *final(self) == (Dashboard { agents: final(self).agents, ..*old(self) }),
    {
        let rows = self.hit_regions.agent_rows;
        if !rows.contains(position) {
            return false;
        }
        let row = (position.y - rows.y) as usize;
        if row < 1 {
            return false;
        }
        let index = row - 1;
        if index >= AGENT_COUNT {
            return false;
        }
        let previous = self.agents.selected_index(AGENT_COUNT);
        self.agents.set_selected(index);
        previous != Some(index)
    }

    /// Routes a mouse event by the regions of the last render.
    pub fn handle_mouse(&mut self, mouse: MouseEvent) -> (r: KeyOutcome)
        requires
            old(self).wf(),
        ensures
            final(self).wf(),
            mouse_handled(*old(self), *final(self), mouse, r),
    {
        if self.modal_active || self.palette.is_some() {
            return KeyOutcome { quit: false, redraw: false };
        }
        let position = Position { x: mouse.x, y: mouse.y };
        let regions = self.hit_regions;
        match mouse.kind {
            MouseKind::LeftDown => {
                if regions.agents.contains(position) {
                    let focus_changed = self.focus_on(agents_focus());
                    let selected_changed = self.select_agent_at(position);
                    return KeyOutcome { quit: false, redraw: focus_changed || selected_changed };
                }
                if regions.output.contains(position) {
                    let changed = self.focus_on(output_focus());
                    return KeyOutcome { quit: false, redraw: changed };
                }
                if regions.input.contains(position) {
                    let changed = self.focus_on(input_focus());
                    return KeyOutcome { quit: false, redraw: changed };
                }
                KeyOutcome { quit: false, redraw: false }
            },
            MouseKind::ScrollUp => {
                if regions.output.contains(position) {
                    let changed = self.output_viewport.scroll_up();
                    return KeyOutcome { quit: false, redraw: changed };
                }
                KeyOutcome { quit: false, redraw: false }
            },
            MouseKind::ScrollDown => {
                if regions.output.contains(position) {
                    let changed = self.output_viewport.scroll_down();
                    return KeyOutcome { quit: false, redraw: changed };
                }
                KeyOutcome { quit: false, redraw: false }
            },
            _ => KeyOutcome { quit: false, redraw: false },
        }
    }
}

impl Dashboard {
    /// `after` is `before` advanced to `now` with result `r`: the spinner and the dragon animation
    /// each update (see [`update_outcome`]), `r` tells whether either frame changed, and a changed
    /// frame counts a tick; nothing else changes.
    pub open spec fn advanced(before: Dashboard, after: Dashboard, now: Moment, r: bool) -> bool {
        &&& exists|spun: bool, flew: bool|
            #[trigger] update_outcome(
                before.spinner.spec_animation(),
                after.spinner.spec_animation(),
                now,
                spun,
            ) && #[trigger] update_outcome(before.dragon, after.dragon, now, flew) && r == (spun
                || flew)
        &&& after.spinner.spec_frames() == before.spinner.spec_frames()
        &&& after.dragon.same_setup(&before.dragon)
        &&& after.ticks == if r {
            before.ticks + 1
        } else {
            before.ticks as int
        }
        &&& after == (Dashboard {
            spinner: after.spinner,
            dragon: after.dragon,
            ticks: after.ticks,
            ..before
        })
    }

    /// Advances the spinner and the dragon animation to `now`; a tick is counted when either
    /// frame changed. Returns whether anything shown changed.
    pub fn advance(&mut self, now: Moment) -> (r: bool)
        requires
            old(self).wf(),
            old(self).ticks < u64::MAX,
        ensures
            final(self).wf(),
            Dashboard::advanced(*old(self), *final(self), now, r),
    {
        let spun = self.spinner.update(now);
        let flew = self.dragon.update(now);
        let changed = spun || flew;
        if changed {
            self.ticks = self.ticks + 1;
        }
        changed
    }
}

/// The splash screen's minimum time on screen, in nanoseconds.
pub const SPLASH_NANOS: u128 = 1_000_000_000;

/// The start-up phase, then the dashboard.
#[derive(Clone, Copy, Debug, PartialEq, Eq, Structural)]
pub enum AppPhase {
    Splash,
    Main,
}

/// The frames of the splash spinner.
pub open spec fn splash_frames() -> Seq<Seq<char>> {
    seq![
        "\u{280b}"@,
        "\u{2819}"@,
        "\u{2839}"@,
        "\u{2838}"@,
        "\u{283c}"@,
        "\u{2834}"@,
        "\u{2826}"@,
        "\u{2827}"@,
    ]
}

/// The splash screen: when it started and its spinner.
pub struct Splash {
    pub started: Moment,
    pub spinner: Animation<String>,
}

impl Splash {
    pub fn new(started: Moment) -> (r: Self)
        ensures
            r.started == started,
            r.spinner.wf(),
            r.spinner.spec_frames().map_values(|f: String| f@) == splash_frames(),
            r.spinner.spec_index() == 0,
            r.spinner.spec_frame_nanos() == 100_000_000,
    {
        let mut frames: Vec<String> = Vec::new();
        frames.push(copy_string("\u{280b}"));
        frames.push(copy_string("\u{2819}"));
        frames.push(copy_string("\u{2839}"));
        frames.push(copy_string("\u{2838}"));
        frames.push(copy_string("\u{283c}"));
        frames.push(copy_string("\u{2834}"));
        frames.push(copy_string("\u{2826}"));
        frames.push(copy_string("\u{2827}"));
        assert(frames@.map_values(|f: String| f@) =~= splash_frames());
        Splash { started, spinner: Animation::new(frames).frame_duration_nanos(100_000_000) }
    }

    /// Advances the spinner; returns whether its frame changed.
    pub fn advance(&mut self, now: Moment) -> (r: bool)
        requires
            old(self).spinner.wf(),
        ensures
            final(self).spinner.wf(),
            final(self).started == old(self).started,
            final(self).spinner.same_setup(&old(self).spinner),
            update_outcome(old(self).spinner, final(self).spinner, now, r),
    {
        self.spinner.update(now)
    }

    /// Whether the splash has been shown for its minimum time at `now`.
    pub open spec fn spec_ready(&self, now: Moment) -> bool {
        now.spec_since(self.started) >= SPLASH_NANOS
    }

    /// Whether the splash has been shown for its minimum time at `now`.
    pub fn is_ready(&self, now: Moment) -> (r: bool)
        ensures
            r == self.spec_ready(now),
    {
        now.saturating_duration_since(self.started).nanos >= SPLASH_NANOS
    }
}

/// The demo application: the splash, then the dashboard.
pub struct App {
    pub phase: AppPhase,
    pub splash: Splash,
    pub dashboard: Dashboard,
    pub theme: Theme,
}

impl App {
    /// The splash and the dashboard are well formed.
    pub open spec fn wf(&self) -> bool {
        self.splash.spinner.wf() && self.dashboard.wf()
    }

    /// An application in `theme`, starting on the splash at `started`.
    pub fn with_theme(started: Moment, theme: Theme) -> (r: Self)
        ensures
            r.wf(),
            r.phase == AppPhase::Splash,
            r.theme == theme,
            r.splash.started == started,
            r.splash.spinner.spec_frames().map_values(|f: String| f@) == splash_frames(),
            r.splash.spinner.spec_index() == 0,
            Dashboard::fresh(r.dashboard, theme),
    {
        App {
            phase: AppPhase::Splash,
            splash: Splash::new(started),
            dashboard: Dashboard::with_theme(theme),
            theme,
        }
    }

    /// An application in the Dragonfire theme.
    pub fn new(started: Moment) -> (r: Self)
        ensures
            r.wf(),
            r.phase == AppPhase::Splash,
            r.theme == Theme::dragonfire(),
            r.splash.started == started,
            r.splash.spinner.spec_frames().map_values(|f: String| f@) == splash_frames(),
            r.splash.spinner.spec_index() == 0,
            Dashboard::fresh(r.dashboard, Theme::dragonfire()),
    {
        App::with_theme(started, Theme::new())
    }

    /// Advances the splash (leaving it once it has been shown long enough) or the dashboard.
    pub fn advance(&mut self, now: Moment) -> (r: bool)
        requires
            old(self).wf(),
            old(self).dashboard.ticks < u64::MAX,
        ensures
            final(self).wf(),
            old(self).phase == AppPhase::Main ==> Dashboard::advanced(
                old(self).dashboard,
                final(self).dashboard,
                now,
                r,
            ) && *final(self) == (App { dashboard: final(self).dashboard, ..*old(self) }),
            old(self).phase == AppPhase::Splash ==> {
                &&& final(self).dashboard == old(self).dashboard
                &&& final(self).theme == old(self).theme
                &&& final(self).splash.started == old(self).splash.started
                &&& final(self).splash.spinner.same_setup(&old(self).splash.spinner)
                &&& final(self).phase == if old(self).splash.spec_ready(now) {
                    AppPhase::Main
                } else {
                    AppPhase::Splash
                }
                &&& exists|spun: bool|
                    #[trigger] update_outcome(
                        old(self).splash.spinner,
                        final(self).splash.spinner,
                        now,
                        spun,
                    ) && r == (final(self).phase == AppPhase::Main || spun)
            },
    {
        match self.phase {
            AppPhase::Splash => {
                let changed = self.splash.advance(now);
                if self.splash.is_ready(now) {
                    self.phase = AppPhase::Main;
                    true
                } else {
                    changed
                }
            },
            AppPhase::Main => self.dashboard.advance(now),
        }
    }

    /// Routes a key: quit keys quit in either phase; Enter or Space leaves the splash; in the
    /// main phase the dashboard takes the key.
    pub fn handle_key(&mut self, key: KeyEvent) -> (r: (KeyOutcome, Option<AgentRequest>))
        requires
            old(self).wf(),
        ensures
            final(self).wf(),
            final(self).theme == old(self).theme,
            quit_key(key) ==> r == (KeyOutcome::spec_quit(), None::<AgentRequest>) && *final(self)
                == *old(self),
            !quit_key(key) && old(self).phase == AppPhase::Splash ==> if key.code == KeyCode::Enter
                || key.code == KeyCode::Char(' ') {
                r == (KeyOutcome::spec_redraw(true), None::<AgentRequest>) && *final(self) == (App {
                    phase: AppPhase::Main,
                    ..*old(self)
                })
            } else {
                r == (KeyOutcome::spec_none(), None::<AgentRequest>) && *final(self) == *old(self)
            },
            !quit_key(key) && old(self).phase == AppPhase::Main ==> key_handled(
                old(self).dashboard,
                final(self).dashboard,
                key,
                r,
            ) && *final(self) == (App { dashboard: final(self).dashboard, ..*old(self) }),
    {
        if key.code == KeyCode::Char('q') || (key.modifiers.ctrl && (key.code == KeyCode::Char('c')
            || key.code == KeyCode::Char('C'))) {
            return (KeyOutcome { quit: true, redraw: false }, None);
        }
        match self.phase {
            AppPhase::Splash => {
                if key.code == KeyCode::Enter || key.code == KeyCode::Char(' ') {
                    self.phase = AppPhase::Main;
                    (KeyOutcome { quit: false, redraw: true }, None)
                } else {
                    (KeyOutcome { quit: false, redraw: false }, None)
                }
            },
            AppPhase::Main => self.dashboard.handle_key(key),
        }
    }

    /// Routes a mouse event to the dashboard in the main phase; the splash ignores the mouse.
    pub fn handle_mouse(&mut self, mouse: MouseEvent) -> (r: KeyOutcome)
        requires
            old(self).wf(),
        ensures
            final(self).wf(),
            old(self).phase == AppPhase::Splash ==> r == KeyOutcome::spec_none() && *final(self)
                == *old(self),
            old(self).phase == AppPhase::Main ==> mouse_handled(
                old(self).dashboard,
                final(self).dashboard,
                mouse,
                r,
            ) && *final(self) == (App { dashboard: final(self).dashboard, ..*old(self) }),
    {
        match self.phase {
            AppPhase::Splash => KeyOutcome { quit: false, redraw: false },
            AppPhase::Main => self.dashboard.handle_mouse(mouse),
        }
    }
}

/// The modal isolates input: with it open, a key that neither quits nor closes it changes
/// nothing, and Escape or Enter closes it with the focus back where it was when `m` opened it.
pub proof fn lemma_modal_isolates_input(
    d0: Dashboard,
    d1: Dashboard,
    d2: Dashboard,
    d3: Dashboard,
    open: KeyEvent,
    other: KeyEvent,
    close: KeyEvent,
    r1: (KeyOutcome, Option<AgentRequest>),
    r2: (KeyOutcome, Option<AgentRequest>),
    r3: (KeyOutcome, Option<AgentRequest>),
)
    requires
        d0.wf(),
        !d0.modal_active,
        d0.palette is None,
        open.code == KeyCode::Char('m'),
        !quit_key(other),
        other.code != KeyCode::Escape && other.code != KeyCode::Enter,
        close.code == KeyCode::Escape || close.code == KeyCode::Enter,
        !quit_key(close),
        key_handled(d0, d1, open, r1),
        key_handled(d1, d2, other, r2),
        key_handled(d2, d3, close, r3),
    ensures
        d1.modal_active,
        d2 == d1,
        r2.1 is None,
        !d3.modal_active,
        d3.focus.spec_current() == d0.focus.spec_current(),
        d3.input == d0.input,
        d3.output == d0.output,
        d3.agent_running == d0.agent_running,
{
    assert(!quit_key(open));
}

/// The command palette isolates input: Ctrl-P opens it, a key that is not Escape, Ctrl-P or
/// Enter goes to the palette alone, and Escape closes it with the focus back where it was.
pub proof fn lemma_palette_isolates_input(
    d0: Dashboard,
    d1: Dashboard,
    d2: Dashboard,
    d3: Dashboard,
    typed: KeyEvent,
    r1: (KeyOutcome, Option<AgentRequest>),
    r2: (KeyOutcome, Option<AgentRequest>),
    r3: (KeyOutcome, Option<AgentRequest>),
)
    requires
        d0.wf(),
        !d0.modal_active,
        d0.palette is None,
        forall|code: KeyCode, modifiers: KeyModifiers|
            #[trigger] d0.keymap.lookup(code, modifiers) == dashboard_binding(code, modifiers),
        key_handled(
            d0,
            d1,
            KeyEvent { code: KeyCode::Char('p'), modifiers: KeyModifiers { ctrl: true, alt: false, shift: false } },
            r1,
        ),
        !quit_key(typed),
        typed.code != KeyCode::Escape && typed.code != KeyCode::Enter,
        !(typed.modifiers.ctrl && (typed.code == KeyCode::Char('p') || typed.code == KeyCode::Char('P'))),
        key_handled(d1, d2, typed, r2),
        key_handled(
            d2,
            d3,
            KeyEvent { code: KeyCode::Escape, modifiers: KeyModifiers { ctrl: false, alt: false, shift: false } },
            r3,
        ),
    ensures
        d1.palette is Some,
        d2.input == d0.input,
        d2.focus == d1.focus,
        r2.1 is None,
        d3.palette is None,
        d3.focus.spec_current() == d0.focus.spec_current(),
        d3.input == d0.input,
{
    let ctrl_p = KeyEvent { code: KeyCode::Char('p'), modifiers: KeyModifiers { ctrl: true, alt: false, shift: false } };
    assert(d0.keymap.lookup(ctrl_p.code, ctrl_p.modifiers) == dashboard_binding(ctrl_p.code, ctrl_p.modifiers));
    assert(dashboard_binding(ctrl_p.code, ctrl_p.modifiers) == Some("command-palette"@));
    assert("command-palette"@ != "focus-next"@) by {
        reveal_strlit("command-palette");
        reveal_strlit("focus-next");
        assert("command-palette"@.len() != "focus-next"@.len());
    }
    assert("command-palette"@ != "focus-previous"@) by {
        reveal_strlit("command-palette");
        reveal_strlit("focus-previous");
        assert("command-palette"@.len() != "focus-previous"@.len());
    }
    assert(d1.palette_previous_focus == d0.focus.spec_current());
    assert(d1.focus == d0.focus);
    if let Some(c) = d0.focus.spec_current() {
        assert(d0.focus.spec_order().contains(c));
    }
}

} // verus!
