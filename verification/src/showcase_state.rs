use vstd::prelude::*;

use crate::dashboard::{
    KeyOutcome,
    focus_set_to,
    focus_stepped,
    focus_restored,
    focused,
    lemma_order_contains_value,
    or_none,
    quit_key,
    str_is,
};
use crate::event::{KeyCode, KeyEvent, KeyModifiers, MouseEvent, MouseKind};
use crate::focus::{FocusId, FocusState, lemma_distinct_first_occurrences, lemma_focus_id_by_value};
use crate::geometry::{Position, Rect};
use crate::keymap::{CommandId, KeyMap};
use crate::list::{ListState, clamp_selection};
use crate::palette::{CommandPalette, PaletteCommand, palette_key_result, resolved_selection};
use crate::showcase::{
    Language,
    Section,
    SettingRow,
    ThemeSlot,
    localized,
    parse_rgb,
    section_at,
    section_list_items,
    setting_at,
    spec_list_items,
    spec_parse_rgb,
};
use crate::style::Color;
use crate::table::TableState;
use crate::text_area::{AreaState, TextArea, area_key, empty_area};
use crate::text_input::{TextInput, input_key_outcome};
use crate::theme::Theme;
use crate::tree::{Tree, TreeCommand, TreeNode, TreeState, tree_command};
use crate::rich_text::Line;
use crate::style::Style;
use crate::grapheme::{cursor_after_insert, grapheme_clusters, text_after_insert};
use crate::diff_view::decimal;
use crate::dashboard::{dashboard_binding, dashboard_keymap, focus_values, has_focus_value};
use crate::viewport::{ViewportState, sat_sub};

verus! {

/// The splash, then the showcase screens.
#[derive(Clone, Copy, Debug, PartialEq, Eq, Structural)]
pub enum ShowcasePhase {
    Splash,
    Showcase,
}

/// What the adapters section lists: the adapters, or the capabilities they provide.
#[derive(Clone, Copy, Debug, PartialEq, Eq, Structural)]
pub enum BrowserMode {
    Adapters,
    Capabilities,
}

/// Work on adapters that a key asks the event loop to perform.
#[derive(Clone, Debug, PartialEq, Eq)]
pub enum ShowcaseRequest {
    /// Refresh the adapters' diagnostics (the adapters section was selected).
    RefreshDiagnostics,
    /// Install adapter `id` from `registry_source`.
    Install { id: String, registry_source: String },
    /// Start adapter `id`.
    Start { id: String },
    /// Stop adapter `id`.
    Stop { id: String },
    /// Restart adapter `id`.
    Restart { id: String },
    /// Update adapter `id` from `registry_source`.
    Update { id: String, registry_source: String },
    /// Remove adapter `id`.
    Remove { id: String },
}

/// The colour editor of the settings screen: the slot being edited, the channel being typed,
/// and the red, green and blue inputs.
pub struct ColorEditor {
    pub slot: ThemeSlot,
    pub channel: usize,
    pub inputs: Vec<TextInput>,
}

/// The screen areas that mouse events are routed by, as last rendered.
pub struct ShowcaseHits {
    pub sections: Vec<Rect>,
    pub list: Rect,
    pub table: Rect,
    pub tree: Rect,
    pub viewport: Rect,
    pub input: Rect,
    pub area: Rect,
    pub modal: Rect,
    pub palette_rows: Rect,
    pub settings_rows: Vec<Rect>,
    pub color_inputs: Vec<Rect>,
    pub color_apply: Rect,
}

/// The showcase application's state, as plain values.
pub struct ShowcaseState {
    pub phase: ShowcasePhase,
    pub section: Section,
    pub language: Language,
    pub theme: Theme,
    pub settings_selected: SettingRow,
    pub color_editor: Option<ColorEditor>,
    pub focus: FocusState,
    pub keymap: KeyMap,
    pub list: ListState,
    pub table: TableState,
    pub tree: TreeState,
    pub viewport: ViewportState,
    pub input: TextInput,
    pub area: TextArea,
    pub palette: Option<CommandPalette>,
    pub modal_open: bool,
    pub focus_before_modal: Option<FocusId>,
    pub animation_enabled: bool,
    pub hits: ShowcaseHits,
    pub browser_mode: BrowserMode,
    pub remove_confirmation: bool,
    /// The adapter rows' ids; `None` where the adapter host refuses the row's id.
    pub adapter_ids: Vec<Option<String>>,
    pub capability_count: usize,
    pub install_id: Option<String>,
    pub registry_source: Option<String>,
}


/// The text and cursor after typing `chars` one by one into an empty input.
pub open spec fn typed(chars: Seq<char>) -> (Seq<char>, int)
    decreases chars.len(),
{
    if chars.len() == 0 {
        (Seq::empty(), 0)
    } else {
        let (t, c) = typed(chars.drop_last());
        (text_after_insert(t, c, chars.last()), cursor_after_insert(t, c, chars.last()))
    }
}

/// `input` holds what typing the decimal digits of `v` into an empty input gives.
pub open spec fn seeded_with(input: TextInput, v: u8) -> bool {
    (input.text_view(), input.cursor_view()) == typed(decimal(v as nat))
}

impl ColorEditor {
    /// Three inputs and a channel naming one of them.
    pub open spec fn wf(&self) -> bool {
        self.inputs@.len() == 3 && self.channel < 3
    }

    /// The colour the editor's three inputs spell.
    pub open spec fn spec_color(&self) -> Color {
        Color::Rgb {
            r: spec_parse_rgb(self.inputs@[0].text_view()) as u8,
            g: spec_parse_rgb(self.inputs@[1].text_view()) as u8,
            b: spec_parse_rgb(self.inputs@[2].text_view()) as u8,
        }
    }

    /// An editor for `slot` seeded with `color`'s channels, on the red channel.
    pub fn new(slot: ThemeSlot, color: Color) -> (r: Self)
        ensures
            r.wf(),
            r.slot == slot,
            r.channel == 0,
            color matches Color::Rgb { r: red, g, b } && seeded_with(r.inputs@[0], red)
                && seeded_with(r.inputs@[1], g) && seeded_with(r.inputs@[2], b),
    {
        let Color::Rgb { r, g, b } = color;
        let mut inputs: Vec<TextInput> = Vec::new();
        inputs.push(seeded_numeric_input(r));
        inputs.push(seeded_numeric_input(g));
        inputs.push(seeded_numeric_input(b));
        ColorEditor { slot, channel: 0, inputs }
    }

    /// The colour the three inputs spell, each channel clamped to 0..=255.
    pub fn color(&self) -> (r: Color)
        requires
            self.wf(),
        ensures
            r == self.spec_color(),
    {
        Color::rgb(
            parse_rgb(self.inputs[0].text()),
            parse_rgb(self.inputs[1].text()),
            parse_rgb(self.inputs[2].text()),
        )
    }
}

/// An input holding the decimal digits of `value`, typed one by one.
pub fn seeded_numeric_input(value: u8) -> (r: TextInput)
    ensures
        seeded_with(r, value),
{
    let digits = crate::dashboard_view::u64_text(value as u64);
    let chars = crate::chars::str_chars(digits.as_str());
    let mut input = TextInput::new();
    let mut i: usize = 0;
    while i < chars.len()
        invariant
            i <= chars@.len(),
            chars@ == decimal(value as nat),
            (input.text_view(), input.cursor_view()) == typed(chars@.take(i as int)),
        decreases chars@.len() - i,
    {
        proof {
            assert(chars@.take(i + 1).drop_last() == chars@.take(i as int));
            assert(chars@.take(i + 1).last() == chars@[i as int]);
        }
        input.insert(chars[i]);
        i = i + 1;
    }
    proof {
        assert(chars@.take(chars@.len() as int) == chars@);
    }
    input
}

/// The showcase's pane a section puts the focus on.
pub open spec fn section_focus(section: Section) -> u32 {
    match section {
        Section::Widgets => 1,
        Section::Data => 2,
        Section::Input => 5,
        _ => 4,
    }
}

/// The section a command selects, if any.
pub open spec fn command_section(command: Seq<char>) -> Option<Section> {
    if command == Section::Overview.spec_command() {
        Some(Section::Overview)
    } else if command == Section::Widgets.spec_command() {
        Some(Section::Widgets)
    } else if command == Section::Data.spec_command() {
        Some(Section::Data)
    } else if command == Section::Graphics.spec_command() {
        Some(Section::Graphics)
    } else if command == Section::Input.spec_command() {
        Some(Section::Input)
    } else if command == Section::Interaction.spec_command() {
        Some(Section::Interaction)
    } else if command == Section::Settings.spec_command() {
        Some(Section::Settings)
    } else if command == Section::Adapters.spec_command() {
        Some(Section::Adapters)
    } else {
        None
    }
}

/// The palette's commands in `language`: `(id, title)` in order.
pub open spec fn showcase_palette_entries(language: Language) -> Seq<(Seq<char>, Seq<char>)> {
    let en = language == Language::English;
    let show = if en { "Show "@ } else { "G\u{f6}ster "@ };
    seq![
        ("show-overview"@, show + Section::Overview.spec_title(language)),
        ("show-widgets"@, show + Section::Widgets.spec_title(language)),
        ("show-data"@, show + Section::Data.spec_title(language)),
        ("show-graphics"@, show + Section::Graphics.spec_title(language)),
        ("show-input"@, show + Section::Input.spec_title(language)),
        ("show-interaction"@, show + Section::Interaction.spec_title(language)),
        ("open-settings"@, if en { "Open Settings"@ } else { "Ayarlar\u{131} A\u{e7}"@ }),
        ("open-adapters"@, if en { "Open Adapters"@ } else { "Adapt\u{f6}rleri A\u{e7}"@ }),
        ("open-modal"@, if en { "Open Demo Modal"@ } else { "Demo Penceresini A\u{e7}"@ }),
        ("toggle-animation"@, if en { "Toggle Animation"@ } else { "Animasyonu De\u{11f}i\u{15f}tir"@ }),
        ("quit"@, if en { "Quit"@ } else { "\u{c7}\u{131}k"@ }),
    ]
}

/// A palette just opened over the showcase's commands in `language`, with an empty query.
pub open spec fn fresh_showcase_palette(p: CommandPalette, language: Language) -> bool {
    &&& p.spec_commands().len() == 11
    &&& forall|k: int|
        0 <= k < 11 ==> (#[trigger] p.spec_commands()[k]).id.spec_text()
            == showcase_palette_entries(language)[k].0 && p.spec_commands()[k].title@
            == showcase_palette_entries(language)[k].1
    &&& p.spec_query().text_view() == Seq::<char>::empty()
    &&& p.spec_query().cursor_view() == 0
    &&& p.spec_selected() == 0
}

/// Pushes the command `id` titled `title`.
fn push_command(commands: &mut Vec<PaletteCommand>, id: &str, title: &str)
    ensures
        final(commands)@.len() == old(commands)@.len() + 1,
        forall|k: int| 0 <= k < old(commands)@.len() ==> final(commands)@[k] == old(commands)@[k],
        final(commands)@.last().id.spec_text() == id@,
        final(commands)@.last().title@ == title@,
{
    commands.push(PaletteCommand::new(CommandId::new(id), title));
}

/// The showcase's palette commands in `language`.
pub fn showcase_palette_commands(language: Language) -> (r: Vec<PaletteCommand>)
    ensures
        r@.len() == 11,
        forall|k: int|
            0 <= k < 11 ==> (#[trigger] r@[k]).id.spec_text()
                == showcase_palette_entries(language)[k].0 && r@[k].title@
                == showcase_palette_entries(language)[k].1,
{
    let mut commands: Vec<PaletteCommand> = Vec::new();
    let show = localized(language, "Show ", "G\u{f6}ster ");
    let mut i: usize = 0;
    while i < 6
        invariant
            i <= 6,
            show@ == (if language == Language::English { "Show "@ } else { "G\u{f6}ster "@ }),
            commands@.len() == i,
            forall|k: int|
                0 <= k < i ==> (#[trigger] commands@[k]).id.spec_text()
                    == showcase_palette_entries(language)[k].0 && commands@[k].title@
                    == showcase_palette_entries(language)[k].1,
        decreases 6 - i,
    {
        let section = Section::at(i);
        let title = crate::chars::concat_strs(show, section.title(language));
        push_command(&mut commands, section.command(), title.as_str());
        i = i + 1;
    }
    push_command(&mut commands, "open-settings", localized(language, "Open Settings", "Ayarlar\u{131} A\u{e7}"));
    push_command(&mut commands, "open-adapters", localized(language, "Open Adapters", "Adapt\u{f6}rleri A\u{e7}"));
    push_command(&mut commands, "open-modal", localized(language, "Open Demo Modal", "Demo Penceresini A\u{e7}"));
    push_command(
        &mut commands,
        "toggle-animation",
        localized(language, "Toggle Animation", "Animasyonu De\u{11f}i\u{15f}tir"),
    );
    push_command(&mut commands, "quit", localized(language, "Quit", "\u{c7}\u{131}k"));
    commands
}


/// The request a section selection makes: a diagnostics refresh for the adapters section.
pub open spec fn section_request(section: Section) -> Option<ShowcaseRequest> {
    if section == Section::Adapters {
        Some(ShowcaseRequest::RefreshDiagnostics)
    } else {
        None
    }
}

/// A redraw with no request.
pub open spec fn redrawn() -> (KeyOutcome, Option<ShowcaseRequest>) {
    (KeyOutcome::spec_redraw(true), None)
}

/// Neither a redraw nor a request.
pub open spec fn ignored() -> (KeyOutcome, Option<ShowcaseRequest>) {
    (KeyOutcome::spec_none(), None)
}

impl ShowcaseState {
    /// The focus, the key map, the colour editor and the hit lists are well formed.
    pub open spec fn wf(&self) -> bool {
        &&& self.focus.wf()
        &&& self.keymap.wf()
        &&& (self.color_editor matches Some(e) ==> e.wf())
        &&& self.hits.sections@.len() == 8
        &&& self.hits.settings_rows@.len() == 11
        &&& self.hits.color_inputs@.len() == 3
    }

    /// The rows of the table the data and adapters sections show.
    pub open spec fn table_rows(&self) -> int {
        if self.section == Section::Adapters {
            if self.browser_mode == BrowserMode::Capabilities {
                self.capability_count as int
            } else {
                self.adapter_ids@.len() as int
            }
        } else {
            3
        }
    }

    /// `after` is `self` with `section` shown and the focus on its pane.
    pub open spec fn section_selected(self, after: ShowcaseState, section: Section) -> bool {
        let target = section_focus(section);
        &&& focus_set_to(
            self.focus,
            after.focus,
            target,
            has_focus_value(self.focus, target) && !focused(self.focus, target),
        )
        &&& after == (ShowcaseState { section, focus: after.focus, ..self })
    }

    /// `after` is `self` with the demo modal open, remembering the focus.
    pub open spec fn modal_opened(self, after: ShowcaseState) -> bool {
        after == (ShowcaseState {
            modal_open: true,
            focus_before_modal: self.focus.spec_current(),
            ..self
        })
    }

    /// `after` is `self` with the demo modal closed and the remembered focus given back.
    pub open spec fn modal_closed(self, after: ShowcaseState) -> bool {
        &&& focus_restored(self.focus, after.focus, self.focus_before_modal)
        &&& after == (ShowcaseState {
            modal_open: false,
            focus_before_modal: None,
            focus: after.focus,
            ..self
        })
    }

    /// What running `command` does: a section command selects its section; the focus, palette,
    /// modal, animation and quit commands act; any other command does nothing.
    pub open spec fn command_run(
        self,
        after: ShowcaseState,
        command: Seq<char>,
        r: (KeyOutcome, Option<ShowcaseRequest>),
    ) -> bool {
        match command_section(command) {
            Some(section) => self.section_selected(after, section) && r == (
                KeyOutcome::spec_redraw(true),
                section_request(section),
            ),
            None => if command == "focus-next"@ || command == "focus-previous"@ {
                let changed = self.focus.spec_order().len() > 1;
                &&& focus_stepped(self.focus, after.focus, command == "focus-next"@, changed)
                &&& after == (ShowcaseState { focus: after.focus, ..self })
                &&& r == (KeyOutcome::spec_redraw(changed), None::<ShowcaseRequest>)
            } else if command == "command-palette"@ {
                &&& after.palette matches Some(p) && fresh_showcase_palette(p, self.language)
                &&& after == (ShowcaseState { palette: after.palette, ..self })
                &&& r == redrawn()
            } else if command == "open-modal"@ {
                self.modal_opened(after) && r == redrawn()
            } else if command == "toggle-animation"@ {
                after == (ShowcaseState { animation_enabled: !self.animation_enabled, ..self })
                    && r == redrawn()
            } else if command == "quit"@ {
                after == self && r == (KeyOutcome::spec_quit(), None::<ShowcaseRequest>)
            } else {
                after == self && r == ignored()
            },
        }
    }
}

impl ShowcaseState {
    /// Shows `section` and puts the focus on its pane.
    pub fn select_section(&mut self, section: Section) -> (r: Option<ShowcaseRequest>)
        requires
            old(self).wf(),
        ensures
            final(self).wf(),
            old(self).section_selected(*final(self), section),
            r == section_request(section),
    {
        self.section = section;
        let value: u32 = match section {
            Section::Widgets => 1,
            Section::Data => 2,
            Section::Input => 5,
            _ => 4,
        };
        let id = FocusId::new(value);
        proof {
            lemma_order_contains_value(self.focus, id);
            if let Some(c) = self.focus.spec_current() {
                lemma_focus_id_by_value(c, id);
            }
        }
        self.focus.set_focus(id);
        proof {
            if let Some(c) = self.focus.spec_current() {
                lemma_focus_id_by_value(c, id);
            }
        }
        if section == Section::Adapters {
            Some(ShowcaseRequest::RefreshDiagnostics)
        } else {
            None
        }
    }

    /// Opens the demo modal, remembering the focus.
    pub fn open_modal(&mut self)
        ensures
            old(self).modal_opened(*final(self)),
    {
        self.focus_before_modal = self.focus.current();
        self.modal_open = true;
    }

    /// Closes the demo modal and gives the remembered focus back.
    pub fn close_modal(&mut self)
        requires
            old(self).wf(),
        ensures
            final(self).wf(),
            old(self).modal_closed(*final(self)),
    {
        self.modal_open = false;
        let previous = self.focus_before_modal;
        self.focus_before_modal = None;
        match previous {
            Some(id) => {
                self.focus.set_focus(id);
            },
            None => {},
        }
    }

    /// Opens the command palette over the showcase's commands.
    pub fn open_palette(&mut self)
        ensures
            final(self).palette matches Some(p) && fresh_showcase_palette(p, old(self).language),
            *final(self) == (ShowcaseState { palette: final(self).palette, ..*old(self) }),
    {
        self.palette = Some(CommandPalette::new(showcase_palette_commands(self.language)));
    }

    /// Runs `command`.
    pub fn execute_command(&mut self, command: &str) -> (r: (KeyOutcome, Option<ShowcaseRequest>))
        requires
            old(self).wf(),
        ensures
            final(self).wf(),
            old(self).command_run(*final(self), command@, r),
    {
        let mut i: usize = 0;
        while i < 8
            invariant
                i <= 8,
                *self == *old(self),
                self.wf(),
                i > 0 ==> command@ != Section::Overview.spec_command(),
                i > 1 ==> command@ != Section::Widgets.spec_command(),
                i > 2 ==> command@ != Section::Data.spec_command(),
                i > 3 ==> command@ != Section::Graphics.spec_command(),
                i > 4 ==> command@ != Section::Input.spec_command(),
                i > 5 ==> command@ != Section::Interaction.spec_command(),
                i > 6 ==> command@ != Section::Settings.spec_command(),
                i > 7 ==> command@ != Section::Adapters.spec_command(),
            decreases 8 - i,
        {
            let section = Section::at(i);
            if str_is(command, section.command()) {
                assert(command_section(command@) == Some(section));
                let request = self.select_section(section);
                return (KeyOutcome { quit: false, redraw: true }, request);
            }
            i = i + 1;
        }
        assert(command_section(command@) is None);
        if str_is(command, "focus-next") || str_is(command, "focus-previous") {
            let changed = if str_is(command, "focus-next") {
                self.focus.focus_next()
            } else {
                self.focus.focus_previous()
            };
            return (KeyOutcome { quit: false, redraw: changed }, None);
        }
        if str_is(command, "command-palette") {
            self.open_palette();
            return (KeyOutcome { quit: false, redraw: true }, None);
        }
        if str_is(command, "open-modal") {
            self.open_modal();
            return (KeyOutcome { quit: false, redraw: true }, None);
        }
        if str_is(command, "toggle-animation") {
            self.animation_enabled = !self.animation_enabled;
            return (KeyOutcome { quit: false, redraw: true }, None);
        }
        if str_is(command, "quit") {
            return (KeyOutcome { quit: true, redraw: false }, None);
        }
        (KeyOutcome { quit: false, redraw: false }, None)
    }
}


/// The selection after stepping forward (`forward`) or back, wrapping, among `n` items.
pub open spec fn stepped_selection(selected: int, n: int, forward: bool) -> int {
    if n == 0 {
        0
    } else if forward {
        (clamp_selection(selected, n) + 1) % n
    } else {
        (clamp_selection(selected, n) + n - 1) % n
    }
}

/// `after` is the table state `before` paged up, or down (`down`), with result `changed`.
pub open spec fn table_paged(before: TableState, after: TableState, down: bool, changed: bool) -> bool {
    let v = before.spec_viewport();
    &&& after.spec_selected() == before.spec_selected()
    &&& after.spec_viewport().same_dimensions(&v)
    &&& after.spec_viewport().wf()
    &&& after.spec_viewport().spec_offset() == if down {
        v.clamped(v.spec_offset() + v.spec_viewport_height())
    } else {
        v.clamped(sat_sub(v.spec_offset() as int, v.spec_viewport_height() as int))
    }
    &&& changed == (after.spec_viewport().spec_offset() != v.spec_offset())
}

/// The viewport offset a scroll key moves to; `None` for other keys.
pub open spec fn scrolled_offset(v: ViewportState, code: KeyCode) -> Option<int> {
    if code == KeyCode::Up {
        Some(v.clamped(sat_sub(v.spec_offset() as int, 1)))
    } else if code == KeyCode::Down {
        Some(if v.spec_offset() + 1 <= v.spec_max_scroll() {
            v.spec_offset() + 1
        } else {
            v.spec_max_scroll()
        })
    } else if code == KeyCode::PageUp {
        Some(v.clamped(sat_sub(v.spec_offset() as int, v.spec_viewport_height() as int)))
    } else if code == KeyCode::PageDown {
        Some(if v.spec_offset() + v.spec_viewport_height() <= v.spec_max_scroll() {
            v.spec_offset() + v.spec_viewport_height()
        } else {
            v.spec_max_scroll()
        })
    } else if code == KeyCode::Home {
        Some(0)
    } else if code == KeyCode::End {
        Some(v.spec_max_scroll())
    } else {
        None
    }
}

/// Whether `roots` is the showcase's file tree: `DragonsTUI` holding `src` (with `runtime.rs`,
/// `frame.rs` and `widgets` holding `table.rs`, `tree.rs` and `textarea.rs`) and `examples`
/// (with `hello.rs` and `animation.rs`).
pub open spec fn showcase_tree_roots(roots: Seq<TreeNode>) -> bool {
    &&& roots.len() == 1
    &&& roots[0].spec_id() == 1
    &&& roots[0].spec_label().spec_spans() == seq![("DragonsTUI"@, Style::plain())]
    &&& roots[0].spec_children().len() == 2
    &&& {
        let src = roots[0].spec_children()[0];
        &&& src.spec_id() == 2
        &&& src.spec_label().spec_spans() == seq![("src"@, Style::plain())]
        &&& src.spec_children().len() == 3
        &&& crate::dashboard::leaf_node(src.spec_children()[0], 3, "runtime.rs"@)
        &&& crate::dashboard::leaf_node(src.spec_children()[1], 4, "frame.rs"@)
        &&& {
            let widgets = src.spec_children()[2];
            &&& widgets.spec_id() == 5
            &&& widgets.spec_label().spec_spans() == seq![("widgets"@, Style::plain())]
            &&& widgets.spec_children().len() == 3
            &&& crate::dashboard::leaf_node(widgets.spec_children()[0], 6, "table.rs"@)
            &&& crate::dashboard::leaf_node(widgets.spec_children()[1], 7, "tree.rs"@)
            &&& crate::dashboard::leaf_node(widgets.spec_children()[2], 8, "textarea.rs"@)
        }
    }
    &&& {
        let examples = roots[0].spec_children()[1];
        &&& examples.spec_id() == 9
        &&& examples.spec_label().spec_spans() == seq![("examples"@, Style::plain())]
        &&& examples.spec_children().len() == 2
        &&& crate::dashboard::leaf_node(examples.spec_children()[0], 10, "hello.rs"@)
        &&& crate::dashboard::leaf_node(examples.spec_children()[1], 11, "animation.rs"@)
    }
}

/// The showcase's file tree.
pub fn showcase_tree() -> (r: Tree)
    ensures
        showcase_tree_roots(r.spec_roots()),
{
    let mut widget_children: Vec<TreeNode> = Vec::new();
    widget_children.push(TreeNode::new(6, Line::raw("table.rs")));
    widget_children.push(TreeNode::new(7, Line::raw("tree.rs")));
    widget_children.push(TreeNode::new(8, Line::raw("textarea.rs")));
    let widgets = TreeNode::new(5, Line::raw("widgets")).children(widget_children);
    let mut src_children: Vec<TreeNode> = Vec::new();
    src_children.push(TreeNode::new(3, Line::raw("runtime.rs")));
    src_children.push(TreeNode::new(4, Line::raw("frame.rs")));
    src_children.push(widgets);
    let src = TreeNode::new(2, Line::raw("src")).children(src_children);
    let mut example_children: Vec<TreeNode> = Vec::new();
    example_children.push(TreeNode::new(10, Line::raw("hello.rs")));
    example_children.push(TreeNode::new(11, Line::raw("animation.rs")));
    let examples = TreeNode::new(9, Line::raw("examples")).children(example_children);
    let mut children: Vec<TreeNode> = Vec::new();
    children.push(src);
    children.push(examples);
    let root = TreeNode::new(1, Line::raw("DragonsTUI")).children(children);
    let mut roots: Vec<TreeNode> = Vec::new();
    roots.push(root);
    Tree::new(roots)
}

/// The tree command a key gives the file tree.
pub open spec fn tree_key_command(code: KeyCode) -> Option<TreeCommand> {
    if code == KeyCode::Up {
        Some(TreeCommand::Up)
    } else if code == KeyCode::Down {
        Some(TreeCommand::Down)
    } else if code == KeyCode::Left {
        Some(TreeCommand::Left)
    } else if code == KeyCode::Right {
        Some(TreeCommand::Right)
    } else if code == KeyCode::Enter {
        Some(TreeCommand::Toggle)
    } else {
        None
    }
}

impl ShowcaseState {
    /// What a key does to the focused pane: the list and table step their selection (the table
    /// also pages), the tree navigates, the viewport scrolls, and the input and text area edit.
    pub open spec fn widget_key_done(self, after: ShowcaseState, key: KeyEvent, r: (KeyOutcome, Option<ShowcaseRequest>)) -> bool {
        let code = key.code;
        &&& r.1 is None
        &&& !r.0.quit
        &&& if focused(self.focus, 1) && (code == KeyCode::Up || code == KeyCode::Down) {
            &&& r.0.redraw
            &&& after.list.spec_selected() == stepped_selection(
                self.list.spec_selected() as int,
                spec_list_items(self.section).len() as int,
                code == KeyCode::Down,
            )
            &&& after == (ShowcaseState { list: after.list, ..self })
        } else if focused(self.focus, 2) && (code == KeyCode::Up || code == KeyCode::Down) {
            &&& r.0.redraw
            &&& after.table.spec_selected() == stepped_selection(
                self.table.spec_selected() as int,
                self.table_rows(),
                code == KeyCode::Down,
            )
            &&& after.table.spec_viewport() == self.table.spec_viewport()
            &&& after == (ShowcaseState { table: after.table, ..self })
        } else if focused(self.focus, 2) && (code == KeyCode::PageUp || code == KeyCode::PageDown) {
            &&& table_paged(self.table, after.table, code == KeyCode::PageDown, r.0.redraw)
            &&& after == (ShowcaseState { table: after.table, ..self })
        } else if focused(self.focus, 3) && tree_key_command(code) is Some {
            &&& exists|roots: Seq<TreeNode>|
                #[trigger] showcase_tree_roots(roots) && (
                    after.tree.spec_selected(),
                    after.tree.spec_expanded(),
                    r.0.redraw,
                ) == tree_command(
                    roots,
                    self.tree.spec_selected(),
                    self.tree.spec_expanded(),
                    tree_key_command(code)->0,
                )
            &&& after.tree.spec_viewport() == self.tree.spec_viewport()
            &&& after == (ShowcaseState { tree: after.tree, ..self })
        } else if focused(self.focus, 4) && scrolled_offset(self.viewport, code) is Some {
            &&& after.viewport.wf()
            &&& after.viewport.same_dimensions(&self.viewport)
            &&& after.viewport.spec_offset() == scrolled_offset(self.viewport, code)->0
            &&& r.0.redraw == (after.viewport.spec_offset() != self.viewport.spec_offset())
            &&& after == (ShowcaseState { viewport: after.viewport, ..self })
        } else if focused(self.focus, 5) {
            &&& (after.input.text_view(), after.input.cursor_view(), r.0.redraw) == input_key_outcome(
                self.input.text_view(),
                self.input.cursor_view(),
                key,
            )
            &&& after == (ShowcaseState { input: after.input, ..self })
        } else if focused(self.focus, 6) {
            &&& (after.area@, r.0.redraw) == area_key(self.area@, key)
            &&& after == (ShowcaseState { area: after.area, ..self })
        } else {
            !r.0.redraw && after == self
        }
    }
}

impl ShowcaseState {
    /// A key for the focused pane.
    fn handle_widget_key(&mut self, key: KeyEvent) -> (r: (KeyOutcome, Option<ShowcaseRequest>))
        requires
            old(self).wf(),
        ensures
            final(self).wf(),
            old(self).widget_key_done(*final(self), key, r),
    {
        let current = self.focus.current();
        let value: u32 = match current {
            Some(id) => id.value(),
            None => 0,
        };
        let redraw = if value == 1 && (key.code == KeyCode::Up || key.code == KeyCode::Down) {
            let n = section_list_items(self.section).len();
            if key.code == KeyCode::Up {
                self.list.previous(n);
            } else {
                self.list.next(n);
            }
            true
        } else if value == 2 && (key.code == KeyCode::Up || key.code == KeyCode::Down) {
            let n = self.table_row_count();
            if key.code == KeyCode::Up {
                self.table.previous(n);
            } else {
                self.table.next(n);
            }
            true
        } else if value == 2 && (key.code == KeyCode::PageUp || key.code == KeyCode::PageDown) {
            if key.code == KeyCode::PageUp {
                self.table.page_up()
            } else {
                self.table.page_down()
            }
        } else if value == 3 && (key.code == KeyCode::Up || key.code == KeyCode::Down
            || key.code == KeyCode::Left || key.code == KeyCode::Right || key.code
            == KeyCode::Enter) {
            let tree = showcase_tree();
            let changed = if key.code == KeyCode::Up {
                tree.move_up(&mut self.tree)
            } else if key.code == KeyCode::Down {
                tree.move_down(&mut self.tree)
            } else if key.code == KeyCode::Left {
                tree.move_left(&mut self.tree)
            } else if key.code == KeyCode::Right {
                tree.move_right(&mut self.tree)
            } else {
                tree.toggle(&mut self.tree)
            };
            assert(showcase_tree_roots(tree.spec_roots()));
            changed
        } else if value == 4 && (key.code == KeyCode::Up || key.code == KeyCode::Down
            || key.code == KeyCode::PageUp || key.code == KeyCode::PageDown || key.code
            == KeyCode::Home || key.code == KeyCode::End) {
            if key.code == KeyCode::Up {
                self.viewport.scroll_up()
            } else if key.code == KeyCode::Down {
                self.viewport.scroll_down()
            } else if key.code == KeyCode::PageUp {
                self.viewport.page_up()
            } else if key.code == KeyCode::PageDown {
                self.viewport.page_down()
            } else if key.code == KeyCode::Home {
                self.viewport.home()
            } else {
                self.viewport.end()
            }
        } else if value == 5 {
            self.input.handle_key(key)
        } else if value == 6 {
            self.area.handle_key(key)
        } else {
            false
        };
        (KeyOutcome { quit: false, redraw }, None)
    }

    /// The rows of the table the data and adapters sections show.
    fn table_row_count(&self) -> (r: usize)
        ensures
            r == self.table_rows(),
    {
        if self.section == Section::Adapters {
            if self.browser_mode == BrowserMode::Capabilities {
                self.capability_count
            } else {
                self.adapter_ids.len()
            }
        } else {
            3
        }
    }
}


/// The settings row a key acts on and whether the key belongs to the settings screen: Up, Down
/// and Enter always, Left and Right on the language rows.
pub open spec fn settings_key(code: KeyCode, selected: SettingRow) -> bool {
    ||| code == KeyCode::Up
    ||| code == KeyCode::Down
    ||| code == KeyCode::Enter
    ||| (code == KeyCode::Left || code == KeyCode::Right) && (selected == SettingRow::English
        || selected == SettingRow::Turkish)
}

/// The other language.
pub open spec fn other_language(language: Language) -> Language {
    if language == Language::English {
        Language::Turkish
    } else {
        Language::English
    }
}

/// `e` is a colour editor just opened on `slot` over `color`: on the red channel, each input
/// holding its channel's decimal digits.
pub open spec fn editor_opened(e: ColorEditor, slot: ThemeSlot, color: Color) -> bool {
    &&& e.wf()
    &&& e.slot == slot
    &&& e.channel == 0
    &&& match color {
        Color::Rgb { r, g, b } => seeded_with(e.inputs@[0], r) && seeded_with(e.inputs@[1], g)
            && seeded_with(e.inputs@[2], b),
    }
}

/// `f` is the editor `e` after a key other than Escape and Enter: Up and Down move between
/// the channels, and any other key edits the current channel's input.
pub open spec fn editor_stepped(e: ColorEditor, f: ColorEditor, key: KeyEvent) -> bool {
    let ch = e.channel as int;
    let edited = input_key_outcome(e.inputs@[ch].text_view(), e.inputs@[ch].cursor_view(), key);
    &&& f.wf()
    &&& f.slot == e.slot
    &&& if key.code == KeyCode::Up {
        f.inputs == e.inputs && f.channel == sat_sub(ch, 1)
    } else if key.code == KeyCode::Down {
        f.inputs == e.inputs && f.channel == if ch + 1 <= 2 {
            ch + 1
        } else {
            2
        }
    } else {
        &&& f.channel == e.channel
        &&& forall|k: int| 0 <= k < 3 && k != ch ==> f.inputs@[k] == e.inputs@[k]
        &&& f.inputs@[ch].text_view() == edited.0
        &&& f.inputs@[ch].cursor_view() == edited.1
    }
}

impl ShowcaseState {
    /// What activating the selected settings row does: a language row picks that language, a
    /// colour row opens the colour editor on the slot's colour, and the reset row restores the
    /// default theme.
    pub open spec fn setting_activated(self, after: ShowcaseState) -> bool {
        match self.settings_selected {
            SettingRow::English => after == (ShowcaseState { language: Language::English, ..self }),
            SettingRow::Turkish => after == (ShowcaseState { language: Language::Turkish, ..self }),
            SettingRow::Color(slot) => {
                &&& after.color_editor matches Some(e) && editor_opened(e, slot, slot.spec_color(self.theme))
                &&& after == (ShowcaseState { color_editor: after.color_editor, ..self })
            },
            SettingRow::Reset => after == (ShowcaseState { theme: Theme::dragonfire(), ..self }),
        }
    }

    /// What a settings key does: Up and Down move the selection, wrapping; Left and Right
    /// switch the language on a language row; Enter activates the row.
    pub open spec fn settings_key_done(self, after: ShowcaseState, key: KeyEvent) -> bool {
        if key.code == KeyCode::Up || key.code == KeyCode::Down {
            after == (ShowcaseState {
                settings_selected: self.settings_selected.spec_next(
                    if key.code == KeyCode::Up {
                        -1i8
                    } else {
                        1i8
                    },
                ),
                ..self
            })
        } else if key.code == KeyCode::Enter {
            self.setting_activated(after)
        } else {
            after == (ShowcaseState { language: other_language(self.language), ..self })
        }
    }

    /// What a key does while the colour editor is open: Escape closes it, Enter applies its
    /// colour to the slot and closes it, Up and Down move between channels, and every other key
    /// edits the current channel's input. The screen is always redrawn.
    pub open spec fn editor_key_done(self, after: ShowcaseState, key: KeyEvent, r: (KeyOutcome, Option<ShowcaseRequest>)) -> bool {
        let e = self.color_editor->0;
        &&& r == redrawn()
        &&& if key.code == KeyCode::Escape {
            after == (ShowcaseState { color_editor: None, ..self })
        } else if key.code == KeyCode::Enter {
            after == (ShowcaseState {
                color_editor: None,
                theme: e.slot.spec_set(self.theme, e.spec_color()),
                ..self
            })
        } else {
            &&& after.color_editor matches Some(f) && editor_stepped(e, f, key)
            &&& after == (ShowcaseState { color_editor: after.color_editor, ..self })
        }
    }

    /// What a key does while the command palette is open: Escape closes it, Enter closes it
    /// and runs the selected match's command (only redrawing without a match), and every other
    /// key goes to the palette.
    pub open spec fn palette_key_done(self, after: ShowcaseState, key: KeyEvent, r: (KeyOutcome, Option<ShowcaseRequest>)) -> bool {
        let dropped = ShowcaseState { palette: None, ..self };
        let p = self.palette->0;
        if key.code == KeyCode::Escape {
            after == dropped && r == redrawn()
        } else if key.code == KeyCode::Enter {
            match resolved_selection(p.spec_selected(), p.spec_matches().len() as int) {
                Some(i) => dropped.command_run(
                    after,
                    p.spec_commands()[p.spec_matches()[i]].id.spec_text(),
                    r,
                ),
                None => after == dropped && r == redrawn(),
            }
        } else {
            &&& r.1 is None
            &&& !r.0.quit
            &&& after.palette matches Some(q) && palette_key_result(p, q, key, r.0.redraw)
            &&& after == (ShowcaseState { palette: after.palette, ..self })
        }
    }
}

impl ShowcaseState {
    /// Activates the selected settings row.
    pub fn activate_setting(&mut self)
        requires
            old(self).wf(),
        ensures
            final(self).wf(),
            old(self).setting_activated(*final(self)),
    {
        match self.settings_selected {
            SettingRow::English => self.language = Language::English,
            SettingRow::Turkish => self.language = Language::Turkish,
            SettingRow::Color(slot) => {
                self.color_editor = Some(ColorEditor::new(slot, slot.color(self.theme)));
            },
            SettingRow::Reset => self.theme = Theme::new(),
        }
    }

    /// A key on the settings screen, which `settings_key` accepts.
    fn handle_settings_key(&mut self, key: KeyEvent)
        requires
            old(self).wf(),
            settings_key(key.code, old(self).settings_selected),
        ensures
            final(self).wf(),
            old(self).settings_key_done(*final(self), key),
    {
        if key.code == KeyCode::Up {
            self.settings_selected = self.settings_selected.next(-1);
        } else if key.code == KeyCode::Down {
            self.settings_selected = self.settings_selected.next(1);
        } else if key.code == KeyCode::Enter {
            self.activate_setting();
        } else {
            self.language = match self.language {
                Language::English => Language::Turkish,
                Language::Turkish => Language::English,
            };
        }
    }

    /// A key while the colour editor is open.
    fn handle_editor_key(&mut self, key: KeyEvent) -> (r: (KeyOutcome, Option<ShowcaseRequest>))
        requires
            old(self).wf(),
            old(self).color_editor is Some,
        ensures
            final(self).wf(),
            old(self).editor_key_done(*final(self), key, r),
    {
        if key.code == KeyCode::Escape {
            self.color_editor = None;
        } else if key.code == KeyCode::Enter {
            let editor = self.color_editor.take();
            match editor {
                Some(e) => {
                    let color = e.color();
                    e.slot.set(&mut self.theme, color);
                },
                None => {},
            }
        } else {
            match &mut self.color_editor {
                Some(editor) => {
                    if key.code == KeyCode::Up {
                        editor.channel = if editor.channel == 0 {
                            0
                        } else {
                            editor.channel - 1
                        };
                    } else if key.code == KeyCode::Down {
                        editor.channel = if editor.channel + 1 <= 2 {
                            editor.channel + 1
                        } else {
                            2
                        };
                    } else {
                        let channel = editor.channel;
                        let ghost before = editor.inputs@;
                        let mut input = editor.inputs.remove(channel);
                        input.handle_key(key);
                        editor.inputs.insert(channel, input);
                        proof {
                            assert forall|k: int| 0 <= k < 3 && k != channel implies editor.inputs@[k]
                                == before[k] by {
                                if k < channel {
                                    assert(editor.inputs@[k] == before.remove(channel as int)[k]);
                                } else {
                                    assert(editor.inputs@[k] == before.remove(channel as int)[k - 1]);
                                }
                            }
                        }
                    }
                },
                None => {},
            }
        }
        (KeyOutcome { quit: false, redraw: true }, None)
    }

    /// A key while the command palette is open.
    fn handle_palette_key(&mut self, key: KeyEvent) -> (r: (KeyOutcome, Option<ShowcaseRequest>))
        requires
            old(self).wf(),
            old(self).palette is Some,
        ensures
            final(self).wf(),
            old(self).palette_key_done(*final(self), key, r),
    {
        if key.code == KeyCode::Escape {
            self.palette = None;
            return (KeyOutcome { quit: false, redraw: true }, None);
        }
        if key.code == KeyCode::Enter {
            let command = match &self.palette {
                Some(palette) => palette.execute_selected(),
                None => None,
            };
            self.palette = None;
            return match command {
                Some(command) => self.execute_command(command.as_str()),
                None => (KeyOutcome { quit: false, redraw: true }, None),
            };
        }
        let redraw = match &mut self.palette {
            Some(palette) => palette.handle_key(key),
            None => false,
        };
        (KeyOutcome { quit: false, redraw }, None)
    }
}


/// Whether `code` is the character `lower` or `upper`.
pub open spec fn key_is(code: KeyCode, lower: char, upper: char) -> bool {
    code == KeyCode::Char(lower) || code == KeyCode::Char(upper)
}

/// Whether `code` names an adapter action: `i`, `s`, `t`, `r`, `u` or `x`, in either case.
pub open spec fn adapter_action_key(code: KeyCode) -> bool {
    ||| key_is(code, 'i', 'I')
    ||| key_is(code, 's', 'S')
    ||| key_is(code, 't', 'T')
    ||| key_is(code, 'r', 'R')
    ||| key_is(code, 'u', 'U')
    ||| key_is(code, 'x', 'X')
}

impl ShowcaseState {
    /// The table selection clamped to the adapter rows, and the adapter it names (none where
    /// the row's id is not a valid adapter id).
    pub open spec fn adapter_pick(self) -> (int, Option<String>) {
        let n = self.adapter_ids@.len() as int;
        if n == 0 {
            (0, None)
        } else {
            let i = clamp_selection(self.table.spec_selected() as int, n);
            (i, self.adapter_ids@[i])
        }
    }

    /// `after` is `self` with the table selection clamped to the adapter rows.
    pub open spec fn picked(self, after: ShowcaseState) -> bool {
        &&& after.table.spec_selected() == self.adapter_pick().0
        &&& after.table.spec_viewport() == self.table.spec_viewport()
    }

    /// `after` is `self` browsing `mode`, the table back on its first row and focused.
    pub open spec fn browsing(self, after: ShowcaseState, mode: BrowserMode) -> bool {
        &&& after.table.spec_selected() == 0
        &&& after.table.spec_viewport() == self.table.spec_viewport()
        &&& focus_set_to(self.focus, after.focus, 2, has_focus_value(self.focus, 2) && !focused(self.focus, 2))
        &&& after == (ShowcaseState {
            browser_mode: mode,
            table: after.table,
            focus: after.focus,
            ..self
        })
    }

    /// What a key does in the adapters section before the common keys: `c` switches between
    /// the adapter and capability lists, the action keys ask the event loop to install, start,
    /// stop, restart or update an adapter or ask to confirm its removal, and a pending removal
    /// waits for Enter or Escape. `None` when the key is left to the common keys (`after` is
    /// then the state they see).
    pub open spec fn adapter_key_done(
        self,
        after: ShowcaseState,
        key: KeyEvent,
        r: Option<(KeyOutcome, Option<ShowcaseRequest>)>,
    ) -> bool {
        let code = key.code;
        let pick = self.adapter_pick();
        if self.browser_mode == BrowserMode::Capabilities && (key_is(code, 'c', 'C') || code
            == KeyCode::Escape) {
            r == Some(redrawn()) && self.browsing(after, BrowserMode::Adapters)
        } else if self.browser_mode == BrowserMode::Capabilities && adapter_action_key(code) {
            r == Some(ignored()) && after == self
        } else if self.browser_mode == BrowserMode::Adapters && key_is(code, 'c', 'C') {
            r == Some(redrawn()) && self.browsing(after, BrowserMode::Capabilities)
        } else if self.remove_confirmation {
            if code == KeyCode::Enter {
                &&& self.picked(after)
                &&& after == (ShowcaseState {
                    table: after.table,
                    remove_confirmation: false,
                    ..self
                })
                &&& r == Some(
                    (
                        KeyOutcome::spec_redraw(true),
                        match pick.1 {
                            Some(id) => Some(ShowcaseRequest::Remove { id }),
                            None => None,
                        },
                    ),
                )
            } else if code == KeyCode::Escape {
                r == Some(redrawn()) && after == (ShowcaseState {
                    remove_confirmation: false,
                    ..self
                })
            } else {
                r == Some(ignored()) && after == self
            }
        } else if key_is(code, 'i', 'I') {
            &&& after == self
            &&& r == match (self.install_id, self.registry_source) {
                (Some(id), Some(registry_source)) => Some(
                    (
                        KeyOutcome::spec_redraw(true),
                        Some(ShowcaseRequest::Install { id, registry_source }),
                    ),
                ),
                _ => None,
            }
        } else if key_is(code, 's', 'S') || key_is(code, 't', 'T') || key_is(code, 'r', 'R') {
            &&& self.picked(after)
            &&& after == (ShowcaseState { table: after.table, ..self })
            &&& r == match pick.1 {
                Some(id) => Some(
                    (
                        KeyOutcome::spec_redraw(true),
                        Some(
                            if key_is(code, 's', 'S') {
                                ShowcaseRequest::Start { id }
                            } else if key_is(code, 't', 'T') {
                                ShowcaseRequest::Stop { id }
                            } else {
                                ShowcaseRequest::Restart { id }
                            },
                        ),
                    ),
                ),
                None => None,
            }
        } else if key_is(code, 'u', 'U') {
            &&& self.picked(after)
            &&& after == (ShowcaseState { table: after.table, ..self })
            &&& r == match (pick.1, self.registry_source) {
                (Some(id), Some(registry_source)) => Some(
                    (
                        KeyOutcome::spec_redraw(true),
                        Some(ShowcaseRequest::Update { id, registry_source }),
                    ),
                ),
                _ => None,
            }
        } else if key_is(code, 'x', 'X') {
            &&& self.picked(after)
            &&& after == (ShowcaseState {
                table: after.table,
                remove_confirmation: pick.1 is Some,
                ..self
            })
            &&& r == Some(redrawn())
        } else {
            r is None && after == self
        }
    }
}

impl ShowcaseState {
    /// Clamps the table selection to the adapter rows and returns the adapter it names.
    fn selected_adapter_id(&mut self) -> (r: Option<String>)
        ensures
            old(self).picked(*final(self)),
            *final(self) == (ShowcaseState { table: final(self).table, ..*old(self) }),
            r == old(self).adapter_pick().1,
    {
        match self.table.selected_index(self.adapter_ids.len()) {
            Some(i) => match &self.adapter_ids[i] {
                Some(id) => Some(id.clone()),
                None => None,
            },
            None => None,
        }
    }

    /// Browses `mode` from its first row, with the table focused.
    fn browse(&mut self, mode: BrowserMode)
        requires
            old(self).wf(),
        ensures
            final(self).wf(),
            old(self).browsing(*final(self), mode),
    {
        self.browser_mode = mode;
        self.table.set_selected(0);
        let id = FocusId::new(2);
        proof {
            lemma_order_contains_value(self.focus, id);
            if let Some(c) = self.focus.spec_current() {
                lemma_focus_id_by_value(c, id);
            }
        }
        self.focus.set_focus(id);
        proof {
            if let Some(c) = self.focus.spec_current() {
                lemma_focus_id_by_value(c, id);
            }
        }
    }

    /// A key in the adapters section, before the common keys.
    fn handle_adapter_key(&mut self, key: KeyEvent) -> (r: Option<(KeyOutcome, Option<ShowcaseRequest>)>)
        requires
            old(self).wf(),
        ensures
            final(self).wf(),
            old(self).adapter_key_done(*final(self), key, r),
    {
        let code = key.code;
        let c_key = code == KeyCode::Char('c') || code == KeyCode::Char('C');
        let is_action = code == KeyCode::Char('i') || code == KeyCode::Char('I') || code
            == KeyCode::Char('s') || code == KeyCode::Char('S') || code == KeyCode::Char('t')
            || code == KeyCode::Char('T') || code == KeyCode::Char('r') || code == KeyCode::Char(
            'R',
        ) || code == KeyCode::Char('u') || code == KeyCode::Char('U') || code == KeyCode::Char(
            'x',
        ) || code == KeyCode::Char('X');
        if self.browser_mode == BrowserMode::Capabilities {
            if c_key || code == KeyCode::Escape {
                self.browse(BrowserMode::Adapters);
                return Some((KeyOutcome { quit: false, redraw: true }, None));
            }
            if is_action {
                return Some((KeyOutcome { quit: false, redraw: false }, None));
            }
        } else if c_key {
            self.browse(BrowserMode::Capabilities);
            return Some((KeyOutcome { quit: false, redraw: true }, None));
        }
        if self.remove_confirmation {
            if code == KeyCode::Enter {
                self.remove_confirmation = false;
                let request = match self.selected_adapter_id() {
                    Some(id) => Some(ShowcaseRequest::Remove { id }),
                    None => None,
                };
                return Some((KeyOutcome { quit: false, redraw: true }, request));
            }
            if code == KeyCode::Escape {
                self.remove_confirmation = false;
                return Some((KeyOutcome { quit: false, redraw: true }, None));
            }
            return Some((KeyOutcome { quit: false, redraw: false }, None));
        }
        if code == KeyCode::Char('i') || code == KeyCode::Char('I') {
            return match (&self.install_id, &self.registry_source) {
                (Some(id), Some(source)) => Some(
                    (
                        KeyOutcome { quit: false, redraw: true },
                        Some(ShowcaseRequest::Install { id: id.clone(), registry_source: source.clone() }),
                    ),
                ),
                _ => None,
            };
        }
        if code == KeyCode::Char('s') || code == KeyCode::Char('S') || code == KeyCode::Char('t')
            || code == KeyCode::Char('T') || code == KeyCode::Char('r') || code == KeyCode::Char(
            'R',
        ) {
            return match self.selected_adapter_id() {
                Some(id) => {
                    let request = if code == KeyCode::Char('s') || code == KeyCode::Char('S') {
                        ShowcaseRequest::Start { id }
                    } else if code == KeyCode::Char('t') || code == KeyCode::Char('T') {
                        ShowcaseRequest::Stop { id }
                    } else {
                        ShowcaseRequest::Restart { id }
                    };
                    Some((KeyOutcome { quit: false, redraw: true }, Some(request)))
                },
                None => None,
            };
        }
        if code == KeyCode::Char('u') || code == KeyCode::Char('U') {
            let selected = self.selected_adapter_id();
            return match (selected, &self.registry_source) {
                (Some(id), Some(source)) => Some(
                    (
                        KeyOutcome { quit: false, redraw: true },
                        Some(ShowcaseRequest::Update { id, registry_source: source.clone() }),
                    ),
                ),
                _ => None,
            };
        }
        if code == KeyCode::Char('x') || code == KeyCode::Char('X') {
            let selected = self.selected_adapter_id();
            self.remove_confirmation = selected.is_some();
            return Some((KeyOutcome { quit: false, redraw: true }, None));
        }
        None
    }
}


impl ShowcaseState {
    /// What a key does once no overlay, editor or adapter key took it: a number selects its
    /// section, `m` opens the demo modal, a bound key runs its command, the settings screen
    /// takes its keys, and any other key goes to the focused pane.
    pub open spec fn common_key_done(self, after: ShowcaseState, key: KeyEvent, r: (KeyOutcome, Option<ShowcaseRequest>)) -> bool {
        let number = match key.code {
            KeyCode::Char(c) => Section::spec_from_number(c),
            _ => None,
        };
        if number is Some {
            self.section_selected(after, number->0) && r == (
                KeyOutcome::spec_redraw(true),
                section_request(number->0),
            )
        } else if key_is(key.code, 'm', 'M') {
            self.modal_opened(after) && r == redrawn()
        } else if self.keymap.lookup(key.code, key.modifiers) is Some {
            self.command_run(after, self.keymap.lookup(key.code, key.modifiers)->0, r)
        } else if self.section == Section::Settings && settings_key(key.code, self.settings_selected) {
            self.settings_key_done(after, key) && r == redrawn()
        } else {
            self.widget_key_done(after, key, r)
        }
    }
}

/// What a key does to the showcase: `q` and Ctrl-C quit; on the splash Enter or Space
/// continues; otherwise the colour editor, the demo modal, the command palette and the adapter
/// keys take it in that order before the common keys.
pub open spec fn showcase_key_handled(
    before: ShowcaseState,
    after: ShowcaseState,
    key: KeyEvent,
    r: (KeyOutcome, Option<ShowcaseRequest>),
) -> bool {
    if quit_key(key) {
        r == (KeyOutcome::spec_quit(), None::<ShowcaseRequest>) && after == before
    } else if before.phase == ShowcasePhase::Splash {
        if key.code == KeyCode::Enter || key.code == KeyCode::Char(' ') {
            r == redrawn() && after == (ShowcaseState { phase: ShowcasePhase::Showcase, ..before })
        } else {
            r == ignored() && after == before
        }
    } else if before.color_editor is Some {
        before.editor_key_done(after, key, r)
    } else if before.modal_open {
        if key.code == KeyCode::Escape || key.code == KeyCode::Enter {
            before.modal_closed(after) && r == redrawn()
        } else {
            r == ignored() && after == before
        }
    } else if before.palette is Some {
        before.palette_key_done(after, key, r)
    } else if before.section == Section::Adapters {
        exists|mid: ShowcaseState, o: Option<(KeyOutcome, Option<ShowcaseRequest>)>|
            #[trigger] before.adapter_key_done(mid, key, o) && match o {
                Some(x) => r == x && after == mid,
                None => mid.common_key_done(after, key, r),
            }
    } else {
        before.common_key_done(after, key, r)
    }
}

impl ShowcaseState {
    /// A key once no overlay, editor or adapter key took it.
    fn handle_common_key(&mut self, key: KeyEvent) -> (r: (KeyOutcome, Option<ShowcaseRequest>))
        requires
            old(self).wf(),
        ensures
            final(self).wf(),
            old(self).common_key_done(*final(self), key, r),
    {
        let number = match key.code {
            KeyCode::Char(c) => Section::from_number(c),
            _ => None,
        };
        match number {
            Some(section) => {
                let request = self.select_section(section);
                return (KeyOutcome { quit: false, redraw: true }, request);
            },
            None => {},
        }
        if key.code == KeyCode::Char('m') || key.code == KeyCode::Char('M') {
            self.open_modal();
            return (KeyOutcome { quit: false, redraw: true }, None);
        }
        let command = match self.keymap.resolve(key) {
            Some(c) => Some(crate::chars::copy_string(c.as_str())),
            None => None,
        };
        match command {
            Some(c) => {
                return self.execute_command(c.as_str());
            },
            None => {},
        }
        if self.section == Section::Settings && (key.code == KeyCode::Up || key.code
            == KeyCode::Down || key.code == KeyCode::Enter || ((key.code == KeyCode::Left
            || key.code == KeyCode::Right) && (self.settings_selected == SettingRow::English
            || self.settings_selected == SettingRow::Turkish))) {
            self.handle_settings_key(key);
            return (KeyOutcome { quit: false, redraw: true }, None);
        }
        self.handle_widget_key(key)
    }

    /// Handles a key: quits, leaves the splash, or routes it to the colour editor, the demo
    /// modal, the command palette, the adapter keys or the common keys. Adapter work comes back
    /// as a request for the event loop.
    pub fn handle_key(&mut self, key: KeyEvent) -> (r: (KeyOutcome, Option<ShowcaseRequest>))
        requires
            old(self).wf(),
        ensures
            final(self).wf(),
            showcase_key_handled(*old(self), *final(self), key, r),
    {
        if key.code == KeyCode::Char('q') || (key.modifiers.ctrl && (key.code == KeyCode::Char('c')
            || key.code == KeyCode::Char('C'))) {
            return (KeyOutcome { quit: true, redraw: false }, None);
        }
        if self.phase == ShowcasePhase::Splash {
            if key.code == KeyCode::Enter || key.code == KeyCode::Char(' ') {
                self.phase = ShowcasePhase::Showcase;
                return (KeyOutcome { quit: false, redraw: true }, None);
            }
            return (KeyOutcome { quit: false, redraw: false }, None);
        }
        if self.color_editor.is_some() {
            return self.handle_editor_key(key);
        }
        if self.modal_open {
            if key.code == KeyCode::Escape || key.code == KeyCode::Enter {
                self.close_modal();
                return (KeyOutcome { quit: false, redraw: true }, None);
            }
            return (KeyOutcome { quit: false, redraw: false }, None);
        }
        if self.palette.is_some() {
            return self.handle_palette_key(key);
        }
        if self.section == Section::Adapters {
            let ghost before = *self;
            let o = self.handle_adapter_key(key);
            let ghost mid = *self;
            match o {
                Some(x) => {
                    assert(before.adapter_key_done(mid, key, o));
                    return x;
                },
                None => {
                    let r = self.handle_common_key(key);
                    assert(before.adapter_key_done(mid, key, o));
                    return r;
                },
            }
        }
        self.handle_common_key(key)
    }
}


/// The first of `rects` that holds `p`, if any.
pub open spec fn hit_index(rects: Seq<Rect>, p: Position) -> Option<int>
    decreases rects.len(),
{
    if rects.len() == 0 {
        None
    } else {
        match hit_index(rects.drop_last(), p) {
            Some(i) => Some(i),
            None => if rects.last().spec_contains(p) {
                Some(rects.len() - 1)
            } else {
                None
            },
        }
    }
}

/// A hit names one of the rectangles.
proof fn lemma_hit_index_bounds(rects: Seq<Rect>, p: Position)
    ensures
        hit_index(rects, p) matches Some(i) ==> 0 <= i < rects.len(),
    decreases rects.len(),
{
    if rects.len() > 0 {
        lemma_hit_index_bounds(rects.drop_last(), p);
    }
}

/// The first of `rects` that holds `p`, if any.
fn find_hit(rects: &Vec<Rect>, p: Position) -> (r: Option<usize>)
    ensures
        r matches Some(i) ==> i < rects@.len() && hit_index(rects@, p) == Some(i as int),
        r is None <==> hit_index(rects@, p) is None,
{
    proof {
        lemma_hit_index_bounds(rects@, p);
    }
    let mut i: usize = 0;
    while i < rects.len()
        invariant
            i <= rects@.len(),
            hit_index(rects@.take(i as int), p) is None,
        decreases rects@.len() - i,
    {
        proof {
            assert(rects@.take(i + 1).drop_last() == rects@.take(i as int));
        }
        if rects[i].contains(p) {
            proof {
                lemma_hit_prefix(rects@, p, i as int);
            }
            return Some(i);
        }
        i = i + 1;
    }
    proof {
        assert(rects@.take(rects@.len() as int) == rects@);
    }
    None
}

/// A hit within the first `i + 1` rectangles, with none before it, is the first hit overall.
proof fn lemma_hit_prefix(rects: Seq<Rect>, p: Position, i: int)
    requires
        0 <= i < rects.len(),
        hit_index(rects.take(i), p) is None,
        rects[i].spec_contains(p),
    ensures
        hit_index(rects, p) == Some(i),
    decreases rects.len(),
{
    if rects.len() == i + 1 {
        assert(rects.drop_last() == rects.take(i));
    } else {
        assert(rects.drop_last().take(i) =~= rects.take(i));
        lemma_hit_prefix(rects.drop_last(), p, i);
    }
}

/// The command a click on palette row `row` runs: the match `row` rows below the clamped
/// selection (stopping at the last match), or none without matches.
pub open spec fn clicked_command(p: CommandPalette, row: int) -> Option<Seq<char>> {
    let count = p.spec_matches().len() as int;
    if count == 0 {
        None
    } else {
        let start = if p.spec_selected() <= count - 1 {
            p.spec_selected()
        } else {
            count - 1
        };
        let i = if start + row <= count - 1 {
            start + row
        } else {
            count - 1
        };
        Some(p.spec_commands()[p.spec_matches()[i]].id.spec_text())
    }
}

/// The tree node a click on row `row` of the tree selects.
pub open spec fn tree_row_id(row: int) -> u64 {
    if row == 0 {
        1
    } else if row == 1 {
        2
    } else if row == 2 {
        3
    } else if row == 3 {
        4
    } else {
        5
    }
}

impl ShowcaseState {
    /// What a mouse event does while the colour editor is open: a left click on Apply applies
    /// its colour and closes it, a left click on a channel's input moves to that channel, and
    /// any other left click only redraws; other events do nothing.
    pub open spec fn editor_mouse_done(self, after: ShowcaseState, mouse: MouseEvent, r: (KeyOutcome, Option<ShowcaseRequest>)) -> bool {
        let p = Position { x: mouse.x, y: mouse.y };
        let e = self.color_editor->0;
        if mouse.kind != MouseKind::LeftDown {
            r == ignored() && after == self
        } else if self.hits.color_apply.spec_contains(p) {
            r == redrawn() && after == (ShowcaseState {
                color_editor: None,
                theme: e.slot.spec_set(self.theme, e.spec_color()),
                ..self
            })
        } else if hit_index(self.hits.color_inputs@, p) is Some {
            r == redrawn() && after == (ShowcaseState {
                color_editor: Some(
                    ColorEditor {
                        channel: hit_index(self.hits.color_inputs@, p)->0 as usize,
                        ..e
                    },
                ),
                ..self
            })
        } else {
            r == redrawn() && after == self
        }
    }

    /// What a mouse event does once no overlay or editor took it: a left click on a section
    /// tab selects it, on a settings row selects and activates it, on the list, table or tree
    /// focuses that pane and selects the clicked row, on the input or text area focuses it;
    /// the wheel scrolls the viewport under the pointer.
    pub open spec fn pane_mouse_done(self, after: ShowcaseState, mouse: MouseEvent, r: (KeyOutcome, Option<ShowcaseRequest>)) -> bool {
        let p = Position { x: mouse.x, y: mouse.y };
        let left = mouse.kind == MouseKind::LeftDown;
        let h = self.hits;
        if left && hit_index(h.sections@, p) is Some {
            let section = section_at(hit_index(h.sections@, p)->0);
            self.section_selected(after, section) && r == (
                KeyOutcome::spec_redraw(true),
                section_request(section),
            )
        } else if left && self.section == Section::Settings && hit_index(h.settings_rows@, p) is Some {
            let chosen = ShowcaseState {
                settings_selected: setting_at(hit_index(h.settings_rows@, p)->0),
                ..self
            };
            chosen.setting_activated(after) && r == redrawn()
        } else if left && h.list.spec_contains(p) {
            &&& focus_set_to(self.focus, after.focus, 1, has_focus_value(self.focus, 1) && !focused(self.focus, 1))
            &&& after.list.spec_selected() == mouse.y - h.list.y
            &&& after == (ShowcaseState { focus: after.focus, list: after.list, ..self })
            &&& r == redrawn()
        } else if left && h.table.spec_contains(p) {
            &&& focus_set_to(self.focus, after.focus, 2, has_focus_value(self.focus, 2) && !focused(self.focus, 2))
            &&& after.table.spec_selected() == mouse.y - h.table.y
            &&& after.table.spec_viewport() == self.table.spec_viewport()
            &&& after == (ShowcaseState { focus: after.focus, table: after.table, ..self })
            &&& r == redrawn()
        } else if left && h.tree.spec_contains(p) {
            &&& focus_set_to(self.focus, after.focus, 3, has_focus_value(self.focus, 3) && !focused(self.focus, 3))
            &&& after.tree.spec_selected() == Some(tree_row_id(mouse.y - h.tree.y))
            &&& after.tree.spec_expanded() == self.tree.spec_expanded()
            &&& after.tree.spec_viewport() == self.tree.spec_viewport()
            &&& after == (ShowcaseState { focus: after.focus, tree: after.tree, ..self })
            &&& r == redrawn()
        } else if left && (h.input.spec_contains(p) || h.area.spec_contains(p)) {
            let target: u32 = if h.input.spec_contains(p) {
                5
            } else {
                6
            };
            let changed = has_focus_value(self.focus, target) && !focused(self.focus, target);
            &&& focus_set_to(self.focus, after.focus, target, changed)
            &&& after == (ShowcaseState { focus: after.focus, ..self })
            &&& r == (KeyOutcome::spec_redraw(changed), None::<ShowcaseRequest>)
        } else if (mouse.kind == MouseKind::ScrollUp || mouse.kind == MouseKind::ScrollDown)
            && h.viewport.spec_contains(p) {
            let code = if mouse.kind == MouseKind::ScrollUp {
                KeyCode::Up
            } else {
                KeyCode::Down
            };
            &&& after.viewport.wf()
            &&& after.viewport.same_dimensions(&self.viewport)
            &&& after.viewport.spec_offset() == scrolled_offset(self.viewport, code)->0
            &&& r == (
                KeyOutcome::spec_redraw(after.viewport.spec_offset() != self.viewport.spec_offset()),
                None::<ShowcaseRequest>,
            )
            &&& after == (ShowcaseState { viewport: after.viewport, ..self })
        } else {
            r == ignored() && after == self
        }
    }
}

/// What a mouse event does to the showcase: nothing on the splash; a left click on a palette
/// row runs that row's command, and any other event is ignored while the palette is open;
/// then the colour editor, the demo modal (a click on it closes it) and the panes take it.
pub open spec fn showcase_mouse_handled(
    before: ShowcaseState,
    after: ShowcaseState,
    mouse: MouseEvent,
    r: (KeyOutcome, Option<ShowcaseRequest>),
) -> bool {
    let p = Position { x: mouse.x, y: mouse.y };
    let left = mouse.kind == MouseKind::LeftDown;
    if before.phase == ShowcasePhase::Splash {
        r == ignored() && after == before
    } else if before.palette is Some {
        if left && before.hits.palette_rows.spec_contains(p) {
            let dropped = ShowcaseState { palette: None, ..before };
            match clicked_command(before.palette->0, mouse.y - before.hits.palette_rows.y) {
                Some(command) => dropped.command_run(after, command, r),
                None => after == dropped && r == redrawn(),
            }
        } else {
            r == ignored() && after == before
        }
    } else if before.color_editor is Some {
        before.editor_mouse_done(after, mouse, r)
    } else if before.modal_open {
        if left && before.hits.modal.spec_contains(p) {
            before.modal_closed(after) && r == redrawn()
        } else {
            r == ignored() && after == before
        }
    } else {
        before.pane_mouse_done(after, mouse, r)
    }
}


impl ShowcaseState {
    /// Focuses the pane with identity number `value`; returns whether the focus moved.
    fn focus_pane(&mut self, value: u32) -> (changed: bool)
        requires
            old(self).wf(),
        ensures
            final(self).wf(),
            focus_set_to(old(self).focus, final(self).focus, value, changed),
            changed == (has_focus_value(old(self).focus, value) && !focused(old(self).focus, value)),
            *final(self) == (ShowcaseState { focus: final(self).focus, ..*old(self) }),
    {
        let id = FocusId::new(value);
        proof {
            lemma_order_contains_value(self.focus, id);
            if let Some(c) = self.focus.spec_current() {
                lemma_focus_id_by_value(c, id);
            }
        }
        let changed = self.focus.set_focus(id);
        proof {
            if let Some(c) = self.focus.spec_current() {
                lemma_focus_id_by_value(c, id);
            }
        }
        changed
    }

    /// A click on palette row `row`: the palette closes and runs that row's command.
    fn click_palette_row(&mut self, row: usize) -> (r: (KeyOutcome, Option<ShowcaseRequest>))
        requires
            old(self).wf(),
            old(self).palette is Some,
        ensures
            final(self).wf(),
            ({
                let dropped = ShowcaseState { palette: None, ..*old(self) };
                match clicked_command(old(self).palette->0, row as int) {
                    Some(command) => dropped.command_run(*final(self), command, r),
                    None => *final(self) == dropped && r == redrawn(),
                }
            }),
    {
        let ghost p0 = self.palette->0;
        let command = match &mut self.palette {
            Some(palette) => {
                let ghost count = p0.spec_matches().len() as int;
                let ghost start = if p0.spec_selected() <= count - 1 {
                    p0.spec_selected()
                } else {
                    count - 1
                };
                let mut k: usize = 0;
                while k < row
                    invariant
                        k <= row,
                        count == p0.spec_matches().len(),
                        palette.spec_commands() == p0.spec_commands(),
                        palette.spec_query() == p0.spec_query(),
                        palette.spec_matches() == p0.spec_matches(),
                        count == 0 || k == 0 ==> palette.spec_selected() == p0.spec_selected(),
                        count > 0 ==> start == if p0.spec_selected() <= count - 1 {
                            p0.spec_selected()
                        } else {
                            count - 1
                        },
                        count > 0 && k > 0 ==> palette.spec_selected() == if start + k <= count - 1 {
                            start + k
                        } else {
                            count - 1
                        },
                    decreases row - k,
                {
                    let down = KeyEvent { code: KeyCode::Down, modifiers: KeyModifiers { ctrl: false, alt: false, shift: false } };
                    palette.handle_key(down);
                    k = k + 1;
                }
                palette.execute_selected()
            },
            None => None,
        };
        self.palette = None;
        match command {
            Some(command) => self.execute_command(command.as_str()),
            None => (KeyOutcome { quit: false, redraw: true }, None),
        }
    }

    /// A mouse event while the colour editor is open.
    fn handle_editor_mouse(&mut self, mouse: MouseEvent) -> (r: (KeyOutcome, Option<ShowcaseRequest>))
        requires
            old(self).wf(),
            old(self).color_editor is Some,
        ensures
            final(self).wf(),
            old(self).editor_mouse_done(*final(self), mouse, r),
    {
        if mouse.kind != MouseKind::LeftDown {
            return (KeyOutcome { quit: false, redraw: false }, None);
        }
        let point = Position { x: mouse.x, y: mouse.y };
        if self.hits.color_apply.contains(point) {
            let editor = self.color_editor.take();
            match editor {
                Some(e) => {
                    let color = e.color();
                    e.slot.set(&mut self.theme, color);
                },
                None => {},
            }
        } else {
            match find_hit(&self.hits.color_inputs, point) {
                Some(channel) => {
                    match &mut self.color_editor {
                        Some(editor) => {
                            editor.channel = channel;
                        },
                        None => {},
                    }
                },
                None => {},
            }
        }
        (KeyOutcome { quit: false, redraw: true }, None)
    }

    /// A mouse event once no overlay or editor took it.
    fn handle_pane_mouse(&mut self, mouse: MouseEvent) -> (r: (KeyOutcome, Option<ShowcaseRequest>))
        requires
            old(self).wf(),
        ensures
            final(self).wf(),
            old(self).pane_mouse_done(*final(self), mouse, r),
    {
        let point = Position { x: mouse.x, y: mouse.y };
        let left = mouse.kind == MouseKind::LeftDown;
        if left {
            match find_hit(&self.hits.sections, point) {
                Some(i) => {
                    let request = self.select_section(Section::at(i));
                    return (KeyOutcome { quit: false, redraw: true }, request);
                },
                None => {},
            }
            if self.section == Section::Settings {
                match find_hit(&self.hits.settings_rows, point) {
                    Some(i) => {
                        self.settings_selected = SettingRow::at(i);
                        self.activate_setting();
                        return (KeyOutcome { quit: false, redraw: true }, None);
                    },
                    None => {},
                }
            }
            if self.hits.list.contains(point) {
                self.focus_pane(1);
                self.list.set_selected((mouse.y - self.hits.list.y) as usize);
                return (KeyOutcome { quit: false, redraw: true }, None);
            }
            if self.hits.table.contains(point) {
                self.focus_pane(2);
                self.table.set_selected((mouse.y - self.hits.table.y) as usize);
                return (KeyOutcome { quit: false, redraw: true }, None);
            }
            if self.hits.tree.contains(point) {
                self.focus_pane(3);
                let row = mouse.y - self.hits.tree.y;
                let id: u64 = if row == 0 {
                    1
                } else if row == 1 {
                    2
                } else if row == 2 {
                    3
                } else if row == 3 {
                    4
                } else {
                    5
                };
                self.tree.set_selected(id);
                return (KeyOutcome { quit: false, redraw: true }, None);
            }
            if self.hits.input.contains(point) {
                let changed = self.focus_pane(5);
                return (KeyOutcome { quit: false, redraw: changed }, None);
            }
            if self.hits.area.contains(point) {
                let changed = self.focus_pane(6);
                return (KeyOutcome { quit: false, redraw: changed }, None);
            }
        }
        if mouse.kind == MouseKind::ScrollUp && self.hits.viewport.contains(point) {
            let changed = self.viewport.scroll_up();
            return (KeyOutcome { quit: false, redraw: changed }, None);
        }
        if mouse.kind == MouseKind::ScrollDown && self.hits.viewport.contains(point) {
            let changed = self.viewport.scroll_down();
            return (KeyOutcome { quit: false, redraw: changed }, None);
        }
        (KeyOutcome { quit: false, redraw: false }, None)
    }

    /// Handles a mouse event: nothing on the splash; otherwise the command palette, the colour
    /// editor, the demo modal and the panes take it in that order.
    pub fn handle_mouse(&mut self, mouse: MouseEvent) -> (r: (KeyOutcome, Option<ShowcaseRequest>))
        requires
            old(self).wf(),
        ensures
            final(self).wf(),
            showcase_mouse_handled(*old(self), *final(self), mouse, r),
    {
        if self.phase == ShowcasePhase::Splash {
            return (KeyOutcome { quit: false, redraw: false }, None);
        }
        let point = Position { x: mouse.x, y: mouse.y };
        if self.palette.is_some() {
            if mouse.kind == MouseKind::LeftDown && self.hits.palette_rows.contains(point) {
                let row = (mouse.y - self.hits.palette_rows.y) as usize;
                return self.click_palette_row(row);
            }
            return (KeyOutcome { quit: false, redraw: false }, None);
        }
        if self.color_editor.is_some() {
            return self.handle_editor_mouse(mouse);
        }
        if self.modal_open {
            if mouse.kind == MouseKind::LeftDown && self.hits.modal.contains(point) {
                self.close_modal();
                return (KeyOutcome { quit: false, redraw: true }, None);
            }
            return (KeyOutcome { quit: false, redraw: false }, None);
        }
        self.handle_pane_mouse(mouse)
    }
}

/// `count` empty rectangles.
fn zero_rects(count: usize) -> (r: Vec<Rect>)
    ensures
        r@ == Seq::new(count as nat, |i: int| Rect { x: 0, y: 0, width: 0, height: 0 }),
{
    let mut rects: Vec<Rect> = Vec::new();
    let mut i: usize = 0;
    while i < count
        invariant
            i <= count,
            rects@ == Seq::new(i as nat, |k: int| Rect { x: 0, y: 0, width: 0, height: 0 }),
        decreases count - i,
    {
        rects.push(Rect::new(0, 0, 0, 0));
        i = i + 1;
        assert(rects@ =~= Seq::new(i as nat, |k: int| Rect { x: 0, y: 0, width: 0, height: 0 }));
    }
    rects
}

/// Every hit region is empty, with room for every section, settings row and colour channel.
pub open spec fn no_hits(h: ShowcaseHits) -> bool {
    let zero = Rect { x: 0, y: 0, width: 0, height: 0 };
    &&& h.sections@ == Seq::new(8, |i: int| zero)
    &&& h.settings_rows@ == Seq::new(11, |i: int| zero)
    &&& h.color_inputs@ == Seq::new(3, |i: int| zero)
    &&& h.list == zero && h.table == zero && h.tree == zero && h.viewport == zero
    &&& h.input == zero && h.area == zero && h.modal == zero && h.palette_rows == zero
    &&& h.color_apply == zero
}

impl ShowcaseHits {
    /// No region drawn yet.
    pub fn empty() -> (r: Self)
        ensures
            no_hits(r),
    {
        let zero = Rect::new(0, 0, 0, 0);
        ShowcaseHits {
            sections: zero_rects(8),
            list: zero,
            table: zero,
            tree: zero,
            viewport: zero,
            input: zero,
            area: zero,
            modal: zero,
            palette_rows: zero,
            settings_rows: zero_rects(11),
            color_inputs: zero_rects(3),
            color_apply: zero,
        }
    }
}

/// The text the showcase's input starts with.
pub open spec fn seeded_input_text() -> Seq<char> {
    "Type here: \u{130}stanbul \u{1f680}"@
}

/// The text the showcase's text area starts with.
pub open spec fn seeded_area_text() -> Seq<char> {
    "\u{130}stanbul\n\u{4f60}\u{597d}\n\u{1f680}  \u{e9}  \u{2764}\u{fe0f}\n\u{1f468}\u{200d}\u{1f469}\u{200d}\u{1f467}\u{200d}\u{1f466}  \u{1f1f9}\u{1f1f7}"@
}

/// An input holding what typing `text` character by character gives.
fn typed_input(text: &str) -> (r: TextInput)
    ensures
        (r.text_view(), r.cursor_view()) == typed(text@),
{
    let chars = crate::chars::str_chars(text);
    let mut input = TextInput::new();
    let mut i: usize = 0;
    while i < chars.len()
        invariant
            i <= chars@.len(),
            chars@ == text@,
            (input.text_view(), input.cursor_view()) == typed(chars@.take(i as int)),
        decreases chars@.len() - i,
    {
        proof {
            assert(chars@.take(i + 1).drop_last() == chars@.take(i as int));
            assert(chars@.take(i + 1).last() == chars@[i as int]);
        }
        input.insert(chars[i]);
        i = i + 1;
    }
    proof {
        assert(chars@.take(chars@.len() as int) == chars@);
    }
    input
}

/// The showcase as it starts: on the splash, showing the overview in English with the
/// Dragonfire theme, the focus on the list, the tree's first two levels open with its root
/// selected, the input and text area seeded, nothing open and no region drawn yet.
pub open spec fn fresh_showcase(s: ShowcaseState) -> bool {
    &&& s.wf()
    &&& s.phase == ShowcasePhase::Splash
    &&& s.section == Section::Overview
    &&& s.language == Language::English
    &&& s.theme == Theme::dragonfire()
    &&& s.settings_selected == SettingRow::English
    &&& s.color_editor is None
    &&& focus_values(s.focus) == seq![1u32, 2, 3, 4, 5, 6]
    &&& focused(s.focus, 1)
    &&& forall|code: KeyCode, modifiers: KeyModifiers|
        #[trigger] s.keymap.lookup(code, modifiers) == dashboard_binding(code, modifiers)
    &&& s.list.spec_selected() == 0
    &&& s.table.spec_selected() == 0
    &&& s.table.spec_viewport() == ViewportState::spec_initial()
    &&& s.tree.spec_selected() == Some(1u64)
    &&& s.tree.spec_expanded() == set![1u64, 2u64]
    &&& s.tree.spec_viewport() == ViewportState::spec_initial()
    &&& s.viewport.wf() && s.viewport.spec_offset() == 0
    &&& s.viewport.spec_content_height() == 0 && s.viewport.spec_viewport_height() == 0
    &&& (s.input.text_view(), s.input.cursor_view()) == typed(seeded_input_text())
    &&& s.area@ == (AreaState {
        text: seeded_area_text(),
        cursor: grapheme_clusters(seeded_area_text()).len() as int,
        ..empty_area()
    })
    &&& s.palette is None
    &&& !s.modal_open
    &&& s.focus_before_modal is None
    &&& s.animation_enabled
    &&& no_hits(s.hits)
    &&& s.browser_mode == BrowserMode::Adapters
    &&& !s.remove_confirmation
}

impl ShowcaseState {
    /// A fresh showcase over the adapter rows `adapter_ids` (`None` where the host refuses a
    /// row's id), with `capability_count` capabilities, an optional adapter to install and
    /// its registry source.
    pub fn new(
        adapter_ids: Vec<Option<String>>,
        capability_count: usize,
        install_id: Option<String>,
        registry_source: Option<String>,
    ) -> (r: Self)
        ensures
            fresh_showcase(r),
            r.adapter_ids@ == adapter_ids@,
            r.capability_count == capability_count,
            r.install_id == install_id,
            r.registry_source == registry_source,
    {
        let mut order: Vec<FocusId> = Vec::new();
        let mut value: u32 = 1;
        while value <= 6
            invariant
                1 <= value <= 7,
                order@.len() == value - 1,
                forall|k: int| 0 <= k < order@.len() ==> #[trigger] order@[k].spec_value() == k + 1,
            decreases 7 - value,
        {
            order.push(FocusId::new(value));
            value = value + 1;
        }
        proof {
            assert forall|i: int, j: int| 0 <= i < j < order@.len() implies order@[i] != order@[j] by {
                assert(order@[i].spec_value() == i + 1 && order@[j].spec_value() == j + 1);
                lemma_focus_id_by_value(order@[i], order@[j]);
            }
            lemma_distinct_first_occurrences(order@);
        }
        let focus = FocusState::new(order);
        let mut tree = TreeState::new();
        tree.expand(1);
        tree.expand(2);
        tree.set_selected(1);
        assert(tree.spec_expanded() =~= set![1u64, 2u64]);
        let r = ShowcaseState {
            phase: ShowcasePhase::Splash,
            section: Section::Overview,
            language: Language::English,
            theme: Theme::new(),
            settings_selected: SettingRow::English,
            color_editor: None,
            focus,
            keymap: dashboard_keymap(),
            list: ListState::new(),
            table: TableState::new(),
            tree,
            viewport: ViewportState::new(),
            input: typed_input("Type here: \u{130}stanbul \u{1f680}"),
            area: TextArea::from_text(
                "\u{130}stanbul\n\u{4f60}\u{597d}\n\u{1f680}  \u{e9}  \u{2764}\u{fe0f}\n\u{1f468}\u{200d}\u{1f469}\u{200d}\u{1f467}\u{200d}\u{1f466}  \u{1f1f9}\u{1f1f7}",
            ),
            palette: None,
            modal_open: false,
            focus_before_modal: None,
            animation_enabled: true,
            hits: ShowcaseHits::empty(),
            browser_mode: BrowserMode::Adapters,
            remove_confirmation: false,
            adapter_ids,
            capability_count,
            install_id,
            registry_source,
        };
        assert(focus_values(r.focus) =~= seq![1u32, 2, 3, 4, 5, 6]);
        r
    }
}


/// Opening the demo modal and closing it again gives back the focus the showcase had: the same
/// order and the same focused pane, with the modal closed and nothing else changed.
pub proof fn lemma_modal_round_trip(a: ShowcaseState, b: ShowcaseState, c: ShowcaseState)
    requires
        a.wf(),
        a.modal_opened(b),
        b.modal_closed(c),
    ensures
        c.focus.spec_order() == a.focus.spec_order(),
        c.focus.spec_current() == a.focus.spec_current(),
        c == (ShowcaseState { focus: c.focus, modal_open: false, focus_before_modal: None, ..a }),
{
}

} // verus!
