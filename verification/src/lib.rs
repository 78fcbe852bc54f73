//! An explicit immediate-mode terminal UI library.
//!
//! Applications own state, derive rectangles with the layout resolver, and render primitives
//! directly into a frame whose buffer is diffed cell by cell.
mod animation;
mod border;
mod buffer;
mod canvas;
mod cell;
mod diff_view;
mod chars;
mod dashboard;
mod dashboard_view;
mod event;
mod focus;
mod frame;
mod geometry;
mod grapheme;
mod inspector;
mod keymap;
mod layout;
mod list;
mod overlay;
mod palette;
mod panel;
mod property_view;
mod rich_text;
mod runtime;
mod scrollbar;
mod session_host;
mod source_view;
mod showcase;
mod showcase_state;
mod showcase_view;
mod spinner;
mod splash;
mod splash_view;
mod structured_data;
mod style;
mod table;
mod terminal;
mod text;
mod theme;
mod text_area;
mod tree;
mod text_input;
mod time;
mod viewport;
mod visualization;
mod width;

pub use border::BorderSet;
pub use animation::Animation;
pub use buffer::{Buffer, ChangedCell, diff};
pub use canvas::Canvas;
pub use cell::{Cell, CellKind};
pub use dashboard::{
    AGENT_COUNT,
    AgentRequest,
    App,
    AppPhase,
    Dashboard,
    HitRegions,
    KeyOutcome,
    MAX_OUTPUT_LINES,
    SPLASH_NANOS,
    Splash,
    TREE_ROOT,
    TREE_WIDGETS,
    agent_tree,
    agents_focus,
    dashboard_keymap,
    input_focus,
    output_focus,
    palette_commands,
    seeded_output,
};
pub use dashboard_view::{
    DashboardStyles,
    DemoView,
    SPLASH_ARTWORK,
    dashboard_styles,
    render_dashboard,
    render_overlays,
    splash_artwork_rect,
    splash_view,
};
pub use diff_view::{DiffDocument, DiffLine, DiffLineKind, DiffStyles, DiffViewer};
pub use event::{Event, KeyCode, KeyEvent, KeyModifiers, MouseButton, MouseEvent, MouseKind, is_quit_key};
pub use focus::{FocusId, FocusState};
pub use frame::Frame;
pub use grapheme::{cluster_char_offset, clusters_starting_before, grapheme_count};
pub use geometry::{Position, Rect, Size, split_horizontal, split_vertical};
pub use layout::{Constraint, Direction, Layout};
pub use list::{List, ListState};
pub use inspector::{InspectorAreas, InspectorLayout, InspectorSplitState};
pub use keymap::{CommandId, KeyBinding, KeyMap};
pub use overlay::{Modal, centered_percent_rect, centered_rect};
pub use palette::{CommandPalette, PaletteCommand, contains_text};
pub use panel::Panel;
pub use property_view::{PropertyRow, PropertyView};
pub use rich_text::{Line, RichText, Span};
pub use runtime::{PollStep, PreparedFrame, Runtime, tick_due};
pub use scrollbar::{Scrollbar, ScrollbarGeometry, ScrollbarState};
pub use session_host::{SessionHost, SessionHostState};
pub use source_view::{SourceDocument, SourceViewer};
pub use showcase::{
    Language,
    Section,
    SettingRow,
    ThemeSlot,
    VisibleBounds,
    format_uptime_millis,
    loading_fill,
    localized,
    parse_rgb,
    section_list_items,
    splash_block_origin,
    splash_source_origin,
    splash_visible_center,
    visible_content_bounds,
};
pub use showcase_state::{
    BrowserMode,
    ColorEditor,
    ShowcaseHits,
    ShowcasePhase,
    ShowcaseRequest,
    ShowcaseState,
    seeded_numeric_input,
    showcase_palette_commands,
    showcase_tree,
};
pub use showcase_view::{
    render_data,
    render_footer,
    render_header,
    render_input,
    render_interaction,
    render_overview,
    render_settings,
    render_showcase_overlays,
    showcase_table,
};
pub use spinner::Spinner;
pub use splash::{
    SplashLayout,
    splash_dragon,
    splash_hint,
    splash_layout,
    splash_loading,
    splash_manifesto,
    splash_title,
};
pub use splash_view::{render_splash, splash_color};
pub use structured_data::{JsonValue, StructuredData, object_path, path_id};
pub use style::{Attributes, Color, Style};
pub use table::{Table, TableColumn, TableState};
pub use terminal::{TerminalCommand, TextAttribute, cursor_commands, encode_changes};
pub use text::{Alignment, Text};
pub use theme::Theme;
pub use time::{Moment, TimeSpan};
pub use text_area::{AreaState, TextArea};
pub use tree::{Tree, TreeCommand, TreeNode, TreeState};
pub use text_input::{InputViewport, TextInput, clip_line};
pub use visualization::{render_bar, render_levels};
pub use viewport::{Viewport, ViewportState};
pub use width::display_width;
