use vstd::prelude::*;

use crate::chars::{push_char, str_chars};
use crate::dashboard::{digit, three_digits};
use crate::dashboard_view::u64_text;
use crate::diff_view::{all_digits, decimal, decimal_value};
use crate::style::Color;
use crate::geometry::{Size, min_int, sat_add16, sat_sub16};
use crate::theme::Theme;
use crate::width::{display_width, unicode_str_width};

verus! {

/// The showcase's sections, in header order.
#[derive(Clone, Copy, Debug, PartialEq, Eq, Structural)]
pub enum Section {
    Overview,
    Widgets,
    Data,
    Graphics,
    Input,
    Interaction,
    Settings,
    Adapters,
}

/// The showcase's display languages.
#[derive(Clone, Copy, Debug, PartialEq, Eq, Structural)]
pub enum Language {
    English,
    Turkish,
}

/// `english` or `turkish`, by `language`.
pub fn localized<'a>(language: Language, english: &'a str, turkish: &'a str) -> (r: &'a str)
    ensures
        r@ == if language == Language::English {
            english@
        } else {
            turkish@
        },
{
    match language {
        Language::English => english,
        Language::Turkish => turkish,
    }
}

/// The section at header position `i` (0 to 7).
pub open spec fn section_at(i: int) -> Section {
    if i == 0 {
        Section::Overview
    } else if i == 1 {
        Section::Widgets
    } else if i == 2 {
        Section::Data
    } else if i == 3 {
        Section::Graphics
    } else if i == 4 {
        Section::Input
    } else if i == 5 {
        Section::Interaction
    } else if i == 6 {
        Section::Settings
    } else {
        Section::Adapters
    }
}

impl Section {
    /// The section's header position, 0 to 7.
    pub open spec fn spec_index(self) -> int {
        match self {
            Section::Overview => 0,
            Section::Widgets => 1,
            Section::Data => 2,
            Section::Graphics => 3,
            Section::Input => 4,
            Section::Interaction => 5,
            Section::Settings => 6,
            Section::Adapters => 7,
        }
    }

    /// The section's title in `language`.
    pub open spec fn spec_title(self, language: Language) -> Seq<char> {
        if language == Language::English {
            match self {
                Section::Overview => "Overview"@,
                Section::Widgets => "Widgets"@,
                Section::Data => "Data"@,
                Section::Graphics => "Graphics"@,
                Section::Input => "Input"@,
                Section::Interaction => "Interaction"@,
                Section::Settings => "Settings"@,
                Section::Adapters => "Adapters"@,
            }
        } else {
            match self {
                Section::Overview => "Genel Bak\u{131}\u{15f}"@,
                Section::Widgets => "Bile\u{15f}enler"@,
                Section::Data => "Veri"@,
                Section::Graphics => "Grafikler"@,
                Section::Input => "Girdi"@,
                Section::Interaction => "Etkile\u{15f}im"@,
                Section::Settings => "Ayarlar"@,
                Section::Adapters => "Adapt\u{f6}rler"@,
            }
        }
    }

    /// The command that selects the section.
    pub open spec fn spec_command(self) -> Seq<char> {
        match self {
            Section::Overview => "show-overview"@,
            Section::Widgets => "show-widgets"@,
            Section::Data => "show-data"@,
            Section::Graphics => "show-graphics"@,
            Section::Input => "show-input"@,
            Section::Interaction => "show-interaction"@,
            Section::Settings => "open-settings"@,
            Section::Adapters => "open-adapters"@,
        }
    }

    /// The section a number key selects: `1` to `8` in header order.
    pub open spec fn spec_from_number(c: char) -> Option<Section> {
        if '1' <= c && c <= '8' {
            Some(section_at(c as int - '1' as int))
        } else {
            None
        }
    }

    pub fn title(self, language: Language) -> (r: &'static str)
        ensures
            r@ == self.spec_title(language),
    {
        localized(
            language,
            match self {
                Section::Overview => "Overview",
                Section::Widgets => "Widgets",
                Section::Data => "Data",
                Section::Graphics => "Graphics",
                Section::Input => "Input",
                Section::Interaction => "Interaction",
                Section::Settings => "Settings",
                Section::Adapters => "Adapters",
            },
            match self {
                Section::Overview => "Genel Bak\u{131}\u{15f}",
                Section::Widgets => "Bile\u{15f}enler",
                Section::Data => "Veri",
                Section::Graphics => "Grafikler",
                Section::Input => "Girdi",
                Section::Interaction => "Etkile\u{15f}im",
                Section::Settings => "Ayarlar",
                Section::Adapters => "Adapt\u{f6}rler",
            },
        )
    }

    pub fn command(self) -> (r: &'static str)
        ensures
            r@ == self.spec_command(),
    {
        match self {
            Section::Overview => "show-overview",
            Section::Widgets => "show-widgets",
            Section::Data => "show-data",
            Section::Graphics => "show-graphics",
            Section::Input => "show-input",
            Section::Interaction => "show-interaction",
            Section::Settings => "open-settings",
            Section::Adapters => "open-adapters",
        }
    }

    pub fn from_number(character: char) -> (r: Option<Section>)
        ensures
            r == Section::spec_from_number(character),
    {
        match character {
            '1' => Some(Section::Overview),
            '2' => Some(Section::Widgets),
            '3' => Some(Section::Data),
            '4' => Some(Section::Graphics),
            '5' => Some(Section::Input),
            '6' => Some(Section::Interaction),
            '7' => Some(Section::Settings),
            '8' => Some(Section::Adapters),
            _ => None,
        }
    }

    pub fn index(self) -> (r: usize)
        ensures
            r == self.spec_index(),
    {
        match self {
            Section::Overview => 0,
            Section::Widgets => 1,
            Section::Data => 2,
            Section::Graphics => 3,
            Section::Input => 4,
            Section::Interaction => 5,
            Section::Settings => 6,
            Section::Adapters => 7,
        }
    }

    /// The section at header position `i`, for `i` below 8.
    pub fn at(i: usize) -> (r: Section)
        requires
            i < 8,
        ensures
            r == section_at(i as int),
            r.spec_index() == i,
    {
        if i == 0 {
            Section::Overview
        } else if i == 1 {
            Section::Widgets
        } else if i == 2 {
            Section::Data
        } else if i == 3 {
            Section::Graphics
        } else if i == 4 {
            Section::Input
        } else if i == 5 {
            Section::Interaction
        } else if i == 6 {
            Section::Settings
        } else {
            Section::Adapters
        }
    }
}

/// The labels of a section's demo list.
pub open spec fn spec_list_items(section: Section) -> Seq<Seq<char>> {
    match section {
        Section::Overview => seq!["Immediate mode"@, "Explicit state"@, "Low-level escape hatch"@],
        Section::Widgets => seq!["Text + RichText"@, "List / Table"@, "Tree / Viewport"@],
        Section::Data => seq!["Hermes"@, "Codex"@, "Cirrus"@],
        Section::Graphics => seq!["Progress"@, "Gauge"@, "Sparkline"@, "Canvas"@],
        Section::Input => seq!["TextInput"@, "TextArea"@, "Graphemes"@],
        Section::Interaction => seq!["Focus"@, "Mouse"@, "Palette"@, "Modal"@],
        Section::Settings => seq!["Language"@, "Theme"@, "RGB editor"@],
        Section::Adapters => seq!["Installed"@, "Available"@, "Capabilities"@],
    }
}

/// The labels of `section`'s demo list.
pub fn section_list_items(section: Section) -> (r: Vec<&'static str>)
    ensures
        r@.map_values(|s: &str| s@) == spec_list_items(section),
{
    let mut r: Vec<&'static str> = Vec::new();
    match section {
        Section::Overview => {
            r.push("Immediate mode");
            r.push("Explicit state");
            r.push("Low-level escape hatch");
        },
        Section::Widgets => {
            r.push("Text + RichText");
            r.push("List / Table");
            r.push("Tree / Viewport");
        },
        Section::Data => {
            r.push("Hermes");
            r.push("Codex");
            r.push("Cirrus");
        },
        Section::Graphics => {
            r.push("Progress");
            r.push("Gauge");
            r.push("Sparkline");
            r.push("Canvas");
        },
        Section::Input => {
            r.push("TextInput");
            r.push("TextArea");
            r.push("Graphemes");
        },
        Section::Interaction => {
            r.push("Focus");
            r.push("Mouse");
            r.push("Palette");
            r.push("Modal");
        },
        Section::Settings => {
            r.push("Language");
            r.push("Theme");
            r.push("RGB editor");
        },
        Section::Adapters => {
            r.push("Installed");
            r.push("Available");
            r.push("Capabilities");
        },
    }
    assert(r@.map_values(|s: &str| s@) =~= spec_list_items(section));
    r
}

/// The eight colours of a theme that the settings can edit.
#[derive(Clone, Copy, Debug, PartialEq, Eq, Structural)]
pub enum ThemeSlot {
    Background,
    Primary,
    Secondary,
    Success,
    Warning,
    Error,
    Text,
    Muted,
}

impl ThemeSlot {
    /// The slot's label in `language`.
    pub open spec fn spec_label(self, language: Language) -> Seq<char> {
        if language == Language::English {
            match self {
                ThemeSlot::Background => "Background"@,
                ThemeSlot::Primary => "Primary"@,
                ThemeSlot::Secondary => "Secondary"@,
                ThemeSlot::Success => "Success"@,
                ThemeSlot::Warning => "Warning"@,
                ThemeSlot::Error => "Error"@,
                ThemeSlot::Text => "Text"@,
                ThemeSlot::Muted => "Muted"@,
            }
        } else {
            match self {
                ThemeSlot::Background => "Arka Plan"@,
                ThemeSlot::Primary => "Birincil"@,
                ThemeSlot::Secondary => "\u{130}kincil"@,
                ThemeSlot::Success => "Ba\u{15f}ar\u{131}"@,
                ThemeSlot::Warning => "Uyar\u{131}"@,
                ThemeSlot::Error => "Hata"@,
                ThemeSlot::Text => "Metin"@,
                ThemeSlot::Muted => "Soluk"@,
            }
        }
    }

    /// The slot's colour in `theme`.
    pub open spec fn spec_color(self, theme: Theme) -> Color {
        match self {
            ThemeSlot::Background => theme.background,
            ThemeSlot::Primary => theme.primary,
            ThemeSlot::Secondary => theme.secondary,
            ThemeSlot::Success => theme.success,
            ThemeSlot::Warning => theme.warning,
            ThemeSlot::Error => theme.error,
            ThemeSlot::Text => theme.text,
            ThemeSlot::Muted => theme.muted,
        }
    }

    /// `theme` with the slot's colour replaced by `color`.
    pub open spec fn spec_set(self, theme: Theme, color: Color) -> Theme {
        match self {
            ThemeSlot::Background => Theme { background: color, ..theme },
            ThemeSlot::Primary => Theme { primary: color, ..theme },
            ThemeSlot::Secondary => Theme { secondary: color, ..theme },
            ThemeSlot::Success => Theme { success: color, ..theme },
            ThemeSlot::Warning => Theme { warning: color, ..theme },
            ThemeSlot::Error => Theme { error: color, ..theme },
            ThemeSlot::Text => Theme { text: color, ..theme },
            ThemeSlot::Muted => Theme { muted: color, ..theme },
        }
    }

    pub fn label(self, language: Language) -> (r: &'static str)
        ensures
            r@ == self.spec_label(language),
    {
        localized(
            language,
            match self {
                ThemeSlot::Background => "Background",
                ThemeSlot::Primary => "Primary",
                ThemeSlot::Secondary => "Secondary",
                ThemeSlot::Success => "Success",
                ThemeSlot::Warning => "Warning",
                ThemeSlot::Error => "Error",
                ThemeSlot::Text => "Text",
                ThemeSlot::Muted => "Muted",
            },
            match self {
                ThemeSlot::Background => "Arka Plan",
                ThemeSlot::Primary => "Birincil",
                ThemeSlot::Secondary => "\u{130}kincil",
                ThemeSlot::Success => "Ba\u{15f}ar\u{131}",
                ThemeSlot::Warning => "Uyar\u{131}",
                ThemeSlot::Error => "Hata",
                ThemeSlot::Text => "Metin",
                ThemeSlot::Muted => "Soluk",
            },
        )
    }

    pub fn color(self, theme: Theme) -> (r: Color)
        ensures
            r == self.spec_color(theme),
    {
        match self {
            ThemeSlot::Background => theme.background,
            ThemeSlot::Primary => theme.primary,
            ThemeSlot::Secondary => theme.secondary,
            ThemeSlot::Success => theme.success,
            ThemeSlot::Warning => theme.warning,
            ThemeSlot::Error => theme.error,
            ThemeSlot::Text => theme.text,
            ThemeSlot::Muted => theme.muted,
        }
    }

    pub fn set(self, theme: &mut Theme, color: Color)
        ensures
            *final(theme) == self.spec_set(*old(theme), color),
    {
        match self {
            ThemeSlot::Background => theme.background = color,
            ThemeSlot::Primary => theme.primary = color,
            ThemeSlot::Secondary => theme.secondary = color,
            ThemeSlot::Success => theme.success = color,
            ThemeSlot::Warning => theme.warning = color,
            ThemeSlot::Error => theme.error = color,
            ThemeSlot::Text => theme.text = color,
            ThemeSlot::Muted => theme.muted = color,
        }
    }
}

/// The rows of the settings screen: the two languages, the eight theme colours, and the theme
/// reset.
#[derive(Clone, Copy, Debug, PartialEq, Eq, Structural)]
pub enum SettingRow {
    English,
    Turkish,
    Color(ThemeSlot),
    Reset,
}

/// The theme slot at position `i` (0 to 7).
pub open spec fn slot_at(i: int) -> ThemeSlot {
    if i == 0 {
        ThemeSlot::Background
    } else if i == 1 {
        ThemeSlot::Primary
    } else if i == 2 {
        ThemeSlot::Secondary
    } else if i == 3 {
        ThemeSlot::Success
    } else if i == 4 {
        ThemeSlot::Warning
    } else if i == 5 {
        ThemeSlot::Error
    } else if i == 6 {
        ThemeSlot::Text
    } else {
        ThemeSlot::Muted
    }
}

/// The settings row at position `i` (0 to 10).
pub open spec fn setting_at(i: int) -> SettingRow {
    if i == 0 {
        SettingRow::English
    } else if i == 1 {
        SettingRow::Turkish
    } else if i <= 9 {
        SettingRow::Color(slot_at(i - 2))
    } else {
        SettingRow::Reset
    }
}

impl ThemeSlot {
    /// The slot's position, 0 to 7.
    pub open spec fn spec_index(self) -> int {
        match self {
            ThemeSlot::Background => 0,
            ThemeSlot::Primary => 1,
            ThemeSlot::Secondary => 2,
            ThemeSlot::Success => 3,
            ThemeSlot::Warning => 4,
            ThemeSlot::Error => 5,
            ThemeSlot::Text => 6,
            ThemeSlot::Muted => 7,
        }
    }
}

impl SettingRow {
    /// The row's position on the settings screen, 0 to 10.
    pub open spec fn spec_index(self) -> int {
        match self {
            SettingRow::English => 0,
            SettingRow::Turkish => 1,
            SettingRow::Color(slot) => 2 + slot.spec_index(),
            SettingRow::Reset => 10,
        }
    }

    /// The row above (`direction` negative) or below, wrapping around the eleven rows.
    pub open spec fn spec_next(self, direction: i8) -> SettingRow {
        if direction < 0 {
            setting_at((self.spec_index() + 10) % 11)
        } else {
            setting_at((self.spec_index() + 1) % 11)
        }
    }

    pub fn index(self) -> (r: usize)
        ensures
            r == self.spec_index(),
    {
        match self {
            SettingRow::English => 0,
            SettingRow::Turkish => 1,
            SettingRow::Color(slot) => 2 + match slot {
                ThemeSlot::Background => 0,
                ThemeSlot::Primary => 1,
                ThemeSlot::Secondary => 2,
                ThemeSlot::Success => 3,
                ThemeSlot::Warning => 4,
                ThemeSlot::Error => 5,
                ThemeSlot::Text => 6,
                ThemeSlot::Muted => 7,
            },
            SettingRow::Reset => 10,
        }
    }

    /// The row at position `i`, for `i` below 11.
    pub fn at(i: usize) -> (r: SettingRow)
        requires
            i < 11,
        ensures
            r == setting_at(i as int),
    {
        if i == 0 {
            SettingRow::English
        } else if i == 1 {
            SettingRow::Turkish
        } else if i <= 9 {
            SettingRow::Color(
                if i == 2 {
                    ThemeSlot::Background
                } else if i == 3 {
                    ThemeSlot::Primary
                } else if i == 4 {
                    ThemeSlot::Secondary
                } else if i == 5 {
                    ThemeSlot::Success
                } else if i == 6 {
                    ThemeSlot::Warning
                } else if i == 7 {
                    ThemeSlot::Error
                } else if i == 8 {
                    ThemeSlot::Text
                } else {
                    ThemeSlot::Muted
                },
            )
        } else {
            SettingRow::Reset
        }
    }

    pub fn next(self, direction: i8) -> (r: SettingRow)
        ensures
            r == self.spec_next(direction),
    {
        let index = self.index();
        if direction < 0 {
            SettingRow::at((index + 10) % 11)
        } else {
            SettingRow::at((index + 1) % 11)
        }
    }
}

/// `str::parse::<i16>`: an optional `+` or `-` and at least one decimal digit, with a value in
/// the `i16` range.
pub open spec fn spec_parse_i16(s: Seq<char>) -> Option<int> {
    let negative = s.len() > 0 && s[0] == '-';
    let digits = if s.len() > 0 && (s[0] == '+' || s[0] == '-') {
        s.skip(1)
    } else {
        s
    };
    if digits.len() > 0 && all_digits(digits) {
        if negative && decimal_value(digits) <= 32768 {
            Some(-decimal_value(digits))
        } else if !negative && decimal_value(digits) <= 32767 {
            Some(decimal_value(digits) as int)
        } else {
            None
        }
    } else {
        None
    }
}

/// An RGB channel typed into the colour editor: the number clamped to 0..=255, and 0 when the
/// text is not an `i16`.
pub open spec fn spec_parse_rgb(s: Seq<char>) -> int {
    match spec_parse_i16(s) {
        Some(v) => if v < 0 {
            0
        } else if v > 255 {
            255
        } else {
            v
        },
        None => 0,
    }
}

proof fn lemma_decimal_prefix_bound(s: Seq<char>, i: int)
    requires
        0 <= i <= s.len(),
        all_digits(s),
    ensures
        decimal_value(s.take(i)) <= decimal_value(s),
    decreases s.len() - i,
{
    if i < s.len() {
        lemma_decimal_prefix_bound(s, i + 1);
        assert(s.take(i + 1).drop_last() == s.take(i));
    } else {
        assert(s.take(i) == s);
    }
}

/// An RGB channel from the editor's text: the `i16` it spells clamped to 0..=255, else 0.
pub fn parse_rgb(value: &str) -> (r: u8)
    ensures
        r == spec_parse_rgb(value@),
{
    let s = str_chars(value);
    let negative = s.len() > 0 && s[0] == '-';
    let start: usize = if s.len() > 0 && (s[0] == '+' || s[0] == '-') {
        1
    } else {
        0
    };
    let ghost digits = s@.skip(start as int);
    proof {
        assert(digits =~= (if s@.len() > 0 && (s@[0] == '+' || s@[0] == '-') {
            s@.skip(1)
        } else {
            s@
        }));
        assert(digits.take(0) =~= Seq::<char>::empty());
    }
    if start >= s.len() {
        return 0;
    }
    let mut acc: u32 = 0;
    let mut i: usize = start;
    while i < s.len()
        invariant
            start <= i <= s@.len(),
            s@ == value@,
            negative == (s@.len() > 0 && s@[0] == '-'),
            digits == (if s@.len() > 0 && (s@[0] == '+' || s@[0] == '-') {
                s@.skip(1)
            } else {
                s@
            }),
            digits == s@.skip(start as int),
            digits.len() == s@.len() - start,
            all_digits(digits.take(i - start)),
            acc == decimal_value(digits.take(i - start)),
            acc <= 32768,
        decreases s@.len() - i,
    {
        let c = s[i];
        proof {
            assert(digits.take(i - start + 1).drop_last() == digits.take(i - start));
            assert(digits.take(i - start + 1).last() == c);
        }
        if !('0' <= c && c <= '9') {
            proof {
                assert(!all_digits(digits)) by {
                    assert(digits[i - start] == c);
                }
            }
            return 0;
        }
        let next = acc * 10 + (c as u32 - '0' as u32);
        if next > 32768 {
            proof {
                assert(all_digits(digits.take(i - start + 1)));
                if all_digits(digits) {
                    lemma_decimal_prefix_bound(digits, i - start + 1);
                }
            }
            return 0;
        }
        acc = next;
        i = i + 1;
    }
    proof {
        assert(digits.take(s@.len() - start) == digits);
    }
    if negative {
        0
    } else if acc > 32767 {
        0
    } else if acc > 255 {
        255
    } else {
        acc as u8
    }
}

/// The number of filled cells of the loading bar at animation `phase`: 1 to 10.
pub fn loading_fill(phase: usize) -> (r: u16)
    ensures
        r == 1 + (if phase <= 23 {
            phase as int
        } else {
            23
        }) * 9 / 23,
{
    let p = if phase <= 23 {
        phase
    } else {
        23
    };
    assert(p * 9 / 23 <= 9) by (nonlinear_arith)
        requires
            p <= 23,
    ;
    1 + (p * 9 / 23) as u16
}

/// The visible columns of the splash art: the first and last non-blank columns and the width
/// between them.
#[derive(Clone, Copy, Debug, PartialEq, Eq, Structural)]
pub struct VisibleBounds {
    pub min_x: u16,
    pub max_x: u16,
    pub width: u16,
}

/// The column where the splash art starts so that its visible part is centred on `center_x`
/// (clamped at 0).
pub fn splash_source_origin(center_x: u16, bounds: VisibleBounds) -> (r: u16)
    ensures
        r == crate::geometry::sat_sub16(
            crate::geometry::sat_sub16(center_x as int, (bounds.width / 2) as int) as int,
            bounds.min_x as int,
        ),
{
    center_x.saturating_sub(bounds.width / 2).saturating_sub(bounds.min_x)
}

/// The column at the centre of the visible splash art drawn from `source_origin` (clamped at
/// the largest column).
pub fn splash_visible_center(source_origin: u16, bounds: VisibleBounds) -> (r: u16)
    ensures
        r == crate::geometry::sat_add16(
            crate::geometry::sat_add16(source_origin as int, bounds.min_x as int) as int,
            (bounds.width / 2) as int,
        ),
{
    source_origin.saturating_add(bounds.min_x).saturating_add(bounds.width / 2)
}

/// Whether `c` has the Unicode White_Space property, as `char::is_whitespace` reports it.
pub uninterp spec fn white_space(c: char) -> bool;

/// Calls `char::is_whitespace`, which reports the Unicode White_Space property; its
/// documentation names the space among those characters. Which other characters have the
/// property is the Unicode character database's, not stated here.
#[verifier::external_body]
fn is_whitespace(c: char) -> (r: bool)
    ensures
        r == white_space(c),
        c == ' ' ==> r,
{
    c.is_whitespace()
}

/// The columns character `c` takes alone, at most `u16::MAX`.
pub open spec fn char_columns(c: char) -> int {
    min_int(unicode_str_width(seq![c]) as int, 0xffff)
}

/// The column where character `k` of `line` starts: the columns of the characters before it,
/// added with saturation.
pub open spec fn column_at(line: Seq<char>, k: int) -> u16
    decreases k,
{
    if k <= 0 {
        0
    } else {
        sat_add16(column_at(line, k - 1) as int, char_columns(line[k - 1]))
    }
}

/// Whether `c` shows ink: it takes columns and is neither white space nor the blank Braille
/// pattern.
pub open spec fn inked(c: char) -> bool {
    char_columns(c) > 0 && !white_space(c) && c != '\u{2800}'
}

/// The smallest and largest inked columns so far, after character `k - 1` of `line`.
pub open spec fn line_bounds(acc: (Option<int>, Option<int>), line: Seq<char>, k: int) -> (Option<int>, Option<int>)
    decreases k,
{
    if k <= 0 {
        acc
    } else {
        let before = line_bounds(acc, line, k - 1);
        let c = line[k - 1];
        let col = column_at(line, k - 1) as int;
        if inked(c) {
            let last = sat_sub16(sat_add16(col, char_columns(c)) as int, 1) as int;
            (
                Some(match before.0 {
                    Some(m) => min_int(m, col),
                    None => col,
                }),
                Some(match before.1 {
                    Some(m) => if m >= last {
                        m
                    } else {
                        last
                    },
                    None => last,
                }),
            )
        } else {
            before
        }
    }
}

/// The smallest and largest inked columns over the first `n` lines.
pub open spec fn lines_bounds(lines: Seq<Seq<char>>, n: int) -> (Option<int>, Option<int>)
    decreases n,
{
    if n <= 0 {
        (None, None)
    } else {
        line_bounds(lines_bounds(lines, n - 1), lines[n - 1], lines[n - 1].len() as int)
    }
}

/// The visible box of `lines`: from the first to the last inked column over all lines, each
/// line measured from column 0; none without ink.
pub open spec fn spec_visible_bounds(lines: Seq<Seq<char>>) -> Option<VisibleBounds> {
    match lines_bounds(lines, lines.len() as int) {
        (Some(lo), Some(hi)) => Some(
            VisibleBounds {
                min_x: lo as u16,
                max_x: hi as u16,
                width: sat_add16(sat_sub16(hi, lo) as int, 1),
            },
        ),
        _ => None,
    }
}

/// The columns `c` takes alone, at most `u16::MAX`.
pub(crate) fn columns_of(c: char) -> (r: u16)
    ensures
        r == char_columns(c),
{
    let mut one = String::new();
    push_char(&mut one, c);
    assert(one@ =~= seq![c]);
    let w = display_width(one.as_str());
    if w < 0xffff {
        w as u16
    } else {
        0xffff
    }
}

/// The visible box of `lines`: the first and last columns holding ink over all lines, each
/// measured from column 0 (white space, zero-width characters and blank Braille cells are
/// not ink), or `None` when no line has ink.
pub fn visible_content_bounds(lines: &[&str]) -> (r: Option<VisibleBounds>)
    ensures
        r == spec_visible_bounds(lines@.map_values(|l: &str| l@)),
{
    let ghost views = lines@.map_values(|l: &str| l@);
    let mut lo: Option<u16> = None;
    let mut hi: Option<u16> = None;
    let mut n: usize = 0;
    while n < lines.len()
        invariant
            n <= lines@.len(),
            views == lines@.map_values(|l: &str| l@),
            lines_bounds(views, n as int) == (
                match lo {
                    Some(m) => Some(m as int),
                    None => None::<int>,
                },
                match hi {
                    Some(m) => Some(m as int),
                    None => None::<int>,
                },
            ),
            lo is Some <==> hi is Some,
        decreases lines@.len() - n,
    {
        let chars = str_chars(lines[n]);
        let ghost line = views[n as int];
        let ghost start = lines_bounds(views, n as int);
        let mut column: u16 = 0;
        let mut k: usize = 0;
        while k < chars.len()
            invariant
                k <= chars@.len(),
                chars@ == line,
                column == column_at(line, k as int),
                line_bounds(start, line, k as int) == (
                    match lo {
                        Some(m) => Some(m as int),
                        None => None::<int>,
                    },
                    match hi {
                        Some(m) => Some(m as int),
                        None => None::<int>,
                    },
                ),
                lo is Some <==> hi is Some,
            decreases chars@.len() - k,
        {
            let c = chars[k];
            let width = columns_of(c);
            if width > 0 && !is_whitespace(c) && c != '\u{2800}' {
                let last = column.saturating_add(width).saturating_sub(1);
                lo = match lo {
                    Some(m) => Some(if column < m {
                        column
                    } else {
                        m
                    }),
                    None => Some(column),
                };
                hi = match hi {
                    Some(m) => Some(if m >= last {
                        m
                    } else {
                        last
                    }),
                    None => Some(last),
                };
            }
            column = column.saturating_add(width);
            k = k + 1;
        }
        n = n + 1;
    }
    match (lo, hi) {
        (Some(min_x), Some(max_x)) => Some(
            VisibleBounds { min_x, max_x, width: max_x.saturating_sub(min_x).saturating_add(1) },
        ),
        _ => None,
    }
}

/// The column where the splash block `lines` starts so that its visible box is centred on a
/// `size` screen (0 without ink).
pub open spec fn block_origin(size: Size, lines: Seq<Seq<char>>) -> int {
    match spec_visible_bounds(lines) {
        Some(b) => sat_sub16(sat_sub16((size.width / 2) as int, (b.width / 2) as int) as int, b.min_x as int) as int,
        None => 0,
    }
}

/// The column where the splash block `lines` starts so that its visible box is centred on a
/// `size` screen (0 without ink).
pub fn splash_block_origin(size: Size, lines: &[&str]) -> (r: u16)
    ensures
        r == block_origin(size, lines@.map_values(|l: &str| l@)),
{
    match visible_content_bounds(lines) {
        Some(bounds) => splash_source_origin(size.width / 2, bounds),
        None => 0,
    }
}

/// Milliseconds as seconds with three decimals and an `s`, such as `1.005s`.
pub fn format_uptime_millis(millis: u64) -> (r: String)
    ensures
        r@ == decimal((millis / 1000) as nat) + seq!['.'] + three_digits((millis % 1000) as int)
            + seq!['s'],
{
    let mut out = u64_text(millis / 1000);
    let rest = millis % 1000;
    push_char(&mut out, '.');
    push_char(&mut out, digit((rest / 100) as u32));
    push_char(&mut out, digit(((rest / 10) % 10) as u32));
    push_char(&mut out, digit((rest % 10) as u32));
    push_char(&mut out, 's');
    proof {
        assert(out@ =~= decimal((millis / 1000) as nat) + seq!['.'] + three_digits(rest as int)
            + seq!['s']);
    }
    out
}

} // verus!
