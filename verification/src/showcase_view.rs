use vstd::prelude::*;

use crate::border::BorderSet;
use crate::chars::{concat_strs, copy_string, push_char, push_str, str_chars};
use crate::dashboard_view::{foreground, label_row, text_drawn};
use crate::table::{Table, TableColumn, TableState};
use crate::frame::{Frame, write_in};
use crate::geometry::{Position, Rect, Size, min_int, sat_add16, sat_sub16};
use crate::overlay::{Modal, centered_rect, modal_drawn, spec_centered_rect};
use crate::palette::palette_drawn;
use crate::panel::{Panel, panel_drawn};
use crate::layout::{Constraint, Direction, Layout, layout_areas};
use crate::rich_text::{Line, RichText, Span, SpanView, line_cells, line_views, rich_rows};
use crate::showcase::{
    Language, Section, SettingRow, ThemeSlot, localized, section_at, section_list_items, slot_at,
    spec_list_items,
};
use crate::list::{List, clamp_selection, list_rows};
use crate::dashboard::focused;
use crate::showcase_state::{BrowserMode, ColorEditor, ShowcaseHits, ShowcaseState};
use crate::text_area::{AreaState, area_render};
use crate::frame::rows_written;
use crate::style::{Attributes, Color, Style};
use crate::text::{Alignment, Text, text_cells};
use crate::text_input::{TextInput, input_viewport};
use crate::theme::Theme;
use crate::width::{display_width, unicode_str_width};

verus! {

/// Foreground `fg` on background `bg`, bold when `bold` holds.
pub open spec fn on(fg: Color, bg: Color, bold: bool) -> Style {
    Style { fg: Some(fg), bg: Some(bg), attributes: Attributes { bold, ..Attributes::none() } }
}

/// Foreground `fg` on background `bg`, bold when `bold` holds.
pub fn style_on(fg: Color, bg: Color, bold: bool) -> (r: Style)
    ensures
        r == on(fg, bg, bold),
{
    let s = Style::new().fg(fg).bg(bg);
    if bold {
        s.bold()
    } else {
        s
    }
}

/// `english` or `turkish`, by `language`.
pub open spec fn spec_localized(language: Language, english: Seq<char>, turkish: Seq<char>) -> Seq<char> {
    if language == Language::English {
        english
    } else {
        turkish
    }
}

/// The lines of the demo modal.
pub open spec fn demo_modal_lines(theme: Theme) -> Seq<Seq<SpanView>> {
    let check = foreground(theme.success, true);
    seq![
        seq![("Terminal-native UI"@, Style::plain())],
        seq![(""@, Style::plain())],
        seq![("Keyboard  \u{2713}"@, check)],
        seq![("Mouse     \u{2713}"@, check)],
        seq![("Unicode   \u{2713}"@, check)],
        seq![("Animation \u{2713}"@, check)],
        seq![(""@, Style::plain())],
        seq![("Enter / Esc / click to close"@, Style::plain())],
    ]
}

/// The lines of the colour editor's modal.
pub open spec fn editor_lines(language: Language) -> Seq<Seq<SpanView>> {
    seq![
        seq![("R"@, Style::plain())],
        seq![("G"@, Style::plain())],
        seq![("B"@, Style::plain())],
        seq![(""@, Style::plain())],
        seq![(spec_localized(language, "Preview"@, "\u{d6}nizleme"@), Style::plain())],
        seq![(""@, Style::plain())],
        seq![(
            spec_localized(language, "Enter Apply   Esc Cancel"@, "Enter Uygula   Esc \u{130}ptal"@),
            Style::plain(),
        )],
    ]
}

/// The title of the colour editor for `slot`.
pub open spec fn editor_title(slot: ThemeSlot, language: Language) -> Seq<char> {
    spec_localized(language, "Edit Color"@, "Rengi D\u{fc}zenle"@) + ": "@ + slot.spec_label(language)
}

/// Where the colour editor's modal stands on a `screen`.
pub open spec fn editor_rect(screen: Rect) -> Rect {
    spec_centered_rect(screen, 42, 12)
}

/// The input of `channel` (0 to 2) inside the editor's modal interior `inner`.
pub open spec fn channel_rect(inner: Rect, channel: int) -> Rect {
    Rect {
        x: sat_add16(inner.x as int, 5),
        y: sat_add16(inner.y as int, channel),
        width: sat_sub16(inner.width as int, 5),
        height: 1,
    }
}

/// The style of `channel`'s input: highlighted while it is the one being edited.
pub open spec fn channel_style(e: ColorEditor, channel: int, theme: Theme) -> Style {
    if e.channel == channel {
        on(theme.success, theme.primary, true)
    } else {
        on(theme.text, theme.background, false)
    }
}

/// The swatch row of the editor inside `inner`.
pub open spec fn preview_rect(inner: Rect) -> Rect {
    Rect {
        x: sat_add16(inner.x as int, 9),
        y: sat_add16(inner.y as int, 4),
        width: sat_sub16(inner.width as int, 9),
        height: 1,
    }
}

/// The row a click on applies the editor's colour.
pub open spec fn apply_rect(inner: Rect) -> Rect {
    Rect { x: inner.x, y: sat_add16(inner.y as int, 6), width: inner.width, height: 1 }
}

/// `after` is `before` with `input` drawn in `rect` in `style`: the visible part of its text
/// around the cursor, written from the rectangle's first column; nothing on an empty rectangle.
pub open spec fn input_drawn(input: TextInput, rect: Rect, style: Style, before: Frame, after: Frame) -> bool {
    &&& after.wf()
    &&& after.same_size(&before)
    &&& (rect.width == 0 || rect.height == 0 ==> after == before)
    &&& (rect.width > 0 && rect.height > 0 ==> after.spec_buffer().cells() == write_in(
        before.spec_buffer().cells(),
        before.spec_width() as int,
        before.spec_height() as int,
        rect,
        0,
        0,
        input_viewport(input.text_view(), input.cursor_view(), rect.width as int).0,
        style,
    ).0)
}

/// `after` is `before` with the colour editor drawn on `screen` through the stages `st`: its
/// modal, its three channel inputs and the swatch in the colour the inputs spell.
pub open spec fn editor_drawn(
    e: ColorEditor,
    language: Language,
    theme: Theme,
    screen: Rect,
    st: Seq<Frame>,
    before: Frame,
    after: Frame,
) -> bool {
    let rect = editor_rect(screen);
    let inner = rect.spec_inner();
    &&& st.len() == 4
    &&& modal_drawn(
        editor_title(e.slot, language),
        editor_lines(language),
        on(theme.secondary, theme.background, true),
        on(theme.success, theme.background, true),
        on(theme.text, theme.background, false),
        rect,
        before,
        st[0],
    )
    &&& st[0].wf() && st[0].same_size(&before)
    &&& input_drawn(e.inputs@[0], channel_rect(inner, 0), channel_style(e, 0, theme), st[0], st[1])
    &&& input_drawn(e.inputs@[1], channel_rect(inner, 1), channel_style(e, 1, theme), st[1], st[2])
    &&& input_drawn(e.inputs@[2], channel_rect(inner, 2), channel_style(e, 2, theme), st[2], st[3])
    &&& after.spec_buffer().cells() == text_cells(
        st[3].spec_buffer().cells(),
        st[3].spec_width() as int,
        st[3].spec_height() as int,
        preview_rect(inner),
        "\u{2588}\u{2588}\u{2588}\u{2588}\u{2588}\u{2588}\u{2588}\u{2588}"@,
        on(e.spec_color(), theme.background, true),
        Alignment::Left,
    )
}

/// `after` is `before` with the showcase's overlays drawn on a `size` screen through the
/// stages `st`: the demo modal while it is open, then the colour editor while one is open,
/// then the command palette while it is open.
pub open spec fn showcase_overlays_drawn(
    size: Size,
    s: ShowcaseState,
    st: Seq<Frame>,
    before: Frame,
    after: Frame,
) -> bool {
    let screen = Rect { x: 0, y: 0, width: size.width, height: size.height };
    let theme = s.theme;
    &&& st.len() == 6
    &&& st[0].wf() && st[0].same_size(&before)
    &&& st[5].wf() && st[5].same_size(&before)
    &&& if s.modal_open {
        modal_drawn(
            "DragonsTUI"@,
            demo_modal_lines(theme),
            on(theme.secondary, theme.background, true),
            on(theme.success, theme.background, true),
            on(theme.text, theme.background, false),
            spec_centered_rect(screen, 46, 14),
            before,
            st[0],
        )
    } else {
        st[0] == before
    }
    &&& match s.color_editor {
        Some(e) => editor_drawn(e, s.language, theme, screen, st.subrange(1, 5), st[0], st[5]),
        None => st[5] == st[0],
    }
    &&& match s.palette {
        Some(p) => palette_drawn(
            p,
            screen,
            on(theme.secondary, theme.background, true),
            on(theme.text, theme.background, false),
            on(theme.success, theme.primary, true),
            st[5],
            after,
        ),
        None => after == st[5],
    }
}

/// The hit regions after the overlays are drawn: the demo modal's rectangle, the editor's
/// channel inputs and apply row, and the palette's rows, each where it was drawn.
pub open spec fn overlay_hits(size: Size, before: ShowcaseState, after: ShowcaseState) -> bool {
    let screen = Rect { x: 0, y: 0, width: size.width, height: size.height };
    let inner = editor_rect(screen).spec_inner();
    let pinner = spec_centered_rect(screen, 42, 12).spec_inner();
    let h = before.hits;
    &&& after == (ShowcaseState { hits: after.hits, ..before })
    &&& after.hits.modal == if before.modal_open {
        spec_centered_rect(screen, 46, 14)
    } else {
        h.modal
    }
    &&& after.hits.color_inputs@ == if before.color_editor is Some {
        seq![channel_rect(inner, 0), channel_rect(inner, 1), channel_rect(inner, 2)]
    } else {
        h.color_inputs@
    }
    &&& after.hits.color_apply == if before.color_editor is Some {
        apply_rect(inner)
    } else {
        h.color_apply
    }
    &&& after.hits.palette_rows == if before.palette is Some {
        Rect {
            x: pinner.x,
            y: sat_add16(pinner.y as int, 1),
            width: pinner.width,
            height: sat_sub16(pinner.height as int, 1),
        }
    } else {
        h.palette_rows
    }
    &&& after.hits.sections@ == h.sections@
    &&& after.hits.settings_rows@ == h.settings_rows@
    &&& after.hits.list == h.list && after.hits.table == h.table && after.hits.tree == h.tree
    &&& after.hits.viewport == h.viewport && after.hits.input == h.input
    &&& after.hits.area == h.area
}

/// Draws the colour editor's modal, inputs and swatch; returns the modal's interior.
fn render_editor(frame: &mut Frame, screen: Rect, e: &ColorEditor, language: Language, theme: Theme) -> (r: (Rect, Ghost<Seq<Frame>>))
    requires
        old(frame).wf(),
        e.wf(),
    ensures
        final(frame).wf(),
        final(frame).same_size(old(frame)),
        r.0 == editor_rect(screen).spec_inner(),
        editor_drawn(*e, language, theme, screen, r.1@, *old(frame), *final(frame)),
{
    let head = localized(language, "Edit Color", "Rengi D\u{fc}zenle");
    let with_colon = concat_strs(head, ": ");
    let title = concat_strs(with_colon.as_str(), e.slot.label(language));
    let mut lines: Vec<Line> = Vec::new();
    lines.push(Line::raw("R"));
    lines.push(Line::raw("G"));
    lines.push(Line::raw("B"));
    lines.push(Line::raw(""));
    lines.push(Line::raw(localized(language, "Preview", "\u{d6}nizleme")));
    lines.push(Line::raw(""));
    lines.push(Line::raw(localized(language, "Enter Apply   Esc Cancel", "Enter Uygula   Esc \u{130}ptal")));
    assert(line_views(lines@) =~~= editor_lines(language));
    assert(title@ == editor_title(e.slot, language));
    let border = style_on(theme.secondary, theme.background, true);
    let title_style = style_on(theme.success, theme.background, true);
    let content = style_on(theme.text, theme.background, false);
    let rect = Modal::new(title.as_str(), lines).size(42, 12).border_style(border).title_style(
        title_style,
    ).content_style(content).render(frame, screen);
    let ghost s0 = *frame;
    let inner = rect.inner();
    let highlighted = style_on(theme.success, theme.primary, true);
    let normal = style_on(theme.text, theme.background, false);
    let mut channel: usize = 0;
    let ghost mut stages: Seq<Frame> = seq![s0];
    while channel < 3
        invariant
            channel <= 3,
            e.wf(),
            frame.wf(),
            frame.same_size(old(frame)),
            stages.len() == channel + 1,
            stages[0] == s0,
            stages[channel as int] == *frame,
            inner == editor_rect(screen).spec_inner(),
            highlighted == on(theme.success, theme.primary, true),
            normal == on(theme.text, theme.background, false),
            forall|k: int|
                0 <= k < channel ==> input_drawn(
                    #[trigger] e.inputs@[k],
                    channel_rect(inner, k),
                    channel_style(*e, k, theme),
                    stages[k],
                    stages[k + 1],
                ),
        decreases 3 - channel,
    {
        let input = Rect::new(
            inner.x.saturating_add(5),
            inner.y.saturating_add(channel as u16),
            inner.width.saturating_sub(5),
            1,
        );
        let style = if e.channel == channel {
            highlighted
        } else {
            normal
        };
        let _ = e.inputs[channel].render(frame, input, style);
        proof {
            stages = stages.push(*frame);
        }
        channel = channel + 1;
    }
    let preview = Rect::new(inner.x.saturating_add(9), inner.y.saturating_add(4), inner.width.saturating_sub(9), 1);
    Text::new("\u{2588}\u{2588}\u{2588}\u{2588}\u{2588}\u{2588}\u{2588}\u{2588}").style(
        style_on(e.color(), theme.background, true),
    ).render(frame, preview);
    (inner, Ghost(stages))
}

/// Draws the showcase's overlays over `frame` on a `size` screen; returns the drawing stages.
fn draw_overlays(frame: Frame, size: Size, s: &ShowcaseState) -> (r: (Frame, Ghost<Seq<Frame>>))
    requires
        frame.wf(),
        s.wf(),
    ensures
        r.0.wf(),
        r.0.same_size(&frame),
        showcase_overlays_drawn(size, *s, r.1@, frame, r.0),
{
    let mut frame = frame;
    let theme = s.theme;
    let screen = Rect::new(0, 0, size.width, size.height);
    if s.modal_open {
        let check = Style::new().fg(theme.success).bold();
        let mut lines: Vec<Line> = Vec::new();
        lines.push(Line::raw("Terminal-native UI"));
        lines.push(Line::raw(""));
        let mut k1: Vec<Span> = Vec::new();
        k1.push(Span::styled("Keyboard  \u{2713}", check));
        lines.push(Line::new(k1));
        let mut k2: Vec<Span> = Vec::new();
        k2.push(Span::styled("Mouse     \u{2713}", check));
        lines.push(Line::new(k2));
        let mut k3: Vec<Span> = Vec::new();
        k3.push(Span::styled("Unicode   \u{2713}", check));
        lines.push(Line::new(k3));
        let mut k4: Vec<Span> = Vec::new();
        k4.push(Span::styled("Animation \u{2713}", check));
        lines.push(Line::new(k4));
        lines.push(Line::raw(""));
        lines.push(Line::raw("Enter / Esc / click to close"));
        assert(line_views(lines@) =~~= demo_modal_lines(theme));
        let _ = Modal::new("DragonsTUI", lines).size(46, 14).border_style(
            style_on(theme.secondary, theme.background, true),
        ).title_style(style_on(theme.success, theme.background, true)).content_style(
            style_on(theme.text, theme.background, false),
        ).render(&mut frame, screen);
    }
    let ghost m = frame;
    let ghost mut editor_stages: Seq<Frame> = seq![m, m, m, m];
    match &s.color_editor {
        Some(editor) => {
            let (_, stages) = render_editor(&mut frame, screen, editor, s.language, theme);
            proof {
                editor_stages = stages@;
            }
        },
        None => {},
    }
    let ghost e = frame;
    match &s.palette {
        Some(palette) => {
            let _ = palette.render(
                &mut frame,
                screen,
                style_on(theme.secondary, theme.background, true),
                style_on(theme.text, theme.background, false),
                style_on(theme.success, theme.primary, true),
            );
        },
        None => {},
    }
    let ghost st = seq![m, editor_stages[0], editor_stages[1], editor_stages[2], editor_stages[3], e];
    proof {
        assert(st.subrange(1, 5) =~= editor_stages);
    }
    (frame, Ghost(st))
}

/// Records where the overlays of `s` are drawn on a `size` screen.
fn record_overlay_hits(size: Size, s: &mut ShowcaseState)
    requires
        old(s).wf(),
    ensures
        final(s).wf(),
        overlay_hits(size, *old(s), *final(s)),
{
    let screen = Rect::new(0, 0, size.width, size.height);
    if s.modal_open {
        s.hits.modal = centered_rect(screen, 46, 14);
    }
    let inner = centered_rect(screen, 42, 12).inner();
    if s.color_editor.is_some() {
        let mut inputs: Vec<Rect> = Vec::new();
        inputs.push(Rect::new(inner.x.saturating_add(5), inner.y, inner.width.saturating_sub(5), 1));
        inputs.push(
            Rect::new(inner.x.saturating_add(5), inner.y.saturating_add(1), inner.width.saturating_sub(5), 1),
        );
        inputs.push(
            Rect::new(inner.x.saturating_add(5), inner.y.saturating_add(2), inner.width.saturating_sub(5), 1),
        );
        assert(inputs@ =~= seq![channel_rect(inner, 0), channel_rect(inner, 1), channel_rect(inner, 2)]);
        s.hits.color_inputs = inputs;
        s.hits.color_apply = Rect::new(inner.x, inner.y.saturating_add(6), inner.width, 1);
    }
    if s.palette.is_some() {
        s.hits.palette_rows = Rect::new(
            inner.x,
            inner.y.saturating_add(1),
            inner.width,
            inner.height.saturating_sub(1),
        );
    }
}

/// Draws the showcase's overlays (the demo modal, the colour editor, the command palette, in
/// that order) over `frame` on a `size` screen and records where they were drawn.
pub fn render_showcase_overlays(frame: Frame, size: Size, s: &mut ShowcaseState) -> (r: Frame)
    requires
        frame.wf(),
        old(s).wf(),
    ensures
        r.wf(),
        r.same_size(&frame),
        final(s).wf(),
        overlay_hits(size, *old(s), *final(s)),
        exists|st: Seq<Frame>| #[trigger] showcase_overlays_drawn(size, *old(s), st, frame, r),
{
    let (drawn, _) = draw_overlays(frame, size, s);
    record_overlay_hits(size, s);
    drawn
}

/// `after` is `before` with the spans `spans` written on the first row of `rect`.
pub open spec fn spans_drawn(before: Frame, after: Frame, rect: Rect, spans: Seq<SpanView>) -> bool {
    &&& after.wf()
    &&& after.same_size(&before)
    &&& after.spec_buffer().cells() == line_cells(
        before.spec_buffer().cells(),
        before.spec_width() as int,
        before.spec_height() as int,
        rect,
        0,
        spans,
        Alignment::Left,
    )
}

/// Writes `content` into `rect` in `style`.
fn draw_text(frame: &mut Frame, rect: Rect, content: &str, style: Style)
    requires
        old(frame).wf(),
    ensures
        text_drawn(*old(frame), *final(frame), rect, content@, style),
{
    Text::new(content).style(style).render(frame, rect);
}

/// Whether row `offset` of `inner` lies inside it.
pub open spec fn row_shown(inner: Rect, offset: int) -> bool {
    inner.y + offset < sat_add16(inner.y as int, inner.height as int)
}

/// Row `offset` of `inner`, one row high.
pub open spec fn row_rect(inner: Rect, offset: int) -> Rect {
    Rect { x: inner.x, y: (inner.y + offset) as u16, width: inner.width, height: 1 }
}

/// The style of a selected settings row.
pub open spec fn chosen_style(theme: Theme) -> Style {
    on(theme.success, theme.primary, true)
}

/// The marker of a language row: `>` when selected, then a filled dot for the language in use.
pub open spec fn marker_text(selected: bool, active: bool) -> Seq<char> {
    (if selected {
        "> "@
    } else {
        "  "@
    }) + (if active {
        "\u{25cf}"@
    } else {
        "\u{25cb}"@
    })
}

/// `after` is `before` with language row `offset` of `inner` drawn through `mid` when the row
/// is inside `inner`: the marker across the row, then `label` from the fifth column.
pub open spec fn choice_drawn(
    inner: Rect,
    offset: int,
    label: Seq<char>,
    active: bool,
    selected: bool,
    theme: Theme,
    before: Frame,
    mid: Frame,
    after: Frame,
) -> bool {
    if row_shown(inner, offset) {
        let rect = row_rect(inner, offset);
        &&& text_drawn(before, mid, rect, marker_text(selected, active), if selected {
            chosen_style(theme)
        } else {
            on(theme.muted, theme.background, false)
        })
        &&& text_drawn(
            mid,
            after,
            Rect { x: sat_add16(inner.x as int, 4), width: sat_sub16(inner.width as int, 4), ..rect },
            label,
            if selected {
                chosen_style(theme)
            } else {
                on(theme.text, theme.background, false)
            },
        )
    } else {
        mid == before && after == before
    }
}

/// The hexadecimal digit of `d` (0 to 15), upper case.
pub open spec fn hex_digit(d: int) -> char {
    if d < 10 {
        (48 + d) as char
    } else {
        (55 + d) as char
    }
}

/// `color` as `#RRGGBB`.
pub open spec fn color_hex(color: Color) -> Seq<char> {
    match color {
        Color::Rgb { r, g, b } => seq![
            '#',
            hex_digit(r as int / 16),
            hex_digit(r as int % 16),
            hex_digit(g as int / 16),
            hex_digit(g as int % 16),
            hex_digit(b as int / 16),
            hex_digit(b as int % 16),
        ],
    }
}

/// `text` padded with spaces to at least twelve characters.
pub open spec fn padded12(text: Seq<char>) -> Seq<char> {
    if text.len() < 12 {
        text + Seq::new((12 - text.len()) as nat, |i: int| ' ')
    } else {
        text
    }
}

/// The spans of `slot`'s settings row: its label, a swatch in its colour and the colour's code.
pub open spec fn slot_spans(slot: ThemeSlot, selected: bool, theme: Theme, language: Language) -> Seq<SpanView> {
    let color = slot.spec_color(theme);
    seq![
        (
            (if selected {
                "> "@
            } else {
                "  "@
            }) + padded12(slot.spec_label(language)),
            if selected {
                chosen_style(theme)
            } else {
                on(theme.text, theme.background, false)
            },
        ),
        (" \u{2588}\u{2588}\u{2588} "@, on(color, theme.background, true)),
        (color_hex(color), on(theme.muted, theme.background, false)),
    ]
}

/// The text of the reset row.
pub open spec fn reset_text(selected: bool, language: Language) -> Seq<char> {
    (if selected {
        "> [ "@
    } else {
        "  [ "@
    }) + spec_localized(
        language,
        "Reset Dragonfire Theme"@,
        "Dragonfire Temas\u{131}n\u{131} S\u{131}f\u{131}rla"@,
    ) + " ]"@
}

/// The row of `inner` that settings row `index` (0 to 10) stands on.
pub open spec fn setting_offset(index: int) -> int {
    if index < 2 {
        index + 1
    } else if index < 10 {
        index + 3
    } else {
        14
    }
}

/// `after` is `before` with the settings section drawn in `area` through the stages `st`: the
/// titled panel; the language heading and its two rows; the theme heading, one row per theme
/// slot and the reset row, each only where it fits.
pub open spec fn settings_drawn(area: Rect, s: ShowcaseState, st: Seq<Frame>, before: Frame, after: Frame) -> bool {
    let t = s.theme;
    let inner = area.spec_inner();
    let heading = on(t.warning, t.background, true);
    let lang = s.language;
    let sel = s.settings_selected;
    &&& st.len() == 15
    &&& panel_drawn(
        Some(spec_localized(lang, "Settings"@, "Ayarlar"@)),
        BorderSet::spec_rounded(),
        on(t.success, t.background, true),
        heading,
        area,
        before,
        st[0],
    )
    &&& st[0].wf() && st[0].same_size(&before)
    &&& text_drawn(st[0], st[1], Rect { height: 1, ..inner }, spec_localized(lang, "Language"@, "Dil"@), heading)
    &&& choice_drawn(inner, 1, "English"@, lang == Language::English, sel == SettingRow::English, t, st[1], st[2], st[3])
    &&& choice_drawn(inner, 2, "T\u{fc}rk\u{e7}e"@, lang == Language::Turkish, sel == SettingRow::Turkish, t, st[3], st[4], st[5])
    &&& if row_shown(inner, 4) {
        text_drawn(st[5], st[6], row_rect(inner, 4), spec_localized(lang, "Theme"@, "Tema"@), heading)
    } else {
        st[6] == st[5]
    }
    &&& forall|k: int|
        0 <= k < 8 ==> if row_shown(inner, k + 5) {
            spans_drawn(
                #[trigger] st[k + 6],
                st[k + 7],
                row_rect(inner, k + 5),
                slot_spans(slot_at(k), sel == SettingRow::Color(slot_at(k)), t, lang),
            )
        } else {
            st[k + 7] == st[k + 6]
        }
    &&& if row_shown(inner, 14) {
        text_drawn(st[14], after, row_rect(inner, 14), reset_text(sel == SettingRow::Reset, lang), if sel == SettingRow::Reset {
            chosen_style(t)
        } else {
            on(t.secondary, t.background, true)
        })
    } else {
        after == st[14]
    }
}

/// The settings rows' hit regions after the section is drawn in `area`: each row that fits is
/// where it was drawn; the others keep their region.
pub open spec fn settings_hits(area: Rect, before: ShowcaseState, after: ShowcaseState) -> bool {
    let inner = area.spec_inner();
    &&& after == (ShowcaseState { hits: ShowcaseHits { settings_rows: after.hits.settings_rows, ..before.hits }, ..before })
    &&& after.hits.settings_rows@.len() == 11
    &&& forall|i: int|
        0 <= i < 11 ==> #[trigger] after.hits.settings_rows@[i] == if row_shown(inner, setting_offset(i)) {
            row_rect(inner, setting_offset(i))
        } else {
            before.hits.settings_rows@[i]
        }
}

/// `d` (0 to 15) as an upper-case hexadecimal digit.
fn hex_char(d: u8) -> (r: char)
    requires
        d < 16,
    ensures
        r == hex_digit(d as int),
{
    if d < 10 {
        (48 + d) as char
    } else {
        (55 + d) as char
    }
}

/// `color` as `#RRGGBB`.
fn hex_text(color: Color) -> (r: String)
    ensures
        r@ == color_hex(color),
{
    let Color::Rgb { r, g, b } = color;
    let mut text = String::new();
    push_char(&mut text, '#');
    push_char(&mut text, hex_char(r / 16));
    push_char(&mut text, hex_char(r % 16));
    push_char(&mut text, hex_char(g / 16));
    push_char(&mut text, hex_char(g % 16));
    push_char(&mut text, hex_char(b / 16));
    push_char(&mut text, hex_char(b % 16));
    assert(text@ =~= color_hex(color));
    text
}

/// `text` padded with spaces to at least twelve characters.
fn pad12(text: &str) -> (r: String)
    ensures
        r@ == padded12(text@),
{
    let chars = str_chars(text);
    let mut out = copy_string(text);
    let mut n: usize = chars.len();
    while n < 12
        invariant
            chars@ == text@,
            chars@.len() <= n <= 12 || (n == chars@.len() && n >= 12),
            out@ == text@ + Seq::new((n - chars@.len()) as nat, |i: int| ' '),
        decreases 12 - n,
    {
        push_char(&mut out, ' ');
        n = n + 1;
        assert(out@ =~= text@ + Seq::new((n - chars@.len()) as nat, |i: int| ' '));
    }
    if chars.len() >= 12 {
        assert(out@ =~= text@);
    }
    out
}

/// Draws language row `offset` of `inner` when it fits.
fn draw_choice(
    frame: &mut Frame,
    inner: Rect,
    offset: u16,
    label: &str,
    active: bool,
    selected: bool,
    theme: Theme,
) -> (r: Ghost<Frame>)
    requires
        old(frame).wf(),
        offset <= 14,
    ensures
        final(frame).wf(),
        final(frame).same_size(old(frame)),
        choice_drawn(inner, offset as int, label@, active, selected, theme, *old(frame), r@, *final(frame)),
{
    let ghost start = *frame;
    let bottom = inner.y.saturating_add(inner.height);
    let y = inner.y.saturating_add(offset);
    if y < bottom {
        let rect = Rect::new(inner.x, y, inner.width, 1);
        let chosen = style_on(theme.success, theme.primary, true);
        let marker = concat_strs(
            if selected {
                "> "
            } else {
                "  "
            },
            if active {
                "\u{25cf}"
            } else {
                "\u{25cb}"
            },
        );
        assert(marker@ =~= marker_text(selected, active));
        draw_text(frame, rect, marker.as_str(), if selected {
            chosen
        } else {
            style_on(theme.muted, theme.background, false)
        });
        let ghost mid = *frame;
        draw_text(
            frame,
            Rect::new(inner.x.saturating_add(4), y, inner.width.saturating_sub(4), 1),
            label,
            if selected {
                chosen
            } else {
                style_on(theme.text, theme.background, false)
            },
        );
        Ghost(mid)
    } else {
        Ghost(start)
    }
}

/// Draws theme-slot row `offset` of `inner` when it fits.
fn draw_slot(frame: &mut Frame, inner: Rect, offset: u16, slot: ThemeSlot, selected: bool, theme: Theme, language: Language)
    requires
        old(frame).wf(),
        offset <= 14,
    ensures
        final(frame).wf(),
        final(frame).same_size(old(frame)),
        if row_shown(inner, offset as int) {
            spans_drawn(*old(frame), *final(frame), row_rect(inner, offset as int), slot_spans(slot, selected, theme, language))
        } else {
            *final(frame) == *old(frame)
        },
{
    let bottom = inner.y.saturating_add(inner.height);
    let y = inner.y.saturating_add(offset);
    if y < bottom {
        let color = slot.color(theme);
        let label = concat_strs(
            if selected {
                "> "
            } else {
                "  "
            },
            pad12(slot.label(language)).as_str(),
        );
        let mut spans: Vec<Span> = Vec::new();
        spans.push(Span::styled(label.as_str(), if selected {
            style_on(theme.success, theme.primary, true)
        } else {
            style_on(theme.text, theme.background, false)
        }));
        spans.push(Span::styled(" \u{2588}\u{2588}\u{2588} ", style_on(color, theme.background, true)));
        spans.push(Span::styled(hex_text(color).as_str(), style_on(theme.muted, theme.background, false)));
        let line = Line::new(spans);
        assert(line.spec_spans() =~~= slot_spans(slot, selected, theme, language));
        line.render(frame, Rect::new(inner.x, y, inner.width, 1));
    }
}

/// Draws the settings section into `area`; returns the drawing stages.
fn draw_settings(frame: Frame, area: Rect, s: &ShowcaseState) -> (r: (Frame, Ghost<Seq<Frame>>))
    requires
        frame.wf(),
    ensures
        r.0.wf(),
        r.0.same_size(&frame),
        settings_drawn(area, *s, r.1@, frame, r.0),
{
    let mut frame = frame;
    let theme = s.theme;
    let language = s.language;
    let heading = style_on(theme.warning, theme.background, true);
    let inner = Panel::new(localized(language, "Settings", "Ayarlar")).border_set(BorderSet::rounded()).border_style(
        style_on(theme.success, theme.background, true),
    ).title_style(heading).render(&mut frame, area);
    let ghost s0 = frame;
    draw_text(&mut frame, Rect::new(inner.x, inner.y, inner.width, 1), localized(language, "Language", "Dil"), heading);
    let ghost s1 = frame;
    let m2 = draw_choice(&mut frame, inner, 1, "English", language == Language::English, s.settings_selected == SettingRow::English, theme);
    let ghost s3 = frame;
    let m4 = draw_choice(&mut frame, inner, 2, "T\u{fc}rk\u{e7}e", language == Language::Turkish, s.settings_selected == SettingRow::Turkish, theme);
    let ghost s5 = frame;
    let bottom = inner.y.saturating_add(inner.height);
    let theme_y = inner.y.saturating_add(4);
    if theme_y < bottom {
        draw_text(&mut frame, Rect::new(inner.x, theme_y, inner.width, 1), localized(language, "Theme", "Tema"), heading);
    }
    let ghost mut st: Seq<Frame> = seq![s0, s1, m2@, s3, m4@, s5, frame];
    let ghost prefix = st;
    let mut k: usize = 0;
    while k < 8
        invariant
            k <= 8,
            forall|j: int| 0 <= j < 7 ==> st[j] == prefix[j],
            frame.wf(),
            frame.same_size(&s0),
            st.len() == k + 7,
            st[k + 6] == frame,
            inner == area.spec_inner(),
            forall|j: int|
                0 <= j < k ==> if row_shown(inner, j + 5) {
                    spans_drawn(
                        #[trigger] st[j + 6],
                        st[j + 7],
                        row_rect(inner, j + 5),
                        slot_spans(slot_at(j), s.settings_selected == SettingRow::Color(slot_at(j)), theme, language),
                    )
                } else {
                    st[j + 7] == st[j + 6]
                },
        decreases 8 - k,
    {
        let row = SettingRow::at(k + 2);
        let slot = match row {
            SettingRow::Color(slot) => slot,
            _ => ThemeSlot::Background,
        };
        draw_slot(&mut frame, inner, (k + 5) as u16, slot, s.settings_selected == row, theme, language);
        proof {
            st = st.push(frame);
        }
        k = k + 1;
    }
    let reset_y = inner.y.saturating_add(14);
    if reset_y < bottom {
        let selected = s.settings_selected == SettingRow::Reset;
        let head = concat_strs(
            if selected {
                "> [ "
            } else {
                "  [ "
            },
            localized(language, "Reset Dragonfire Theme", "Dragonfire Temas\u{131}n\u{131} S\u{131}f\u{131}rla"),
        );
        let text = concat_strs(head.as_str(), " ]");
        assert(text@ =~= reset_text(selected, language));
        draw_text(&mut frame, Rect::new(inner.x, reset_y, inner.width, 1), text.as_str(), if selected {
            style_on(theme.success, theme.primary, true)
        } else {
            style_on(theme.secondary, theme.background, true)
        });
    }
    (frame, Ghost(st))
}

/// Records where the settings rows are drawn in `area`.
fn record_settings_hits(area: Rect, s: &mut ShowcaseState)
    requires
        old(s).wf(),
    ensures
        final(s).wf(),
        settings_hits(area, *old(s), *final(s)),
{
    let ghost start = *s;
    let inner = area.inner();
    let bottom = inner.y.saturating_add(inner.height);
    let mut i: usize = 0;
    while i < 11
        invariant
            i <= 11,
            inner == area.spec_inner(),
            bottom == sat_add16(inner.y as int, inner.height as int),
            s.wf(),
            *s == (ShowcaseState { hits: ShowcaseHits { settings_rows: s.hits.settings_rows, ..start.hits }, ..start }),
            s.hits.settings_rows@.len() == 11,
            forall|j: int|
                0 <= j < 11 ==> #[trigger] s.hits.settings_rows@[j] == if j < i && row_shown(inner, setting_offset(j)) {
                    row_rect(inner, setting_offset(j))
                } else {
                    start.hits.settings_rows@[j]
                },
        decreases 11 - i,
    {
        let offset: u16 = if i < 2 {
            (i + 1) as u16
        } else if i < 10 {
            (i + 3) as u16
        } else {
            14
        };
        let y = inner.y.saturating_add(offset);
        if y < bottom {
            s.hits.settings_rows.set(i, Rect::new(inner.x, y, inner.width, 1));
        }
        i = i + 1;
    }
}

/// Draws the settings section (the language and theme rows and the reset row) into `area`
/// and records where its rows were drawn; it places no cursor.
pub fn render_settings(frame: Frame, area: Rect, s: &mut ShowcaseState) -> (r: (Frame, Option<Position>))
    requires
        frame.wf(),
        old(s).wf(),
    ensures
        r.0.wf(),
        r.0.same_size(&frame),
        r.1 is None,
        final(s).wf(),
        settings_hits(area, *old(s), *final(s)),
        exists|st: Seq<Frame>| #[trigger] settings_drawn(area, *old(s), st, frame, r.0),
{
    let (drawn, _) = draw_settings(frame, area, s);
    record_settings_hits(area, s);
    (drawn, None)
}

/// The three lines of the overview's introduction.
pub open spec fn overview_lines(t: Theme, lang: Language) -> Seq<Seq<SpanView>> {
    let underline = Style {
        fg: Some(t.warning),
        bg: None,
        attributes: Attributes { underline: true, ..Attributes::none() },
    };
    let italic = Style {
        fg: Some(t.text),
        bg: None,
        attributes: Attributes { italic: true, ..Attributes::none() },
    };
    seq![
        seq![
            (spec_localized(lang, "Explicit "@, "A\u{e7}\u{131}k "@), foreground(t.secondary, true)),
            (
                spec_localized(lang, "immediate-mode rendering"@, "immediate-mode render"@),
                foreground(t.text, false),
            ),
        ],
        seq![
            ("M20 "@, foreground(t.success, true)),
            (
                spec_localized(
                    lang,
                    "full-frame encoder runs: 69% reduction on the measured local machine"@,
                    "tam-kare encoder: \u{f6}l\u{e7}\u{fc}len yerel makinede %69 azaltma"@,
                ),
                foreground(t.muted, false),
            ),
        ],
        seq![
            ("M19 "@, underline),
            (
                spec_localized(
                    lang,
                    "no component tree \u{b7} no virtual DOM"@,
                    "component tree yok \u{b7} virtual DOM yok"@,
                ),
                italic,
            ),
        ],
    ]
}

/// The two columns of the overview in `area`: three fifths and two fifths, one column apart.
pub open spec fn overview_columns(area: Rect) -> Seq<Rect> {
    layout_areas(Direction::Horizontal, seq![Constraint::Fill(3), Constraint::Fill(2)], 1, area)
}

/// `after` is `before` with the overview drawn in `area` through the stages `st`: the titled
/// introduction panel and its lines on the left, the runtime panel and its heading on the right.
#[verifier::opaque]
pub open spec fn overview_drawn(area: Rect, s: ShowcaseState, st: Seq<Frame>, before: Frame, after: Frame) -> bool {
    let t = s.theme;
    let lang = s.language;
    let left = overview_columns(area)[0];
    let right = overview_columns(area)[1];
    let inner = left.spec_inner();
    let border = on(t.muted, t.background, false);
    let title = on(t.warning, t.background, true);
    &&& st.len() == 3
    &&& panel_drawn(
        Some(spec_localized(lang, "Overview"@, "Genel Bak\u{131}\u{15f}"@)),
        BorderSet::spec_rounded(),
        border,
        title,
        left,
        before,
        st[0],
    )
    &&& st[0].wf() && st[0].same_size(&before)
    &&& st[1].wf() && st[1].same_size(&before)
    &&& st[1].spec_buffer().cells() == rich_rows(
        st[0].spec_buffer().cells(),
        st[0].spec_width() as int,
        st[0].spec_height() as int,
        inner,
        overview_lines(t, lang).take(if inner.height >= 3 {
            3
        } else {
            inner.height as int
        }),
        Alignment::Left,
    )
    &&& panel_drawn(
        Some(spec_localized(lang, "Runtime"@, "\u{c7}al\u{131}\u{15f}ma Zaman\u{131}"@)),
        BorderSet::spec_square(),
        border,
        title,
        right,
        st[1],
        st[2],
    )
    &&& st[2].wf() && st[2].same_size(&before)
    &&& text_drawn(
        st[2],
        after,
        Rect { height: 1, ..right.spec_inner() },
        spec_localized(lang, "Static benchmark context"@, "Statik benchmark ba\u{11f}lam\u{131}"@),
        on(t.text, t.background, true),
    )
}

/// Draws the overview section into `area`: the introduction on the left and the runtime panel's
/// heading on the right. Returns the runtime panel's interior, where the sampled gauges go,
/// and no cursor.
pub fn render_overview(base: Frame, area: Rect, s: &ShowcaseState) -> (r: (Frame, Option<Position>, Rect))
    requires
        base.wf(),
    ensures
        r.0.wf(),
        r.0.same_size(&base),
        r.1 is None,
        r.2 == overview_columns(area)[1].spec_inner(),
        exists|st: Seq<Frame>| #[trigger] overview_drawn(area, *s, st, base, r.0),
{
    let ghost start = base;
    let mut frame = base;
    let t = s.theme;
    let lang = s.language;
    let mut constraints: Vec<Constraint> = Vec::new();
    constraints.push(Constraint::Fill(3));
    constraints.push(Constraint::Fill(2));
    assert(constraints@ =~= seq![Constraint::Fill(3), Constraint::Fill(2)]);
    let columns = Layout::horizontal(constraints).gap(1).split(area);
    let left = columns[0];
    let right = columns[1];
    let border = style_on(t.muted, t.background, false);
    let title = style_on(t.warning, t.background, true);
    let inner = Panel::new(localized(lang, "Overview", "Genel Bak\u{131}\u{15f}")).border_set(
        BorderSet::rounded(),
    ).border_style(border).title_style(title).render(&mut frame, left);
    let ghost s0 = frame;
    let mut first: Vec<Span> = Vec::new();
    first.push(Span::styled(localized(lang, "Explicit ", "A\u{e7}\u{131}k "), Style::new().fg(t.secondary).bold()));
    first.push(Span::styled(localized(lang, "immediate-mode rendering", "immediate-mode render"), Style::new().fg(t.text)));
    let mut second: Vec<Span> = Vec::new();
    second.push(Span::styled("M20 ", Style::new().fg(t.success).bold()));
    second.push(Span::styled(
        localized(
            lang,
            "full-frame encoder runs: 69% reduction on the measured local machine",
            "tam-kare encoder: \u{f6}l\u{e7}\u{fc}len yerel makinede %69 azaltma",
        ),
        Style::new().fg(t.muted),
    ));
    let mut third: Vec<Span> = Vec::new();
    third.push(Span::styled("M19 ", Style::new().fg(t.warning).underline()));
    third.push(Span::styled(
        localized(lang, "no component tree \u{b7} no virtual DOM", "component tree yok \u{b7} virtual DOM yok"),
        Style::new().fg(t.text).italic(),
    ));
    let mut lines: Vec<Line> = Vec::new();
    lines.push(Line::new(first));
    lines.push(Line::new(second));
    lines.push(Line::new(third));
    assert(line_views(lines@) =~~= overview_lines(t, lang));
    RichText::new(lines).render(&mut frame, inner);
    let ghost s1 = frame;
    let metrics = Panel::new(localized(lang, "Runtime", "\u{c7}al\u{131}\u{15f}ma Zaman\u{131}")).border_set(
        BorderSet::square(),
    ).border_style(border).title_style(title).render(&mut frame, right);
    let ghost s2 = frame;
    draw_text(
        &mut frame,
        Rect::new(metrics.x, metrics.y, metrics.width, 1),
        localized(lang, "Static benchmark context", "Statik benchmark ba\u{11f}lam\u{131}"),
        style_on(t.text, t.background, true),
    );
    let ghost st = seq![s0, s1, s2];
    assert(overview_drawn(area, *s, st, start, frame)) by {
        reveal(overview_drawn);
    }
    let result: (Frame, Option<Position>, Rect) = (frame, None, metrics);
    assert(result.0 == frame);
    assert(overview_drawn(area, *s, st, base, result.0));
    assert(exists|w: Seq<Frame>| #[trigger] overview_drawn(area, *s, w, base, result.0));
    result
}

/// The label of header tab `i` (0 to 7): its number and its section's title.
pub open spec fn tab_label(i: int, lang: Language) -> Seq<char> {
    seq![(49 + i) as char, ' '] + section_at(i).spec_title(lang)
}

/// The columns tab `i`'s label takes, at most `u16::MAX`.
pub open spec fn tab_width(i: int, lang: Language) -> int {
    min_int(unicode_str_width(tab_label(i, lang)) as int, 0xffff)
}

/// The column where header tab `i` starts: each tab one column after the previous one.
pub open spec fn tab_x(start: u16, lang: Language, i: int) -> u16
    decreases i,
{
    if i <= 0 {
        start
    } else {
        sat_add16(sat_add16(tab_x(start, lang, i - 1) as int, tab_width(i - 1, lang)) as int, 1)
    }
}

/// The columns of tab `i` that fit before column `right`.
pub open spec fn tab_visible(start: u16, right: int, lang: Language, i: int) -> int {
    min_int(tab_width(i, lang), right - tab_x(start, lang, i))
}

/// Whether the tab loop reaches tab `i`: every earlier tab started before `right` and showed
/// at least one column.
pub open spec fn tab_reached(start: u16, right: int, lang: Language, i: int) -> bool
    decreases i,
{
    if i <= 0 {
        true
    } else {
        tab_reached(start, right, lang, i - 1) && tab_x(start, lang, i - 1) < right && tab_visible(
            start,
            right,
            lang,
            i - 1,
        ) > 0
    }
}

/// Whether tab `i` is drawn.
pub open spec fn tab_drawn(start: u16, right: int, lang: Language, i: int) -> bool {
    tab_reached(start, right, lang, i) && tab_x(start, lang, i) < right && tab_visible(start, right, lang, i) > 0
}

/// The rectangle tab `i` is drawn in on row `y`.
pub open spec fn tab_rect(start: u16, right: int, lang: Language, i: int, y: u16) -> Rect {
    Rect { x: tab_x(start, lang, i), y, width: tab_visible(start, right, lang, i) as u16, height: 1 }
}

/// `after` is `before` with the header drawn in `rect` through the stages `st`: the titled
/// panel, the activity line right-aligned on its first row and, when the panel has a second
/// row, the section tabs on it from the left, the current section highlighted, as many as
/// start inside the panel (the last one cut at its edge).
pub open spec fn header_drawn(
    rect: Rect,
    s: ShowcaseState,
    title: Seq<char>,
    activity: Seq<char>,
    st: Seq<Frame>,
    before: Frame,
    after: Frame,
) -> bool {
    let t = s.theme;
    let inner = rect.spec_inner();
    let right = inner.x + inner.width;
    let y = sat_add16(inner.y as int, 1);
    &&& st.len() == 10
    &&& panel_drawn(
        Some(title),
        BorderSet::spec_rounded(),
        on(t.secondary, t.background, true),
        on(t.success, t.background, true),
        rect,
        before,
        st[0],
    )
    &&& st[0].wf() && st[0].same_size(&before)
    &&& st[1].wf() && st[1].same_size(&before)
    &&& st[1].spec_buffer().cells() == text_cells(
        st[0].spec_buffer().cells(),
        st[0].spec_width() as int,
        st[0].spec_height() as int,
        Rect { height: 1, ..inner },
        activity,
        on(t.text, t.background, false),
        Alignment::Right,
    )
    &&& forall|i: int|
        0 <= i < 8 ==> if inner.height >= 2 && tab_drawn(inner.x, right, s.language, i) {
            text_drawn(
                #[trigger] st[i + 1],
                st[i + 2],
                tab_rect(inner.x, right, s.language, i, y),
                tab_label(i, s.language),
                if s.section == section_at(i) {
                    on(t.success, t.primary, true)
                } else {
                    on(t.warning, t.background, false)
                },
            )
        } else {
            st[i + 2] == st[i + 1]
        }
    &&& after == st[9]
}

/// The section tabs' hit regions after the header is drawn in `rect`: each tab drawn whole is
/// where it was drawn; the others keep their region.
pub open spec fn header_hits(rect: Rect, before: ShowcaseState, after: ShowcaseState) -> bool {
    let inner = rect.spec_inner();
    let right = inner.x + inner.width;
    let y = sat_add16(inner.y as int, 1);
    &&& after == (ShowcaseState { hits: ShowcaseHits { sections: after.hits.sections, ..before.hits }, ..before })
    &&& after.hits.sections@.len() == 8
    &&& forall|i: int|
        0 <= i < 8 ==> #[trigger] after.hits.sections@[i] == if inner.height >= 2 && tab_drawn(
            inner.x,
            right,
            before.language,
            i,
        ) && tab_visible(inner.x, right, before.language, i) == tab_width(i, before.language) {
            tab_rect(inner.x, right, before.language, i, y)
        } else {
            before.hits.sections@[i]
        }
}

/// The label of header tab `i`.
fn tab_label_text(i: usize, lang: Language) -> (r: String)
    requires
        i < 8,
    ensures
        r@ == tab_label(i as int, lang),
{
    let mut label = String::new();
    push_char(&mut label, ((49 + i) as u8) as char);
    push_char(&mut label, ' ');
    push_str(&mut label, Section::at(i).title(lang));
    assert(label@ =~= tab_label(i as int, lang));
    label
}

/// Draws the showcase's header into `rect` (the panel titled `title`, the `activity` line and
/// the section tabs) and records where the tabs that fit whole were drawn.
#[verifier::spinoff_prover]
#[verifier::rlimit(60)]
pub fn render_header(frame: Frame, rect: Rect, s: &mut ShowcaseState, title: &str, activity: &str) -> (r: Frame)
    requires
        frame.wf(),
        old(s).wf(),
    ensures
        r.wf(),
        r.same_size(&frame),
        final(s).wf(),
        header_hits(rect, *old(s), *final(s)),
        exists|st: Seq<Frame>| #[trigger] header_drawn(rect, *old(s), title@, activity@, st, frame, r),
{
    let ghost start = *s;
    let ghost base = frame;
    let mut frame = frame;
    let t = s.theme;
    let lang = s.language;
    let inner = Panel::new(title).border_set(BorderSet::rounded()).border_style(
        style_on(t.secondary, t.background, true),
    ).title_style(style_on(t.success, t.background, true)).render(&mut frame, rect);
    let ghost s0 = frame;
    Text::new(activity).alignment(Alignment::Right).style(style_on(t.text, t.background, false)).render(
        &mut frame,
        Rect::new(inner.x, inner.y, inner.width, 1),
    );
    let ghost s1 = frame;
    let ghost mut st: Seq<Frame> = seq![s0, frame];
    let right: u32 = inner.x as u32 + inner.width as u32;
    let y = inner.y.saturating_add(1);
    let selected = style_on(t.success, t.primary, true);
    let normal = style_on(t.warning, t.background, false);
    let mut x: u16 = inner.x;
    let mut i: usize = 0;
    let mut going = inner.height >= 2;
    while i < 8
        invariant
            i <= 8,
            inner == rect.spec_inner(),
            right == inner.x + inner.width,
            y == sat_add16(inner.y as int, 1),
            selected == on(t.success, t.primary, true),
            normal == on(t.warning, t.background, false),
            t == start.theme,
            lang == start.language,
            s.wf(),
            frame.wf(),
            frame.same_size(&base),
            st.len() == i + 2,
            st[0] == s0,
            st[1] == s1,
            st[i + 1] == frame,
            x >= inner.x,
            going == (inner.height >= 2 && tab_reached(inner.x, right as int, lang, i as int)),
            going ==> x == tab_x(inner.x, lang, i as int),
            *s == (ShowcaseState { hits: ShowcaseHits { sections: s.hits.sections, ..start.hits }, ..start }),
            s.hits.sections@.len() == 8,
            forall|j: int|
                0 <= j < 8 ==> #[trigger] s.hits.sections@[j] == if j < i && inner.height >= 2 && tab_drawn(
                    inner.x,
                    right as int,
                    lang,
                    j,
                ) && tab_visible(inner.x, right as int, lang, j) == tab_width(j, lang) {
                    tab_rect(inner.x, right as int, lang, j, y)
                } else {
                    start.hits.sections@[j]
                },
            forall|j: int|
                0 <= j < i ==> if inner.height >= 2 && tab_drawn(inner.x, right as int, lang, j) {
                    text_drawn(
                        #[trigger] st[j + 1],
                        st[j + 2],
                        tab_rect(inner.x, right as int, lang, j, y),
                        tab_label(j, lang),
                        if start.section == section_at(j) {
                            on(t.success, t.primary, true)
                        } else {
                            on(t.warning, t.background, false)
                        },
                    )
                } else {
                    st[j + 2] == st[j + 1]
                },
        decreases 8 - i,
    {
        if going && (x as u32) < right {
            let label = tab_label_text(i, lang);
            let measured = display_width(label.as_str());
            let label_width: u16 = if measured < 0xffff {
                measured as u16
            } else {
                0xffff
            };
            let room = (right - x as u32) as u16;
            let visible = if label_width < room {
                label_width
            } else {
                room
            };
            proof {
                assert(tab_width(i as int, lang) == label_width);
                assert(tab_visible(inner.x, right as int, lang, i as int) == visible);
            }
            if visible > 0 {
                let item = Rect::new(x, y, visible, 1);
                if visible == label_width {
                    s.hits.sections.set(i, item);
                }
                let section = Section::at(i);
                let style = if s.section == section {
                    selected
                } else {
                    normal
                };
                draw_text(&mut frame, item, label.as_str(), style);
                x = x.saturating_add(label_width).saturating_add(1);
            } else {
                going = false;
            }
        } else {
            going = false;
        }
        proof {
            st = st.push(frame);
        }
        i = i + 1;
    }
    assert(header_drawn(rect, start, title@, activity@, st, base, frame));
    frame
}

/// The border style of a pane: bright while it has the focus.
pub open spec fn pane_border(t: Theme, has_focus: bool) -> Style {
    if has_focus {
        on(t.success, t.background, true)
    } else {
        on(t.muted, t.background, false)
    }
}

/// Whether the focus is on pane `value`.
fn has_focus(s: &ShowcaseState, value: u32) -> (r: bool)
    ensures
        r == focused(s.focus, value),
{
    match s.focus.current() {
        Some(id) => id.value() == value,
        None => false,
    }
}

/// The title of the text area's pane.
pub open spec fn area_title() -> Seq<char> {
    "TextArea \u{b7} \u{130}stanbul \u{b7} \u{4f60}\u{597d} \u{b7} \u{1f680} \u{b7} \u{e9} \u{b7} \u{2764}\u{fe0f} \u{b7} \u{1f468}\u{200d}\u{1f469}\u{200d}\u{1f467}\u{200d}\u{1f466} \u{b7} \u{1f1f9}\u{1f1f7}"@
}

/// The two rows of the input section in `area`: the three-row input above the text area.
pub open spec fn input_rows(area: Rect) -> Seq<Rect> {
    layout_areas(Direction::Vertical, seq![Constraint::Length(3), Constraint::Fill(1)], 1, area)
}

/// Where an input drawn in `rect` puts the terminal cursor.
pub open spec fn input_cursor(input: TextInput, rect: Rect) -> Option<Position> {
    if rect.width == 0 || rect.height == 0 {
        None
    } else {
        let col = input_viewport(input.text_view(), input.cursor_view(), rect.width as int).1;
        if rect.x + col <= u16::MAX {
            Some(Position { x: (rect.x + col) as u16, y: rect.y })
        } else {
            None
        }
    }
}

/// `after` is `before` with the input section drawn in `area` through the stages `st`, the
/// text area's state going from `s.area` to `area_after` and its cursor being `area_cursor`:
/// the input's pane and text, then the text area's pane and visible lines.
#[verifier::opaque]
pub open spec fn input_section_drawn(
    area: Rect,
    s: ShowcaseState,
    area_after: AreaState,
    area_cursor: Option<Position>,
    st: Seq<Frame>,
    before: Frame,
    after: Frame,
) -> bool {
    let t = s.theme;
    let rows = input_rows(area);
    let title = on(t.warning, t.background, true);
    let text = on(t.text, t.background, false);
    let inner = rows[1].spec_inner();
    &&& st.len() == 3
    &&& panel_drawn(
        Some("TextInput \u{b7} grapheme aware"@),
        BorderSet::spec_rounded(),
        pane_border(t, focused(s.focus, 5)),
        title,
        rows[0],
        before,
        st[0],
    )
    &&& st[0].wf() && st[0].same_size(&before)
    &&& input_drawn(s.input, rows[0].spec_inner(), text, st[0], st[1])
    &&& panel_drawn(
        Some(area_title()),
        BorderSet::spec_square(),
        pane_border(t, focused(s.focus, 6)),
        title,
        rows[1],
        st[1],
        st[2],
    )
    &&& st[2].wf() && st[2].same_size(&before)
    &&& after.wf() && after.same_size(&before)
    &&& if inner.width == 0 || inner.height == 0 {
        after == st[2] && area_after == s.area@ && area_cursor is None
    } else {
        let (m, lines, pos) = area_render(s.area@, inner);
        &&& area_after == m
        &&& after.spec_buffer().cells() == rows_written(st[2].spec_buffer(), inner, lines, text)
        &&& area_cursor == pos
    }
}

/// Draws the input section into `area`: the input and the text area, each in a pane that is
/// bright while it has the focus. Records both panes' interiors and returns the cursor of the
/// focused one.
pub fn render_input(base: Frame, area: Rect, s: &mut ShowcaseState) -> (r: (Frame, Option<Position>))
    requires
        base.wf(),
        old(s).wf(),
    ensures
        r.0.wf(),
        r.0.same_size(&base),
        final(s).wf(),
        *final(s) == (ShowcaseState {
            hits: ShowcaseHits {
                input: input_rows(area)[0].spec_inner(),
                area: input_rows(area)[1].spec_inner(),
                ..old(s).hits
            },
            area: final(s).area,
            ..*old(s)
        }),
        exists|st: Seq<Frame>, area_cursor: Option<Position>|
            #[trigger] input_section_drawn(area, *old(s), final(s).area@, area_cursor, st, base, r.0)
            && r.1 == if focused(old(s).focus, 5) {
                input_cursor(old(s).input, input_rows(area)[0].spec_inner())
            } else if focused(old(s).focus, 6) {
                area_cursor
            } else {
                None
            },
{
    let ghost start = *s;
    let mut frame = base;
    let t = s.theme;
    let mut constraints: Vec<Constraint> = Vec::new();
    constraints.push(Constraint::Length(3));
    constraints.push(Constraint::Fill(1));
    assert(constraints@ =~= seq![Constraint::Length(3), Constraint::Fill(1)]);
    let rows = Layout::vertical(constraints).gap(1).split(area);
    let title = style_on(t.warning, t.background, true);
    let text = style_on(t.text, t.background, false);
    let input_focused = has_focus(s, 5);
    let area_focused = has_focus(s, 6);
    let bright = style_on(t.success, t.background, true);
    let dull = style_on(t.muted, t.background, false);
    let input_inner = Panel::new("TextInput \u{b7} grapheme aware").border_set(BorderSet::rounded()).border_style(
        if input_focused {
            bright
        } else {
            dull
        },
    ).title_style(title).render(&mut frame, rows[0]);
    let ghost s0 = frame;
    s.hits.input = input_inner;
    let input_cursor_at = s.input.render(&mut frame, input_inner, text);
    let ghost s1 = frame;
    let area_inner = Panel::new(
        "TextArea \u{b7} \u{130}stanbul \u{b7} \u{4f60}\u{597d} \u{b7} \u{1f680} \u{b7} \u{e9} \u{b7} \u{2764}\u{fe0f} \u{b7} \u{1f468}\u{200d}\u{1f469}\u{200d}\u{1f467}\u{200d}\u{1f466} \u{b7} \u{1f1f9}\u{1f1f7}",
    ).border_set(BorderSet::square()).border_style(
        if area_focused {
            bright
        } else {
            dull
        },
    ).title_style(title).render(&mut frame, rows[1]);
    let ghost s2 = frame;
    s.hits.area = area_inner;
    let area_cursor = s.area.render(&mut frame, area_inner, text);
    let cursor = if input_focused {
        input_cursor_at
    } else if area_focused {
        area_cursor
    } else {
        None
    };
    let ghost st = seq![s0, s1, s2];
    assert(input_section_drawn(area, start, s.area@, area_cursor, st, base, frame)) by {
        reveal(input_section_drawn);
    }
    assert(cursor == if focused(start.focus, 5) {
        input_cursor(start.input, input_rows(area)[0].spec_inner())
    } else if focused(start.focus, 6) {
        area_cursor
    } else {
        None
    });
    let result: (Frame, Option<Position>) = (frame, cursor);
    assert(result.0 == frame && result.1 == cursor);
    assert(input_section_drawn(area, start, s.area@, area_cursor, st, base, result.0));
    result
}

/// The footer's hint for what `s` shows.
pub open spec fn footer_hint(s: ShowcaseState) -> Seq<char> {
    let l = s.language;
    if s.section == Section::Input {
        spec_localized(
            l,
            "Tab focus \u{b7} type/edit \u{b7} Ctrl+P commands \u{b7} m modal \u{b7} q quit"@,
            "Tab oda\u{11f}\u{131} \u{b7} yaz/d\u{fc}zenle \u{b7} Ctrl+P komutlar \u{b7} m pencere \u{b7} q \u{e7}\u{131}k\u{131}\u{15f}"@,
        )
    } else if s.section == Section::Widgets || s.section == Section::Data {
        spec_localized(
            l,
            "Tab focus \u{b7} \u{2191}\u{2193} navigate \u{b7} Enter tree \u{b7} Ctrl+P commands \u{b7} q quit"@,
            "Tab oda\u{11f}\u{131} \u{b7} \u{2191}\u{2193} gezin \u{b7} Enter a\u{11f}a\u{e7} \u{b7} Ctrl+P komutlar \u{b7} q \u{e7}\u{131}k\u{131}\u{15f}"@,
        )
    } else if s.section == Section::Adapters && s.browser_mode == BrowserMode::Capabilities {
        spec_localized(
            l,
            "C/Esc adapters \u{b7} \u{2191}\u{2193} capabilities \u{b7} Ctrl+P commands \u{b7} q quit"@,
            "C/Esc adapt\u{f6}rler \u{b7} \u{2191}\u{2193} yetenekler \u{b7} Ctrl+P komutlar \u{b7} q \u{e7}\u{131}k\u{131}\u{15f}"@,
        )
    } else if s.section == Section::Adapters {
        spec_localized(
            l,
            "C capabilities \u{b7} Tab focus \u{b7} Ctrl+P commands \u{b7} q quit"@,
            "C yetenekler \u{b7} Tab oda\u{11f}\u{131} \u{b7} Ctrl+P komutlar \u{b7} q \u{e7}\u{131}k\u{131}\u{15f}"@,
        )
    } else {
        spec_localized(
            l,
            "1\u{2013}8 sections \u{b7} Tab focus \u{b7} Ctrl+P commands \u{b7} m modal \u{b7} q quit"@,
            "1\u{2013}8 b\u{f6}l\u{fc}mler \u{b7} Tab oda\u{11f}\u{131} \u{b7} Ctrl+P komutlar \u{b7} m pencere \u{b7} q \u{e7}\u{131}k\u{131}\u{15f}"@,
        )
    }
}

/// The footer's style: the muted colour, dimmed, on the background.
pub open spec fn footer_style(t: Theme) -> Style {
    Style {
        fg: Some(t.muted),
        bg: Some(t.background),
        attributes: Attributes { dim: true, ..Attributes::none() },
    }
}

/// Draws the footer's key hint for what `s` shows into `rect`.
pub fn render_footer(frame: Frame, rect: Rect, s: &ShowcaseState) -> (r: Frame)
    requires
        frame.wf(),
    ensures
        text_drawn(frame, r, rect, footer_hint(*s), footer_style(s.theme)),
{
    let mut frame = frame;
    let l = s.language;
    let hint = if s.section == Section::Input {
        localized(
            l,
            "Tab focus \u{b7} type/edit \u{b7} Ctrl+P commands \u{b7} m modal \u{b7} q quit",
            "Tab oda\u{11f}\u{131} \u{b7} yaz/d\u{fc}zenle \u{b7} Ctrl+P komutlar \u{b7} m pencere \u{b7} q \u{e7}\u{131}k\u{131}\u{15f}",
        )
    } else if s.section == Section::Widgets || s.section == Section::Data {
        localized(
            l,
            "Tab focus \u{b7} \u{2191}\u{2193} navigate \u{b7} Enter tree \u{b7} Ctrl+P commands \u{b7} q quit",
            "Tab oda\u{11f}\u{131} \u{b7} \u{2191}\u{2193} gezin \u{b7} Enter a\u{11f}a\u{e7} \u{b7} Ctrl+P komutlar \u{b7} q \u{e7}\u{131}k\u{131}\u{15f}",
        )
    } else if s.section == Section::Adapters && s.browser_mode == BrowserMode::Capabilities {
        localized(
            l,
            "C/Esc adapters \u{b7} \u{2191}\u{2193} capabilities \u{b7} Ctrl+P commands \u{b7} q quit",
            "C/Esc adapt\u{f6}rler \u{b7} \u{2191}\u{2193} yetenekler \u{b7} Ctrl+P komutlar \u{b7} q \u{e7}\u{131}k\u{131}\u{15f}",
        )
    } else if s.section == Section::Adapters {
        localized(
            l,
            "C capabilities \u{b7} Tab focus \u{b7} Ctrl+P commands \u{b7} q quit",
            "C yetenekler \u{b7} Tab oda\u{11f}\u{131} \u{b7} Ctrl+P komutlar \u{b7} q \u{e7}\u{131}k\u{131}\u{15f}",
        )
    } else {
        localized(
            l,
            "1\u{2013}8 sections \u{b7} Tab focus \u{b7} Ctrl+P commands \u{b7} m modal \u{b7} q quit",
            "1\u{2013}8 b\u{f6}l\u{fc}mler \u{b7} Tab oda\u{11f}\u{131} \u{b7} Ctrl+P komutlar \u{b7} m pencere \u{b7} q \u{e7}\u{131}k\u{131}\u{15f}",
        )
    };
    let style = Style::new().fg(s.theme.muted).bg(s.theme.background).dim();
    draw_text(&mut frame, rect, hint, style);
    frame
}

/// A style with foreground `fg` and the attributes `attributes`.
pub open spec fn fg_with(fg: Color, attributes: Attributes) -> Style {
    Style { fg: Some(fg), bg: None, attributes }
}

/// The name of the pane holding the focus.
pub open spec fn focus_name(s: ShowcaseState) -> Seq<char> {
    match s.focus.spec_current() {
        Some(id) => if id.spec_value() == 1 {
            "List"@
        } else if id.spec_value() == 2 {
            "Table"@
        } else if id.spec_value() == 3 {
            "Tree"@
        } else if id.spec_value() == 4 {
            "Viewport"@
        } else if id.spec_value() == 5 {
            "TextInput"@
        } else if id.spec_value() == 6 {
            "TextArea"@
        } else {
            "None"@
        },
        None => "None"@,
    }
}

/// The lines of the interaction section's explanation.
pub open spec fn interaction_lines(s: ShowcaseState) -> Seq<Seq<SpanView>> {
    let t = s.theme;
    let none = Attributes::none();
    seq![
        seq![
            ("Focus: "@, fg_with(t.warning, Attributes { bold: true, ..none })),
            (focus_name(s), fg_with(t.success, Attributes { reverse: true, ..none })),
        ],
        seq![
            ("Ctrl+P "@, fg_with(t.secondary, Attributes { underline: true, ..none })),
            ("opens the command palette"@, fg_with(t.text, none)),
        ],
        seq![
            ("m "@, fg_with(t.error, Attributes { strikethrough: true, ..none })),
            ("opens a focus-isolating modal"@, fg_with(t.text, Attributes { italic: true, ..none })),
        ],
        seq![
            ("Mouse "@, fg_with(t.success, Attributes { bold: true, ..none })),
            ("clicks focus; wheel scrolls Viewport"@, fg_with(t.muted, Attributes { dim: true, ..none })),
        ],
    ]
}

/// The two columns of the interaction section in `area`: a third and two thirds.
pub open spec fn interaction_columns(area: Rect) -> Seq<Rect> {
    layout_areas(Direction::Horizontal, seq![Constraint::Fill(1), Constraint::Fill(2)], 1, area)
}

/// `after` is `before` with the interaction section drawn in `area` through the stages `st`,
/// the list's selection going to `selected`: the list pane and its items on the left, the
/// explanation pane and its lines on the right.
#[verifier::opaque]
pub open spec fn interaction_drawn(area: Rect, s: ShowcaseState, selected: usize, st: Seq<Frame>, before: Frame, after: Frame) -> bool {
    let t = s.theme;
    let cols = interaction_columns(area);
    let title = on(t.warning, t.background, true);
    let list_inner = cols[0].spec_inner();
    let items = spec_list_items(Section::Interaction);
    let inner = cols[1].spec_inner();
    &&& st.len() == 3
    &&& panel_drawn(Some("Interaction"@), BorderSet::spec_rounded(), pane_border(t, focused(s.focus, 1)), title, cols[0], before, st[0])
    &&& st[0].wf() && st[0].same_size(&before)
    &&& st[1].wf() && st[1].same_size(&before)
    &&& selected == clamp_selection(s.list.spec_selected() as int, items.len() as int)
    &&& st[1].spec_buffer().cells() == list_rows(
        st[0].spec_buffer().cells(),
        st[0].spec_width() as int,
        st[0].spec_height() as int,
        list_inner,
        items,
        Some(selected),
        on(t.text, t.background, false),
        on(t.success, t.primary, true),
        min_int(min_int(items.len() as int, list_inner.height as int), u16::MAX - list_inner.y + 1),
    )
    &&& panel_drawn(
        Some("Focus \u{b7} KeyMap \u{b7} Style"@),
        BorderSet::spec_double(),
        pane_border(t, false),
        title,
        cols[1],
        st[1],
        st[2],
    )
    &&& st[2].wf() && st[2].same_size(&before)
    &&& after.wf() && after.same_size(&before)
    &&& after.spec_buffer().cells() == rich_rows(
        st[2].spec_buffer().cells(),
        st[2].spec_width() as int,
        st[2].spec_height() as int,
        inner,
        interaction_lines(s).take(if inner.height >= 4 {
            4
        } else {
            inner.height as int
        }),
        Alignment::Left,
    )
}

/// Draws the interaction section into `area`: the list of interaction topics (its pane bright
/// while it has the focus) and an explanation naming the focused pane. Records the list's
/// interior and clamps its selection; places no cursor.
pub fn render_interaction(base: Frame, area: Rect, s: &mut ShowcaseState) -> (r: (Frame, Option<Position>))
    requires
        base.wf(),
        old(s).wf(),
    ensures
        r.0.wf(),
        r.0.same_size(&base),
        r.1 is None,
        final(s).wf(),
        *final(s) == (ShowcaseState {
            hits: ShowcaseHits { list: interaction_columns(area)[0].spec_inner(), ..old(s).hits },
            list: final(s).list,
            ..*old(s)
        }),
        exists|st: Seq<Frame>|
            #[trigger] interaction_drawn(area, *old(s), final(s).list.spec_selected(), st, base, r.0),
{
    let ghost start = *s;
    let mut frame = base;
    let t = s.theme;
    let mut constraints: Vec<Constraint> = Vec::new();
    constraints.push(Constraint::Fill(1));
    constraints.push(Constraint::Fill(2));
    assert(constraints@ =~= seq![Constraint::Fill(1), Constraint::Fill(2)]);
    let cols = Layout::horizontal(constraints).gap(1).split(area);
    let title = style_on(t.warning, t.background, true);
    let list_focused = has_focus(s, 1);
    let list_inner = Panel::new("Interaction").border_set(BorderSet::rounded()).border_style(
        if list_focused {
            style_on(t.success, t.background, true)
        } else {
            style_on(t.muted, t.background, false)
        },
    ).title_style(title).render(&mut frame, cols[0]);
    let ghost s0 = frame;
    s.hits.list = list_inner;
    let items = section_list_items(Section::Interaction);
    List::new(items.as_slice()).normal_style(style_on(t.text, t.background, false)).selected_style(
        style_on(t.success, t.primary, true),
    ).render(&mut frame, list_inner, &mut s.list);
    let ghost s1 = frame;
    let inner = Panel::new("Focus \u{b7} KeyMap \u{b7} Style").border_set(BorderSet::double()).border_style(
        style_on(t.muted, t.background, false),
    ).title_style(title).render(&mut frame, cols[1]);
    let ghost s2 = frame;
    let name = match s.focus.current() {
        Some(id) => {
            let v = id.value();
            if v == 1 {
                "List"
            } else if v == 2 {
                "Table"
            } else if v == 3 {
                "Tree"
            } else if v == 4 {
                "Viewport"
            } else if v == 5 {
                "TextInput"
            } else if v == 6 {
                "TextArea"
            } else {
                "None"
            }
        },
        None => "None",
    };
    let mut first: Vec<Span> = Vec::new();
    first.push(Span::styled("Focus: ", Style::new().fg(t.warning).bold()));
    first.push(Span::styled(name, Style::new().fg(t.success).reverse()));
    let mut second: Vec<Span> = Vec::new();
    second.push(Span::styled("Ctrl+P ", Style::new().fg(t.secondary).underline()));
    second.push(Span::styled("opens the command palette", Style::new().fg(t.text)));
    let mut third: Vec<Span> = Vec::new();
    third.push(Span::styled("m ", Style::new().fg(t.error).strikethrough()));
    third.push(Span::styled("opens a focus-isolating modal", Style::new().fg(t.text).italic()));
    let mut fourth: Vec<Span> = Vec::new();
    fourth.push(Span::styled("Mouse ", Style::new().fg(t.success).bold()));
    fourth.push(Span::styled("clicks focus; wheel scrolls Viewport", Style::new().fg(t.muted).dim()));
    let mut lines: Vec<Line> = Vec::new();
    lines.push(Line::new(first));
    lines.push(Line::new(second));
    lines.push(Line::new(third));
    lines.push(Line::new(fourth));
    assert(line_views(lines@) =~~= interaction_lines(start));
    RichText::new(lines).render(&mut frame, inner);
    let ghost st = seq![s0, s1, s2];
    assert(interaction_drawn(area, start, s.list.spec_selected(), st, base, frame)) by {
        reveal(interaction_drawn);
    }
    let result: (Frame, Option<Position>) = (frame, None);
    assert(interaction_drawn(area, start, s.list.spec_selected(), st, base, result.0));
    result
}

/// `t` is the showcase's agent table: name and status columns two shares wide, token and time
/// columns one share wide and right-aligned, a header of labels, three agent rows (the first
/// name bold), and the selected row highlighted.
pub open spec fn is_showcase_table(t: Table, theme: Theme) -> bool {
    let bold = Style { attributes: Attributes { bold: true, ..Attributes::none() }, ..Style::plain() };
    &&& t.spec_columns().len() == 4
    &&& t.spec_rows().len() == 3
    &&& t.spec_columns().map_values(|c: TableColumn| (c.spec_constraint(), c.spec_alignment())) == seq![
        (Constraint::Fill(2), Alignment::Left),
        (Constraint::Fill(2), Alignment::Left),
        (Constraint::Fill(1), Alignment::Right),
        (Constraint::Fill(1), Alignment::Right),
    ]
    &&& t.spec_header() is Some
    &&& line_views(t.spec_header().unwrap()) == label_row(seq!["NAME"@, "STATUS"@, "TOKENS"@, "TIME"@])
    &&& t.spec_rows().map_values(|r: Seq<Line>| line_views(r)) == seq![
        seq![seq![("Hermes"@, bold)], seq![("Working"@, Style::plain())], seq![("12.4K"@, Style::plain())], seq![("32s"@, Style::plain())]],
        label_row(seq!["Codex"@, "Ready"@, "8.1K"@, "12s"@]),
        label_row(seq!["Cirrus"@, "Review"@, "15.0K"@, "21s"@]),
    ]
    &&& t.spec_selected_style() == on(theme.success, theme.primary, true)
}

/// The line cells of a label.
fn label_cells(a: &str, b: &str, c: &str, d: &str) -> (r: Vec<Line>)
    ensures
        line_views(r@) == label_row(seq![a@, b@, c@, d@]),
{
    let mut cells: Vec<Line> = Vec::new();
    cells.push(Line::raw(a));
    cells.push(Line::raw(b));
    cells.push(Line::raw(c));
    cells.push(Line::raw(d));
    assert(line_views(cells@) =~= label_row(seq![a@, b@, c@, d@]));
    cells
}

/// The showcase's agent table in `theme`.
pub fn showcase_table(theme: Theme) -> (r: Table)
    ensures
        is_showcase_table(r, theme),
{
    let mut columns: Vec<TableColumn> = Vec::new();
    columns.push(TableColumn::new(Constraint::Fill(2)));
    columns.push(TableColumn::new(Constraint::Fill(2)));
    columns.push(TableColumn::new(Constraint::Fill(1)).alignment(Alignment::Right));
    columns.push(TableColumn::new(Constraint::Fill(1)).alignment(Alignment::Right));
    let mut first_name: Vec<Span> = Vec::new();
    first_name.push(Span::styled("Hermes", Style::new().bold()));
    let mut first: Vec<Line> = Vec::new();
    first.push(Line::new(first_name));
    first.push(Line::raw("Working"));
    first.push(Line::raw("12.4K"));
    first.push(Line::raw("32s"));
    let mut rows: Vec<Vec<Line>> = Vec::new();
    rows.push(first);
    rows.push(label_cells("Codex", "Ready", "8.1K", "12s"));
    rows.push(label_cells("Cirrus", "Review", "15.0K", "21s"));
    let r = Table::new(columns).header(label_cells("NAME", "STATUS", "TOKENS", "TIME")).rows(rows).selected_style(
        style_on(theme.success, theme.primary, true),
    );
    proof {
        assert(r.spec_columns().map_values(|c: TableColumn| (c.spec_constraint(), c.spec_alignment())) =~= seq![
            (Constraint::Fill(2), Alignment::Left),
            (Constraint::Fill(2), Alignment::Left),
            (Constraint::Fill(1), Alignment::Right),
            (Constraint::Fill(1), Alignment::Right),
        ]);
        let bold = Style { attributes: Attributes { bold: true, ..Attributes::none() }, ..Style::plain() };
        assert(line_views(r.spec_rows()[0]) =~~= seq![seq![("Hermes"@, bold)], seq![("Working"@, Style::plain())], seq![("12.4K"@, Style::plain())], seq![("32s"@, Style::plain())]]);
        assert(r.spec_rows().map_values(|r: Seq<Line>| line_views(r)) =~= seq![
            seq![seq![("Hermes"@, bold)], seq![("Working"@, Style::plain())], seq![("12.4K"@, Style::plain())], seq![("32s"@, Style::plain())]],
            label_row(seq!["Codex"@, "Ready"@, "8.1K"@, "12s"@]),
            label_row(seq!["Cirrus"@, "Review"@, "15.0K"@, "21s"@]),
        ]);
    }
    r
}

/// The lines of the data section's contract pane.
pub open spec fn data_lines(t: Theme) -> Seq<Seq<SpanView>> {
    let none = Attributes::none();
    seq![
        seq![
            ("No external agents "@, fg_with(t.success, Attributes { bold: true, ..none })),
            ("\u{b7} static showcase data"@, fg_with(t.text, none)),
        ],
        seq![
            ("Selected rows "@, fg_with(t.warning, Attributes { underline: true, ..none })),
            ("preserve rich-cell styles"@, fg_with(t.text, none)),
        ],
    ]
}

/// The two rows of the data section in `area`: three quarters for the table, one for its
/// contract.
pub open spec fn data_rows(area: Rect) -> Seq<Rect> {
    layout_areas(Direction::Vertical, seq![Constraint::Fill(3), Constraint::Fill(1)], 1, area)
}

/// `after` is `before` with the data section drawn in `area` through the stages `st`, the
/// table's state going from `s.table` to `table_after`: the table's pane (bright while it has
/// the focus) and the table `tbl` in it, then the contract pane and its lines.
#[verifier::opaque]
pub open spec fn data_drawn(
    area: Rect,
    s: ShowcaseState,
    table_after: TableState,
    tbl: Table,
    st: Seq<Frame>,
    before: Frame,
    after: Frame,
) -> bool {
    let t = s.theme;
    let rows = data_rows(area);
    let title = on(t.warning, t.background, true);
    let rect = rows[0].spec_inner();
    let inner = rows[1].spec_inner();
    &&& st.len() == 3
    &&& is_showcase_table(tbl, t)
    &&& panel_drawn(
        Some("Agent activity \u{b7} deterministic data"@),
        BorderSet::spec_double(),
        pane_border(t, focused(s.focus, 2)),
        title,
        rows[0],
        before,
        st[0],
    )
    &&& st[0].wf() && st[0].same_size(&before)
    &&& st[1].wf() && st[1].same_size(&before)
    &&& if rect.width == 0 || rect.height == 0 {
        st[1] == st[0] && table_after == s.table
    } else {
        &&& (table_after.spec_viewport().spec_offset() as int, table_after.spec_viewport().spec_content_height() as int, table_after.spec_viewport().spec_viewport_height() as int)
            == s.table.spec_viewport().updated(3, tbl.body_height(rect))
        &&& table_after.spec_viewport().wf()
        &&& table_after.spec_selected() == clamp_selection(s.table.spec_selected() as int, 3)
        &&& st[1].spec_buffer().cells() == tbl.drawn_cells(
            st[0].spec_buffer().cells(),
            st[0].spec_width() as int,
            st[0].spec_height() as int,
            rect,
            table_after.spec_viewport().spec_offset() as int,
            table_after.spec_selected() as int,
        )
    }
    &&& panel_drawn(Some("Data contract"@), BorderSet::spec_square(), pane_border(t, false), title, rows[1], st[1], st[2])
    &&& st[2].wf() && st[2].same_size(&before)
    &&& after.wf() && after.same_size(&before)
    &&& after.spec_buffer().cells() == rich_rows(
        st[2].spec_buffer().cells(),
        st[2].spec_width() as int,
        st[2].spec_height() as int,
        inner,
        data_lines(t).take(if inner.height >= 2 {
            2
        } else {
            inner.height as int
        }),
        Alignment::Left,
    )
}

/// Draws the data section into `area`: the agent table in a pane that is bright while it has
/// the focus, and the data contract below it. Records the table's interior and updates its
/// selection and scrolling; places no cursor.
pub fn render_data(base: Frame, area: Rect, s: &mut ShowcaseState) -> (r: (Frame, Option<Position>))
    requires
        base.wf(),
        old(s).wf(),
    ensures
        r.0.wf(),
        r.0.same_size(&base),
        r.1 is None,
        final(s).wf(),
        *final(s) == (ShowcaseState {
            hits: ShowcaseHits { table: data_rows(area)[0].spec_inner(), ..old(s).hits },
            table: final(s).table,
            ..*old(s)
        }),
        exists|st: Seq<Frame>, tbl: Table|
            #[trigger] data_drawn(area, *old(s), final(s).table, tbl, st, base, r.0),
{
    let ghost start = *s;
    let mut frame = base;
    let t = s.theme;
    let mut constraints: Vec<Constraint> = Vec::new();
    constraints.push(Constraint::Fill(3));
    constraints.push(Constraint::Fill(1));
    assert(constraints@ =~= seq![Constraint::Fill(3), Constraint::Fill(1)]);
    let rows = Layout::vertical(constraints).gap(1).split(area);
    let title = style_on(t.warning, t.background, true);
    let table_focused = has_focus(s, 2);
    let table_inner = Panel::new("Agent activity \u{b7} deterministic data").border_set(BorderSet::double()).border_style(
        if table_focused {
            style_on(t.success, t.background, true)
        } else {
            style_on(t.muted, t.background, false)
        },
    ).title_style(title).render(&mut frame, rows[0]);
    let ghost s0 = frame;
    s.hits.table = table_inner;
    let tbl = showcase_table(t);
    tbl.render(&mut frame, table_inner, &mut s.table);
    let ghost s1 = frame;
    let inner = Panel::new("Data contract").border_set(BorderSet::square()).border_style(
        style_on(t.muted, t.background, false),
    ).title_style(title).render(&mut frame, rows[1]);
    let ghost s2 = frame;
    let mut first: Vec<Span> = Vec::new();
    first.push(Span::styled("No external agents ", Style::new().fg(t.success).bold()));
    first.push(Span::styled("\u{b7} static showcase data", Style::new().fg(t.text)));
    let mut second: Vec<Span> = Vec::new();
    second.push(Span::styled("Selected rows ", Style::new().fg(t.warning).underline()));
    second.push(Span::styled("preserve rich-cell styles", Style::new().fg(t.text)));
    let mut lines: Vec<Line> = Vec::new();
    lines.push(Line::new(first));
    lines.push(Line::new(second));
    assert(line_views(lines@) =~~= data_lines(t));
    RichText::new(lines).render(&mut frame, inner);
    let ghost st = seq![s0, s1, s2];
    assert(data_drawn(area, start, s.table, tbl, st, base, frame)) by {
        reveal(data_drawn);
    }
    let result: (Frame, Option<Position>) = (frame, None);
    assert(data_drawn(area, start, s.table, tbl, st, base, result.0));
    result
}

} // verus!
