use dragons_tui::{
    BrowserMode, Color, FocusId, Frame, Size, render_data, render_footer, render_header, render_input, render_interaction, render_overview,
    render_settings, render_showcase_overlays, ShowcaseHits, KeyCode, KeyEvent, KeyModifiers, Language, MouseEvent, MouseKind, Rect,
    Section, SettingRow, ShowcasePhase, ShowcaseRequest, ShowcaseState, Theme, ThemeSlot,
    VisibleBounds, format_uptime_millis, loading_fill, localized, parse_rgb, section_list_items,
    splash_block_origin, splash_source_origin, splash_visible_center,
    visible_content_bounds, display_width, splash_dragon, splash_hint, splash_layout, splash_loading,
    splash_manifesto, splash_title, render_splash, diff,
};

fn row_text(frame: &Frame, y: u16) -> String {
    let buffer = frame.buffer();
    (0..buffer.width()).filter_map(|x| buffer.get(x, y).map(|cell| cell.character)).collect()
}

fn frame_contains(frame: &Frame, needle: &str) -> bool {
    (0..frame.buffer().height()).any(|y| row_text(frame, y).contains(needle))
}

/// The content area of a `width` x `height` showcase: below the four header rows and above
/// the two footer rows.
fn content(width: u16, height: u16) -> Rect {
    Rect::new(0, 4, width, height.saturating_sub(6))
}

fn key(code: KeyCode) -> KeyEvent {
    KeyEvent { code, modifiers: KeyModifiers::default() }
}

fn ctrl(code: KeyCode) -> KeyEvent {
    KeyEvent { code, modifiers: KeyModifiers { ctrl: true, alt: false, shift: false } }
}

fn left_click(x: u16, y: u16) -> MouseEvent {
    MouseEvent { x, y, kind: MouseKind::LeftDown, modifiers: KeyModifiers::default() }
}

fn showcase() -> ShowcaseState {
    ShowcaseState::new(Vec::new(), 0, None, None)
}

/// Draws a `width` x `height` showcase's header afresh, as each view does, and returns it.
fn draw_header(state: &mut ShowcaseState, width: u16, height: u16) -> Frame {
    state.hits = ShowcaseHits::empty();
    render_header(
        Frame::new(width, height),
        Rect::new(0, 0, width, 4),
        state,
        " DragonsTUI Showcase \u{b7} v0.1.0 ",
        "\u{25c7} Dragonfire immediate mode",
    )
}

#[test]
fn showcase_starts_on_splash_with_overview_ready_for_transition() {
    let showcase = showcase();
    assert_eq!(showcase.phase, ShowcasePhase::Splash);
    assert_eq!(showcase.section, Section::Overview);
}

#[test]
fn section_navigation_and_palette_commands_are_explicit() {
    let mut showcase = showcase();
    showcase.handle_key(key(KeyCode::Enter));
    assert_eq!(showcase.section, Section::Overview);
    showcase.handle_key(key(KeyCode::Char('4')));
    assert_eq!(showcase.section, Section::Graphics);
    showcase.handle_key(ctrl(KeyCode::Char('p')));
    assert!(showcase.palette.is_some());
    let (outcome, _) = showcase.execute_command("show-input");
    assert!(outcome.redraw);
    assert_eq!(showcase.section, Section::Input);
}

#[test]
fn visible_header_sections_switch_by_mouse_and_keep_keyboard_navigation() {
    let mut showcase = showcase();
    showcase.handle_key(key(KeyCode::Enter));
    let _ = draw_header(&mut showcase, 160, 55);
    let all = [
        Section::Overview,
        Section::Widgets,
        Section::Data,
        Section::Graphics,
        Section::Input,
        Section::Interaction,
        Section::Settings,
        Section::Adapters,
    ];
    for section in all {
        let rect = showcase.hits.sections[section.index()];
        assert!(rect.width > 0, "{section:?} should be visible");
        assert!(showcase.handle_mouse(left_click(rect.x, rect.y)).0.redraw);
        assert_eq!(showcase.section, section);
        let selected = draw_header(&mut showcase, 160, 55);
        assert_eq!(selected.buffer().get(rect.x, rect.y).unwrap().style.bg, Some(showcase.theme.primary));
    }
    let before = showcase.section;
    assert!(!showcase.handle_mouse(left_click(159, 54)).0.redraw);
    assert_eq!(showcase.section, before);
    assert!(showcase.handle_key(key(KeyCode::Char('1'))).0.redraw);
    assert_eq!(showcase.section, Section::Overview);

    let _ = draw_header(&mut showcase, 20, 8);
    let hidden = showcase.hits.sections[Section::Interaction.index()];
    assert_eq!(hidden.width, 0);
    assert!(!showcase.handle_mouse(left_click(0, 1)).0.redraw);
}

#[test]
fn settings_opens_by_keyboard_mouse_and_localized_palette_without_hidden_hits() {
    let mut showcase = showcase();
    showcase.handle_key(key(KeyCode::Enter));
    assert!(showcase.handle_key(key(KeyCode::Char('7'))).0.redraw);
    assert_eq!(showcase.section, Section::Settings);
    let settings = draw_header(&mut showcase, 160, 55);
    let header = showcase.hits.sections[Section::Settings.index()];
    assert!(header.width > 0);
    assert_eq!(settings.buffer().get(header.x, header.y).unwrap().style.bg, Some(showcase.theme.primary));
    let (settings, _) = render_settings(settings, content(160, 55), &mut showcase);
    assert!(frame_contains(&settings, "Settings"));

    showcase.select_section(Section::Overview);
    assert!(showcase.handle_mouse(left_click(header.x, header.y)).0.redraw);
    assert_eq!(showcase.section, Section::Settings);
    assert!(showcase.execute_command("open-settings").0.redraw);
    assert_eq!(showcase.section, Section::Settings);

    showcase.open_palette();
    assert!(showcase
        .palette
        .as_ref()
        .unwrap()
        .filtered_titles()
        .contains(&"Open Settings".to_owned()));
    showcase.palette = None;
    showcase.language = Language::Turkish;
    showcase.open_palette();
    assert!(showcase
        .palette
        .as_ref()
        .unwrap()
        .filtered_titles()
        .contains(&"Ayarları Aç".to_owned()));
    showcase.palette = None;

    let _ = draw_header(&mut showcase, 30, 8);
    assert_eq!(showcase.hits.sections[Section::Settings.index()].width, 0);
}

#[test]
fn adapters_open_by_keyboard_mouse_and_localized_palette_with_tiny_rendering() {
    let mut showcase = showcase();
    showcase.handle_key(key(KeyCode::Enter));
    let (outcome, request) = showcase.handle_key(key(KeyCode::Char('8')));
    assert!(outcome.redraw);
    assert_eq!(request, Some(ShowcaseRequest::RefreshDiagnostics));
    assert_eq!(showcase.section, Section::Adapters);
    let _ = draw_header(&mut showcase, 160, 55);
    let header = showcase.hits.sections[Section::Adapters.index()];
    assert!(header.width > 0);

    showcase.select_section(Section::Overview);
    assert!(showcase.handle_mouse(left_click(header.x, header.y)).0.redraw);
    assert_eq!(showcase.section, Section::Adapters);
    assert!(showcase.execute_command("open-adapters").0.redraw);

    showcase.language = Language::Turkish;
    showcase.open_palette();
    assert!(showcase
        .palette
        .as_ref()
        .unwrap()
        .filtered_titles()
        .contains(&"Adaptörleri Aç".to_owned()));
    showcase.palette = None;
    assert_eq!(Section::Adapters.title(Language::Turkish), "Adaptörler");
}

#[test]
fn settings_language_changes_immediately_by_keyboard_and_mouse() {
    let mut showcase = showcase();
    showcase.handle_key(key(KeyCode::Enter));
    showcase.select_section(Section::Settings);
    assert_eq!(showcase.language, Language::English);
    assert!(showcase.handle_key(key(KeyCode::Down)).0.redraw);
    assert!(showcase.handle_key(key(KeyCode::Enter)).0.redraw);
    assert_eq!(showcase.language, Language::Turkish);
    assert_eq!(Section::Settings.title(showcase.language), "Ayarlar");
    assert_eq!(localized(showcase.language, "Language", "Dil"), "Dil");
    assert_eq!(Section::Overview.title(showcase.language), "Genel Bakış");

    let (turkish, cursor) = render_settings(Frame::new(160, 55), content(160, 55), &mut showcase);
    assert_eq!(cursor, None);
    assert!(frame_contains(&turkish, "Ayarlar"));
    assert!(frame_contains(&turkish, "Dil"));
    showcase.select_section(Section::Overview);
    let (overview, _, _) = render_overview(Frame::new(160, 55), content(160, 55), &showcase);
    assert!(frame_contains(&overview, "Çalışma Zamanı"));
    assert!(frame_contains(&overview, "Statik benchmark bağlamı"));
    showcase.select_section(Section::Settings);
    let _ = render_settings(Frame::new(160, 55), content(160, 55), &mut showcase);
    let english = showcase.hits.settings_rows[0];
    assert!(english.width > 0);
    assert!(showcase.handle_mouse(left_click(english.x, english.y)).0.redraw);
    assert_eq!(showcase.language, Language::English);
}

#[test]
fn settings_theme_editor_clamps_invalid_rgb_applies_cancels_and_resets_without_language_reset() {
    assert_eq!(parse_rgb("0"), 0);
    assert_eq!(parse_rgb("255"), 255);
    assert_eq!(parse_rgb("-4"), 0);
    assert_eq!(parse_rgb("999"), 255);
    assert_eq!(parse_rgb("not-a-number"), 0);

    let mut showcase = showcase();
    showcase.handle_key(key(KeyCode::Enter));
    showcase.select_section(Section::Settings);
    showcase.settings_selected = SettingRow::Color(ThemeSlot::Primary);
    showcase.activate_setting();
    let editor = showcase.color_editor.as_mut().unwrap();
    editor.inputs[0].clear();
    for character in "999".chars() {
        editor.inputs[0].insert(character);
    }
    editor.inputs[1].clear();
    editor.inputs[1].insert('-');
    editor.inputs[2].clear();
    for character in "40".chars() {
        editor.inputs[2].insert(character);
    }
    assert!(showcase.handle_key(key(KeyCode::Enter)).0.redraw);
    assert_eq!(showcase.theme.primary, Color::rgb(255, 0, 40));
    showcase.settings_selected = SettingRow::Turkish;
    showcase.activate_setting();
    assert_eq!(showcase.theme.primary, Color::rgb(255, 0, 40));

    let before_cancel = showcase.theme.secondary;
    showcase.settings_selected = SettingRow::Color(ThemeSlot::Secondary);
    showcase.activate_setting();
    showcase.color_editor.as_mut().unwrap().inputs[0].clear();
    showcase.color_editor.as_mut().unwrap().inputs[0].insert('0');
    showcase.handle_key(key(KeyCode::Escape));
    assert_eq!(showcase.theme.secondary, before_cancel);

    showcase.language = Language::Turkish;
    showcase.settings_selected = SettingRow::Reset;
    showcase.activate_setting();
    assert_eq!(showcase.theme, Theme::new());
    assert_eq!(showcase.language, Language::Turkish);

    showcase.settings_selected = SettingRow::Color(ThemeSlot::Text);
    showcase.activate_setting();
    for (width, height) in [(40u16, 15u16), (5, 3), (1, 1)] {
        let frame = render_showcase_overlays(Frame::new(width, height), Size::new(width, height), &mut showcase);
        assert_eq!((frame.buffer().width(), frame.buffer().height()), (width, height));
        let (frame, _) = render_settings(frame, content(width, height), &mut showcase);
        assert_eq!((frame.buffer().width(), frame.buffer().height()), (width, height));
    }
}

#[test]
fn modal_restores_focus_and_table_tree_input_actions_are_stateful() {
    let mut showcase = showcase();
    showcase.handle_key(key(KeyCode::Enter));
    let (table_focus, tree_focus, input_focus) = (FocusId::new(2), FocusId::new(3), FocusId::new(5));
    showcase.focus.set_focus(table_focus);
    showcase.handle_key(key(KeyCode::Down));
    assert_eq!(showcase.table.selected_index(3), Some(1));
    showcase.focus.set_focus(tree_focus);
    assert!(showcase.handle_key(key(KeyCode::Right)).0.redraw);
    showcase.focus.set_focus(input_focus);
    assert!(showcase.handle_key(key(KeyCode::Char('!'))).0.redraw);
    showcase.open_modal();
    assert!(showcase.modal_open);
    showcase.handle_key(key(KeyCode::Escape));
    assert!(!showcase.modal_open);
    assert_eq!(showcase.focus.current(), Some(input_focus));
}

#[test]
fn animation_resize_tiny_rendering_and_quit_are_safe() {
    let mut showcase = showcase();
    showcase.handle_key(key(KeyCode::Enter));
    assert_eq!(showcase.phase, ShowcasePhase::Showcase);
    showcase.execute_command("toggle-animation");
    assert!(!showcase.animation_enabled);
    assert!(showcase.handle_key(key(KeyCode::Char('q'))).0.quit);
    assert!(showcase.handle_key(ctrl(KeyCode::Char('c'))).0.quit);
}

#[test]
fn splash_visible_bounds_share_one_global_center_and_frame_geometry() {
    let bounds = VisibleBounds { min_x: 2, max_x: 49, width: 48 };
    let origin = splash_source_origin(80, bounds);
    assert_eq!(origin, 54);
    assert_eq!(splash_visible_center(origin, bounds), 80);
    let clamped = splash_source_origin(10, bounds);
    assert_eq!(clamped, 0);
    assert_eq!(splash_visible_center(clamped, bounds), 26);

    let unicode = visible_content_bounds(&["   ", "  \u{131a9}\u{2800}\u{2801}  "]).unwrap();
    assert_eq!(unicode.min_x, u16::try_from(display_width("  ")).unwrap());
    assert_eq!(
        unicode.max_x,
        u16::try_from(display_width("  \u{131a9}\u{2800}\u{2801}")).unwrap().saturating_sub(1)
    );
    assert_eq!(
        unicode.width,
        unicode.max_x.saturating_sub(unicode.min_x).saturating_add(1),
        "blank lines and trailing whitespace must not expand Unicode visible bounds"
    );
    assert_eq!(visible_content_bounds(&["   ", "", "\u{2800}\u{2800}"]), None);
    assert_eq!(
        visible_content_bounds(&["      ab", "  c"]),
        Some(VisibleBounds { min_x: 2, max_x: 7, width: 6 })
    );
    assert_eq!(splash_block_origin(Size::new(160, 55), &["  abc"]), 77);
    assert_eq!(splash_block_origin(Size::new(160, 55), &["   "]), 0);
}

#[test]
fn splash_uses_common_block_origins_and_slow_timing() {
    let size = Size::new(180, 60);
    let layout = splash_layout(size);
    assert_eq!(splash_block_origin(size, &splash_title()), layout.title_origin);
    assert_eq!(splash_block_origin(size, &splash_dragon()), layout.dragon_origin);
    assert_eq!(loading_fill(0), 1);
    assert_eq!(loading_fill(2), 1);
    assert_eq!(loading_fill(3), 2);
    assert_eq!(loading_fill(23), 10);
    assert_eq!(loading_fill(5999), 10);
    assert_eq!(loading_fill(12), 5);

    let mut skipped = showcase();
    assert!(skipped.handle_key(key(KeyCode::Char(' '))).0.redraw);
    assert_eq!(skipped.phase, ShowcasePhase::Showcase);
}

#[test]
fn splash_lines_fit_the_large_terminal_contract_by_display_width() {
    let widths: Vec<usize> = splash_title()
        .into_iter()
        .chain(splash_dragon())
        .chain(splash_manifesto())
        .map(display_width)
        .collect();
    assert!(widths.iter().all(|&width| width <= 160), "splash line widths = {widths:?}");
}

#[test]
fn splash_layout_centres_every_block_on_the_screen() {
    let size = Size::new(160, 55);
    let layout = splash_layout(size);
    let title = visible_content_bounds(&splash_title()).unwrap();
    let dragon = visible_content_bounds(&splash_dragon()).unwrap();
    let manifesto = visible_content_bounds(&splash_manifesto()).unwrap();
    let loading = visible_content_bounds(&[splash_loading()[2], splash_hint()]).unwrap();
    assert_eq!(title.min_x, 6, "title source indentation must be measured");
    assert_eq!(dragon.min_x, 0, "Braille blank cells are not visible content");
    assert_eq!(dragon.max_x, 49, "Braille visible bounds must ignore trailing blanks");
    assert_eq!(dragon.width, 50);
    for (origin, bounds) in [
        (layout.title_origin, title),
        (layout.dragon_origin, dragon),
        (layout.manifesto_origin, manifesto),
        (layout.loading_origin, loading),
    ] {
        assert_eq!(splash_visible_center(origin, bounds), layout.center_x);
    }
    let frame = layout.frame;
    assert_eq!(frame.x.saturating_add(frame.width / 2), layout.center_x);
    assert!(frame.width < size.width, "the frame must stay content-centric");
    for (origin, bounds) in [
        (layout.title_origin, title),
        (layout.dragon_origin, dragon),
        (layout.manifesto_origin, manifesto),
        (layout.loading_origin, loading),
    ] {
        assert!(origin.saturating_add(bounds.min_x) > frame.x);
        assert!(origin.saturating_add(bounds.max_x) < frame.right().saturating_sub(1));
    }
    let first = visible_content_bounds(&[splash_dragon()[0]]).unwrap();
    let second = visible_content_bounds(&[splash_dragon()[1]]).unwrap();
    assert_eq!(
        layout
            .dragon_origin
            .saturating_add(second.min_x)
            .saturating_sub(layout.dragon_origin.saturating_add(first.min_x)),
        second.min_x.saturating_sub(first.min_x),
        "dragon lines must retain source-relative positions rather than being centered independently"
    );
    assert_eq!(layout.before_manifesto_y, layout.dragon_y + 17);
    assert_eq!(layout.after_manifesto_y, layout.manifesto_y + 3);
    for size in [Size::new(20, 8), Size::new(5, 3), Size::new(1, 1)] {
        let small = splash_layout(size);
        assert!(small.frame.width <= size.width && small.frame.height <= size.height);
    }
}

#[test]
fn section_numbers_titles_and_commands_follow_the_header_order() {
    assert_eq!(Section::from_number('1'), Some(Section::Overview));
    assert_eq!(Section::from_number('8'), Some(Section::Adapters));
    assert_eq!(Section::from_number('9'), None);
    assert_eq!(Section::from_number('0'), None);
    assert_eq!(Section::Interaction.index(), 5);
    assert_eq!(Section::Graphics.command(), "show-graphics");
    assert_eq!(Section::Settings.command(), "open-settings");
    assert_eq!(Section::Widgets.title(Language::English), "Widgets");
    assert_eq!(Section::Widgets.title(Language::Turkish), "Bileşenler");
    assert_eq!(ThemeSlot::Primary.label(Language::English), "Primary");
    assert_eq!(section_list_items(Section::Graphics), vec!["Progress", "Gauge", "Sparkline", "Canvas"]);
}

#[test]
fn settings_rows_wrap_in_both_directions() {
    assert_eq!(SettingRow::English.next(-1), SettingRow::Reset);
    assert_eq!(SettingRow::Reset.next(1), SettingRow::English);
    assert_eq!(SettingRow::Turkish.next(1), SettingRow::Color(ThemeSlot::Background));
    assert_eq!(SettingRow::Color(ThemeSlot::Background).next(-1), SettingRow::Turkish);
}

#[test]
fn rgb_text_parses_with_sign_and_clamps_to_a_channel() {
    assert_eq!(parse_rgb("300"), 255);
    assert_eq!(parse_rgb("-5"), 0);
    assert_eq!(parse_rgb("abc"), 0);
    assert_eq!(parse_rgb("+12"), 12);
    assert_eq!(parse_rgb(""), 0);
    assert_eq!(parse_rgb("040"), 40);
}

#[test]
fn uptime_prints_seconds_with_three_decimals() {
    assert_eq!(format_uptime_millis(1234), "1.234s");
    assert_eq!(format_uptime_millis(1005), "1.005s");
    assert_eq!(format_uptime_millis(0), "0.000s");
}

#[test]
fn adapter_keys_ask_the_event_loop_for_lifecycle_work() {
    let mut showcase = ShowcaseState::new(
        vec![Some("adapter-a".to_owned()), None],
        2,
        None,
        None,
    );
    showcase.handle_key(key(KeyCode::Enter));
    showcase.handle_key(key(KeyCode::Char('8')));
    assert_eq!(showcase.section, Section::Adapters);
    assert_eq!(showcase.browser_mode, BrowserMode::Adapters);
    let (_, request) = showcase.handle_key(key(KeyCode::Char('s')));
    assert_eq!(request, Some(ShowcaseRequest::Start { id: "adapter-a".to_owned() }));
    let (outcome, _) = showcase.handle_key(key(KeyCode::Char('c')));
    assert!(outcome.redraw);
    assert_eq!(showcase.browser_mode, BrowserMode::Capabilities);
    let (_, request) = showcase.handle_key(key(KeyCode::Char('s')));
    assert_eq!(request, None);
}

#[test]
fn settings_rows_are_recorded_where_they_are_drawn() {
    let mut showcase = showcase();
    showcase.handle_key(key(KeyCode::Enter));
    showcase.select_section(Section::Settings);
    let (frame, _) = render_settings(Frame::new(80, 30), Rect::new(0, 4, 80, 24), &mut showcase);
    let rows: Vec<u16> = showcase.hits.settings_rows.iter().map(|r| r.y).collect();
    assert_eq!(rows, vec![6, 7, 10, 11, 12, 13, 14, 15, 16, 17, 19]);
    assert!(row_text(&frame, 5).contains("Language"));
    assert!(row_text(&frame, 6).contains("English"));
    assert!(row_text(&frame, 6).starts_with("│> ●"));
    assert!(row_text(&frame, 7).contains("Türkçe"));
    assert!(row_text(&frame, 9).contains("Theme"));
    assert!(row_text(&frame, 11).contains("Primary      ███ #78140A"));
    assert!(row_text(&frame, 19).contains("[ Reset Dragonfire Theme ]"));

    let (short, _) = render_settings(Frame::new(80, 30), Rect::new(0, 4, 80, 8), &mut showcase);
    assert!(!row_text(&short, 11).contains("Reset"));
    assert_eq!(showcase.hits.settings_rows[10].y, 19);
}

#[test]
fn demo_modal_is_drawn_centred_and_closed_by_a_click() {
    let mut showcase = showcase();
    showcase.handle_key(key(KeyCode::Enter));
    showcase.open_modal();
    let frame = render_showcase_overlays(Frame::new(80, 24), Size::new(80, 24), &mut showcase);
    assert_eq!(showcase.hits.modal, Rect::new(17, 5, 46, 14));
    assert!(frame_contains(&frame, "DragonsTUI"));
    assert!(frame_contains(&frame, "Keyboard  ✓"));
    assert!(frame_contains(&frame, "Enter / Esc / click to close"));
    assert!(showcase.handle_mouse(left_click(20, 8)).0.redraw);
    assert!(!showcase.modal_open);
}

#[test]
fn colour_editor_inputs_are_drawn_and_recorded() {
    let mut showcase = showcase();
    showcase.handle_key(key(KeyCode::Enter));
    showcase.select_section(Section::Settings);
    showcase.settings_selected = SettingRow::Color(ThemeSlot::Primary);
    showcase.activate_setting();
    let frame = render_showcase_overlays(Frame::new(80, 24), Size::new(80, 24), &mut showcase);
    assert!(frame_contains(&frame, "Edit Color: Primary"));
    assert_eq!(showcase.hits.color_inputs[0], Rect::new(25, 7, 35, 1));
    assert_eq!(showcase.hits.color_inputs[2], Rect::new(25, 9, 35, 1));
    assert_eq!(showcase.hits.color_apply, Rect::new(20, 13, 40, 1));
    assert!(row_text(&frame, 7).contains("120"));
    assert!(row_text(&frame, 8).contains("20"));
    assert!(row_text(&frame, 11).contains("████████"));
}

#[test]
fn palette_rows_are_recorded_below_the_query() {
    let mut showcase = showcase();
    showcase.handle_key(key(KeyCode::Enter));
    showcase.open_palette();
    let frame = render_showcase_overlays(Frame::new(80, 24), Size::new(80, 24), &mut showcase);
    assert_eq!(showcase.hits.palette_rows, Rect::new(20, 8, 40, 9));
    assert!(frame_contains(&frame, "Show Overview"));
    let rows = showcase.hits.palette_rows;
    let (outcome, _) = showcase.handle_mouse(left_click(rows.x + 1, rows.y + 1));
    assert!(outcome.redraw);
    assert_eq!(showcase.section, Section::Widgets);
}

#[test]
fn overview_lines_follow_the_language() {
    let showcase = showcase();
    let (frame, cursor, metrics) = render_overview(Frame::new(100, 20), Rect::new(0, 0, 100, 20), &showcase);
    assert_eq!(cursor, None);
    assert!(frame_contains(&frame, "Overview"));
    assert!(frame_contains(&frame, "Explicit immediate-mode rendering"));
    assert!(frame_contains(&frame, "M19 no component tree · no virtual DOM"));
    assert!(frame_contains(&frame, "Runtime"));
    assert!(row_text(&frame, metrics.y).contains("Static benchmark context"));
    assert!(metrics.x > 50 && metrics.width > 0);
}

#[test]
fn modal_round_trip_gives_back_the_focus() {
    let mut showcase = showcase();
    showcase.handle_key(key(KeyCode::Enter));
    showcase.focus.set_focus(FocusId::new(3));
    let before = showcase.focus.current();
    let (outcome, _) = showcase.handle_key(key(KeyCode::Char('m')));
    assert!(outcome.redraw);
    assert!(showcase.modal_open);
    showcase.handle_key(key(KeyCode::Enter));
    assert!(!showcase.modal_open);
    assert_eq!(showcase.focus.current(), before);
    assert_eq!(showcase.focus_before_modal, None);
}

#[test]
fn splash_uses_the_supplied_banner_and_display_width_centering() {
    let size = Size::new(180, 60);
    let splash = render_splash(Frame::new(180, 60), size, Theme::new(), 0);
    let banner = "██████╗ ██████╗  █████╗  ██████╗  ██████╗ ███╗   ██╗";
    let banner_row = (0..size.height)
        .find(|&y| row_text(&splash, y).contains(banner))
        .expect("supplied DRAGON banner should render");
    let banner_line = splash_title()[0];
    let banner_x = splash_block_origin(size, &splash_title()).saturating_add(
        u16::try_from(display_width(banner_line) - display_width(banner_line.trim_start())).unwrap(),
    );
    assert_eq!(splash.buffer().get(banner_x, banner_row).unwrap().character, '█');

    let motto = "𓆩 -- we are the recall. not born. remembered. -- 𓆪";
    let motto_row = (0..size.height)
        .find(|&y| row_text(&splash, y).contains(motto))
        .expect("supplied Unicode motto should render");
    let motto_line = splash_title()[6];
    let motto_x = splash_block_origin(size, &splash_title()).saturating_add(
        u16::try_from(display_width(motto_line) - display_width(motto_line.trim_start())).unwrap(),
    );
    assert_eq!(row_text(&splash, motto_row).chars().nth(usize::from(motto_x)), Some('𓆩'));
}

#[test]
fn splash_gradient_moves_styles_without_moving_art_and_transitions_cleanly() {
    let size = Size::new(180, 60);
    let first = render_splash(Frame::new(180, 60), size, Theme::new(), 0);
    let mut colors = Vec::new();
    for y in 0..size.height {
        for x in 0..size.width {
            let cell = first.buffer().get(x, y).unwrap();
            if ('\u{2801}'..='\u{28ff}').contains(&cell.character)
                && cell.style.fg.is_some_and(|color| !colors.contains(&color))
            {
                colors.push(cell.style.fg.unwrap());
            }
        }
    }
    assert!(colors.len() >= 4, "dragon artwork needs multiple Dragonfire colors");

    let second = render_splash(Frame::new(180, 60), size, Theme::new(), 2);
    assert!(
        diff(Some(first.buffer()), second.buffer()).iter().any(|change| {
            ('\u{2801}'..='\u{28ff}').contains(&change.current.character)
                && change.previous.is_some_and(|previous| {
                    previous.character == change.current.character
                        && previous.style != change.current.style
                })
        }),
        "a new phase must change artwork styles without changing artwork geometry"
    );
    assert!(
        (0..size.height).any(|y| row_text(&second, y).contains(splash_loading()[1])),
        "loading text should animate without a numeric progress claim"
    );

    for (width, height) in [(0, 0), (1, 1), (5, 3), (20, 8), (40, 15)] {
        let view = render_splash(Frame::new(width, height), Size::new(width, height), Theme::new(), 0);
        assert_eq!((view.buffer().width(), view.buffer().height()), (width, height));
    }
}

#[test]
fn splash_frame_has_rounded_corners_and_separators_across_it() {
    let size = Size::new(160, 55);
    let layout = splash_layout(size);
    let splash = render_splash(Frame::new(160, 55), size, Theme::new(), 0);
    let frame = layout.frame;
    assert_eq!(splash.buffer().get(frame.x, frame.y).unwrap().character, '╭');
    assert_eq!(splash.buffer().get(frame.right() - 1, frame.y).unwrap().character, '╮');
    for separator_y in [layout.before_manifesto_y, layout.after_manifesto_y] {
        assert_eq!(splash.buffer().get(frame.x, separator_y).unwrap().character, '├');
        assert_eq!(splash.buffer().get(frame.right() - 1, separator_y).unwrap().character, '┤');
        assert_eq!(
            row_text(&splash, separator_y).chars().filter(|character| *character == '─').count(),
            usize::from(frame.width.saturating_sub(2)),
            "separator width must derive from the frame"
        );
    }
    let bar: String = (0..10)
        .map(|offset| splash.buffer().get(layout.loading_bar_x + offset, layout.loading_y + 1).unwrap().character)
        .collect();
    assert_eq!(bar, "█▒▒▒▒▒▒▒▒▒");
}

#[test]
fn input_section_records_its_panes_and_returns_the_focused_cursor() {
    let mut showcase = showcase();
    showcase.handle_key(key(KeyCode::Enter));
    showcase.select_section(Section::Input);
    assert_eq!(showcase.focus.current(), Some(FocusId::new(5)));
    let (frame, cursor) = render_input(Frame::new(80, 20), Rect::new(0, 0, 80, 20), &mut showcase);
    assert_eq!(showcase.hits.input, Rect::new(1, 1, 78, 1));
    assert_eq!(showcase.hits.area, Rect::new(1, 5, 78, 14));
    assert!(row_text(&frame, 0).contains("TextInput · grapheme aware"));
    assert!(row_text(&frame, 1).contains("Type here: İstanbul"));
    assert!(row_text(&frame, 5).contains("İstanbul"));
    let cursor = cursor.unwrap();
    assert_eq!(cursor.y, 1);
    assert_eq!(cursor.x, 1 + u16::try_from(display_width("Type here: İstanbul 🚀")).unwrap());

    showcase.focus.set_focus(FocusId::new(1));
    let (_, cursor) = render_input(Frame::new(80, 20), Rect::new(0, 0, 80, 20), &mut showcase);
    assert_eq!(cursor, None);
}

#[test]
fn footer_hint_follows_the_section_and_language() {
    let mut showcase = showcase();
    showcase.handle_key(key(KeyCode::Enter));
    let frame = render_footer(Frame::new(80, 2), Rect::new(0, 0, 80, 2), &showcase);
    assert!(row_text(&frame, 0).starts_with("1–8 sections · Tab focus"));
    showcase.select_section(Section::Input);
    showcase.language = Language::Turkish;
    let frame = render_footer(Frame::new(80, 2), Rect::new(0, 0, 80, 2), &showcase);
    assert!(row_text(&frame, 0).starts_with("Tab odağı · yaz/düzenle"));
    assert!(frame.buffer().get(0, 0).unwrap().style.attributes.dim);
}

#[test]
fn interaction_section_names_the_focused_pane() {
    let mut showcase = showcase();
    showcase.handle_key(key(KeyCode::Enter));
    showcase.select_section(Section::Interaction);
    showcase.list.set_selected(9);
    let (frame, cursor) = render_interaction(Frame::new(90, 12), Rect::new(0, 0, 90, 12), &mut showcase);
    assert_eq!(cursor, None);
    assert_eq!(showcase.list.selected_index(4), Some(3));
    let list = showcase.hits.list;
    assert_eq!((list.x, list.y, list.height), (1, 1, 10));
    assert!(list.width > 20 && list.width < 40);
    assert!(frame_contains(&frame, "Focus: Viewport"));
    assert!(frame_contains(&frame, "Ctrl+P opens the command palette"));
    assert!(frame_contains(&frame, "> Modal"));
    showcase.focus.set_focus(FocusId::new(1));
    let (frame, _) = render_interaction(Frame::new(90, 12), Rect::new(0, 0, 90, 12), &mut showcase);
    assert!(frame_contains(&frame, "Focus: List"));
}

#[test]
fn data_section_draws_the_agent_table_and_keeps_its_selection() {
    let mut showcase = showcase();
    showcase.handle_key(key(KeyCode::Enter));
    showcase.select_section(Section::Data);
    assert_eq!(showcase.focus.current(), Some(FocusId::new(2)));
    showcase.handle_key(key(KeyCode::Down));
    showcase.handle_key(key(KeyCode::Down));
    let (frame, cursor) = render_data(Frame::new(80, 20), Rect::new(0, 0, 80, 20), &mut showcase);
    assert_eq!(cursor, None);
    assert_eq!(showcase.table.selected_index(3), Some(2));
    showcase.handle_key(key(KeyCode::Down));
    assert_eq!(showcase.table.selected_index(3), Some(0));
    let table = showcase.hits.table;
    assert_eq!((table.x, table.y), (1, 1));
    assert!(frame_contains(&frame, "Agent activity · deterministic data"));
    assert!(frame_contains(&frame, "NAME"));
    assert!(frame_contains(&frame, "Hermes"));
    assert!(frame_contains(&frame, "Cirrus"));
    assert!(frame_contains(&frame, "No external agents · static showcase data"));
    let hermes_row = (0..20).find(|&y| row_text(&frame, y).contains("Hermes")).unwrap();
    let x = row_text(&frame, hermes_row).chars().position(|c| c == 'H').unwrap();
    assert!(frame.buffer().get(u16::try_from(x).unwrap(), hermes_row).unwrap().style.attributes.bold);
}
