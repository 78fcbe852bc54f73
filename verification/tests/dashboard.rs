use dragons_tui::{
    Moment, TimeSpan,
    AGENT_COUNT, AgentRequest, App, AppPhase, Color, Dashboard, Frame, KeyCode, KeyEvent,
    KeyModifiers, MouseButton, MouseEvent, MouseKind, SPLASH_ARTWORK, Size, Theme, ViewportState,
    agents_focus, dashboard_styles, diff, display_width, input_focus, output_focus, render_dashboard,
    render_overlays, splash_artwork_rect, splash_view,
};

const SPLASH_DURATION: TimeSpan = TimeSpan { nanos: 1_000_000_000 };

fn key(code: KeyCode) -> KeyEvent {
    KeyEvent { code, modifiers: KeyModifiers::default() }
}

fn ctrl(code: KeyCode) -> KeyEvent {
    KeyEvent { code, modifiers: KeyModifiers { ctrl: true, alt: false, shift: false } }
}

fn click(x: u16, y: u16, kind: MouseKind) -> MouseEvent {
    MouseEvent { x, y, kind, modifiers: KeyModifiers::default() }
}

struct View {
    frame: Frame,
    cursor: Option<dragons_tui::Position>,
}

fn demo_view(size: Size, dashboard: &mut Dashboard) -> View {
    let (frame, cursor, _runtime) = render_dashboard(size, dashboard);
    let styles = dashboard_styles(dashboard.theme);
    let view = render_overlays(frame, size, dashboard, &styles, cursor);
    View { frame: view.frame, cursor: view.cursor }
}

fn demo_frame(size: Size, dashboard: &mut Dashboard) -> Frame {
    demo_view(size, dashboard).frame
}

fn app_frame(size: Size, app: &mut App) -> Frame {
    match app.phase {
        AppPhase::Splash => splash_view(size, &app.splash, app.theme).frame,
        AppPhase::Main => demo_frame(size, &mut app.dashboard),
    }
}

#[test]
fn demo_frame_uses_constraint_layout_borders_and_unicode_text() {
    let mut dashboard = Dashboard::new();
    let frame = demo_frame(Size::new(80, 24), &mut dashboard);
    let buffer = frame.buffer();
    let theme = Theme::default();

    assert_eq!(buffer.get(0, 0).unwrap().character, '╭');
    assert_eq!(buffer.get(0, 0).unwrap().style.fg, Some(theme.primary));
    assert!(buffer.get(0, 0).unwrap().style.attributes.bold);
    assert_eq!(buffer.get(1, 1).unwrap().character, '╭');
    assert_eq!(buffer.get(22, 1).unwrap().character, '┌');
    assert_eq!(buffer.get(60, 1).unwrap().character, '╔');
    assert_eq!(buffer.get(1, 1).unwrap().style.fg, Some(theme.warning));
    assert_eq!(buffer.get(2, 2).unwrap().character, 'N');
    assert_eq!(buffer.get(61, 2).unwrap().character, 'S');
    assert_eq!(buffer.get(61, 5).unwrap().character, '日');
    assert!((0..buffer.height()).any(|y| {
        (0..buffer.width()).any(|x| buffer.get(x, y).is_some_and(|cell| cell.character == '>'))
    }));
    assert!((0..buffer.height()).any(|y| {
        (0..buffer.width()).any(|x| buffer.get(x, y).is_some_and(|cell| cell.character == 'T'))
    }));
}

#[test]
fn demo_uses_theme_colours_custom_border_sets_and_a_strikethrough_rich_span() {
    let mut dashboard = Dashboard::new();
    let frame = demo_frame(Size::new(80, 24), &mut dashboard);
    let buffer = frame.buffer();
    let theme = Theme::default();

    assert_eq!(buffer.get(0, 0).unwrap().style.fg, Some(theme.primary));
    assert_eq!(buffer.get(22, 1).unwrap().character, '┌');
    assert_eq!(buffer.get(60, 1).unwrap().character, '╔');
    assert_eq!(buffer.get(60, 1).unwrap().style.fg, Some(theme.error));
    assert!(buffer.get(69, 3).unwrap().style.attributes.strikethrough);
}

#[test]
fn demo_uses_fire_theme_background_and_selected_agent_semantics() {
    let mut dashboard = Dashboard::new();
    let frame = demo_frame(Size::new(80, 24), &mut dashboard);
    let buffer = frame.buffer();
    let theme = Theme::default();

    assert_eq!(buffer.get(0, 0).unwrap().style.bg, Some(theme.background));
    assert_eq!(buffer.get(2, 3).unwrap().character, 'C');
    assert_eq!(buffer.get(2, 3).unwrap().style.fg, Some(theme.success));
    assert_eq!(buffer.get(2, 3).unwrap().style.bg, Some(theme.primary));
    assert_eq!(buffer.get(61, 7).unwrap().style.fg, Some(theme.success));
    assert_eq!(buffer.get(61, 7).unwrap().style.bg, Some(theme.background));
}

#[test]
fn app_applies_a_supplied_theme_to_the_splash_and_dashboard() {
    let theme = Theme {
        background: Color::rgb(1, 2, 3),
        primary: Color::rgb(4, 5, 6),
        secondary: Color::rgb(7, 8, 9),
        success: Color::rgb(10, 11, 12),
        warning: Color::rgb(13, 14, 15),
        error: Color::rgb(16, 17, 18),
        surface: Color::rgb(19, 20, 21),
        text: Color::rgb(22, 23, 24),
        muted: Color::rgb(25, 26, 27),
    };
    let start = Moment::now();
    let mut app = App::with_theme(start, theme);

    let splash = app_frame(Size::new(120, 40), &mut app);
    assert_eq!(splash.buffer().get(0, 0).unwrap().style.bg, Some(theme.background));
    assert!((0..splash.buffer().height()).any(|y| {
        (0..splash.buffer().width()).any(|x| {
            splash
                .buffer()
                .get(x, y)
                .is_some_and(|cell| cell.character == '⣿' && cell.style.fg == Some(theme.secondary))
        })
    }));

    app.handle_key(key(KeyCode::Enter));
    let dashboard = app_frame(Size::new(80, 24), &mut app);
    assert_eq!(dashboard.buffer().get(0, 0).unwrap().style.bg, Some(theme.background));
    assert_eq!(dashboard.buffer().get(0, 0).unwrap().style.fg, Some(theme.primary));
}

#[test]
fn demo_renders_a_theme_styled_multi_character_dragon_animation_frame() {
    let mut dashboard = Dashboard::new();
    let frame = demo_frame(Size::new(80, 24), &mut dashboard);
    let buffer = frame.buffer();

    assert_eq!(buffer.get(68, 6).unwrap().character, '[');
    assert_eq!(buffer.get(69, 6).unwrap().character, '=');
}

#[test]
fn demo_renders_a_theme_styled_braille_canvas_rectangle_diagonal_and_waveform() {
    let mut dashboard = Dashboard::new();
    let frame = demo_frame(Size::new(80, 24), &mut dashboard);
    let buffer = frame.buffer();
    let theme = Theme::default();

    assert_eq!(buffer.get(61, 7).unwrap().character, '⡏');
    assert_eq!(buffer.get(61, 7).unwrap().style.fg, Some(theme.success));
    assert!(
        buffer
            .get(61, 8)
            .is_some_and(|cell| matches!(cell.character, '⡇' | '⡗' | '⣇' | '⣗'))
    );
    assert!(buffer.get(69, 8).is_some_and(|cell| cell.character != ' '));
}

#[test]
fn splash_is_ready_once_its_minimum_time_has_passed() {
    let start = Moment::from_nanos(5_000_000_000);
    let app = App::new(start);
    assert!(!app.splash.is_ready(start));
    assert!(!app.splash.is_ready(Moment::from_nanos(5_999_999_999)));
    assert!(app.splash.is_ready(start.saturating_add(SPLASH_DURATION)));
    assert!(!app.splash.is_ready(Moment::from_nanos(0)));
}

#[test]
fn dashboard_tick_requests_redraw_only_when_an_animation_frame_changes() {
    let start = Moment::now();
    let mut dashboard = Dashboard::new();

    assert!(!dashboard.advance(start));
    assert!(!dashboard.advance(start.saturating_add(TimeSpan::from_millis(50))));
    assert!(dashboard.advance(start.saturating_add(TimeSpan::from_millis(100))));
    assert!(!dashboard.advance(start.saturating_add(TimeSpan::from_millis(150))));
    assert!(dashboard.advance(start.saturating_add(TimeSpan::from_millis(200))));
}

#[test]
fn demo_frame_handles_responsive_and_tiny_terminals() {
    for size in [
        Size::new(120, 40),
        Size::new(80, 24),
        Size::new(40, 15),
        Size::new(20, 8),
        Size::new(5, 3),
        Size::new(1, 1),
    ] {
        let mut dashboard = Dashboard::new();
        let frame = demo_frame(size, &mut dashboard);

        assert_eq!(frame.buffer().width(), size.width);
        assert_eq!(frame.buffer().height(), size.height);
    }
}

#[test]
fn demo_frame_renders_agent_status_and_collected_output() {
    let mut dashboard = Dashboard::new();
    dashboard.output.clear();
    dashboard.output_viewport = ViewportState::new();
    dashboard.status = "Running".to_owned();
    dashboard.push_output(vec!["agent output".to_owned()]);

    let frame = demo_frame(Size::new(80, 24), &mut dashboard);
    let buffer = frame.buffer();

    assert_eq!(buffer.get(23, 2).unwrap().character, 'a');
    assert_eq!(buffer.get(61, 2).unwrap().character, 'S');
}

#[test]
fn demo_runtime_uses_mixed_style_rich_text() {
    let mut dashboard = Dashboard::new();
    let frame = demo_frame(Size::new(80, 24), &mut dashboard);
    let buffer = frame.buffer();
    let theme = Theme::default();

    let name = buffer.get(61, 3).unwrap();
    assert_eq!(name.character, 'H');
    assert_eq!(name.style.fg, Some(theme.secondary));
    assert!(name.style.attributes.bold);

    let idle = buffer.get(68, 3).unwrap();
    assert_eq!(idle.character, '○');
    assert!(idle.style.attributes.dim);
    assert_eq!(buffer.get(61, 5).unwrap().character, '日');
    assert_eq!(buffer.get(68, 5).unwrap().character, '●');
}

#[test]
fn dashboard_routes_focus_navigation_and_ctrl_c() {
    let mut dashboard = Dashboard::new();
    assert_eq!(dashboard.focus.current(), Some(agents_focus()));

    assert!(dashboard.handle_key(key(KeyCode::Down)).0.redraw);
    assert_eq!(dashboard.agents.selected_index(1), Some(0));

    assert!(dashboard.handle_key(key(KeyCode::Tab)).0.redraw);
    assert_eq!(dashboard.focus.current(), Some(output_focus()));
    assert!(dashboard.handle_key(key(KeyCode::Tab)).0.redraw);
    assert_eq!(dashboard.focus.current(), Some(input_focus()));
    assert!(dashboard.handle_key(key(KeyCode::Tab)).0.redraw);
    assert_eq!(dashboard.focus.current(), Some(agents_focus()));

    assert!(dashboard.handle_key(ctrl(KeyCode::Char('c'))).0.quit);
}

#[test]
fn framework_focus_state_routes_tab_shift_tab_mouse_and_cursor_visibility() {
    let mut dashboard = Dashboard::new();
    assert_eq!(dashboard.focus.current(), Some(agents_focus()));
    assert_eq!(demo_view(Size::new(80, 24), &mut dashboard).cursor, None);

    assert!(dashboard.handle_key(key(KeyCode::Tab)).0.redraw);
    assert_eq!(dashboard.focus.current(), Some(output_focus()));
    assert_eq!(demo_view(Size::new(80, 24), &mut dashboard).cursor, None);

    assert!(dashboard.handle_key(key(KeyCode::Tab)).0.redraw);
    assert_eq!(dashboard.focus.current(), Some(input_focus()));
    assert!(demo_view(Size::new(80, 24), &mut dashboard).cursor.is_some());

    let shift_tab = KeyEvent {
        code: KeyCode::Tab,
        modifiers: KeyModifiers { shift: true, ..KeyModifiers::default() },
    };
    assert!(dashboard.handle_key(shift_tab).0.redraw);
    assert_eq!(dashboard.focus.current(), Some(output_focus()));
    assert_eq!(demo_view(Size::new(80, 24), &mut dashboard).cursor, None);

    let input = dashboard.hit_regions.input.position();
    assert!(dashboard.handle_mouse(click(input.x, input.y, MouseKind::LeftDown)).redraw);
    assert_eq!(dashboard.focus.current(), Some(input_focus()));
    assert!(demo_view(Size::new(80, 24), &mut dashboard).cursor.is_some());
}

#[test]
fn mouse_clicks_focus_interactive_regions_and_select_agents() {
    let mut dashboard = Dashboard::new();
    let _ = demo_frame(Size::new(80, 24), &mut dashboard);
    dashboard.focus.set_focus(output_focus());

    let agent_row = dashboard.hit_regions.agent_rows.position();
    assert!(dashboard.handle_mouse(click(agent_row.x, agent_row.y, MouseKind::LeftDown)).redraw);
    assert_eq!(dashboard.focus.current(), Some(agents_focus()));
    assert_eq!(dashboard.agents.selected_index(AGENT_COUNT), Some(0));

    let output = dashboard.hit_regions.output.position();
    assert!(dashboard.handle_mouse(click(output.x, output.y, MouseKind::LeftDown)).redraw);
    assert_eq!(dashboard.focus.current(), Some(output_focus()));

    let input = dashboard.hit_regions.input.position();
    assert!(dashboard.handle_mouse(click(input.x, input.y, MouseKind::LeftDown)).redraw);
    assert_eq!(dashboard.focus.current(), Some(input_focus()));
    assert!(dashboard.handle_key(KeyEvent::character('İ')).0.redraw);
    assert_eq!(dashboard.input.text(), "İ");
}

#[test]
fn mouse_wheel_only_scrolls_output_and_ignores_noninteractive_events() {
    let mut dashboard = Dashboard::new();
    let _ = demo_frame(Size::new(80, 24), &mut dashboard);
    let output = dashboard.hit_regions.output.position();
    assert!(dashboard.focus.set_focus(input_focus()));
    assert!(dashboard.output_viewport.end());
    let bottom = dashboard.output_viewport.offset();

    assert!(dashboard.handle_mouse(click(output.x, output.y, MouseKind::ScrollUp)).redraw);
    assert_eq!(dashboard.output_viewport.offset(), bottom - 1);
    assert_eq!(dashboard.focus.current(), Some(input_focus()));
    assert!(!dashboard.output_viewport.is_at_bottom());

    assert!(dashboard.handle_mouse(click(output.x, output.y, MouseKind::ScrollDown)).redraw);
    assert!(dashboard.output_viewport.is_at_bottom());

    let unchanged = dashboard.output_viewport.offset();
    for kind in [
        MouseKind::LeftDown,
        MouseKind::ScrollUp,
        MouseKind::Move,
        MouseKind::Drag(MouseButton::Left),
    ] {
        assert!(!dashboard.handle_mouse(click(0, 0, kind)).redraw);
        assert_eq!(dashboard.output_viewport.offset(), unchanged);
        assert_eq!(dashboard.focus.current(), Some(input_focus()));
    }
}

#[test]
fn mouse_events_are_safe_when_the_dashboard_has_tiny_or_empty_regions() {
    let mut dashboard = Dashboard::new();
    let _ = demo_frame(Size::new(1, 1), &mut dashboard);

    for kind in [MouseKind::LeftDown, MouseKind::ScrollUp, MouseKind::ScrollDown] {
        assert!(!dashboard.handle_mouse(click(u16::MAX, u16::MAX, kind)).redraw);
    }
}

#[test]
fn dashboard_routes_output_scroll_keys_without_regressing_other_focuses() {
    let mut dashboard = Dashboard::new();
    let _ = demo_frame(Size::new(80, 24), &mut dashboard);

    assert!(dashboard.handle_key(key(KeyCode::Down)).0.redraw);
    assert_eq!(dashboard.agents.selected_index(1), Some(0));

    assert!(dashboard.handle_key(key(KeyCode::Tab)).0.redraw);
    assert_eq!(dashboard.focus.current(), Some(output_focus()));

    assert!(dashboard.handle_key(key(KeyCode::Down)).0.redraw);
    assert_eq!(dashboard.output_viewport.offset(), 1);
    assert!(dashboard.handle_key(key(KeyCode::PageDown)).0.redraw);
    assert!(dashboard.output_viewport.offset() > 1);
    assert!(dashboard.handle_key(key(KeyCode::PageUp)).0.redraw);
    assert_eq!(dashboard.output_viewport.offset(), 1);
    assert!(dashboard.handle_key(key(KeyCode::PageDown)).0.redraw);
    assert!(dashboard.handle_key(key(KeyCode::End)).0.redraw);
    assert!(dashboard.output_viewport.is_at_bottom());
    assert!(dashboard.handle_key(key(KeyCode::Home)).0.redraw);
    assert_eq!(dashboard.output_viewport.offset(), 0);

    assert!(dashboard.handle_key(key(KeyCode::Tab)).0.redraw);
    assert_eq!(dashboard.focus.current(), Some(input_focus()));
    assert!(dashboard.handle_key(KeyEvent::character('İ')).0.redraw);
    assert_eq!(dashboard.input.text(), "İ");
}

#[test]
fn demo_resize_keeps_output_viewport_within_its_valid_range() {
    let mut dashboard = Dashboard::new();
    let _ = demo_frame(Size::new(80, 24), &mut dashboard);
    assert!(dashboard.output_viewport.end());

    for size in [
        Size::new(120, 40),
        Size::new(80, 24),
        Size::new(40, 15),
        Size::new(20, 8),
        Size::new(5, 3),
        Size::new(1, 1),
        Size::new(80, 24),
    ] {
        let _ = demo_frame(size, &mut dashboard);
        assert!(dashboard.output_viewport.offset() <= dashboard.output_viewport.max_scroll());
    }
    assert!(dashboard.output_viewport.is_at_bottom());
}

#[test]
fn dashboard_quits_with_q_and_ctrl_c_in_every_focus_without_mutating_input() {
    let ctrl_c = ctrl(KeyCode::Char('c'));

    for focus in [agents_focus(), output_focus(), input_focus()] {
        for pressed in [KeyEvent::character('q'), ctrl_c] {
            let mut dashboard = Dashboard::new();
            dashboard.focus.set_focus(focus);
            dashboard.input.insert('p');

            let (outcome, request) = dashboard.handle_key(pressed);

            assert!(outcome.quit, "{pressed:?} should quit from {focus:?}");
            assert!(!outcome.redraw);
            assert_eq!(request, None);
            assert_eq!(dashboard.input.text(), "p");
        }
    }
}

#[test]
fn dashboard_scrolls_output_and_preserves_unsent_input_when_stopped() {
    let mut dashboard = Dashboard::new();
    dashboard.output = (0..30).map(|line| format!("line {line}")).collect();
    dashboard.output_viewport = ViewportState::new();
    let _ = demo_frame(Size::new(80, 24), &mut dashboard);

    assert!(dashboard.handle_key(key(KeyCode::Tab)).0.redraw);
    assert_eq!(dashboard.focus.current(), Some(output_focus()));
    assert!(dashboard.handle_key(key(KeyCode::End)).0.redraw);
    assert!(dashboard.handle_key(key(KeyCode::Up)).0.redraw);
    assert!(!dashboard.output_viewport.is_at_bottom());

    assert!(dashboard.handle_key(key(KeyCode::Tab)).0.redraw);
    assert_eq!(dashboard.focus.current(), Some(input_focus()));
    assert!(dashboard.handle_key(KeyEvent::character('p')).0.redraw);
    let (outcome, request) = dashboard.handle_key(ctrl(KeyCode::Enter));
    assert!(outcome.redraw);
    assert_eq!(request, None);
    assert_eq!(dashboard.input.text(), "p");
    assert_eq!(dashboard.last_prompt, None);
    assert_eq!(
        dashboard.output.last().map(String::as_str),
        Some("[not running] Start Hermes with Enter")
    );
}

#[test]
fn app_starts_in_splash_animates_and_enters_main_after_its_minimum_duration() {
    let start = Moment::now();
    let mut app = App::new(start);

    assert_eq!(app.phase, AppPhase::Splash);
    assert!(!app.advance(start));
    assert!(app.advance(start.saturating_add(TimeSpan::from_millis(100))));
    assert_eq!(app.phase, AppPhase::Splash);
    assert!(app.advance(start.saturating_add(SPLASH_DURATION)));
    assert_eq!(app.phase, AppPhase::Main);
}

#[test]
fn splash_supports_enter_space_and_quit_shortcuts_without_reaching_dashboard_actions() {
    let start = Moment::now();
    for pressed in [key(KeyCode::Enter), KeyEvent::character(' ')] {
        let mut app = App::new(start);
        let (outcome, request) = app.handle_key(pressed);
        assert!(!outcome.quit);
        assert!(outcome.redraw);
        assert_eq!(request, None);
        assert_eq!(app.phase, AppPhase::Main);
    }

    for pressed in [KeyEvent::character('q'), ctrl(KeyCode::Char('c'))] {
        let mut app = App::new(start);
        let (outcome, _) = app.handle_key(pressed);
        assert!(outcome.quit);
        assert!(!outcome.redraw);
        assert_eq!(app.phase, AppPhase::Splash);
    }
}

#[test]
fn splash_centers_clips_and_transitions_without_leaving_artwork_cells_in_main() {
    let start = Moment::now();
    let mut app = App::new(start);
    assert_eq!(splash_artwork_rect(Size::new(120, 40)).y, 11);

    for size in [
        Size::new(120, 40),
        Size::new(80, 24),
        Size::new(40, 15),
        Size::new(20, 8),
        Size::new(5, 3),
        Size::new(1, 1),
        Size::new(80, 24),
    ] {
        let frame = app_frame(size, &mut app);
        assert_eq!((frame.buffer().width(), frame.buffer().height()), (size.width, size.height));
    }

    let splash = app_frame(Size::new(120, 40), &mut app);
    let splash_buffer = splash.buffer();
    let artwork = (0..splash_buffer.height())
        .flat_map(|y| (0..splash_buffer.width()).map(move |x| (x, y)))
        .find(|&(x, y)| splash_buffer.get(x, y).is_some_and(|cell| cell.character == '⣿'))
        .expect("the supplied dragon artwork is rendered in the splash frame");

    assert!(app.advance(start.saturating_add(SPLASH_DURATION)));
    let main = app_frame(Size::new(120, 40), &mut app);
    assert_eq!(main.buffer().get(0, 0).unwrap().character, '╭');
    assert_ne!(main.buffer().get(artwork.0, artwork.1).unwrap().character, '⣿');
    assert!(
        diff(Some(splash.buffer()), main.buffer())
            .iter()
            .any(|change| (change.x, change.y) == artwork)
    );
    assert!(app.handle_key(key(KeyCode::Tab)).0.redraw);
}

#[test]
fn splash_uses_surface_background_centered_artwork_and_a_styled_initializing_spinner() {
    let start = Moment::now();
    let mut app = App::new(start);
    let size = Size::new(120, 40);
    let frame = app_frame(size, &mut app);
    let buffer = frame.buffer();
    let theme = Theme::default();
    let artwork = splash_artwork_rect(size);
    let first_line = SPLASH_ARTWORK.lines().next().unwrap();
    let first_x = size.width.saturating_sub(u16::try_from(display_width(first_line)).unwrap()) / 2;
    let status_y = artwork
        .y
        .saturating_add(u16::try_from(SPLASH_ARTWORK.lines().count()).unwrap())
        .saturating_add(1);

    assert_eq!(buffer.get(0, 0).unwrap().character, ' ');
    assert_eq!(buffer.get(0, 0).unwrap().style.bg, Some(theme.background));
    assert_eq!(buffer.get(first_x, artwork.y).unwrap().character, '⠀');
    assert_eq!(buffer.get(first_x, artwork.y).unwrap().style.fg, Some(theme.secondary));
    assert!(buffer.get(0, status_y).is_none_or(|cell| cell.character != 'I'));
    assert!((0..size.width).any(|x| {
        buffer
            .get(x, status_y)
            .is_some_and(|cell| cell.character == 'I' && cell.style.fg == Some(theme.muted))
    }));
    assert!((0..size.width).any(|x| {
        buffer.get(x, status_y).is_some_and(|cell| {
            matches!(cell.character, '⠋' | '⠙' | '⠹' | '⠸' | '⠼' | '⠴' | '⠦' | '⠧')
                && cell.style.fg == Some(theme.success)
        })
    }));
}

#[test]
fn modal_isolates_input_and_restores_the_previous_focus_on_escape() {
    let mut dashboard = Dashboard::new();
    dashboard.focus.set_focus(input_focus());

    assert!(dashboard.handle_key(KeyEvent::character('m')).0.redraw);
    assert!(dashboard.modal_active);
    assert!(demo_view(Size::new(80, 24), &mut dashboard).cursor.is_none());

    dashboard.handle_key(KeyEvent::character('x'));
    assert!(dashboard.modal_active);
    assert!(dashboard.input.text().is_empty());

    dashboard.handle_key(key(KeyCode::Escape));
    assert!(!dashboard.modal_active);
    assert_eq!(dashboard.focus.current(), Some(input_focus()));
    assert!(demo_view(Size::new(80, 24), &mut dashboard).cursor.is_some());
}

#[test]
fn command_palette_isolates_input_restores_escape_focus_and_executes_filtered_commands() {
    let ctrl_p = ctrl(KeyCode::Char('p'));
    let mut dashboard = Dashboard::new();
    dashboard.focus.set_focus(input_focus());

    assert!(dashboard.handle_key(ctrl_p).0.redraw);
    assert!(dashboard.palette.is_some());
    assert!(demo_view(Size::new(80, 24), &mut dashboard).cursor.is_none());
    dashboard.handle_key(KeyEvent::character('x'));
    assert!(dashboard.input.text().is_empty());

    assert!(dashboard.handle_key(key(KeyCode::Escape)).0.redraw);
    assert!(dashboard.palette.is_none());
    assert_eq!(dashboard.focus.current(), Some(input_focus()));

    dashboard.handle_key(ctrl_p);
    for character in "output".chars() {
        assert!(dashboard.handle_key(KeyEvent::character(character)).0.redraw);
    }
    assert!(dashboard.handle_key(key(KeyCode::Enter)).0.redraw);
    assert!(dashboard.palette.is_none());
    assert_eq!(dashboard.focus.current(), Some(output_focus()));
}

#[test]
fn command_palette_renders_safely_during_the_required_resize_sequence() {
    let mut dashboard = Dashboard::new();
    dashboard.handle_key(ctrl(KeyCode::Char('p')));

    for size in [
        Size::new(120, 40),
        Size::new(80, 24),
        Size::new(40, 15),
        Size::new(20, 8),
        Size::new(5, 3),
        Size::new(1, 1),
        Size::new(80, 24),
    ] {
        let frame = demo_frame(size, &mut dashboard);
        assert_eq!((frame.buffer().width(), frame.buffer().height()), (size.width, size.height));
    }
}

#[test]
fn agent_requests_and_results_update_status_and_output() {
    let mut dashboard = Dashboard::new();
    let (outcome, request) = dashboard.handle_key(key(KeyCode::Enter));
    assert!(outcome.redraw);
    assert_eq!(request, Some(AgentRequest::Start));

    dashboard.agent_started();
    assert!(dashboard.agent_running);
    assert_eq!(dashboard.status, "Running");
    assert_eq!(dashboard.output.last().map(String::as_str), Some("[started] hermes --cli"));

    let (_, request) = dashboard.handle_key(key(KeyCode::Enter));
    assert_eq!(request, Some(AgentRequest::Stop));

    dashboard.focus.set_focus(input_focus());
    dashboard.input.insert('h');
    dashboard.input.insert('i');
    let (_, request) = dashboard.handle_key(ctrl(KeyCode::Enter));
    assert_eq!(request, Some(AgentRequest::Send("hi".to_owned())));
    dashboard.prompt_sent("hi");
    assert_eq!(dashboard.last_prompt.as_deref(), Some("hi"));
    assert_eq!(dashboard.input.text(), "");
    assert_eq!(dashboard.output.last().map(String::as_str), Some("> hi"));

    assert!(dashboard.agent_polled(Ok(vec!["pong".to_owned()]), true));
    assert_eq!(dashboard.output.last().map(String::as_str), Some("pong"));
    assert!(!dashboard.agent_polled(Ok(Vec::new()), true));
    assert!(dashboard.agent_polled(Err("broken pipe".to_owned()), false));
    assert_eq!(dashboard.status, "Exited");
    assert_eq!(dashboard.output.last().map(String::as_str), Some("[process error] broken pipe"));
    assert!(!dashboard.agent_running);

    dashboard.send_failed("closed");
    assert_eq!(dashboard.status, "Send failed");
    dashboard.agent_stop_failed("denied");
    assert_eq!(dashboard.output.last().map(String::as_str), Some("[stop error] denied"));
    dashboard.agent_start_failed("missing");
    assert_eq!(dashboard.status, "Start failed");
    dashboard.agent_stopped();
    assert_eq!(dashboard.status, "Stopped");
    assert_eq!(dashboard.output.last().map(String::as_str), Some("[stopped] Hermes"));
}

#[test]
fn output_keeps_only_the_newest_lines() {
    let mut dashboard = Dashboard::new();
    assert_eq!(dashboard.output.len(), 50);
    assert_eq!(dashboard.output[0], "[001] DragonsTUI output event");
    assert_eq!(dashboard.output[49], "[050] DragonsTUI output event");
    let lines: Vec<String> = (0..1_200).map(|line| format!("event {line}")).collect();
    assert!(dashboard.push_output(lines));
    assert_eq!(dashboard.output.len(), 1_000);
    assert_eq!(dashboard.output[0], "event 200");
    assert_eq!(dashboard.output[999], "event 1199");
    assert!(!dashboard.push_output(Vec::new()));
}

#[test]
fn agents_pane_toggles_the_tree_and_navigates_it() {
    let mut dashboard = Dashboard::new();
    assert!(dashboard.handle_key(KeyEvent::character('t')).0.redraw);
    assert!(dashboard.show_tree);
    assert_eq!(dashboard.handle_key(key(KeyCode::Down)).1, None);
    assert_eq!(dashboard.tree.selected(), Some(2));
    let (outcome, request) = dashboard.handle_key(key(KeyCode::Enter));
    assert!(!outcome.redraw);
    assert_eq!(request, None);
    assert_eq!(dashboard.handle_key(KeyEvent::character('x')).1, Some(AgentRequest::Stop));
}
