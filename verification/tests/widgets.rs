use dragons_tui::{
    Moment, TimeSpan, tick_due,
    Animation, Canvas, Cell, CellKind, ChangedCell, Color, CommandId, CommandPalette,
    DiffDocument, DiffLineKind, DiffStyles, DiffViewer, Frame, KeyCode, KeyEvent, KeyModifiers,
    Line, PaletteCommand, PollStep, PropertyRow, PropertyView, Rect, Runtime, SessionHost,
    SessionHostState, SourceDocument, SourceViewer, Spinner, Style, TerminalCommand, Theme, Tree,
    TreeNode, TreeState, ViewportState, contains_text, cursor_commands, encode_changes,
};

fn key(code: KeyCode) -> KeyEvent {
    KeyEvent { code, modifiers: KeyModifiers::default() }
}

fn row(frame: &Frame, y: u16) -> String {
    let buffer = frame.buffer();
    (0..buffer.width()).map(|x| buffer.get(x, y).unwrap().character).collect()
}

fn sample_tree() -> Tree {
    Tree::new(vec![TreeNode::new(1, Line::raw("root")).children(vec![
        TreeNode::new(2, Line::raw("a")).children(vec![TreeNode::new(4, Line::raw("x"))]),
        TreeNode::new(3, Line::raw("b")),
    ])])
}

#[test]
fn tree_navigation_expands_and_selects() {
    let tree = sample_tree();
    let mut state = TreeState::new();
    assert!(!tree.move_down(&mut state));
    assert_eq!(state.selected(), Some(1));
    assert!(tree.move_right(&mut state));
    assert!(state.is_expanded(1));
    assert!(tree.move_down(&mut state));
    assert_eq!(state.selected(), Some(2));
    assert!(tree.move_right(&mut state));
    assert!(tree.move_right(&mut state));
    assert_eq!(state.selected(), Some(4));
    assert!(!tree.move_right(&mut state));
    assert!(tree.move_left(&mut state));
    assert_eq!(state.selected(), Some(2));
    assert!(tree.move_left(&mut state));
    assert!(!state.is_expanded(2));
    assert!(tree.toggle(&mut state));
    assert!(state.is_expanded(2));
    assert!(tree.toggle(&mut state));
    assert!(!state.is_expanded(2));
    assert!(tree.move_up(&mut state));
    assert_eq!(state.selected(), Some(1));
    assert!(!tree.move_up(&mut state));
}

#[test]
fn tree_normalization_drops_unknown_ids() {
    let tree = sample_tree();
    let mut state = TreeState::new();
    state.expand(99);
    state.set_selected(42);
    assert!(!tree.move_up(&mut state));
    assert!(!state.is_expanded(99));
    assert_eq!(state.selected(), Some(1));
}

#[test]
fn tree_renders_markers_and_indentation() {
    let tree = sample_tree().selected_style(Style::new().bold());
    let mut state = TreeState::new();
    state.expand(1);
    let mut frame = Frame::new(8, 4);
    tree.render(&mut frame, Rect::new(0, 0, 8, 4), &mut state);
    assert_eq!(row(&frame, 0), "\u{25bc} root  ");
    assert_eq!(row(&frame, 1), "  \u{25b6} a   ");
    assert_eq!(row(&frame, 2), "  \u{2022} b   ");
    assert_eq!(row(&frame, 3), "        ");
    assert!(frame.buffer().get(0, 0).unwrap().style.attributes.bold);
    assert!(!frame.buffer().get(2, 1).unwrap().style.attributes.bold);
    assert_eq!(state.viewport().content_height(), 3);
}

#[test]
fn canvas_points_lines_and_rects() {
    let mut canvas = Canvas::new(2, 1);
    assert_eq!(canvas.logical_width(), 4);
    assert_eq!(canvas.logical_height(), 4);
    assert!(canvas.set_point(0, 0));
    assert!(canvas.set_point(3, 3));
    assert!(!canvas.set_point(4, 0));
    let mut frame = Frame::new(2, 1);
    canvas.render(&mut frame, Rect::new(0, 0, 2, 1), Style::new());
    assert_eq!(row(&frame, 0), "\u{2801}\u{2880}");
    canvas.clear();
    canvas.draw_line(0, 0, 3, 0);
    canvas.draw_line(-5, -5, -1, -1);
    canvas.render(&mut frame, Rect::new(0, 0, 2, 1), Style::new());
    assert_eq!(row(&frame, 0), "\u{2809}\u{2809}");
    canvas.clear();
    canvas.draw_rect(0, 0, 4, 4);
    canvas.render(&mut frame, Rect::new(0, 0, 2, 1), Style::new());
    assert_eq!(row(&frame, 0), "\u{28cf}\u{28f9}");
}

#[test]
fn canvas_clips_long_lines() {
    let mut canvas = Canvas::new(1, 1);
    canvas.draw_line(-10, 1, 10, 1);
    let mut frame = Frame::new(1, 1);
    canvas.render(&mut frame, Rect::new(0, 0, 1, 1), Style::new());
    assert_eq!(row(&frame, 0), "\u{2812}");
    canvas.clear();
    canvas.draw_rect(0, 0, 0, 5);
    canvas.render(&mut frame, Rect::new(0, 0, 1, 1), Style::new());
    assert_eq!(row(&frame, 0), " ");
}

#[test]
fn diff_parse_numbers_rows() {
    let doc = DiffDocument::parse_unified(
        "diff --git a b\r\n--- a\n+++ b\n@@ -3,2 +5,3 @@\n ctx\n-old\n+new\n+more\nweird",
    );
    let lines = doc.lines();
    assert_eq!(lines.len(), 9);
    assert_eq!(lines[0].kind(), DiffLineKind::Header);
    assert_eq!(lines[0].content(), "diff --git a b");
    assert_eq!(lines[3].kind(), DiffLineKind::Hunk);
    assert_eq!(lines[3].numbering(), (None, None));
    assert_eq!(lines[4].kind(), DiffLineKind::Context);
    assert_eq!(lines[4].numbering(), (Some(3), Some(5)));
    assert_eq!(lines[5].numbering(), (Some(4), None));
    assert_eq!(lines[6].numbering(), (None, Some(6)));
    assert_eq!(lines[7].numbering(), (None, Some(7)));
    assert_eq!(lines[8].kind(), DiffLineKind::Unknown);
    assert!(!doc.is_empty());
    assert!(DiffDocument::parse_unified("").is_empty());
}

#[test]
fn diff_malformed_hunk_has_no_numbers() {
    let doc = DiffDocument::parse_unified("@@ -0,1 +x @@\n ctx\n@@ -+7 +2 @@\n-a");
    let lines = doc.lines();
    assert_eq!(lines[1].numbering(), (None, None));
    assert_eq!(lines[3].numbering(), (Some(7), None));
}

#[test]
fn diff_viewer_renders_gutter() {
    let doc = DiffDocument::parse_unified("@@ -9 +10 @@\n x\n+y");
    let styles = DiffStyles {
        header: Style::new(),
        hunk: Style::new(),
        context: Style::new(),
        added: Style::new(),
        deleted: Style::new(),
        gutter: Style::new(),
    };
    let mut frame = Frame::new(10, 3);
    let mut viewport = ViewportState::new();
    DiffViewer::new(&doc).render(&mut frame, Rect::new(0, 0, 10, 3), &mut viewport, styles);
    assert_eq!(row(&frame, 0), "      @@ -");
    assert_eq!(row(&frame, 1), " 9 10  x  ");
    assert_eq!(row(&frame, 2), "   11 +y  ");
    let empty = DiffDocument::parse_unified("");
    let mut frame = Frame::new(14, 1);
    DiffViewer::new(&empty).render(&mut frame, Rect::new(0, 0, 14, 1), &mut viewport, styles);
    assert_eq!(row(&frame, 0), "(empty diff)  ");
}

#[test]
fn palette_filters_and_selects() {
    let mut palette = CommandPalette::new(vec![
        PaletteCommand::new(CommandId::new("open"), "Open File"),
        PaletteCommand::new(CommandId::new("close"), "Close"),
        PaletteCommand::new(CommandId::new("save"), "Save As"),
    ]);
    assert_eq!(palette.filtered_titles().len(), 3);
    assert!(palette.handle_key(key(KeyCode::Char('S'))));
    assert_eq!(palette.query(), "S");
    assert_eq!(palette.filtered_titles(), vec!["Close".to_string(), "Save As".to_string()]);
    assert_eq!(palette.selected_index(), Some(0));
    assert!(palette.handle_key(key(KeyCode::Down)));
    assert!(palette.handle_key(key(KeyCode::Down)));
    assert_eq!(palette.selected_index(), Some(1));
    assert_eq!(palette.execute_selected().unwrap().as_str(), "save");
    assert!(palette.handle_key(key(KeyCode::Up)));
    assert_eq!(palette.execute_selected().unwrap().as_str(), "close");
    assert!(palette.handle_key(key(KeyCode::Char('z'))));
    assert_eq!(palette.selected_index(), None);
    assert!(!palette.handle_key(key(KeyCode::Down)));
    assert!(palette.execute_selected().is_none());
}

#[test]
fn palette_render_returns_centered_rect() {
    let palette = CommandPalette::new(vec![PaletteCommand::new(CommandId::new("a"), "Alpha")]);
    let mut frame = Frame::new(60, 20);
    let rect = palette.render(&mut frame, Rect::new(0, 0, 60, 20), Style::new(), Style::new(), Style::new());
    assert_eq!(rect, Rect::new(9, 4, 42, 12));
}

#[test]
fn contains_text_matches_substrings() {
    assert!(contains_text("hello", "ell"));
    assert!(contains_text("hello", ""));
    assert!(!contains_text("hello", "hellos"));
    assert!(!contains_text("", "a"));
    assert!(contains_text("abab", "bab"));
}

#[test]
fn property_view_aligns_values() {
    let rows = vec![PropertyRow::new("a", "1"), PropertyRow::new("long", "2")];
    let mut frame = Frame::new(10, 2);
    let mut viewport = ViewportState::new();
    PropertyView::new(&rows).render(
        &mut frame,
        Rect::new(0, 0, 10, 2),
        &mut viewport,
        Style::new(),
        Style::new(),
    );
    assert_eq!(row(&frame, 0), "a    1    ");
    assert_eq!(row(&frame, 1), "long 2    ");
}

#[test]
fn source_view_numbers_lines() {
    let doc = SourceDocument::new(vec![Line::raw("x"), Line::raw("y")]);
    let mut frame = Frame::new(4, 2);
    let mut viewport = ViewportState::new();
    SourceViewer::new(&doc).render(&mut frame, Rect::new(0, 0, 4, 2), &mut viewport, Style::new());
    assert_eq!(row(&frame, 0), "1 x ");
    assert_eq!(row(&frame, 1), "2 y ");
    let empty = SourceDocument::new(vec![]);
    let mut frame = Frame::new(14, 1);
    SourceViewer::new(&empty).render(&mut frame, Rect::new(0, 0, 14, 1), &mut viewport, Style::new());
    assert_eq!(row(&frame, 0), "(empty source)");
}

#[test]
fn session_host_keeps_bounded_inert_output() {
    let mut host = SessionHost::new(2);
    assert_eq!(host.scrollback_capacity(), 2);
    assert_eq!(SessionHost::new(0).scrollback_capacity(), 1);
    host.push_output("a\nb\u{1}\nc");
    assert_eq!(host.lines(), vec!["b\u{fffd}".to_string(), "c".to_string()]);
    host.push_output("");
    assert_eq!(host.lines(), vec!["c".to_string(), "".to_string()]);
    assert_eq!(host.state(), SessionHostState::Opening);
    host.mark_running();
    assert_eq!(host.state(), SessionHostState::Running);
    host.mark_exited(Some(3));
    assert_eq!(host.state(), SessionHostState::Exited { exit_code: Some(3) });
    host.mark_failed("boom");
    assert_eq!(host.state(), SessionHostState::Failed { message: "boom".to_string() });
    host.mark_closed();
    assert_eq!(host.state(), SessionHostState::Closed);
}

#[test]
fn session_host_renders_pending_notice() {
    let mut host = SessionHost::new(10);
    let mut frame = Frame::new(26, 2);
    host.render(&mut frame, Rect::new(0, 0, 26, 2), Style::new(), Style::new(), Style::new());
    assert_eq!(&row(&frame, 0)[..24], "(session output pending)");
    host.push_output("one\ntwo\nthree");
    assert!(!host.scroll_up(1));
    host.render(&mut frame, Rect::new(0, 0, 26, 2), Style::new(), Style::new(), Style::new());
    assert!(row(&frame, 0).starts_with("two"));
    assert!(row(&frame, 1).starts_with("three"));
    assert!(host.scroll_up(5));
    assert!(!host.scroll_up(1));
    assert!(host.scroll_down(9));
}

#[test]
fn animation_loops_and_completes() {
    let mut animation = Animation::new(vec![1, 2, 3]);
    assert_eq!(animation.current(), Some(&1));
    assert!(animation.advance());
    assert_eq!(animation.current(), Some(&2));
    assert!(animation.advance_by(5));
    assert_eq!(animation.current(), Some(&1));
    let mut once = Animation::new(vec!['a', 'b', 'c']).looped(false);
    assert!(!once.is_completed());
    assert!(once.advance_by(10));
    assert_eq!(once.current(), Some(&'c'));
    assert!(once.is_completed());
    assert!(!once.advance());
    let now = Moment::now();
    assert!(!once.update(now));
    let empty: Animation<u8> = Animation::new(vec![]);
    assert!(empty.is_completed());
    assert_eq!(empty.current(), None);
    let single = Animation::new(vec![7]).looped(false);
    assert!(single.is_completed());
}

#[test]
fn animation_update_steps_by_elapsed_frames() {
    let mut animation = Animation::new(vec![0, 1, 2, 3]).frame_duration(TimeSpan::from_millis(10));
    let start = Moment::now();
    assert!(!animation.update(start));
    assert!(!animation.update(start));
    assert!(animation.update(start.saturating_add(TimeSpan::from_millis(25))));
    assert_eq!(animation.current(), Some(&2));
    let mut paused = Animation::new(vec![0, 1]).frame_duration(TimeSpan::zero());
    assert!(!paused.update(start));
    assert!(!paused.update(start.saturating_add(TimeSpan::from_secs(1))));
    assert_eq!(paused.current(), Some(&0));
}

#[test]
fn spinner_cycles_braille_frames() {
    let mut spinner = Spinner::braille();
    assert_eq!(spinner.current(), "\u{280b}");
    spinner.advance();
    assert_eq!(spinner.current(), "\u{2819}");
    assert!(Spinner::new(&[]).is_none());
    let mut custom = Spinner::new(&["-", "+"]).unwrap();
    custom.advance();
    custom.advance();
    assert_eq!(custom.current(), "-");
}

#[test]
fn theme_is_the_dragonfire_palette() {
    let theme = Theme::new();
    assert_eq!(theme.primary, Color::rgb(120, 20, 10));
    assert_eq!(theme.muted, Color::rgb(145, 105, 75));
    assert_eq!(Theme::default(), theme);
}

#[test]
fn terminal_encoding_moves_styles_and_prints() {
    let plain = Style::new();
    let bold = Style::new().bold().fg(Color::rgb(1, 2, 3));
    let cells = vec![
        ChangedCell { x: 0, y: 0, previous: None, current: Cell::new('a', plain) },
        ChangedCell { x: 1, y: 0, previous: None, current: Cell::new('b', plain) },
        ChangedCell { x: 3, y: 0, previous: None, current: Cell::new('c', bold) },
        ChangedCell {
            x: 4,
            y: 0,
            previous: None,
            current: Cell { character: ' ', style: bold, kind: CellKind::WideContinuation },
        },
    ];
    let commands = encode_changes(&cells, true);
    assert_eq!(
        commands,
        vec![
            TerminalCommand::ClearAll,
            TerminalCommand::MoveTo { x: 0, y: 0 },
            TerminalCommand::ResetAttributes,
            TerminalCommand::Print('a'),
            TerminalCommand::Print('b'),
            TerminalCommand::MoveTo { x: 3, y: 0 },
            TerminalCommand::ResetAttributes,
            TerminalCommand::SetForeground(Color::rgb(1, 2, 3)),
            TerminalCommand::SetAttribute(dragons_tui::TextAttribute::Bold),
            TerminalCommand::Print('c'),
            TerminalCommand::ResetAttributes,
        ]
    );
    assert_eq!(encode_changes(&[], false), vec![]);
    assert_eq!(cursor_commands(None), vec![TerminalCommand::HideCursor]);
    assert_eq!(
        cursor_commands(Some(dragons_tui::Position { x: 2, y: 1 })),
        vec![TerminalCommand::MoveTo { x: 2, y: 1 }, TerminalCommand::ShowCursor]
    );
}

#[test]
fn runtime_diffs_against_previous_frame() {
    let mut runtime = Runtime::new(None);
    assert!(runtime.needs_redraw());
    let mut frame = Frame::new(2, 1);
    frame.write_text(0, 0, "hi", Style::new());
    let prepared = runtime.prepare_frame(frame);
    assert!(prepared.resized);
    assert_eq!(prepared.changed.len(), 2);
    runtime.finish_frame(prepared.current);
    assert!(!runtime.needs_redraw());
    let mut frame = Frame::new(2, 1);
    frame.write_text(0, 0, "ho", Style::new());
    let prepared = runtime.prepare_frame(frame);
    assert!(!prepared.resized);
    assert_eq!(prepared.changed.len(), 1);
    assert_eq!(prepared.changed[0].x, 1);
    runtime.request_redraw();
    assert!(runtime.needs_redraw());
    assert!(matches!(runtime.poll_step(Moment::now()), PollStep::Wait(_)));
    assert_eq!(runtime.poll_timed_out(Moment::now()), None);
}

#[test]
fn runtime_waits_for_the_rest_of_the_interval() {
    let mut runtime = Runtime::new(Some(TimeSpan::from_millis(50)));
    let start = Moment::now().saturating_add(TimeSpan::from_secs(1));
    assert!(matches!(runtime.poll_step(start), PollStep::Tick(t) if t == start));
    let later = start.saturating_add(TimeSpan::from_millis(20));
    assert!(matches!(runtime.poll_step(later), PollStep::Wait(d) if d == TimeSpan::from_millis(30)));
    let mut idle = Runtime::new(None);
    assert!(matches!(idle.poll_step(start), PollStep::Wait(d) if d == TimeSpan::from_secs(86_400)));
}

#[test]
fn tick_due_compares_elapsed_time_with_the_interval() {
    let start = Moment::from_nanos(1_000);
    let interval = TimeSpan::from_nanos(100);
    assert!(!tick_due(Moment::from_nanos(1_099), start, interval));
    assert!(tick_due(Moment::from_nanos(1_100), start, interval));
    assert!(!tick_due(Moment::from_nanos(10), start, interval));
    assert!(tick_due(Moment::from_nanos(10), start, TimeSpan::zero()));
}

#[test]
fn runtime_ticks_when_interval_elapsed() {
    let mut runtime = Runtime::new(Some(TimeSpan::zero()));
    let now = Moment::now();
    assert!(matches!(runtime.poll_step(now), PollStep::Tick(t) if t == now));
    assert_eq!(runtime.poll_timed_out(now), Some(now));
}

#[test]
fn braille_spinner_changes_frame_every_hundred_milliseconds() {
    let start = Moment::from_nanos(1_000_000_000);
    let mut spinner = Spinner::braille();
    assert!(!spinner.update(start));
    assert!(!spinner.update(start.saturating_add(TimeSpan::from_millis(50))));
    assert!(spinner.update(start.saturating_add(TimeSpan::from_millis(100))));
    assert!(!spinner.update(start.saturating_add(TimeSpan::from_millis(150))));
    assert!(spinner.update(start.saturating_add(TimeSpan::from_millis(200))));
    assert_eq!(spinner.current(), "\u{2839}");
}
