use dragons_tui::{
    Alignment, Attributes, BorderSet, Buffer, Cell, CellKind, Color, CommandId, Constraint,
    Direction, FocusId, FocusState, Frame, InspectorLayout, InspectorSplitState, KeyCode,
    KeyEvent, KeyMap, KeyModifiers, Layout, Line, List, ListState, Modal, Panel, Position, Rect,
    RichText, Scrollbar, ScrollbarState, Size, Span, Style, Table, TableColumn, TableState, Text,
    Viewport, ViewportState, centered_percent_rect, centered_rect, diff, display_width,
    is_quit_key, split_horizontal, split_vertical,
};

fn row(frame: &Frame, y: u16) -> String {
    let buffer = frame.buffer();
    (0..buffer.width()).map(|x| buffer.get(x, y).unwrap().character).collect()
}

#[test]
fn display_width_counts_columns() {
    assert_eq!(display_width(""), 0);
    assert_eq!(display_width("abc"), 3);
    assert_eq!(display_width("\u{4e2d}\u{6587}"), 4);
    assert_eq!(display_width("e\u{301}"), 1);
}

#[test]
fn buffer_writes_wide_glyphs_and_clips() {
    let mut buffer = Buffer::new(4, 1);
    assert_eq!(buffer.write_text(0, 0, "a\u{4e2d}bc", Style::new()), 4);
    assert_eq!(buffer.get(1, 0).unwrap().kind, CellKind::Wide);
    assert_eq!(buffer.get(2, 0).unwrap().kind, CellKind::WideContinuation);
    assert_eq!(buffer.get(3, 0).unwrap().character, 'b');
    assert!(buffer.get(4, 0).is_none());
    assert!(!buffer.set(9, 0, Cell::new('x', Style::new())));
    assert!(buffer.set(2, 0, Cell::new('x', Style::new())));
    assert_eq!(buffer.get(1, 0).unwrap().character, ' ');
    assert_eq!(buffer.get(1, 0).unwrap().kind, CellKind::Normal);
    assert_eq!(buffer.write_text(3, 0, "\u{4e2d}", Style::new()), 0);
    buffer.clear();
    assert_eq!(buffer.get(2, 0).unwrap().character, ' ');
}

#[test]
fn diff_reports_changed_cells_in_order() {
    let mut previous = Buffer::new(3, 2);
    previous.write_text(0, 0, "abc", Style::new());
    let mut current = previous.clone();
    current.write_text(1, 1, "z", Style::new());
    current.write_text(2, 0, "q", Style::new());
    let changes = diff(Some(&previous), &current);
    assert_eq!(changes.len(), 2);
    assert_eq!((changes[0].x, changes[0].y, changes[0].current.character), (2, 0, 'q'));
    assert_eq!(changes[0].previous.unwrap().character, 'c');
    assert_eq!((changes[1].x, changes[1].y), (1, 1));
    assert!(diff(Some(&current), &current).is_empty());
    assert_eq!(diff(None, &current).len(), 6);
    assert_eq!(diff(Some(&Buffer::new(2, 2)), &current).len(), 6);
}

#[test]
fn frame_clips_text_to_rect() {
    let mut frame = Frame::new(6, 2);
    assert_eq!(frame.write_text_in(Rect::new(1, 0, 3, 1), 0, 0, "hello", Style::new()), 3);
    assert_eq!(row(&frame, 0), " hel  ");
    assert_eq!(frame.write_text_in(Rect::new(1, 0, 3, 1), 3, 0, "x", Style::new()), 0);
    frame.clear();
    assert_eq!(row(&frame, 0), "      ");
}

#[test]
fn frame_draws_borders() {
    let mut frame = Frame::new(4, 3);
    frame.draw_border(Rect::new(0, 0, 4, 3), Style::new());
    assert_eq!(row(&frame, 0), "\u{256d}\u{2500}\u{2500}\u{256e}");
    assert_eq!(row(&frame, 1), "\u{2502}  \u{2502}");
    assert_eq!(row(&frame, 2), "\u{2570}\u{2500}\u{2500}\u{256f}");
    frame.draw_border_with_set(Rect::new(0, 0, 2, 2), Style::new(), BorderSet::double());
    assert_eq!(row(&frame, 0), "\u{2554}\u{2557}\u{2500}\u{256e}");
    assert_eq!(BorderSet::default(), BorderSet::rounded());
    assert_eq!(BorderSet::square().top_left, '\u{250c}');
}

#[test]
fn geometry_helpers() {
    let rect = Rect::new(2, 3, 10, 4);
    assert_eq!(rect.right(), 12);
    assert_eq!(rect.bottom(), 7);
    assert!(rect.contains(Position { x: 2, y: 3 }));
    assert!(!rect.contains(Position { x: 12, y: 3 }));
    assert_eq!(rect.inner(), Rect::new(3, 4, 8, 2));
    assert_eq!(Rect::new(0, 0, 1, 1).inner(), Rect::new(1, 1, 0, 0));
    assert_eq!(rect.size(), Size::new(10, 4));
    assert_eq!(rect.position(), Position { x: 2, y: 3 });
    assert_eq!(split_horizontal(rect, 3), (Rect::new(2, 3, 3, 4), Rect::new(5, 3, 7, 4)));
    assert_eq!(split_horizontal(rect, 30), (rect, Rect::new(12, 3, 0, 4)));
    assert_eq!(split_vertical(rect, 1), (Rect::new(2, 3, 10, 1), Rect::new(2, 4, 10, 3)));
}

#[test]
fn layout_resolves_lengths_percentages_and_fills() {
    let layout = Layout::horizontal(vec![
        Constraint::Length(10),
        Constraint::Fill(1),
        Constraint::Percentage(50),
    ])
    .gap(2);
    assert_eq!(
        layout.split(Rect::new(0, 0, 100, 5)),
        vec![Rect::new(0, 0, 10, 5), Rect::new(12, 0, 38, 5), Rect::new(52, 0, 48, 5)]
    );
    let weighted = Layout::vertical(vec![Constraint::Fill(1), Constraint::Fill(2)]);
    assert_eq!(
        weighted.split(Rect::new(0, 0, 3, 10)),
        vec![Rect::new(0, 0, 3, 4), Rect::new(0, 4, 3, 6)]
    );
    assert!(Layout::new(Direction::Horizontal).split(Rect::new(0, 0, 5, 5)).is_empty());
    let tight = Layout::horizontal(vec![Constraint::Length(8), Constraint::Length(8)]);
    assert_eq!(
        tight.split(Rect::new(0, 0, 10, 1)),
        vec![Rect::new(0, 0, 8, 1), Rect::new(8, 0, 2, 1)]
    );
}

#[test]
fn style_patch_overlays_and_unions() {
    let base = Style::new().fg(Color::rgb(1, 1, 1)).bold();
    let overlay = Style::new().bg(Color::rgb(2, 2, 2)).italic();
    let patched = base.patch(overlay);
    assert_eq!(patched.fg, Some(Color::rgb(1, 1, 1)));
    assert_eq!(patched.bg, Some(Color::rgb(2, 2, 2)));
    assert!(patched.attributes.bold && patched.attributes.italic);
    assert_eq!(base.patch(Style::new()), base);
    assert_eq!(base.patch(base), base);
    assert_eq!(Style::default(), Style::new());
    assert_eq!(Attributes::default(), Style::new().attributes);
    let all = Style::new().dim().underline().strikethrough().reverse();
    assert!(all.attributes.dim && all.attributes.underline);
    assert!(all.attributes.strikethrough && all.attributes.reverse);
    assert_eq!(Cell::default(), Cell::new(' ', Style::new()));
}

#[test]
fn focus_cycles_through_unique_ids() {
    let mut focus = FocusState::new(vec![
        FocusId::new(1),
        FocusId::new(2),
        FocusId::new(1),
        FocusId::new(3),
    ]);
    assert_eq!(focus.current(), Some(FocusId::new(1)));
    assert!(focus.focus_next());
    assert_eq!(focus.current(), Some(FocusId::new(2)));
    assert!(focus.focus_previous());
    assert!(focus.focus_previous());
    assert_eq!(focus.current(), Some(FocusId::new(3)));
    assert!(focus.focus_next());
    assert_eq!(focus.current(), Some(FocusId::new(1)));
    assert!(focus.set_focus(FocusId::new(3)));
    assert!(!focus.set_focus(FocusId::new(3)));
    assert!(!focus.set_focus(FocusId::new(9)));
    assert!(focus.replace_order(vec![FocusId::new(2)]));
    assert_eq!(focus.current(), Some(FocusId::new(2)));
    assert!(!focus.focus_next());
    assert!(focus.replace_order(vec![]));
    assert_eq!(focus.current(), None);
    assert!(!focus.focus_previous());
}

#[test]
fn keymap_binds_and_replaces() {
    let ctrl = KeyModifiers { ctrl: true, alt: false, shift: false };
    let mut keymap = KeyMap::new();
    assert!(keymap.bind(KeyCode::Char('s'), ctrl, CommandId::new("save")).is_none());
    let old = keymap.bind(KeyCode::Char('s'), ctrl, CommandId::new("write"));
    assert_eq!(old.unwrap().as_str(), "save");
    let key = KeyEvent { code: KeyCode::Char('s'), modifiers: ctrl };
    assert_eq!(keymap.resolve(key).unwrap().as_str(), "write");
    assert!(keymap.resolve(KeyEvent::character('s')).is_none());
    assert_eq!(CommandId::new("x").duplicate().as_str(), "x");
    assert!(is_quit_key('q'));
    assert!(!is_quit_key('Q'));
}

#[test]
fn viewport_state_scrolls_and_sticks_to_bottom() {
    let mut viewport = ViewportState::new();
    viewport.update_dimensions(10, 3);
    assert_eq!(viewport.max_scroll(), 7);
    assert_eq!(viewport.offset(), 0);
    assert!(viewport.scroll_down());
    assert_eq!(viewport.offset(), 1);
    assert!(viewport.end());
    assert!(viewport.is_at_bottom());
    viewport.update_dimensions(20, 3);
    assert_eq!(viewport.offset(), 17);
    assert!(viewport.page_up());
    assert_eq!(viewport.offset(), 14);
    assert!(viewport.page_down());
    assert_eq!(viewport.offset(), 17);
    assert!(!viewport.scroll_down());
    assert!(viewport.home());
    assert!(!viewport.scroll_up());
    viewport.update_dimensions(2, 3);
    assert_eq!(viewport.offset(), 0);
    assert_eq!(viewport.content_height(), 2);
    assert_eq!(viewport.viewport_height(), 3);
}

#[test]
fn viewport_renders_visible_lines() {
    let lines = vec!["a".to_string(), "b".to_string(), "c".to_string()];
    let mut state = ViewportState::new();
    state.update_dimensions(3, 2);
    state.scroll_down();
    let mut frame = Frame::new(2, 2);
    Viewport::new(&lines).render(&mut frame, Rect::new(0, 0, 2, 2), &mut state);
    assert_eq!(row(&frame, 0), "b ");
    assert_eq!(row(&frame, 1), "c ");
}

#[test]
fn list_state_wraps_and_clamps() {
    let mut state = ListState::new();
    state.set_selected(5);
    assert_eq!(state.selected_index(3), Some(2));
    state.next(3);
    assert_eq!(state.selected_index(3), Some(0));
    state.previous(3);
    assert_eq!(state.selected_index(3), Some(2));
    assert_eq!(state.selected_index(0), None);
    let mut frame = Frame::new(5, 2);
    let mut state = ListState::new();
    state.set_selected(1);
    List::new(&["a", "b", "c"]).render(&mut frame, Rect::new(0, 0, 5, 2), &mut state);
    assert_eq!(row(&frame, 0), "  a  ");
    assert_eq!(row(&frame, 1), "> b  ");
}

#[test]
fn table_renders_header_rows_and_selection() {
    let table = Table::new(vec![
        TableColumn::new(Constraint::Length(3)),
        TableColumn::new(Constraint::Length(3)).alignment(Alignment::Right),
    ])
    .header(vec![Line::raw("id"), Line::raw("v")])
    .rows(vec![vec![Line::raw("1"), Line::raw("x")], vec![Line::raw("2"), Line::raw("y")]])
    .selected_style(Style::new().reverse());
    let mut state = TableState::new();
    state.set_selected(1);
    let mut frame = Frame::new(6, 3);
    table.render(&mut frame, Rect::new(0, 0, 6, 3), &mut state);
    assert_eq!(row(&frame, 0), "id   v");
    assert_eq!(row(&frame, 1), "1    x");
    assert_eq!(row(&frame, 2), "2    y");
    assert!(frame.buffer().get(1, 2).unwrap().style.attributes.reverse);
    assert!(!frame.buffer().get(1, 1).unwrap().style.attributes.reverse);
    state.next(2);
    assert_eq!(state.selected_index(2), Some(0));
    assert_eq!(state.viewport().content_height(), 2);
}

#[test]
fn text_and_rich_text_align() {
    let mut frame = Frame::new(6, 2);
    Text::new("ab\ncd").alignment(Alignment::Right).render(&mut frame, Rect::new(0, 0, 6, 2));
    assert_eq!(row(&frame, 0), "    ab");
    assert_eq!(row(&frame, 1), "    cd");
    let mut frame = Frame::new(6, 1);
    let line = Line::new(vec![Span::raw("a"), Span::styled("bc", Style::new().bold())])
        .alignment(Alignment::Center);
    assert_eq!(line.display_width(), 3);
    line.render(&mut frame, Rect::new(0, 0, 6, 1));
    assert_eq!(row(&frame, 0), " abc  ");
    assert!(frame.buffer().get(2, 0).unwrap().style.attributes.bold);
    let mut frame = Frame::new(3, 2);
    RichText::new(vec![Line::raw("x"), Line::raw("y"), Line::raw("z")])
        .render(&mut frame, Rect::new(0, 0, 3, 2));
    assert_eq!(row(&frame, 1), "y  ");
}

#[test]
fn panel_and_modal_frames() {
    let mut frame = Frame::new(8, 3);
    let inner = Panel::new("T").render(&mut frame, Rect::new(0, 0, 8, 3));
    assert_eq!(inner, Rect::new(1, 1, 6, 1));
    assert_eq!(row(&frame, 0), "\u{256d}\u{2500} T\u{2500}\u{2500}\u{2500}\u{256e}");
    let untitled = Panel::untitled().render(&mut frame, Rect::new(0, 0, 0, 3));
    assert_eq!(untitled, Rect::new(0, 0, 0, 3).inner());
    assert_eq!(centered_rect(Rect::new(0, 0, 10, 10), 4, 20), Rect::new(3, 0, 4, 10));
    assert_eq!(centered_percent_rect(Rect::new(0, 0, 10, 10), 50, 200), Rect::new(2, 0, 5, 10));
    let modal = Modal::new("M", vec![Line::raw("hi")]).size(6, 3);
    assert_eq!(modal.rect(Rect::new(0, 0, 10, 5)), Rect::new(2, 1, 6, 3));
    let mut frame = Frame::new(10, 5);
    assert_eq!(modal.render(&mut frame, Rect::new(0, 0, 10, 5)), Rect::new(2, 1, 6, 3));
    assert_eq!(row(&frame, 2), "  \u{2502}hi  \u{2502}  ");
}

#[test]
fn scrollbar_geometry_and_dragging() {
    let mut viewport = ViewportState::new();
    viewport.update_dimensions(20, 5);
    let track = Rect::new(9, 0, 1, 10);
    let geometry = Scrollbar::geometry(&viewport, track).unwrap();
    assert_eq!(geometry.thumb, Rect::new(9, 0, 1, 3));
    let mut frame = Frame::new(10, 10);
    assert!(Scrollbar::render(&mut frame, &viewport, track, Style::new(), Style::new()).is_some());
    assert_eq!(frame.buffer().get(9, 0).unwrap().character, '\u{2588}');
    assert_eq!(frame.buffer().get(9, 5).unwrap().character, '\u{2502}');
    let mut state = ScrollbarState::new();
    assert!(!state.is_dragging());
    assert!(state.start_drag(geometry, Position { x: 9, y: 1 }));
    assert!(state.drag_to(&mut viewport, track, Position { x: 9, y: 7 }));
    assert_eq!(viewport.offset(), 12);
    assert!(state.stop_drag());
    assert!(!state.drag_to(&mut viewport, track, Position { x: 9, y: 0 }));
    assert!(state.track_click(&mut viewport, track, Position { x: 9, y: 0 }));
    assert_eq!(viewport.offset(), 0);
    let mut short = ViewportState::new();
    short.update_dimensions(3, 5);
    assert!(Scrollbar::geometry(&short, track).is_none());
}

#[test]
fn inspector_splits_or_stacks() {
    let layout = InspectorLayout::new(30, 10, 20);
    let areas = layout.split(Rect::new(0, 0, 100, 10));
    assert!(areas.is_horizontal());
    assert_eq!(areas.master, Rect::new(0, 0, 30, 10));
    assert_eq!(areas.divider, Some(Rect::new(30, 0, 1, 10)));
    assert_eq!(areas.detail, Rect::new(31, 0, 69, 10));
    let stacked = layout.split(Rect::new(0, 0, 20, 9));
    assert!(!stacked.is_horizontal());
    assert_eq!(stacked.master, Rect::new(0, 0, 20, 5));
    assert_eq!(stacked.detail, Rect::new(0, 5, 20, 4));
    let mut state = InspectorSplitState::new();
    let area = Rect::new(0, 0, 100, 10);
    assert!(state.start_drag(layout, area, Position { x: 30, y: 2 }));
    assert!(state.is_dragging());
    assert!(state.drag_to(layout, area, Position { x: 50, y: 2 }));
    assert_eq!(state.split(layout, area).master.width, 50);
    assert!(state.stop_drag());
    assert!(!state.start_drag(layout, area, Position { x: 10, y: 2 }));
}

#[test]
fn applying_a_diff_to_the_previous_buffer_gives_the_current_one() {
    let mut previous = Buffer::new(4, 2);
    previous.write_text(0, 0, "abcd", Style::new());
    let mut current = previous.clone();
    current.write_text(1, 0, "xy", Style::new());
    current.write_text(3, 1, "z", Style::new());
    let mut applied = previous.clone();
    for change in diff(Some(&previous), &current) {
        applied.set(change.x, change.y, change.current);
    }
    assert_eq!(applied, current);
}

#[test]
fn border_leaves_cells_off_the_border_unchanged() {
    let mut frame = Frame::new(5, 4);
    frame.write_text(0, 1, "abcde", Style::new());
    frame.write_text(0, 2, "fghij", Style::new());
    frame.draw_border_with_set(Rect::new(1, 0, 3, 4), Style::new(), BorderSet::square());
    assert_eq!(row(&frame, 1), "a\u{2502}c\u{2502}e");
    assert_eq!(row(&frame, 2), "f\u{2502}h\u{2502}j");
    assert_eq!(row(&frame, 0), " \u{250c}\u{2500}\u{2510} ");
}
