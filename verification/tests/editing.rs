use dragons_tui::{
    Frame, KeyCode, KeyEvent, KeyModifiers, Position, Rect, Style, TextArea, TextInput,
    clip_line, cluster_char_offset, clusters_starting_before, grapheme_count,
};

fn key(code: KeyCode) -> KeyEvent {
    KeyEvent { code, modifiers: KeyModifiers::default() }
}

fn row(frame: &Frame, y: u16) -> String {
    let buffer = frame.buffer();
    (0..buffer.width()).map(|x| buffer.get(x, y).unwrap().character).collect()
}

#[test]
fn text_input_inserts_and_moves_by_graphemes() {
    let mut input = TextInput::new();
    for c in "ae\u{301}b".chars() {
        input.insert(c);
    }
    assert_eq!(input.text(), "ae\u{301}b");
    assert_eq!(input.cursor(), 3);
    assert!(input.left());
    assert!(input.backspace());
    assert_eq!(input.text(), "ab");
    assert_eq!(input.cursor(), 1);
}

#[test]
fn text_input_combining_mark_joins_previous_cluster() {
    let mut input = TextInput::new();
    input.insert('e');
    input.insert('\u{301}');
    assert_eq!(input.cursor(), 1);
    assert_eq!(grapheme_count(input.text()), 1);
}

#[test]
fn text_input_backspace_and_delete_at_edges() {
    let mut input = TextInput::new();
    assert!(!input.backspace());
    assert!(!input.delete());
    assert!(!input.left());
    assert!(!input.right());
    input.insert('x');
    assert!(!input.right());
    assert!(input.left());
    assert!(input.delete());
    assert_eq!(input.text(), "");
}

#[test]
fn text_input_handle_key_rejects_modifiers_and_controls() {
    let mut input = TextInput::new();
    let ctrl = KeyEvent {
        code: KeyCode::Char('a'),
        modifiers: KeyModifiers { ctrl: true, alt: false, shift: false },
    };
    assert!(!input.handle_key(ctrl));
    assert!(!input.handle_key(key(KeyCode::Char('\u{7}'))));
    assert!(!input.handle_key(key(KeyCode::Enter)));
    assert!(input.handle_key(key(KeyCode::Char('h'))));
    assert!(input.handle_key(key(KeyCode::Char('i'))));
    assert_eq!(input.text(), "hi");
    assert!(input.handle_key(key(KeyCode::Backspace)));
    assert_eq!(input.text(), "h");
    input.clear();
    assert_eq!(input.text(), "");
    assert_eq!(input.cursor(), 0);
}

#[test]
fn text_input_viewport_scrolls_to_cursor() {
    let mut input = TextInput::new();
    for c in "abcdefgh".chars() {
        input.insert(c);
    }
    let view = input.viewport(4);
    assert_eq!(view.text, "fgh");
    assert_eq!(view.cursor_column, 3);
    let empty = input.viewport(0);
    assert_eq!(empty.text, "");
    assert_eq!(empty.cursor_column, 0);
    while input.left() {}
    let view = input.viewport(4);
    assert_eq!(view.text, "abcd");
    assert_eq!(view.cursor_column, 0);
}

#[test]
fn text_input_renders_and_returns_cursor() {
    let mut input = TextInput::new();
    input.insert('o');
    input.insert('k');
    let mut frame = Frame::new(6, 2);
    let cursor = input.render(&mut frame, Rect::new(1, 1, 4, 1), Style::new());
    assert_eq!(cursor, Some(Position { x: 3, y: 1 }));
    assert_eq!(row(&frame, 1), " ok   ");
    assert_eq!(input.render(&mut frame, Rect::new(0, 0, 0, 1), Style::new()), None);
}

#[test]
fn clip_line_scrolls_with_given_widths() {
    let clusters = vec!["a".to_string(), "\u{4e2d}".to_string(), "b".to_string()];
    let widths = vec![1usize, 2, 1];
    let view = clip_line(&clusters, &widths, 3, 3);
    assert_eq!(view.text, "b");
    assert_eq!(view.cursor_column, 1);
    let view = clip_line(&clusters, &widths, 1, 3);
    assert_eq!(view.text, "a\u{4e2d}");
    assert_eq!(view.cursor_column, 1);
}

#[test]
fn cluster_offsets_and_starts() {
    let clusters = vec!["ab".to_string(), "c".to_string(), "de".to_string()];
    assert_eq!(cluster_char_offset(&clusters, 0), 0);
    assert_eq!(cluster_char_offset(&clusters, 2), 3);
    assert_eq!(cluster_char_offset(&clusters, 9), 5);
    assert_eq!(clusters_starting_before(&clusters, 0), 0);
    assert_eq!(clusters_starting_before(&clusters, 1), 1);
    assert_eq!(clusters_starting_before(&clusters, 3), 2);
    assert_eq!(clusters_starting_before(&clusters, 4), 3);
}

#[test]
fn text_area_lines_and_vertical_motion() {
    let mut area = TextArea::from_text("one\ntwo\nthree");
    assert_eq!(area.cursor(), 13);
    assert!(area.up());
    assert_eq!(area.cursor(), 7);
    assert!(area.up());
    assert_eq!(area.cursor(), 3);
    assert!(!area.up());
    assert!(area.home());
    assert_eq!(area.cursor(), 0);
    assert!(!area.home());
    assert!(area.end());
    assert_eq!(area.cursor(), 3);
    assert!(area.down());
    assert_eq!(area.cursor(), 7);
    assert!(area.down());
    assert_eq!(area.cursor(), 11);
    assert!(!area.down());
}

#[test]
fn text_area_preferred_column_survives_short_lines() {
    let mut area = TextArea::from_text("abcdef\nab\nabcdef");
    assert!(area.up());
    assert!(area.up());
    assert_eq!(area.cursor(), 6);
    assert!(area.down());
    assert_eq!(area.cursor(), 9);
    assert!(area.down());
    assert_eq!(area.cursor(), 16);
}

#[test]
fn text_area_editing_keys() {
    let mut area = TextArea::new();
    assert!(area.handle_key(key(KeyCode::Char('a'))));
    assert!(area.handle_key(key(KeyCode::Enter)));
    assert!(area.handle_key(key(KeyCode::Char('b'))));
    assert_eq!(area.text(), "a\nb");
    assert_eq!(area.cursor(), 3);
    assert!(area.handle_key(key(KeyCode::Backspace)));
    assert!(area.handle_key(key(KeyCode::Backspace)));
    assert_eq!(area.text(), "a");
    assert!(!area.handle_key(key(KeyCode::Tab)));
    area.insert('\n');
    assert_eq!(area.text(), "a\n");
    assert!(area.left());
    assert!(area.delete());
    assert_eq!(area.text(), "a");
    area.clear();
    assert_eq!(area.text(), "");
    assert_eq!(area.cursor(), 0);
}

#[test]
fn text_area_page_keys_use_render_height() {
    let text = (0..10).map(|i| i.to_string()).collect::<Vec<_>>().join("\n");
    let mut area = TextArea::from_text(&text);
    let mut frame = Frame::new(5, 3);
    area.render(&mut frame, Rect::new(0, 0, 5, 3), Style::new());
    assert!(area.page_up());
    assert_eq!(area.cursor(), 13);
    assert!(area.page_down());
    assert_eq!(area.cursor(), 19);
    assert!(!area.page_down());
}

#[test]
fn text_area_render_scrolls_to_cursor() {
    let mut area = TextArea::from_text("a\nb\nc\nd");
    let mut frame = Frame::new(3, 2);
    let cursor = area.render(&mut frame, Rect::new(0, 0, 3, 2), Style::new());
    assert_eq!(cursor, Some(Position { x: 1, y: 1 }));
    assert_eq!(row(&frame, 0), "c  ");
    assert_eq!(row(&frame, 1), "d  ");
    let mut wide = TextArea::from_text("abcdefgh");
    let mut frame = Frame::new(4, 1);
    let cursor = wide.render(&mut frame, Rect::new(0, 0, 4, 1), Style::new());
    assert_eq!(cursor, Some(Position { x: 3, y: 0 }));
    assert_eq!(row(&frame, 0), "fgh ");
    assert_eq!(wide.render(&mut frame, Rect::new(0, 0, 0, 1), Style::new()), None);
}

#[test]
fn ascii_insert_then_backspace_restores_the_input() {
    let mut input = TextInput::new();
    for character in "hello world".chars() {
        input.insert(character);
    }
    input.left();
    input.left();
    input.left();
    let (text, cursor) = (input.text().to_owned(), input.cursor());
    assert_eq!(cursor, 8);
    input.insert('!');
    assert_eq!(input.text(), "hello wo!rld");
    assert_eq!(input.cursor(), 9);
    assert!(input.backspace());
    assert_eq!(input.text(), text);
    assert_eq!(input.cursor(), cursor);

    let mut start = TextInput::new();
    start.insert('a');
    start.left();
    let before = start.text().to_owned();
    assert!(!start.backspace());
    assert_eq!(start.text(), before);
    assert_eq!(start.cursor(), 0);
}
