use dragons_tui::{Frame, JsonValue, Rect, StructuredData, Style, TreeState, object_path, path_id};

fn row(frame: &Frame, y: u16) -> String {
    let buffer = frame.buffer();
    (0..buffer.width()).map(|x| buffer.get(x, y).unwrap().character).collect()
}

fn sample_document() -> JsonValue {
    JsonValue::Object(vec![
        (
            "a".to_string(),
            JsonValue::Array(vec![
                JsonValue::Number("1".to_string()),
                JsonValue::Object(vec![("b c".to_string(), JsonValue::Null)]),
            ]),
        ),
        ("flag".to_string(), JsonValue::Bool(true)),
        ("name".to_string(), JsonValue::String("x\"y".to_string())),
    ])
}

#[test]
fn path_id_is_fnv1a_of_the_utf8_path() {
    assert_eq!(path_id(""), 0xcbf2_9ce4_8422_2325);
    assert_eq!(path_id("root"), 0xa354_fd1f_f0c4_67c5);
    assert_eq!(path_id("root.a[0]"), 0xbd4c_84e1_437f_d3aa);
}

#[test]
fn object_paths_quote_keys_that_are_not_identifiers() {
    assert_eq!(object_path("root", "key_1"), "root.key_1");
    assert_eq!(object_path("root", "a b"), "root[\"a b\"]");
    assert_eq!(object_path("root", "caf\u{e9}"), "root.caf\u{e9}");
    assert_eq!(object_path("root", ""), "root.");
}

#[test]
fn id_for_path_finds_only_existing_paths() {
    let document = sample_document();
    let data = StructuredData::new(&document);
    assert_eq!(data.id_for_path("root"), Some(path_id("root")));
    assert_eq!(data.id_for_path("root.a"), Some(0xf878_3f24_876f_cd90));
    assert_eq!(data.id_for_path("root.a[1][\"b c\"]"), Some(0xf465_c5b9_99ec_c0b4));
    assert_eq!(data.id_for_path("root.a[2]"), None);
    assert_eq!(data.id_for_path("root.missing"), None);
    assert_eq!(data.id_for_path(""), None);
}

#[test]
fn structured_navigation_uses_path_ids() {
    let document = sample_document();
    let data = StructuredData::new(&document);
    let mut state = TreeState::new();
    assert!(!data.move_down(&mut state));
    assert_eq!(state.selected(), Some(path_id("root")));
    assert!(data.move_right(&mut state));
    assert!(state.is_expanded(path_id("root")));
    assert!(data.move_down(&mut state));
    assert_eq!(state.selected(), Some(path_id("root.a")));
    assert!(data.toggle(&mut state));
    assert!(state.is_expanded(path_id("root.a")));
    assert!(data.move_down(&mut state));
    assert_eq!(state.selected(), Some(path_id("root.a[0]")));
    assert!(data.move_left(&mut state));
    assert_eq!(state.selected(), Some(path_id("root.a")));
    assert!(data.move_up(&mut state));
    assert_eq!(state.selected(), Some(path_id("root")));
}

#[test]
fn structured_render_labels_scalars_with_their_json_text() {
    let document = sample_document();
    let data = StructuredData::new(&document);
    let mut state = TreeState::new();
    state.expand(path_id("root"));
    state.expand(path_id("root.a"));
    let mut frame = Frame::new(20, 7);
    data.render(&mut frame, Rect::new(0, 0, 20, 7), &mut state, Style::new().bold());
    assert_eq!(row(&frame, 0), "\u{25bc} root              ");
    assert_eq!(row(&frame, 1), "  \u{25bc} a               ");
    assert_eq!(row(&frame, 2), "    \u{2022} [0]: 1        ");
    assert_eq!(row(&frame, 3), "    \u{25b6} [1]           ");
    assert_eq!(row(&frame, 4), "  \u{2022} flag: true      ");
    assert_eq!(row(&frame, 5), "  \u{2022} name: \"x\\\"y\"    ");
    assert_eq!(row(&frame, 6), "                    ");
    assert!(frame.buffer().get(0, 0).unwrap().style.attributes.bold);
}
