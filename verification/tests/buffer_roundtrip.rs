use vedit::editor::Editor;

fn chars(s: &str) -> Vec<char> {
    s.chars().collect()
}

fn text(v: &Vec<char>) -> String {
    v.iter().collect()
}

fn fresh() -> Editor {
    Editor::new(22, 80)
}

#[test]
fn load_splits_on_newlines() {
    let mut e = fresh();
    e.load(&chars("abc\nde"));
    assert_eq!(e.content, vec![chars("abc"), chars("de")]);
    assert_eq!(e.cursor_x, 0);
    assert_eq!(e.cursor_y, 0);
}

#[test]
fn load_trailing_newline_ends_last_line() {
    let mut e = fresh();
    e.load(&chars("abc\nde\n"));
    assert_eq!(e.content, vec![chars("abc"), chars("de")]);
}

#[test]
fn load_empty_text_gives_one_empty_line() {
    let mut e = fresh();
    e.load(&chars(""));
    assert_eq!(e.content, vec![chars("")]);
}

#[test]
fn load_lone_newline_gives_one_empty_line() {
    let mut e = fresh();
    e.load(&chars("\n"));
    assert_eq!(e.content, vec![chars("")]);
}

#[test]
fn load_keeps_interior_empty_lines() {
    let mut e = fresh();
    e.load(&chars("a\n\nb"));
    assert_eq!(e.content, vec![chars("a"), chars(""), chars("b")]);
}

#[test]
fn serialize_appends_missing_newline() {
    let mut e = fresh();
    e.load(&chars("abc\nde"));
    assert_eq!(text(&e.serialize()), "abc\nde\n");
}

#[test]
fn serialize_keeps_single_trailing_newline() {
    let mut e = fresh();
    e.load(&chars("abc\nde\n"));
    assert_eq!(text(&e.serialize()), "abc\nde\n");
}

#[test]
fn serialize_of_fresh_editor_is_one_newline() {
    let e = fresh();
    assert_eq!(text(&e.serialize()), "\n");
}

#[test]
fn round_trip_without_trailing_newline() {
    let mut e = fresh();
    let input = "one\ntwo\nthree";
    e.load(&chars(input));
    assert_eq!(text(&e.serialize()), format!("{}\n", input));
}

#[test]
fn round_trip_with_trailing_newline() {
    let mut e = fresh();
    let input = "one\ntwo\nthree\n";
    e.load(&chars(input));
    assert_eq!(text(&e.serialize()), input);
}

#[test]
fn round_trip_interior_blank_lines() {
    let mut e = fresh();
    let input = "a\n\n\nb\n";
    e.load(&chars(input));
    assert_eq!(text(&e.serialize()), input);
}

#[test]
fn read_accessors_report_the_buffer() {
    let mut e = fresh();
    e.load(&chars("abc\nde"));
    assert_eq!(e.line_count(), 2);
    assert_eq!(e.line_len(0), 3);
    assert_eq!(e.line_len(1), 2);
    assert_eq!(e.line_text(0), chars("abc"));
    assert_eq!(e.line_text(1), chars("de"));
}

#[test]
fn remove_line_deletes_and_clamps_cursor() {
    let mut e = fresh();
    e.load(&chars("abc\nde\nfghi"));
    e.cursor_y = 2;
    e.cursor_x = 4;
    e.remove_line(2);
    assert_eq!(e.content, vec![chars("abc"), chars("de")]);
    assert_eq!((e.cursor_y, e.cursor_x), (1, 2));
}

#[test]
fn remove_line_refuses_on_last_line() {
    let mut e = fresh();
    e.load(&chars("abc"));
    e.cursor_x = 1;
    e.remove_line(0);
    assert_eq!(e.content, vec![chars("abc")]);
    assert_eq!((e.cursor_y, e.cursor_x), (0, 1));
}

#[test]
fn default_editor_is_a_fresh_80_column_view() {
    let e = Editor::default();
    assert_eq!(e.content, vec![chars("")]);
    assert_eq!((e.screen_rows, e.screen_cols), (22, 80));
    assert_eq!((e.cursor_y, e.cursor_x), (0, 0));
}

#[test]
fn buffer_never_empty_after_any_load() {
    for input in ["", "\n", "x", "x\n", "\n\n"] {
        let mut e = fresh();
        e.load(&chars(input));
        assert!(e.content.len() >= 1);
    }
}
