use vedit::editor::{BackspaceMode, Editor};

fn chars(s: &str) -> Vec<char> {
    s.chars().collect()
}

fn with_lines(lines: &[&str]) -> Editor {
    let mut e = Editor::new(22, 80);
    e.content = lines.iter().map(|s| chars(s)).collect();
    e
}

#[test]
fn insert_char_advances_column() {
    let mut e = with_lines(&["ac"]);
    e.cursor_x = 1;
    e.insert_char('b');
    assert_eq!(e.content, vec![chars("abc")]);
    assert_eq!(e.cursor_x, 2);
    assert!(!e.tabbed);
}

#[test]
fn insert_tab_expands_to_four_spaces() {
    let mut e = with_lines(&["ab"]);
    e.cursor_x = 1;
    let before = e.cursor_x;
    e.insert_char('\t');
    assert_eq!(e.content, vec![chars("a    b")]);
    assert_eq!(e.cursor_x, before + 4);
    assert!(e.tabbed);
}

#[test]
fn insert_after_tab_clears_tabbed_flag() {
    let mut e = with_lines(&[""]);
    e.insert_char('\t');
    assert!(e.tabbed);
    e.insert_char('x');
    assert!(!e.tabbed);
}

#[test]
fn delete_char_at_document_start_is_a_no_op() {
    let mut e = with_lines(&["abc", "de"]);
    e.delete_char();
    assert_eq!(e.content, vec![chars("abc"), chars("de")]);
    assert_eq!((e.cursor_y, e.cursor_x), (0, 0));
}

#[test]
fn delete_char_removes_before_cursor() {
    let mut e = with_lines(&["abc"]);
    e.cursor_x = 2;
    e.delete_char();
    assert_eq!(e.content, vec![chars("ac")]);
    assert_eq!(e.cursor_x, 1);
}

#[test]
fn delete_char_at_line_start_joins_lines() {
    let mut e = with_lines(&["abc", "de"]);
    e.cursor_y = 1;
    e.cursor_x = 0;
    e.delete_char();
    assert_eq!(e.content, vec![chars("abcde")]);
    assert_eq!((e.cursor_y, e.cursor_x), (0, 3));
}

#[test]
fn simple_backspace_removes_one_space_of_indent() {
    let mut e = with_lines(&["    x"]);
    e.cursor_x = 4;
    e.delete_char();
    assert_eq!(e.content, vec![chars("   x")]);
    assert_eq!(e.cursor_x, 3);
}

#[test]
fn smart_backspace_removes_four_space_indent() {
    let mut e = with_lines(&["    x"]);
    e.backspace_mode = BackspaceMode::SmartIndent;
    e.cursor_x = 4;
    e.delete_char();
    assert_eq!(e.content, vec![chars("x")]);
    assert_eq!(e.cursor_x, 0);
}

#[test]
fn smart_backspace_falls_back_when_not_all_spaces() {
    let mut e = with_lines(&["ab  "]);
    e.backspace_mode = BackspaceMode::SmartIndent;
    e.cursor_x = 4;
    e.delete_char();
    assert_eq!(e.content, vec![chars("ab ")]);
    assert_eq!(e.cursor_x, 3);
}

#[test]
fn smart_backspace_needs_four_preceding_spaces() {
    let mut e = with_lines(&["   x"]);
    e.backspace_mode = BackspaceMode::SmartIndent;
    e.cursor_x = 3;
    e.delete_char();
    assert_eq!(e.content, vec![chars("  x")]);
    assert_eq!(e.cursor_x, 2);
}

#[test]
fn insert_newline_splits_line_at_cursor() {
    let mut e = with_lines(&["abc", "de"]);
    e.cursor_x = 3;
    e.insert_newline();
    assert_eq!(e.content, vec![chars("abc"), chars(""), chars("de")]);
    assert_eq!((e.cursor_y, e.cursor_x), (1, 0));
}

#[test]
fn insert_newline_in_middle_of_line() {
    let mut e = with_lines(&["abcd"]);
    e.cursor_x = 2;
    e.insert_newline();
    assert_eq!(e.content, vec![chars("ab"), chars("cd")]);
    assert_eq!((e.cursor_y, e.cursor_x), (1, 0));
}

#[test]
fn delete_char_forward_removes_under_cursor() {
    let mut e = with_lines(&["abc"]);
    e.cursor_x = 1;
    e.delete_char_forward();
    assert_eq!(e.content, vec![chars("ac")]);
    assert_eq!(e.cursor_x, 1);
}

#[test]
fn delete_char_forward_at_line_end_is_a_no_op() {
    let mut e = with_lines(&["abc"]);
    e.cursor_x = 3;
    e.delete_char_forward();
    assert_eq!(e.content, vec![chars("abc")]);
}

#[test]
fn delete_line_removes_current_line() {
    let mut e = with_lines(&["abc", "def", "ghi"]);
    e.cursor_y = 1;
    e.cursor_x = 2;
    e.delete_line();
    assert_eq!(e.content, vec![chars("abc"), chars("ghi")]);
    assert_eq!((e.cursor_y, e.cursor_x), (1, 0));
}

#[test]
fn delete_line_clamps_cursor_to_last_row() {
    let mut e = with_lines(&["abc", "def"]);
    e.cursor_y = 1;
    e.delete_line();
    assert_eq!(e.content, vec![chars("abc")]);
    assert_eq!((e.cursor_y, e.cursor_x), (0, 0));
}

#[test]
fn delete_line_on_single_line_document_is_a_no_op() {
    let mut e = with_lines(&["abc"]);
    e.cursor_x = 2;
    e.delete_line();
    assert_eq!(e.content, vec![chars("abc")]);
    assert_eq!((e.cursor_y, e.cursor_x), (0, 2));
}

#[test]
fn buffer_stays_nonempty_through_edits() {
    let mut e = with_lines(&["ab"]);
    e.delete_line();
    e.cursor_x = 2;
    e.delete_char();
    e.delete_char();
    e.delete_char();
    assert!(e.content.len() >= 1);
    e.delete_line();
    assert!(e.content.len() >= 1);
}
