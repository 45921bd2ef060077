use vedit::editor::Editor;
use vedit::input::{KeyPress, MouseInput};

fn chars(s: &str) -> Vec<char> {
    s.chars().collect()
}

fn with_lines(lines: &[&str]) -> Editor {
    let mut e = Editor::new(22, 80);
    e.content = lines.iter().map(|s| chars(s)).collect();
    e
}

#[test]
fn move_up_at_first_row_is_a_no_op() {
    let mut e = with_lines(&["abc", "de"]);
    e.move_cursor(KeyPress::Up);
    assert_eq!((e.cursor_y, e.cursor_x), (0, 0));
}

#[test]
fn move_down_at_last_row_is_a_no_op() {
    let mut e = with_lines(&["abc", "de"]);
    e.cursor_y = 1;
    e.cursor_x = 1;
    e.move_cursor(KeyPress::Down);
    assert_eq!((e.cursor_y, e.cursor_x), (1, 1));
}

#[test]
fn move_right_at_end_of_last_line_stays() {
    let mut e = with_lines(&["ab"]);
    e.cursor_x = 2;
    e.move_cursor(KeyPress::Right);
    assert_eq!((e.cursor_y, e.cursor_x), (0, 2));
}

#[test]
fn move_right_at_end_of_line_wraps_to_next() {
    let mut e = with_lines(&["ab", "cd"]);
    e.cursor_x = 2;
    e.move_cursor(KeyPress::Right);
    assert_eq!((e.cursor_y, e.cursor_x), (1, 0));
}

#[test]
fn move_left_at_column_zero_wraps_to_end_of_previous_line() {
    let mut e = with_lines(&["abc", "de"]);
    e.cursor_y = 1;
    e.cursor_x = 0;
    e.move_cursor(KeyPress::Left);
    assert_eq!((e.cursor_y, e.cursor_x), (0, 3));
}

#[test]
fn move_left_at_document_start_is_a_no_op() {
    let mut e = with_lines(&["abc"]);
    e.move_cursor(KeyPress::Left);
    assert_eq!((e.cursor_y, e.cursor_x), (0, 0));
}

#[test]
fn vertical_move_snaps_column_to_shorter_line() {
    let mut e = with_lines(&["abcdef", "xy"]);
    e.cursor_x = 6;
    e.move_cursor(KeyPress::Down);
    assert_eq!((e.cursor_y, e.cursor_x), (1, 2));
}

#[test]
fn cursor_always_within_line_after_moves() {
    let mut e = with_lines(&["abcd", "", "xy"]);
    let moves = [
        KeyPress::Down,
        KeyPress::Down,
        KeyPress::Right,
        KeyPress::Right,
        KeyPress::Up,
        KeyPress::Left,
        KeyPress::Down,
        KeyPress::Up,
        KeyPress::Up,
    ];
    for m in moves {
        e.move_cursor(m);
        assert!(e.cursor_y < e.content.len());
        assert!(e.cursor_x <= e.content[e.cursor_y].len());
    }
}

#[test]
fn scroll_moves_offset_up_to_cursor() {
    let mut e = with_lines(&["a"; 50]);
    e.offset_y = 10;
    e.cursor_y = 3;
    e.scroll();
    assert_eq!(e.offset_y, 3);
}

#[test]
fn scroll_moves_offset_down_minimally() {
    let mut e = with_lines(&["a"; 50]);
    e.cursor_y = 30;
    e.scroll();
    assert_eq!(e.offset_y, 30 - 22 + 1);
}

#[test]
fn scroll_leaves_offset_when_cursor_visible() {
    let mut e = with_lines(&["a"; 50]);
    e.offset_y = 5;
    e.cursor_y = 10;
    e.scroll();
    assert_eq!(e.offset_y, 5);
}

#[test]
fn scroll_twice_gives_same_offsets() {
    let mut e = with_lines(&["abcdefghijklmnopqrstuvwxyz"; 60]);
    e.cursor_y = 44;
    e.cursor_x = 25;
    e.screen_cols = 10;
    e.scroll();
    let once = (e.offset_y, e.offset_x);
    e.scroll();
    assert_eq!((e.offset_y, e.offset_x), once);
}

#[test]
fn scroll_horizontal_follows_cursor() {
    let mut e = with_lines(&["abcdefghijklmnop"]);
    e.screen_cols = 5;
    e.cursor_x = 9;
    e.scroll();
    assert_eq!(e.offset_x, 9 - 5 + 1);
    e.cursor_x = 2;
    e.scroll();
    assert_eq!(e.offset_x, 2);
}

#[test]
fn mouse_scroll_up_is_three_moves_up() {
    let mut e = with_lines(&["a", "b", "c", "d", "e"]);
    e.cursor_y = 4;
    e.handle_mouse_event(MouseInput::ScrollUp);
    assert_eq!(e.cursor_y, 1);
}

#[test]
fn mouse_scroll_down_is_three_moves_down() {
    let mut e = with_lines(&["a", "b", "c", "d", "e"]);
    e.handle_mouse_event(MouseInput::ScrollDown);
    assert_eq!(e.cursor_y, 3);
}

#[test]
fn mouse_scroll_down_clamps_at_last_row() {
    let mut e = with_lines(&["a", "b"]);
    e.handle_mouse_event(MouseInput::ScrollDown);
    assert_eq!(e.cursor_y, 1);
}

#[test]
fn other_mouse_events_are_ignored() {
    let mut e = with_lines(&["a", "b"]);
    e.cursor_y = 1;
    e.handle_mouse_event(MouseInput::Other);
    assert_eq!((e.cursor_y, e.cursor_x), (1, 0));
}

#[test]
fn move_to_line_start_and_end() {
    let mut e = with_lines(&["abcde"]);
    e.move_to_line_end();
    assert_eq!(e.cursor_x, 5);
    e.move_to_line_start();
    assert_eq!(e.cursor_x, 0);
}

#[test]
fn move_to_buffer_start_and_end() {
    let mut e = with_lines(&["abc", "de", "fghi"]);
    e.move_to_buffer_end();
    assert_eq!((e.cursor_y, e.cursor_x), (2, 4));
    e.move_to_buffer_start();
    assert_eq!((e.cursor_y, e.cursor_x), (0, 0));
}

#[test]
fn jump_to_line_moves_to_line_start() {
    let mut e = with_lines(&["abc", "def", "ghi"]);
    e.cursor_x = 2;
    e.jump_to_line(3);
    assert_eq!((e.cursor_y, e.cursor_x), (2, 0));
}

#[test]
fn jump_to_line_out_of_range_is_a_no_op() {
    let mut e = with_lines(&["abc", "def"]);
    e.cursor_x = 2;
    e.jump_to_line(0);
    assert_eq!((e.cursor_y, e.cursor_x), (0, 2));
    e.jump_to_line(3);
    assert_eq!((e.cursor_y, e.cursor_x), (0, 2));
}
