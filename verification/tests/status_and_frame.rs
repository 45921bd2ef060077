use vedit::editor::{Editor, Mode};
use vedit::render::{truncate_visible, visible_length};

fn chars(s: &str) -> Vec<char> {
    s.chars().collect()
}

fn text(v: &Vec<char>) -> String {
    v.iter().collect()
}

fn with_lines(lines: &[&str]) -> Editor {
    let mut e = Editor::new(22, 80);
    e.content = lines.iter().map(|s| chars(s)).collect();
    e
}

#[test]
fn visible_length_counts_plain_text() {
    assert_eq!(visible_length(&chars("hello")), 5);
    assert_eq!(visible_length(&chars("")), 0);
}

#[test]
fn visible_length_skips_escape_sequences() {
    assert_eq!(visible_length(&chars("\u{1b}[38;5;231mhi\u{1b}[0m")), 2);
    assert_eq!(visible_length(&chars("\u{1b}[0m")), 0);
    assert_eq!(visible_length(&chars("a\u{1b}[49mb")), 2);
}

#[test]
fn truncate_visible_keeps_short_text_unchanged() {
    assert_eq!(text(&truncate_visible(&chars("abc"), 5)), "abc");
}

#[test]
fn truncate_visible_cuts_plain_text_and_resets() {
    assert_eq!(text(&truncate_visible(&chars("abcdef"), 3)), "abc\u{1b}[0m");
}

#[test]
fn truncate_visible_keeps_whole_escape_sequences() {
    let styled = chars("\u{1b}[38;5;220mabcdef");
    let cut = truncate_visible(&styled, 4);
    assert_eq!(text(&cut), "\u{1b}[38;5;220mabcd\u{1b}[0m");
    assert_eq!(visible_length(&cut), 4);
}

#[test]
fn truncate_visible_does_not_duplicate_reset() {
    let styled = chars("ab\u{1b}[0m");
    let cut = truncate_visible(&styled, 2);
    assert_eq!(text(&cut), "ab\u{1b}[0m");
}

#[test]
fn truncate_visible_to_zero_is_only_a_reset() {
    assert_eq!(text(&truncate_visible(&chars("abc"), 0)), "\u{1b}[0m");
}

#[test]
fn status_bar_width_is_exactly_the_terminal_width() {
    let mut e = Editor::new(22, 20);
    e.filename = Some(chars("x"));
    assert_eq!(e.mode, Mode::Normal);
    assert!(e.status_msg.is_empty());
    let bar = e.build_status_bar();
    assert_eq!(visible_length(&bar), 20);
}

#[test]
fn status_bar_width_holds_across_states() {
    for cols in [10, 20, 40, 80] {
        let mut e = Editor::new(22, cols);
        e.filename = Some(chars("some-name.txt"));
        e.set_status("a message that may not fit in the middle");
        let bar = e.build_status_bar();
        assert_eq!(visible_length(&bar), cols, "width {}", cols);
    }
}

#[test]
fn status_bar_shows_filename_mode_and_position() {
    let mut e = with_lines(&["abc", "de"]);
    e.filename = Some(chars("f.txt"));
    e.cursor_y = 1;
    e.cursor_x = 2;
    let bar = text(&e.build_status_bar());
    assert!(bar.contains("f.txt"));
    assert!(bar.contains("NORMAL"));
    assert!(bar.contains("Ln 2/2 Col 3"));
}

#[test]
fn status_bar_without_filename_shows_placeholder() {
    let e = with_lines(&["abc"]);
    let bar = text(&e.build_status_bar());
    assert!(bar.contains("[No Name]"));
}

#[test]
fn status_bar_prefers_message_over_command() {
    let mut e = with_lines(&["abc"]);
    e.set_status("hello there");
    e.show_command = true;
    e.command_buffer = chars("wq");
    let bar = text(&e.build_status_bar());
    assert!(bar.contains("hello there"));
    assert!(!bar.contains(":wq"));
}

#[test]
fn status_bar_echoes_command_line() {
    let mut e = with_lines(&["abc"]);
    e.show_command = true;
    e.command_buffer = chars("w f.txt");
    let bar = text(&e.build_status_bar());
    assert!(bar.contains(":w f.txt"));
}

#[test]
fn frame_has_one_entry_per_content_row() {
    let e = with_lines(&["abc", "de"]);
    let f = e.render();
    assert_eq!(f.rows.len(), 22);
    assert_eq!(f.gutter.len(), 22);
}

#[test]
fn frame_rows_hold_visible_slices() {
    let mut e = with_lines(&["abcdefgh", "xy"]);
    e.screen_cols = 6;
    e.cursor_x = 4;
    e.scroll();
    let f = e.render();
    assert_eq!(f.gutter_width, 1);
    assert_eq!(text(&f.rows[0]), "abcde");
    assert_eq!(text(&f.rows[1]), "xy");
    assert_eq!(text(&f.rows[2]), "");
}

#[test]
fn frame_gutter_numbers_are_right_aligned() {
    let e = with_lines(&["a"; 12]);
    let f = e.render();
    assert_eq!(f.gutter_width, 2);
    assert_eq!(text(&f.gutter[0]), " 1 ");
    assert_eq!(text(&f.gutter[9]), "10 ");
    assert_eq!(text(&f.gutter[11]), "12 ");
    assert_eq!(text(&f.gutter[12]), "");
}

#[test]
fn frame_gutter_disabled_leaves_cells_empty() {
    let mut e = with_lines(&["abc"]);
    e.show_line_numbers = false;
    let f = e.render();
    assert_eq!(f.gutter_width, 0);
    assert_eq!(text(&f.gutter[0]), "");
}

#[test]
fn frame_cursor_cell_accounts_for_gutter() {
    let mut e = with_lines(&["abc", "de"]);
    e.cursor_y = 1;
    e.cursor_x = 2;
    let f = e.render();
    assert_eq!(f.cursor_row, 2);
    assert_eq!(f.cursor_col, 2 + 1 + 2);
}

#[test]
fn frame_cursor_cell_without_gutter() {
    let mut e = with_lines(&["abc"]);
    e.show_line_numbers = false;
    e.cursor_x = 1;
    let f = e.render();
    assert_eq!(f.cursor_row, 1);
    assert_eq!(f.cursor_col, 2);
}

#[test]
fn frame_respects_scrolled_viewport() {
    let mut e = with_lines(&["l01", "l02", "l03", "l04", "l05"]);
    e.screen_rows = 2;
    e.cursor_y = 4;
    e.scroll();
    let f = e.render();
    assert_eq!(text(&f.rows[0]), "l04");
    assert_eq!(text(&f.rows[1]), "l05");
    assert_eq!(f.cursor_row, 2);
}

#[test]
fn frame_status_is_the_status_bar() {
    let e = with_lines(&["abc"]);
    let f = e.render();
    assert_eq!(f.status, e.build_status_bar());
}
