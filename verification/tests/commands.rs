use vedit::editor::{Editor, Mode};
use vedit::input::{EditorAction, KeyPress};

fn chars(s: &str) -> Vec<char> {
    s.chars().collect()
}

fn text(v: &Vec<char>) -> String {
    v.iter().collect()
}

fn with_lines(lines: &[&str]) -> Editor {
    let mut e = Editor::new(22, 80);
    e.content = lines.iter().map(|s| chars(s)).collect();
    e
}

fn type_command(e: &mut Editor, cmd: &str) {
    assert_eq!(e.handle_key(KeyPress::Char(':')), EditorAction::Continue);
    assert_eq!(e.mode, Mode::Command);
    for c in cmd.chars() {
        assert_eq!(e.handle_key(KeyPress::Char(c)), EditorAction::Continue);
    }
}

#[test]
fn quit_command_returns_quit() {
    let mut e = with_lines(&["x"]);
    type_command(&mut e, "q");
    assert_eq!(e.handle_key(KeyPress::Enter), EditorAction::Quit);
    assert_eq!(e.mode, Mode::Normal);
    assert!(e.command_buffer.is_empty());
    assert!(!e.show_command);
}

#[test]
fn write_command_returns_save() {
    let mut e = with_lines(&["x"]);
    type_command(&mut e, "w");
    assert_eq!(e.handle_key(KeyPress::Enter), EditorAction::Save);
}

#[test]
fn write_quit_command_returns_save_and_quit() {
    let mut e = with_lines(&["x"]);
    type_command(&mut e, "wq");
    assert_eq!(e.handle_key(KeyPress::Enter), EditorAction::SaveAndQuit);
}

#[test]
fn write_with_path_sets_filename_and_saves() {
    let mut e = with_lines(&["x"]);
    type_command(&mut e, "w  notes.txt ");
    assert_eq!(e.handle_key(KeyPress::Enter), EditorAction::Save);
    assert_eq!(e.filename, Some(chars("notes.txt")));
}

#[test]
fn command_is_trimmed_before_dispatch() {
    let mut e = with_lines(&["x"]);
    type_command(&mut e, "  q  ");
    assert_eq!(e.handle_key(KeyPress::Enter), EditorAction::Quit);
}

#[test]
fn unknown_command_sets_status_message() {
    let mut e = with_lines(&["x"]);
    type_command(&mut e, "frobnicate");
    assert_eq!(e.handle_key(KeyPress::Enter), EditorAction::Continue);
    assert_eq!(text(&e.status_msg), "Unknown command: frobnicate");
    assert_eq!(e.mode, Mode::Normal);
}

#[test]
fn escape_cancels_command_and_clears_buffer() {
    let mut e = with_lines(&["x"]);
    type_command(&mut e, "wq");
    assert_eq!(e.handle_key(KeyPress::Esc), EditorAction::Continue);
    assert_eq!(e.mode, Mode::Normal);
    assert!(e.command_buffer.is_empty());
    assert!(!e.show_command);
}

#[test]
fn backspace_pops_command_buffer() {
    let mut e = with_lines(&["x"]);
    type_command(&mut e, "wq");
    e.handle_key(KeyPress::Backspace);
    assert_eq!(e.command_buffer, chars("w"));
    e.handle_key(KeyPress::Backspace);
    e.handle_key(KeyPress::Backspace);
    assert!(e.command_buffer.is_empty());
}

#[test]
fn insert_mode_round_trip() {
    let mut e = with_lines(&[""]);
    assert_eq!(e.handle_key(KeyPress::Char('i')), EditorAction::Continue);
    assert_eq!(e.mode, Mode::Insert);
    e.handle_key(KeyPress::Char('h'));
    e.handle_key(KeyPress::Char('i'));
    e.handle_key(KeyPress::Enter);
    e.handle_key(KeyPress::Char('!'));
    assert_eq!(e.handle_key(KeyPress::Esc), EditorAction::Continue);
    assert_eq!(e.mode, Mode::Normal);
    assert_eq!(e.content, vec![chars("hi"), chars("!")]);
}

#[test]
fn quit_key_only_acts_in_normal_mode() {
    let mut e = with_lines(&[""]);
    assert_eq!(e.handle_key(KeyPress::Char('q')), EditorAction::Quit);
    e.handle_key(KeyPress::Char('i'));
    assert_eq!(e.handle_key(KeyPress::Char('q')), EditorAction::Continue);
    assert_eq!(e.content, vec![chars("q")]);
}

#[test]
fn normal_mode_movement_keys() {
    let mut e = with_lines(&["abc", "def"]);
    e.handle_key(KeyPress::Char('j'));
    assert_eq!(e.cursor_y, 1);
    e.handle_key(KeyPress::Char('l'));
    assert_eq!(e.cursor_x, 1);
    e.handle_key(KeyPress::Char('k'));
    assert_eq!(e.cursor_y, 0);
    e.handle_key(KeyPress::Char('h'));
    assert_eq!(e.cursor_x, 0);
}

#[test]
fn line_start_and_end_keys() {
    let mut e = with_lines(&["abcde"]);
    e.handle_key(KeyPress::Char('$'));
    assert_eq!(e.cursor_x, 5);
    e.handle_key(KeyPress::Char('0'));
    assert_eq!(e.cursor_x, 0);
}

#[test]
fn buffer_start_and_end_keys() {
    let mut e = with_lines(&["abc", "de", "fghi"]);
    e.handle_key(KeyPress::Char('G'));
    assert_eq!((e.cursor_y, e.cursor_x), (2, 4));
    e.handle_key(KeyPress::Char('g'));
    assert_eq!((e.cursor_y, e.cursor_x), (0, 0));
}

#[test]
fn delete_keys_in_normal_mode() {
    let mut e = with_lines(&["abc", "de"]);
    e.handle_key(KeyPress::Char('x'));
    assert_eq!(e.content, vec![chars("bc"), chars("de")]);
    e.handle_key(KeyPress::Char('d'));
    assert_eq!(e.content, vec![chars("de")]);
}

#[test]
fn stub_keys_set_status_messages() {
    let mut e = with_lines(&["x"]);
    e.handle_key(KeyPress::Char('u'));
    assert_eq!(text(&e.status_msg), "Undo not implemented yet");
    e.handle_key(KeyPress::Char('/'));
    assert_eq!(text(&e.status_msg), "Search not implemented yet");
}

#[test]
fn line_number_toggle_key() {
    let mut e = with_lines(&["x"]);
    assert!(e.show_line_numbers);
    e.handle_key(KeyPress::Char('n'));
    assert!(!e.show_line_numbers);
    e.handle_key(KeyPress::Char('n'));
    assert!(e.show_line_numbers);
}

#[test]
fn arrows_move_in_insert_mode() {
    let mut e = with_lines(&["abc"]);
    e.handle_key(KeyPress::Char('i'));
    e.handle_key(KeyPress::Right);
    assert_eq!(e.cursor_x, 1);
    e.handle_key(KeyPress::Left);
    assert_eq!(e.cursor_x, 0);
}

#[test]
fn save_payload_without_filename_sets_status() {
    let mut e = with_lines(&["abc"]);
    assert_eq!(e.save_payload(), None);
    assert_eq!(text(&e.status_msg), "No filename specified. Use :w <filename>");
}

#[test]
fn save_payload_with_filename_serializes() {
    let mut e = with_lines(&["abc", "de"]);
    e.filename = Some(chars("f.txt"));
    let payload = e.save_payload().unwrap();
    assert_eq!(text(&payload), "abc\nde\n");
}

#[test]
fn mark_saved_reports_filename() {
    let mut e = with_lines(&["abc"]);
    e.filename = Some(chars("f.txt"));
    e.mark_saved();
    assert_eq!(text(&e.status_msg), "Saved 'f.txt'");
}

#[test]
fn set_status_overwrites_previous_message() {
    let mut e = with_lines(&["x"]);
    e.set_status("first");
    e.set_status("second");
    assert_eq!(text(&e.status_msg), "second");
}
