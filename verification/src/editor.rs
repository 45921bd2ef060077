//! The editor state: line buffer, cursor, viewport, mode and status slots.

use vstd::prelude::*;

verus! {

/// The modal-editing state. It decides how an input event is interpreted.
#[derive(Clone, Copy, PartialEq, Eq, Debug)]
pub enum Mode {
    Normal,
    Insert,
    Command,
}

/// Policy for backspace: plain single-character removal, or a 4-space
/// un-indent when the four characters before the cursor are all spaces.
#[derive(Clone, Copy, PartialEq, Eq, Debug)]
pub enum BackspaceMode {
    Simple,
    SmartIndent,
}

/// The whole editor state. `content` is the line buffer (never empty),
/// `(cursor_y, cursor_x)` the cursor, `(offset_y, offset_x)` the scroll
/// offsets of the viewport, and `(screen_rows, screen_cols)` the size of the
/// content area (the terminal minus the two status rows).
pub struct Editor {
    pub content: Vec<Vec<char>>,
    pub cursor_x: usize,
    pub cursor_y: usize,
    pub mode: Mode,
    pub status_msg: Vec<char>,
    pub filename: Option<Vec<char>>,
    pub offset_y: usize,
    pub offset_x: usize,
    pub screen_rows: usize,
    pub screen_cols: usize,
    pub command_buffer: Vec<char>,
    pub show_command: bool,
    pub tabbed: bool,
    pub show_line_numbers: bool,
    pub backspace_mode: BackspaceMode,
}

impl Editor {
    /// The mathematical document: the buffer as a sequence of lines of characters.
    pub open spec fn doc(self) -> Seq<Seq<char>> {
        Seq::new(self.content@.len(), |i: int| self.content@[i]@)
    }

    /// Length of the line the cursor is on.
    pub open spec fn cur_line_len(self) -> int {
        self.content@[self.cursor_y as int]@.len() as int
    }

    /// Well-formedness: the buffer holds at least one line, the cursor
    /// designates a valid position (column may equal the line length: the
    /// end-of-line insertion point), and the content area is not degenerate.
    /// Terminal sizes arrive as 16-bit values, so the content area is
    /// bounded accordingly.
    pub open spec fn wf(self) -> bool {
        &&& self.content@.len() >= 1
        &&& (self.cursor_y as int) < self.content@.len()
        &&& self.cursor_x as int <= self.cur_line_len()
        &&& 1 <= self.screen_rows <= 0xFFFF
        &&& 1 <= self.screen_cols <= 0xFFFF
    }

    /// A fresh editor over a single empty line, in Normal mode, with the
    /// given content-area size.
    pub fn new(screen_rows: usize, screen_cols: usize) -> (e: Editor)
        requires
            1 <= screen_rows <= 0xFFFF,
            1 <= screen_cols <= 0xFFFF,
        ensures
            e.wf(),
            e.doc() =~= seq![Seq::<char>::empty()],
            e.cursor_x == 0,
            e.cursor_y == 0,
            e.mode == Mode::Normal,
            e.status_msg@ =~= Seq::<char>::empty(),
            e.filename is None,
            e.offset_y == 0,
            e.offset_x == 0,
            e.screen_rows == screen_rows,
            e.screen_cols == screen_cols,
            e.command_buffer@ =~= Seq::<char>::empty(),
            e.show_command == false,
            e.tabbed == false,
            e.show_line_numbers == true,
            e.backspace_mode == BackspaceMode::Simple,
    {
        let mut content: Vec<Vec<char>> = Vec::new();
        content.push(Vec::new());
        Editor {
            content,
            cursor_x: 0,
            cursor_y: 0,
            mode: Mode::Normal,
            status_msg: Vec::new(),
            filename: None,
            offset_y: 0,
            offset_x: 0,
            screen_rows,
            screen_cols,
            command_buffer: Vec::new(),
            show_command: false,
            tabbed: false,
            show_line_numbers: true,
            backspace_mode: BackspaceMode::Simple,
        }
    }

    /// Replace the status message. The newest message overwrites the previous.
    pub fn set_status(&mut self, msg: &str)
        ensures
            final(self).status_msg@ == msg@,
            *final(self) == (Editor { status_msg: final(self).status_msg, ..*old(self) }),
    {
        self.status_msg = crate::text::str_to_chars(msg);
    }
}

impl Default for Editor {
    /// A fresh editor over a conventional 80x24 terminal: 22 content rows
    /// and 80 columns.
    fn default() -> (e: Editor)
        ensures
            e.wf(),
            e.doc() =~= seq![Seq::<char>::empty()],
            e.cursor_x == 0,
            e.cursor_y == 0,
            e.mode == Mode::Normal,
            e.status_msg@ =~= Seq::<char>::empty(),
            e.filename is None,
            e.offset_y == 0,
            e.offset_x == 0,
            e.screen_rows == 22,
            e.screen_cols == 80,
            e.command_buffer@ =~= Seq::<char>::empty(),
            e.show_command == false,
            e.tabbed == false,
            e.show_line_numbers == true,
            e.backspace_mode == BackspaceMode::Simple,
    {
        Editor::new(22, 80)
    }
}

} // verus!
