//! Mode-routed key dispatch: the decision core of the event loop.
//!
//! One key event goes in, the editor state changes as the mode dictates, and
//! an action comes back telling the surrounding loop what it must perform:
//! keep going, save, or quit. The loop itself — reading events, writing
//! files, leaving the terminal — stays outside the core.

use vstd::prelude::*;

use crate::command::process_command_rel;
use crate::cursor::{
    delete_char_rel, delete_forward_rel, delete_line_rel, insert_char_rel, insert_newline_rel,
    move_cursor_spec,
};
use crate::editor::{Editor, Mode};
use crate::input::{EditorAction, KeyPress};

verus! {

/// A character with a Normal-mode binding of its own.
pub open spec fn is_normal_command_char(c: char) -> bool {
    c == 'q' || c == ':' || c == 'i' || c == 'n' || c == 'h' || c == 'j' || c == 'k' || c == 'l'
        || c == '0' || c == '$' || c == 'G' || c == 'g' || c == 'x' || c == 'd' || c == 'u'
        || c == '/'
}

impl Editor {
    /// Apply one key event according to the current mode and hand back the
    /// action the event loop must perform. In Normal mode single characters
    /// run movement and editing commands (`u` and `/` only report that they
    /// are not implemented); in Insert mode characters are inserted; in
    /// Command mode they accumulate in the command line until Enter
    /// dispatches it. Arrow keys move the cursor in every mode; Esc always
    /// returns to Normal mode.
    pub fn handle_key(&mut self, key: KeyPress) -> (act: EditorAction)
        requires
            old(self).wf(),
        ensures
            final(self).wf(),
            old(self).mode == Mode::Normal && key == KeyPress::Char('q') ==> act
                == EditorAction::Quit && *final(self) == *old(self),
            old(self).mode == Mode::Normal && key == KeyPress::Char(':') ==> final(self).command_buffer@ == Seq::<char>::empty() && *final(self) == (Editor {
                mode: Mode::Command,
                show_command: true,
                command_buffer: final(self).command_buffer,
                ..*old(self)
            }),
            old(self).mode == Mode::Normal && key == KeyPress::Char('i') ==> *final(self) == (
            Editor { mode: Mode::Insert, ..*old(self) }),
            old(self).mode == Mode::Normal && key == KeyPress::Char('n') ==> *final(self) == (
            Editor { show_line_numbers: !old(self).show_line_numbers, ..*old(self) }),
            old(self).mode == Mode::Normal && key == KeyPress::Char('h') ==> *final(self)
                == move_cursor_spec(*old(self), KeyPress::Left),
            old(self).mode == Mode::Normal && key == KeyPress::Char('j') ==> *final(self)
                == move_cursor_spec(*old(self), KeyPress::Down),
            old(self).mode == Mode::Normal && key == KeyPress::Char('k') ==> *final(self)
                == move_cursor_spec(*old(self), KeyPress::Up),
            old(self).mode == Mode::Normal && key == KeyPress::Char('l') ==> *final(self)
                == move_cursor_spec(*old(self), KeyPress::Right),
            old(self).mode == Mode::Normal && key == KeyPress::Char('0') ==> *final(self) == (
            Editor { cursor_x: 0, ..*old(self) }),
            old(self).mode == Mode::Normal && key == KeyPress::Char('$') ==> final(self).cursor_x as int == old(self).cur_line_len() && *final(self) == (Editor {
                cursor_x: final(self).cursor_x,
                ..*old(self)
            }),
            old(self).mode == Mode::Normal && key == KeyPress::Char('G') ==> final(self).cursor_y as int == old(self).content@.len() - 1 && final(self).cursor_x as int == old(self).doc()[old(self).content@.len() - 1].len() && *final(self) == (Editor {
                cursor_x: final(self).cursor_x,
                cursor_y: final(self).cursor_y,
                ..*old(self)
            }),
            old(self).mode == Mode::Normal && key == KeyPress::Char('g') ==> *final(self) == (
            Editor { cursor_x: 0, cursor_y: 0, ..*old(self) }),
            old(self).mode == Mode::Normal && key == KeyPress::Char('x') ==> delete_forward_rel(
                *old(self),
                *final(self),
            ),
            old(self).mode == Mode::Normal && key == KeyPress::Char('d') ==> delete_line_rel(
                *old(self),
                *final(self),
            ),
            old(self).mode == Mode::Normal && key == KeyPress::Char('u') ==> final(self).status_msg@ == "Undo not implemented yet"@ && *final(self) == (Editor {
                status_msg: final(self).status_msg,
                ..*old(self)
            }),
            old(self).mode == Mode::Normal && key == KeyPress::Char('/') ==> final(self).status_msg@ == "Search not implemented yet"@ && *final(self) == (Editor {
                status_msg: final(self).status_msg,
                ..*old(self)
            }),
            old(self).mode == Mode::Normal && (key matches KeyPress::Char(c)
                && !is_normal_command_char(c)) ==> *final(self) == *old(self),
            old(self).mode == Mode::Normal && (key == KeyPress::Backspace || key == KeyPress::Enter)
                ==> *final(self) == *old(self),
            key == KeyPress::Esc && old(self).mode == Mode::Command ==> final(self).command_buffer@
                == Seq::<char>::empty() && *final(self) == (Editor {
                mode: Mode::Normal,
                show_command: false,
                command_buffer: final(self).command_buffer,
                ..*old(self)
            }),
            key == KeyPress::Esc && old(self).mode != Mode::Command ==> *final(self) == (Editor {
                mode: Mode::Normal,
                ..*old(self)
            }),
            key matches KeyPress::Char(c) ==> (old(self).mode == Mode::Insert ==> insert_char_rel(
                *old(self),
                *final(self),
                c,
            )),
            old(self).mode == Mode::Insert && key == KeyPress::Backspace ==> delete_char_rel(
                *old(self),
                *final(self),
            ),
            old(self).mode == Mode::Insert && key == KeyPress::Enter ==> insert_newline_rel(
                *old(self),
                *final(self),
            ),
            key matches KeyPress::Char(c) ==> (old(self).mode == Mode::Command ==> final(self).command_buffer@ == old(self).command_buffer@.push(c) && *final(self) == (Editor {
                command_buffer: final(self).command_buffer,
                ..*old(self)
            })),
            old(self).mode == Mode::Command && key == KeyPress::Backspace ==> final(self).command_buffer@ == (if old(self).command_buffer@.len() > 0 {
                old(self).command_buffer@.drop_last()
            } else {
                old(self).command_buffer@
            }) && *final(self) == (Editor {
                command_buffer: final(self).command_buffer,
                ..*old(self)
            }),
            old(self).mode == Mode::Command && key == KeyPress::Enter ==> process_command_rel(
                *old(self),
                (Editor { mode: Mode::Command, ..*final(self) }),
                act,
            ) && final(self).mode == Mode::Normal,
            key == KeyPress::Up || key == KeyPress::Down || key == KeyPress::Left || key
                == KeyPress::Right ==> *final(self) == move_cursor_spec(*old(self), key),
            !(old(self).mode == Mode::Normal && key == KeyPress::Char('q')) && !(old(self).mode
                == Mode::Command && key == KeyPress::Enter) ==> act == EditorAction::Continue,
    {
        match key {
            KeyPress::Esc => {
                if matches!(self.mode, Mode::Command) {
                    self.command_buffer = Vec::new();
                    self.show_command = false;
                }
                self.mode = Mode::Normal;
                EditorAction::Continue
            },
            KeyPress::Up | KeyPress::Down | KeyPress::Left | KeyPress::Right => {
                self.move_cursor(key);
                EditorAction::Continue
            },
            KeyPress::Backspace => {
                match self.mode {
                    Mode::Insert => {
                        self.delete_char();
                    },
                    Mode::Command => {
                        self.command_buffer.pop();
                    },
                    Mode::Normal => {},
                }
                EditorAction::Continue
            },
            KeyPress::Enter => {
                match self.mode {
                    Mode::Insert => {
                        self.insert_newline();
                        EditorAction::Continue
                    },
                    Mode::Command => {
                        let act = self.process_command();
                        self.mode = Mode::Normal;
                        act
                    },
                    Mode::Normal => EditorAction::Continue,
                }
            },
            KeyPress::Char(c) => {
                match self.mode {
                    Mode::Insert => {
                        self.insert_char(c);
                        EditorAction::Continue
                    },
                    Mode::Command => {
                        self.command_buffer.push(c);
                        EditorAction::Continue
                    },
                    Mode::Normal => {
                        match c {
                            'q' => EditorAction::Quit,
                            ':' => {
                                self.mode = Mode::Command;
                                self.show_command = true;
                                self.command_buffer = Vec::new();
                                EditorAction::Continue
                            },
                            'i' => {
                                self.mode = Mode::Insert;
                                EditorAction::Continue
                            },
                            'n' => {
                                self.show_line_numbers = !self.show_line_numbers;
                                EditorAction::Continue
                            },
                            'h' => {
                                self.move_cursor(KeyPress::Left);
                                EditorAction::Continue
                            },
                            'j' => {
                                self.move_cursor(KeyPress::Down);
                                EditorAction::Continue
                            },
                            'k' => {
                                self.move_cursor(KeyPress::Up);
                                EditorAction::Continue
                            },
                            'l' => {
                                self.move_cursor(KeyPress::Right);
                                EditorAction::Continue
                            },
                            '0' => {
                                self.move_to_line_start();
                                EditorAction::Continue
                            },
                            '$' => {
                                self.move_to_line_end();
                                EditorAction::Continue
                            },
                            'G' => {
                                self.move_to_buffer_end();
                                EditorAction::Continue
                            },
                            'g' => {
                                self.move_to_buffer_start();
                                EditorAction::Continue
                            },
                            'x' => {
                                self.delete_char_forward();
                                EditorAction::Continue
                            },
                            'd' => {
                                self.delete_line();
                                EditorAction::Continue
                            },
                            'u' => {
                                self.set_status("Undo not implemented yet");
                                EditorAction::Continue
                            },
                            '/' => {
                                self.set_status("Search not implemented yet");
                                EditorAction::Continue
                            },
                            _ => EditorAction::Continue,
                        }
                    },
                }
            },
        }
    }
}

} // verus!
