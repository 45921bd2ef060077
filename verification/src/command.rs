//! Interpretation of the command line typed in Command mode, and the
//! save-preparation helpers that the event loop pairs it with.
//!
//! The core decides what a command means; the surrounding program performs
//! the file writes and the process exit that the returned action asks for.

use vstd::prelude::*;

use crate::editor::Editor;
use crate::input::EditorAction;
use crate::text::{append_chars, str_to_chars, subrange_chars, trim_chars, trim_spec};

verus! {

/// A `w <path>` command: `w`, a space, and a path.
pub open spec fn is_save_as_command(cmd: Seq<char>) -> bool {
    cmd.len() >= 2 && cmd[0] == 'w' && cmd[1] == ' '
}

/// What interpreting the command line does: `q`, `w` and `wq` map to their
/// actions, `w <path>` records the trimmed path as the filename and saves,
/// and anything else reports an unknown command; the command buffer is
/// cleared and the bar returns to status display in every case. Nothing
/// else changes.
pub open spec fn process_command_rel(pre: Editor, post: Editor, act: EditorAction) -> bool {
    let cmd = trim_spec(pre.command_buffer@);
    &&& post.command_buffer@ == Seq::<char>::empty()
    &&& post.show_command == false
    &&& cmd == seq!['q'] ==> act == EditorAction::Quit
    &&& cmd == seq!['w'] ==> act == EditorAction::Save
    &&& cmd == seq!['w', 'q'] ==> act == EditorAction::SaveAndQuit
    &&& is_save_as_command(cmd) ==> act == EditorAction::Save && (post.filename matches Some(f)
        && f@ == trim_spec(cmd.skip(2)))
    &&& !(cmd == seq!['q'] || cmd == seq!['w'] || cmd == seq!['w', 'q'] || is_save_as_command(
        cmd,
    )) ==> act == EditorAction::Continue && post.status_msg@ == "Unknown command: "@ + cmd
    &&& !is_save_as_command(cmd) ==> post.filename == pre.filename
    &&& (cmd == seq!['q'] || cmd == seq!['w'] || cmd == seq!['w', 'q'] || is_save_as_command(
        cmd,
    )) ==> post.status_msg@ == pre.status_msg@
    &&& post == (Editor {
        filename: post.filename,
        status_msg: post.status_msg,
        command_buffer: post.command_buffer,
        show_command: false,
        ..pre
    })
}

impl Editor {
    /// The command line with surrounding whitespace removed, as dispatch
    /// reads it.
    pub open spec fn trimmed_command(self) -> Seq<char> {
        trim_spec(self.command_buffer@)
    }

    /// Interpret the accumulated command line: `q` quits, `w` saves, `wq`
    /// saves and quits, `w <path>` records the path as the filename and
    /// saves, and anything else reports an unknown command. The command
    /// buffer is cleared and the bar returns to status display in every
    /// case.
    pub fn process_command(&mut self) -> (act: EditorAction)
        requires
            old(self).wf(),
        ensures
            final(self).wf(),
            process_command_rel(*old(self), *final(self), act),
    {
        let cmd = trim_chars(&self.command_buffer);
        let act: EditorAction;
        if cmd.len() == 1 && cmd[0] == 'q' {
            proof {
                assert(cmd@ =~= seq!['q']);
            }
            act = EditorAction::Quit;
        } else if cmd.len() == 1 && cmd[0] == 'w' {
            proof {
                assert(cmd@ =~= seq!['w']);
            }
            act = EditorAction::Save;
        } else if cmd.len() == 2 && cmd[0] == 'w' && cmd[1] == 'q' {
            proof {
                assert(cmd@ =~= seq!['w', 'q']);
            }
            act = EditorAction::SaveAndQuit;
        } else if cmd.len() >= 2 && cmd[0] == 'w' && cmd[1] == ' ' {
            let rest = subrange_chars(&cmd, 2, cmd.len());
            proof {
                assert(rest@ =~= cmd@.skip(2));
            }
            let fname = trim_chars(&rest);
            self.filename = Some(fname);
            act = EditorAction::Save;
        } else {
            let mut msg = str_to_chars("Unknown command: ");
            append_chars(&mut msg, &cmd);
            self.status_msg = msg;
            proof {
                assert(cmd@ != seq!['q'] && cmd@ != seq!['w'] && cmd@ != seq!['w', 'q']);
            }
            act = EditorAction::Continue;
        }
        self.command_buffer = Vec::new();
        self.show_command = false;
        act
    }

    /// Prepare a save: with a filename set, hand back the serialized buffer
    /// for the caller to write; without one, report the missing filename in
    /// the status bar and hand back nothing.
    pub fn save_payload(&mut self) -> (r: Option<Vec<char>>)
        requires
            old(self).wf(),
        ensures
            final(self).wf(),
            old(self).filename is Some ==> (r matches Some(payload) && payload@
                == crate::buffer::serialize_spec(old(self).doc())) && *final(self) == *old(self),
            old(self).filename is None ==> r is None && final(self).status_msg@
                == "No filename specified. Use :w <filename>"@ && *final(self) == (Editor {
                status_msg: final(self).status_msg,
                ..*old(self)
            }),
    {
        if self.filename.is_some() {
            let payload = self.serialize();
            Some(payload)
        } else {
            self.set_status("No filename specified. Use :w <filename>");
            None
        }
    }

    /// Record a completed save in the status bar: the filename, quoted.
    pub fn mark_saved(&mut self)
        requires
            old(self).wf(),
            old(self).filename is Some,
        ensures
            final(self).wf(),
            old(self).filename matches Some(f) ==> final(self).status_msg@ == "Saved '"@ + f@
                + seq!['\''],
            *final(self) == (Editor { status_msg: final(self).status_msg, ..*old(self) }),
    {
        let mut msg = str_to_chars("Saved '");
        match &self.filename {
            Some(f) => {
                append_chars(&mut msg, f);
            },
            None => {},
        }
        msg.push('\'');
        self.status_msg = msg;
    }
}

} // verus!
