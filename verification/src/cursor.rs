//! Cursor movement, viewport reconciliation, and the editing operations that
//! mutate the line buffer. Every operation preserves well-formedness: the
//! buffer keeps at least one line and the cursor keeps designating a valid
//! position.

use vstd::prelude::*;

use crate::editor::{BackspaceMode, Editor};
use crate::input::{KeyPress, MouseInput};

verus! {

/// Length of line `row` of the buffer.
pub open spec fn line_len_at(e: Editor, row: int) -> int {
    e.content@[row]@.len() as int
}

/// The line-length-adaptation rule: after a move the column snaps to the end
/// of the (possibly shorter) target line.
pub open spec fn clamp_col_spec(e: Editor) -> Editor {
    if e.cursor_x as int > line_len_at(e, e.cursor_y as int) {
        Editor { cursor_x: line_len_at(e, e.cursor_y as int) as usize, ..e }
    } else {
        e
    }
}

/// One cursor step, before column clamping. Up and Down change the row,
/// clamped at the buffer boundaries; Left at column zero wraps to the end of
/// the previous line; Right at end-of-line wraps to the start of the next.
/// Keys other than the four arrows leave the cursor alone.
pub open spec fn step_cursor(e: Editor, key: KeyPress) -> Editor {
    match key {
        KeyPress::Up => {
            if e.cursor_y > 0 {
                Editor { cursor_y: (e.cursor_y - 1) as usize, ..e }
            } else {
                e
            }
        },
        KeyPress::Down => {
            if (e.cursor_y as int) < e.content@.len() - 1 {
                Editor { cursor_y: (e.cursor_y + 1) as usize, ..e }
            } else {
                e
            }
        },
        KeyPress::Left => {
            if e.cursor_x > 0 {
                Editor { cursor_x: (e.cursor_x - 1) as usize, ..e }
            } else if e.cursor_y > 0 {
                Editor {
                    cursor_y: (e.cursor_y - 1) as usize,
                    cursor_x: line_len_at(e, e.cursor_y - 1) as usize,
                    ..e
                }
            } else {
                e
            }
        },
        KeyPress::Right => {
            if (e.cursor_x as int) < line_len_at(e, e.cursor_y as int) {
                Editor { cursor_x: (e.cursor_x + 1) as usize, ..e }
            } else if (e.cursor_y as int) < e.content@.len() - 1 {
                Editor { cursor_y: (e.cursor_y + 1) as usize, cursor_x: 0, ..e }
            } else {
                e
            }
        },
        _ => e,
    }
}

/// A full cursor move: one step, then column clamping.
pub open spec fn move_cursor_spec(e: Editor, key: KeyPress) -> Editor {
    clamp_col_spec(step_cursor(e, key))
}

/// A mouse-wheel step: three successive cursor moves in the same direction.
pub open spec fn scroll_step_spec(e: Editor, key: KeyPress) -> Editor {
    move_cursor_spec(move_cursor_spec(move_cursor_spec(e, key), key), key)
}

/// The minimal-shift rule for one axis: an offset moves only when the cursor
/// has left the window, and then exactly far enough to show it again.
pub open spec fn scrolled_offset(cursor: int, offset: int, extent: int) -> int {
    if cursor < offset {
        cursor
    } else if cursor >= offset + extent {
        cursor - extent + 1
    } else {
        offset
    }
}

/// Both scroll offsets reconciled against the cursor.
pub open spec fn scroll_spec(e: Editor) -> Editor {
    Editor {
        offset_y: scrolled_offset(
            e.cursor_y as int,
            e.offset_y as int,
            e.screen_rows as int,
        ) as usize,
        offset_x: scrolled_offset(
            e.cursor_x as int,
            e.offset_x as int,
            e.screen_cols as int,
        ) as usize,
        ..e
    }
}

/// Viewport reconciliation is idempotent: reconciling a second time with no
/// cursor move in between leaves the offsets (and so the whole state)
/// unchanged.
pub proof fn lemma_scroll_idempotent(e: Editor)
    requires
        e.wf(),
    ensures
        scroll_spec(scroll_spec(e)) == scroll_spec(e),
{
}

/// Boundary behavior of the cursor: moving up at the first row and moving
/// down at the last row leave the whole state unchanged.
pub proof fn lemma_boundary_moves(e: Editor)
    requires
        e.wf(),
    ensures
        e.cursor_y == 0 ==> move_cursor_spec(e, KeyPress::Up) == e,
        e.cursor_y as int == e.content@.len() - 1 ==> move_cursor_spec(e, KeyPress::Down) == e,
{
}

/// Four spaces, the expansion of one tab character.
pub open spec fn tab_spaces() -> Seq<char> {
    seq![' ', ' ', ' ', ' ']
}

/// The line after an insertion at column `x`: a tab becomes four spaces,
/// any other character is inserted literally.
pub open spec fn line_with_insert(line: Seq<char>, x: int, c: char) -> Seq<char> {
    if c == '\t' {
        line.subrange(0, x) + tab_spaces() + line.subrange(x, line.len() as int)
    } else {
        line.insert(x, c)
    }
}

/// The smart un-indent fires when the four characters before the cursor are
/// all spaces.
pub open spec fn smart_undent_applies(line: Seq<char>, x: int) -> bool {
    &&& x >= 4
    &&& line[x - 1] == ' '
    &&& line[x - 2] == ' '
    &&& line[x - 3] == ' '
    &&& line[x - 4] == ' '
}

/// The document after the backspace line join: line `y` is appended to line
/// `y - 1` and removed.
pub open spec fn join_lines(doc: Seq<Seq<char>>, y: int) -> Seq<Seq<char>> {
    doc.update(y - 1, doc[y - 1] + doc[y]).remove(y)
}

/// What inserting a character at the cursor does: the cursor's line gains
/// the insertion, the column advances past it (by four for a tab), and the
/// tab-expansion flag records whether a tab was just expanded. Nothing else
/// changes.
pub open spec fn insert_char_rel(pre: Editor, post: Editor, c: char) -> bool {
    &&& post.doc() == pre.doc().update(
        pre.cursor_y as int,
        line_with_insert(pre.doc()[pre.cursor_y as int], pre.cursor_x as int, c),
    )
    &&& post.cursor_x == pre.cursor_x + (if c == '\t' {
        4int
    } else {
        1int
    })
    &&& post.tabbed == (c == '\t')
    &&& post == (Editor {
        content: post.content,
        cursor_x: post.cursor_x,
        tabbed: post.tabbed,
        ..pre
    })
}

/// What backspace does: nothing at the very start of the document; inside a
/// line it removes the character before the cursor — all four preceding
/// spaces under the smart-indent policy — and at the start of a later line
/// it joins that line onto the previous one, parking the cursor at the join.
/// Nothing else changes.
pub open spec fn delete_char_rel(pre: Editor, post: Editor) -> bool {
    &&& pre.cursor_x == 0 && pre.cursor_y == 0 ==> post == pre
    &&& pre.cursor_x > 0 && !(pre.backspace_mode == BackspaceMode::SmartIndent
        && smart_undent_applies(pre.doc()[pre.cursor_y as int], pre.cursor_x as int)) ==> {
        &&& post.doc() == pre.doc().update(
            pre.cursor_y as int,
            pre.doc()[pre.cursor_y as int].remove(pre.cursor_x - 1),
        )
        &&& post.cursor_x == pre.cursor_x - 1
    }
    &&& pre.cursor_x > 0 && pre.backspace_mode == BackspaceMode::SmartIndent
        && smart_undent_applies(pre.doc()[pre.cursor_y as int], pre.cursor_x as int) ==> {
        &&& post.doc() == pre.doc().update(
            pre.cursor_y as int,
            pre.doc()[pre.cursor_y as int].subrange(0, pre.cursor_x - 4) + pre.doc()[
                pre.cursor_y as int
            ].subrange(pre.cursor_x as int, pre.cur_line_len()),
        )
        &&& post.cursor_x == pre.cursor_x - 4
    }
    &&& pre.cursor_x > 0 ==> post.cursor_y == pre.cursor_y
    &&& pre.cursor_x == 0 && pre.cursor_y > 0 ==> {
        &&& post.doc() == join_lines(pre.doc(), pre.cursor_y as int)
        &&& post.cursor_y == pre.cursor_y - 1
        &&& post.cursor_x == pre.doc()[pre.cursor_y - 1].len()
    }
    &&& post == (Editor {
        content: post.content,
        cursor_x: post.cursor_x,
        cursor_y: post.cursor_y,
        ..pre
    })
}

/// What splitting the line at the cursor does: the text before the cursor
/// keeps its line, the text at and after it becomes the next line, and the
/// cursor moves to that line's start. Nothing else changes.
pub open spec fn insert_newline_rel(pre: Editor, post: Editor) -> bool {
    &&& post.doc() == pre.doc().update(
        pre.cursor_y as int,
        pre.doc()[pre.cursor_y as int].subrange(0, pre.cursor_x as int),
    ).insert(
        pre.cursor_y + 1,
        pre.doc()[pre.cursor_y as int].subrange(pre.cursor_x as int, pre.cur_line_len()),
    )
    &&& post.cursor_y == pre.cursor_y + 1
    &&& post.cursor_x == 0
    &&& post == (Editor {
        content: post.content,
        cursor_x: post.cursor_x,
        cursor_y: post.cursor_y,
        ..pre
    })
}

/// What deleting the current line does: nothing on a one-line buffer;
/// otherwise the line disappears, the cursor row is clamped to the last
/// remaining row and the column returns to zero. Nothing else changes.
pub open spec fn delete_line_rel(pre: Editor, post: Editor) -> bool {
    &&& pre.content@.len() == 1 ==> post == pre
    &&& pre.content@.len() > 1 ==> {
        &&& post.doc() == pre.doc().remove(pre.cursor_y as int)
        &&& post.cursor_y as int == (if (pre.cursor_y as int) < pre.content@.len() - 1 {
            pre.cursor_y as int
        } else {
            pre.content@.len() - 2
        })
        &&& post.cursor_x == 0
    }
    &&& post == (Editor {
        content: post.content,
        cursor_x: post.cursor_x,
        cursor_y: post.cursor_y,
        ..pre
    })
}

/// What deleting under the cursor does: the character at the cursor is
/// removed when there is one; at end-of-line nothing happens. The cursor
/// stays put and nothing else changes.
pub open spec fn delete_forward_rel(pre: Editor, post: Editor) -> bool {
    &&& (pre.cursor_x as int) < pre.cur_line_len() ==> post.doc() == pre.doc().update(
        pre.cursor_y as int,
        pre.doc()[pre.cursor_y as int].remove(pre.cursor_x as int),
    ) && post == (Editor { content: post.content, ..pre })
    &&& (pre.cursor_x as int) >= pre.cur_line_len() ==> post == pre
}

impl Editor {
    /// The viewport contains the cursor. This must hold immediately before
    /// every render; `scroll` establishes it.
    pub open spec fn viewport_ok(self) -> bool {
        &&& self.offset_y <= self.cursor_y < self.offset_y + self.screen_rows
        &&& self.offset_x <= self.cursor_x < self.offset_x + self.screen_cols
    }

    /// Move the cursor one step in the given direction, then clamp the
    /// column to the target line's length. Keys other than the four arrows
    /// leave the state unchanged.
    pub fn move_cursor(&mut self, direction: KeyPress)
        requires
            old(self).wf(),
        ensures
            final(self).wf(),
            *final(self) == move_cursor_spec(*old(self), direction),
    {
        match direction {
            KeyPress::Up => {
                if self.cursor_y > 0 {
                    self.cursor_y = self.cursor_y - 1;
                }
            },
            KeyPress::Down => {
                if self.cursor_y < self.content.len() - 1 {
                    self.cursor_y = self.cursor_y + 1;
                }
            },
            KeyPress::Left => {
                if self.cursor_x > 0 {
                    self.cursor_x = self.cursor_x - 1;
                } else if self.cursor_y > 0 {
                    self.cursor_y = self.cursor_y - 1;
                    self.cursor_x = self.content[self.cursor_y].len();
                }
            },
            KeyPress::Right => {
                if self.cursor_x < self.content[self.cursor_y].len() {
                    self.cursor_x = self.cursor_x + 1;
                } else if self.cursor_y < self.content.len() - 1 {
                    self.cursor_y = self.cursor_y + 1;
                    self.cursor_x = 0;
                }
            },
            _ => {},
        }
        let line_len = self.content[self.cursor_y].len();
        if self.cursor_x > line_len {
            self.cursor_x = line_len;
        }
    }

    /// Reconcile the viewport with the cursor by the minimal-shift rule.
    pub fn scroll(&mut self)
        requires
            old(self).wf(),
        ensures
            final(self).wf(),
            *final(self) == scroll_spec(*old(self)),
            final(self).viewport_ok(),
    {
        if self.cursor_y < self.offset_y {
            self.offset_y = self.cursor_y;
        } else if self.cursor_y - self.offset_y >= self.screen_rows {
            self.offset_y = self.cursor_y - self.screen_rows + 1;
        }
        if self.cursor_x < self.offset_x {
            self.offset_x = self.cursor_x;
        } else if self.cursor_x - self.offset_x >= self.screen_cols {
            self.offset_x = self.cursor_x - self.screen_cols + 1;
        }
    }

    /// Insert a character at the cursor. A tab inserts four spaces and
    /// advances the column by four, recording the expansion in `tabbed`; any
    /// other character is inserted literally and advances the column by one.
    pub fn insert_char(&mut self, c: char)
        requires
            old(self).wf(),
        ensures
            final(self).wf(),
            insert_char_rel(*old(self), *final(self), c),
    {
        let y = self.cursor_y;
        let x = self.cursor_x;
        if c == '\t' {
            self.content[y].insert(x, ' ');
            self.content[y].insert(x, ' ');
            self.content[y].insert(x, ' ');
            self.content[y].insert(x, ' ');
            self.tabbed = true;
            let new_len = self.content[y].len();
            assert(x + 4 <= new_len);
            self.cursor_x = x + 4;
            assert(self.content@[y as int]@ =~= line_with_insert(
                old(self).doc()[y as int],
                x as int,
                c,
            ));
        } else {
            self.content[y].insert(x, c);
            self.tabbed = false;
            let new_len = self.content[y].len();
            assert(x + 1 <= new_len);
            self.cursor_x = x + 1;
        }
        assert(final(self).doc() =~= old(self).doc().update(
            y as int,
            line_with_insert(old(self).doc()[y as int], x as int, c),
        ));
    }

    /// Backspace. At the start of the document it does nothing; elsewhere in
    /// a line it removes the character before the cursor (or, under the
    /// smart-indent policy with four spaces before the cursor, all four); at
    /// the start of a later line it joins that line onto the previous one.
    pub fn delete_char(&mut self)
        requires
            old(self).wf(),
        ensures
            final(self).wf(),
            delete_char_rel(*old(self), *final(self)),
    {
        if self.cursor_x == 0 && self.cursor_y == 0 {
            return ;
        }
        if self.cursor_x > 0 {
            let y = self.cursor_y;
            let x = self.cursor_x;
            let smart = matches!(self.backspace_mode, BackspaceMode::SmartIndent);
            let mut undent = false;
            if smart && x >= 4 {
                let line = &self.content[y];
                if line[x - 1] == ' ' && line[x - 2] == ' ' && line[x - 3] == ' ' && line[x - 4]
                    == ' ' {
                    undent = true;
                }
            }
            if undent {
                self.content[y].remove(x - 4);
                self.content[y].remove(x - 4);
                self.content[y].remove(x - 4);
                self.content[y].remove(x - 4);
                self.cursor_x = x - 4;
                assert(self.content@[y as int]@ =~= old(self).doc()[y as int].subrange(
                    0,
                    x - 4,
                ) + old(self).doc()[y as int].subrange(x as int, old(self).cur_line_len()));
            } else {
                self.content[y].remove(x - 1);
                self.cursor_x = x - 1;
            }
            assert(final(self).doc() =~= old(self).doc().update(
                y as int,
                self.content@[y as int]@,
            ));
        } else {
            let y = self.cursor_y;
            let mut cur = self.content.remove(y);
            self.cursor_y = y - 1;
            self.cursor_x = self.content[y - 1].len();
            self.content[y - 1].append(&mut cur);
            assert(final(self).doc() =~= join_lines(old(self).doc(), y as int));
        }
    }

    /// Split the current line at the cursor: the text before the cursor
    /// stays, the text at and after it becomes a new line inserted just
    /// below, and the cursor moves to the start of that new line.
    pub fn insert_newline(&mut self)
        requires
            old(self).wf(),
        ensures
            final(self).wf(),
            insert_newline_rel(*old(self), *final(self)),
    {
        let y = self.cursor_y;
        let line_count = self.content.len();
        assert(y + 1 <= line_count);
        let rest = self.content[y].split_off(self.cursor_x);
        self.content.insert(y + 1, rest);
        self.cursor_y = y + 1;
        self.cursor_x = 0;
        assert(final(self).doc() =~= old(self).doc().update(
            y as int,
            old(self).doc()[y as int].subrange(0, old(self).cursor_x as int),
        ).insert(
            y + 1,
            old(self).doc()[y as int].subrange(
                old(self).cursor_x as int,
                old(self).doc()[y as int].len() as int,
            ),
        ));
    }

    /// Delete the current line, unless it is the only one; the cursor row is
    /// clamped to the last remaining row and the column reset to zero.
    pub fn delete_line(&mut self)
        requires
            old(self).wf(),
        ensures
            final(self).wf(),
            delete_line_rel(*old(self), *final(self)),
    {
        if self.content.len() > 1 {
            let y = self.cursor_y;
            self.content.remove(y);
            if self.cursor_y >= self.content.len() {
                self.cursor_y = self.content.len() - 1;
            }
            self.cursor_x = 0;
            assert(final(self).doc() =~= old(self).doc().remove(y as int));
        }
    }

    /// Move the cursor to the start of its line.
    pub fn move_to_line_start(&mut self)
        requires
            old(self).wf(),
        ensures
            final(self).wf(),
            *final(self) == (Editor { cursor_x: 0, ..*old(self) }),
    {
        self.cursor_x = 0;
    }

    /// Move the cursor to the end of its line: the insertion point after the
    /// last character.
    pub fn move_to_line_end(&mut self)
        requires
            old(self).wf(),
        ensures
            final(self).wf(),
            final(self).cursor_x as int == old(self).cur_line_len(),
            *final(self) == (Editor { cursor_x: final(self).cursor_x, ..*old(self) }),
    {
        self.cursor_x = self.content[self.cursor_y].len();
    }

    /// Move the cursor to the very start of the buffer.
    pub fn move_to_buffer_start(&mut self)
        requires
            old(self).wf(),
        ensures
            final(self).wf(),
            *final(self) == (Editor { cursor_x: 0, cursor_y: 0, ..*old(self) }),
    {
        self.cursor_y = 0;
        self.cursor_x = 0;
    }

    /// Move the cursor to the very end of the buffer: the end of its last
    /// line.
    pub fn move_to_buffer_end(&mut self)
        requires
            old(self).wf(),
        ensures
            final(self).wf(),
            final(self).cursor_y as int == old(self).content@.len() - 1,
            final(self).cursor_x as int == old(self).doc()[old(self).content@.len() - 1].len(),
            *final(self) == (Editor {
                cursor_x: final(self).cursor_x,
                cursor_y: final(self).cursor_y,
                ..*old(self)
            }),
    {
        self.cursor_y = self.content.len() - 1;
        self.cursor_x = self.content[self.cursor_y].len();
    }

    /// Delete the character under the cursor, if the cursor is not at the
    /// end of its line; otherwise do nothing. The cursor does not move.
    pub fn delete_char_forward(&mut self)
        requires
            old(self).wf(),
        ensures
            final(self).wf(),
            delete_forward_rel(*old(self), *final(self)),
    {
        let y = self.cursor_y;
        if self.cursor_x < self.content[y].len() {
            self.content[y].remove(self.cursor_x);
            assert(final(self).doc() =~= old(self).doc().update(
                y as int,
                old(self).doc()[y as int].remove(old(self).cursor_x as int),
            ));
        }
    }

    /// Move the cursor to the start of the given 1-based line number, if it
    /// exists; otherwise do nothing.
    pub fn jump_to_line(&mut self, line_num: usize)
        requires
            old(self).wf(),
        ensures
            final(self).wf(),
            1 <= line_num && line_num as int <= old(self).content@.len() ==> *final(self) == (Editor {
                cursor_y: (line_num - 1) as usize,
                cursor_x: 0,
                ..*old(self)
            }),
            !(1 <= line_num && line_num as int <= old(self).content@.len()) ==> *final(self)
                == *old(self),
    {
        if line_num > 0 && line_num <= self.content.len() {
            self.cursor_y = line_num - 1;
            self.cursor_x = 0;
        }
    }

    /// A mouse-wheel event: three cursor steps up or down; any other mouse
    /// event is ignored.
    pub fn handle_mouse_event(&mut self, event: MouseInput)
        requires
            old(self).wf(),
        ensures
            final(self).wf(),
            event == MouseInput::ScrollUp ==> *final(self) == scroll_step_spec(
                *old(self),
                KeyPress::Up,
            ),
            event == MouseInput::ScrollDown ==> *final(self) == scroll_step_spec(
                *old(self),
                KeyPress::Down,
            ),
            event == MouseInput::Other ==> *final(self) == *old(self),
    {
        match event {
            MouseInput::ScrollUp => {
                self.move_cursor(KeyPress::Up);
                self.move_cursor(KeyPress::Up);
                self.move_cursor(KeyPress::Up);
            },
            MouseInput::ScrollDown => {
                self.move_cursor(KeyPress::Down);
                self.move_cursor(KeyPress::Down);
                self.move_cursor(KeyPress::Down);
            },
            MouseInput::Other => {},
        }
    }
}

} // verus!
