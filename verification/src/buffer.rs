//! Loading text into the line buffer and serializing it back.
//!
//! `load` splits a character sequence on newline boundaries, the way a final
//! line terminator is conventionally read: a trailing newline ends the last
//! line instead of opening an empty one. `serialize` joins the lines with
//! newlines and guarantees exactly one trailing newline. The round-trip
//! between the two is proved below.

use vstd::prelude::*;

use crate::editor::Editor;

verus! {

/// Splitting on newlines, carrying the partial line read so far: a newline
/// finishes `cur` and starts a fresh line; at the end of the text a nonempty
/// partial line is emitted, an empty one is not.
pub open spec fn split_from(cur: Seq<char>, text: Seq<char>) -> Seq<Seq<char>>
    decreases text.len(),
{
    if text.len() == 0 {
        if cur.len() == 0 {
            Seq::empty()
        } else {
            seq![cur]
        }
    } else if text[0] == '\n' {
        seq![cur] + split_from(Seq::empty(), text.drop_first())
    } else {
        split_from(cur.push(text[0]), text.drop_first())
    }
}

/// The lines of a text, split on newline boundaries.
pub open spec fn split_lines(text: Seq<char>) -> Seq<Seq<char>> {
    split_from(Seq::empty(), text)
}

/// What `load` yields: the split lines, or a single empty line when the text
/// is empty, so the buffer is never empty.
pub open spec fn load_spec(text: Seq<char>) -> Seq<Seq<char>> {
    if text.len() == 0 {
        seq![Seq::<char>::empty()]
    } else {
        split_lines(text)
    }
}

/// The lines joined with single newline separators, with no terminator after
/// the last line.
pub open spec fn join_with_newlines(doc: Seq<Seq<char>>) -> Seq<char>
    decreases doc.len(),
{
    if doc.len() == 0 {
        Seq::empty()
    } else if doc.len() == 1 {
        doc[0]
    } else {
        doc[0] + seq!['\n'] + join_with_newlines(doc.drop_first())
    }
}

/// What `serialize` yields: the joined lines, ending in exactly one newline —
/// one is appended unless the joined text already ends with one.
pub open spec fn serialize_spec(doc: Seq<Seq<char>>) -> Seq<char> {
    let j = join_with_newlines(doc);
    if j.len() == 0 || j[j.len() - 1] != '\n' {
        j.push('\n')
    } else {
        j
    }
}

/// A text with its final newline removed, if it has one.
pub open spec fn chomp(text: Seq<char>) -> Seq<char> {
    if text.len() > 0 && text[text.len() - 1] == '\n' {
        text.drop_last()
    } else {
        text
    }
}

/// A text ending in exactly one newline: unchanged if it already ends with a
/// newline, with one appended otherwise.
pub open spec fn normalize_trailing_newline(text: Seq<char>) -> Seq<char> {
    if text.len() == 0 || text[text.len() - 1] != '\n' {
        text.push('\n')
    } else {
        text
    }
}

/// Splitting emits at least one line once anything has been read.
proof fn lemma_split_from_nonempty(cur: Seq<char>, text: Seq<char>)
    requires
        cur.len() > 0 || text.len() > 0,
    ensures
        split_from(cur, text).len() >= 1,
    decreases text.len(),
{
    if text.len() == 0 {
    } else if text[0] == '\n' {
    } else {
        lemma_split_from_nonempty(cur.push(text[0]), text.drop_first());
    }
}

/// Joining the split of a text restores the text up to its final newline,
/// with the partial line `cur` in front.
proof fn lemma_join_split_from(cur: Seq<char>, text: Seq<char>)
    ensures
        join_with_newlines(split_from(cur, text)) == cur + chomp(text),
    decreases text.len(),
{
    if text.len() == 0 {
        if cur.len() == 0 {
            assert(join_with_newlines(split_from(cur, text)) =~= cur + chomp(text));
        } else {
            assert(join_with_newlines(split_from(cur, text)) =~= cur + chomp(text));
        }
    } else if text[0] == '\n' {
        let rest = text.drop_first();
        let s = split_from(Seq::<char>::empty(), rest);
        lemma_join_split_from(Seq::empty(), rest);
        if rest.len() == 0 {
            assert(s =~= Seq::<Seq<char>>::empty());
            assert(seq![cur] + s =~= seq![cur]);
            assert(chomp(text) =~= Seq::<char>::empty());
            assert(join_with_newlines(split_from(cur, text)) =~= cur + chomp(text));
        } else {
            lemma_split_from_nonempty(Seq::empty(), rest);
            assert((seq![cur] + s).drop_first() =~= s);
            assert(join_with_newlines(seq![cur] + s) == cur + seq!['\n'] + join_with_newlines(s));
            assert(join_with_newlines(s) == Seq::<char>::empty() + chomp(rest));
            assert(Seq::<char>::empty() + chomp(rest) =~= chomp(rest));
            assert(chomp(text) =~= seq!['\n'] + chomp(rest));
            assert(cur + seq!['\n'] + chomp(rest) =~= cur + chomp(text));
        }
    } else {
        lemma_join_split_from(cur.push(text[0]), text.drop_first());
        assert(cur.push(text[0]) + chomp(text.drop_first()) =~= cur + chomp(text));
    }
}

/// Appending one more line to a join adds one separator and the line.
proof fn lemma_join_push(doc: Seq<Seq<char>>, x: Seq<char>)
    ensures
        doc.len() == 0 ==> join_with_newlines(doc.push(x)) == x,
        doc.len() > 0 ==> join_with_newlines(doc.push(x)) == join_with_newlines(doc)
            + seq!['\n'] + x,
    decreases doc.len(),
{
    if doc.len() == 0 {
        assert(doc.push(x).len() == 1);
        assert(doc.push(x)[0] == x);
    } else if doc.len() == 1 {
        assert(doc.push(x).drop_first() =~= doc.drop_first().push(x));
        lemma_join_push(doc.drop_first(), x);
        assert(join_with_newlines(doc.push(x)) == doc[0] + seq!['\n'] + x);
        assert(join_with_newlines(doc) == doc[0]);
    } else {
        assert(doc.push(x).drop_first() =~= doc.drop_first().push(x));
        lemma_join_push(doc.drop_first(), x);
        assert(join_with_newlines(doc.push(x)) == doc.push(x)[0] + seq!['\n']
            + join_with_newlines(doc.drop_first().push(x)));
        assert(doc.push(x)[0] == doc[0]);
        assert(doc[0] + seq!['\n'] + (join_with_newlines(doc.drop_first()) + seq!['\n'] + x)
            =~= (doc[0] + seq!['\n'] + join_with_newlines(doc.drop_first())) + seq!['\n'] + x);
    }
}

/// Round trip: serializing a freshly loaded text reproduces the text with its
/// trailing newline normalized — one is appended when absent, and a single
/// final newline is kept as it is. The precondition leaves out texts ending
/// in two or more newlines: loading reads the final newline as a line
/// terminator, so only one survives the trip.
pub proof fn lemma_load_serialize_round_trip(text: Seq<char>)
    requires
        text.len() < 2 || text[text.len() - 1] != '\n' || text[text.len() - 2] != '\n',
    ensures
        serialize_spec(load_spec(text)) == normalize_trailing_newline(text),
{
    if text.len() == 0 {
        assert(join_with_newlines(load_spec(text)) == Seq::<char>::empty());
        assert(serialize_spec(load_spec(text)) =~= normalize_trailing_newline(text));
    } else {
        lemma_join_split_from(Seq::empty(), text);
        let j = join_with_newlines(split_lines(text));
        assert(j =~= chomp(text));
        if text[text.len() - 1] != '\n' {
            assert(j =~= text);
            assert(serialize_spec(load_spec(text)) =~= text.push('\n'));
        } else if text.len() == 1 {
            assert(j =~= Seq::<char>::empty());
            assert(serialize_spec(load_spec(text)) =~= text);
        } else {
            assert(j =~= text.drop_last());
            assert(j.len() == text.len() - 1);
            assert(j[j.len() - 1] == text[text.len() - 2]);
            assert(text[text.len() - 2] != '\n');
            assert(serialize_spec(load_spec(text)) =~= j.push('\n'));
            assert(j.push('\n') =~= text);
        }
    }
}

impl Editor {
    /// Replace the buffer with the lines of `text`, splitting on newline
    /// boundaries; an empty text yields a single empty line. The cursor
    /// moves to the start of the document. Any sequence of characters is
    /// representable; loading never fails.
    pub fn load(&mut self, text: &Vec<char>)
        requires
            old(self).wf(),
        ensures
            final(self).wf(),
            final(self).doc() =~= load_spec(text@),
            *final(self) == (Editor {
                content: final(self).content,
                cursor_x: 0,
                cursor_y: 0,
                ..*old(self)
            }),
    {
        let mut lines: Vec<Vec<char>> = Vec::new();
        let mut cur: Vec<char> = Vec::new();
        let n = text.len();
        let mut i: usize = 0;
        proof {
            assert(text@.skip(0) =~= text@);
            assert(Seq::new(lines@.len(), |k: int| lines@[k]@) + split_from(cur@, text@)
                =~= split_from(cur@, text@));
        }
        while i < n
            invariant
                i <= n,
                n == text@.len(),
                split_lines(text@) == Seq::new(lines@.len(), |k: int| lines@[k]@) + split_from(
                    cur@,
                    text@.skip(i as int),
                ),
            decreases n - i,
        {
            let c = text[i];
            proof {
                assert(text@.skip(i as int).drop_first() =~= text@.skip(i as int + 1));
                assert(text@.skip(i as int)[0] == text@[i as int]);
            }
            if c == '\n' {
                let ghost prev = Seq::new(lines@.len(), |k: int| lines@[k]@);
                let ghost curv = cur@;
                lines.push(cur);
                cur = Vec::new();
                proof {
                    assert(Seq::new(lines@.len(), |k: int| lines@[k]@) =~= prev.push(curv));
                    assert(prev + (seq![curv] + split_from(
                        Seq::empty(),
                        text@.skip(i as int + 1),
                    )) =~= prev.push(curv) + split_from(Seq::empty(), text@.skip(i as int + 1)));
                }
            } else {
                let ghost prevcur = cur@;
                cur.push(c);
                proof {
                    assert(cur@ =~= prevcur.push(text@[i as int]));
                }
            }
            i = i + 1;
        }
        proof {
            assert(text@.skip(n as int) =~= Seq::<char>::empty());
        }
        if cur.len() > 0 {
            let ghost prev = Seq::new(lines@.len(), |k: int| lines@[k]@);
            let ghost curv = cur@;
            lines.push(cur);
            proof {
                assert(Seq::new(lines@.len(), |k: int| lines@[k]@) =~= prev.push(curv));
                assert(prev + seq![curv] =~= prev.push(curv));
            }
        } else {
            proof {
                assert(Seq::new(lines@.len(), |k: int| lines@[k]@) + split_from(
                    cur@,
                    Seq::empty(),
                ) =~= Seq::new(lines@.len(), |k: int| lines@[k]@));
            }
        }
        if lines.len() == 0 {
            proof {
                if text@.len() > 0 {
                    lemma_split_from_nonempty(Seq::empty(), text@);
                }
                assert(text@.len() == 0);
            }
            lines.push(Vec::new());
        }
        self.content = lines;
        self.cursor_x = 0;
        self.cursor_y = 0;
        proof {
            assert(self.doc() =~= load_spec(text@));
        }
    }

    /// The number of lines in the buffer; at least one.
    pub fn line_count(&self) -> (r: usize)
        requires
            self.wf(),
        ensures
            r == self.content@.len(),
            r >= 1,
    {
        self.content.len()
    }

    /// The length of line `row`. Passing a row outside the buffer is a
    /// programming error, ruled out by precondition.
    pub fn line_len(&self, row: usize) -> (r: usize)
        requires
            self.wf(),
            (row as int) < self.content@.len(),
        ensures
            r == self.doc()[row as int].len(),
    {
        self.content[row].len()
    }

    /// The text of line `row`. Passing a row outside the buffer is a
    /// programming error, ruled out by precondition.
    pub fn line_text(&self, row: usize) -> (r: Vec<char>)
        requires
            self.wf(),
            (row as int) < self.content@.len(),
        ensures
            r@ == self.doc()[row as int],
    {
        crate::text::subrange_chars(&self.content[row], 0, self.content[row].len())
    }

    /// Remove line `row`, refusing (as a no-op) when it is the only line, so
    /// the buffer never becomes empty. The cursor keeps its position,
    /// clamped to the buffer that remains.
    pub fn remove_line(&mut self, row: usize)
        requires
            old(self).wf(),
            (row as int) < old(self).content@.len(),
        ensures
            final(self).wf(),
            old(self).content@.len() == 1 ==> *final(self) == *old(self),
            old(self).content@.len() > 1 ==> final(self).doc() =~= old(self).doc().remove(
                row as int,
            ),
            old(self).content@.len() > 1 ==> final(self).cursor_y as int == (if (
            old(self).cursor_y as int) < old(self).content@.len() - 1 {
                old(self).cursor_y as int
            } else {
                old(self).content@.len() - 2
            }),
            old(self).content@.len() > 1 ==> final(self).cursor_x as int == (if (
            old(self).cursor_x as int) <= final(self).cur_line_len() {
                old(self).cursor_x as int
            } else {
                final(self).cur_line_len()
            }),
            *final(self) == (Editor {
                content: final(self).content,
                cursor_x: final(self).cursor_x,
                cursor_y: final(self).cursor_y,
                ..*old(self)
            }),
    {
        if self.content.len() > 1 {
            self.content.remove(row);
            if self.cursor_y >= self.content.len() {
                self.cursor_y = self.content.len() - 1;
            }
            let line_len = self.content[self.cursor_y].len();
            if self.cursor_x > line_len {
                self.cursor_x = line_len;
            }
            assert(final(self).doc() =~= old(self).doc().remove(row as int));
        }
    }

    /// The buffer as one character sequence: lines joined with newlines,
    /// ending in exactly one trailing newline.
    pub fn serialize(&self) -> (r: Vec<char>)
        requires
            self.wf(),
        ensures
            r@ == serialize_spec(self.doc()),
    {
        let mut out: Vec<char> = Vec::new();
        let n = self.content.len();
        let mut i: usize = 0;
        while i < n
            invariant
                i <= n,
                n == self.content@.len(),
                self.wf(),
                out@ == join_with_newlines(self.doc().subrange(0, i as int)),
            decreases n - i,
        {
            let ghost prefix = self.doc().subrange(0, i as int);
            let line = &self.content[i];
            let m = line.len();
            let mut j: usize = 0;
            let ghost sep: Seq<char> = if i == 0 {
                Seq::empty()
            } else {
                seq!['\n']
            };
            if i > 0 {
                out.push('\n');
            }
            while j < m
                invariant
                    j <= m,
                    m == line@.len(),
                    out@ == join_with_newlines(prefix) + sep + line@.subrange(0, j as int),
                decreases m - j,
            {
                out.push(line[j]);
                proof {
                    assert(line@.subrange(0, j as int).push(line@[j as int]) =~= line@.subrange(
                        0,
                        j as int + 1,
                    ));
                    assert((join_with_newlines(prefix) + sep + line@.subrange(0, j as int)).push(
                        line@[j as int],
                    ) =~= join_with_newlines(prefix) + sep + line@.subrange(0, j as int + 1));
                }
                j = j + 1;
            }
            proof {
                assert(line@.subrange(0, m as int) =~= line@);
                assert(prefix.push(self.doc()[i as int]) =~= self.doc().subrange(0, i as int + 1));
                lemma_join_push(prefix, self.doc()[i as int]);
                if i == 0 {
                    assert(Seq::<char>::empty() + self.doc()[i as int] =~= self.doc()[i as int]);
                    assert(out@ == join_with_newlines(self.doc().subrange(0, i as int + 1)));
                } else {
                    assert(join_with_newlines(prefix) + sep + line@ =~= join_with_newlines(prefix)
                        + seq!['\n'] + self.doc()[i as int]);
                    assert(out@ == join_with_newlines(self.doc().subrange(0, i as int + 1)));
                }
            }
            i = i + 1;
        }
        proof {
            assert(self.doc().subrange(0, n as int) =~= self.doc());
        }
        let k = out.len();
        if k == 0 {
            out.push('\n');
        } else if out[k - 1] != '\n' {
            out.push('\n');
        }
        out
    }
}

} // verus!
