//! Escape-aware measurement and truncation of styled text, the status bar,
//! and the composition of the abstract frame a terminal backend draws.
//!
//! Styled text embeds escape sequences (opened by the escape character,
//! closed by `m`). Measurement counts only printable characters, and
//! truncation keeps whole escape sequences while cutting printable ones, so
//! a cut through styled text never leaves a dangling, half-written sequence.

use vstd::prelude::*;

use crate::editor::Editor;
use crate::text::append_chars;

verus! {

/// The state of the escape lexer after reading one character: the escape
/// character always opens a sequence, `m` closes one, and ordinary
/// characters keep the current state.
pub open spec fn esc_step(st: bool, c: char) -> bool {
    if c == '\u{1b}' {
        true
    } else if st {
        c != 'm'
    } else {
        false
    }
}

/// Whether a character is printable here: outside any escape sequence and
/// not the escape character itself.
pub open spec fn counts_char(st: bool, c: char) -> bool {
    !st && c != '\u{1b}'
}

/// The number of printable characters of `s`, read from lexer state `st`.
pub open spec fn vis_len_from(s: Seq<char>, st: bool) -> int
    decreases s.len(),
{
    if s.len() == 0 {
        0
    } else {
        (if counts_char(st, s[0]) {
            1int
        } else {
            0int
        }) + vis_len_from(s.drop_first(), esc_step(st, s[0]))
    }
}

/// The visible length of `s`: printable characters only, escape sequences
/// counted as zero width.
pub open spec fn vis_len(s: Seq<char>) -> int {
    vis_len_from(s, false)
}

/// The lexer state after reading all of `s` from state `st`.
pub open spec fn esc_after(s: Seq<char>, st: bool) -> bool
    decreases s.len(),
{
    if s.len() == 0 {
        st
    } else {
        esc_after(s.drop_first(), esc_step(st, s[0]))
    }
}

/// One character measures by `counts_char` and steps the lexer by
/// `esc_step`.
pub proof fn lemma_vis_single(c: char, st: bool)
    ensures
        vis_len_from(seq![c], st) == (if counts_char(st, c) {
            1int
        } else {
            0int
        }),
        esc_after(seq![c], st) == esc_step(st, c),
{
    reveal_with_fuel(vis_len_from, 2);
    reveal_with_fuel(esc_after, 2);
    assert(seq![c].drop_first() =~= Seq::<char>::empty());
}

/// Visible length distributes over concatenation, threading the lexer state.
pub proof fn lemma_vis_concat(a: Seq<char>, b: Seq<char>, st: bool)
    ensures
        vis_len_from(a + b, st) == vis_len_from(a, st) + vis_len_from(b, esc_after(a, st)),
        esc_after(a + b, st) == esc_after(b, esc_after(a, st)),
    decreases a.len(),
{
    if a.len() == 0 {
        assert(a + b =~= b);
    } else {
        lemma_vis_concat(a.drop_first(), b, esc_step(st, a[0]));
        assert((a + b).drop_first() =~= a.drop_first() + b);
    }
}

/// A visible length is never negative.
pub proof fn lemma_vis_nonneg(s: Seq<char>, st: bool)
    ensures
        vis_len_from(s, st) >= 0,
    decreases s.len(),
{
    if s.len() > 0 {
        lemma_vis_nonneg(s.drop_first(), esc_step(st, s[0]));
    }
}

/// Text without the escape character: every character is printable.
pub open spec fn plain(s: Seq<char>) -> bool
    decreases s.len(),
{
    s.len() == 0 || (s[0] != '\u{1b}' && plain(s.drop_first()))
}

/// Plain text stays plain under concatenation.
pub proof fn lemma_plain_concat(a: Seq<char>, b: Seq<char>)
    requires
        plain(a),
        plain(b),
    ensures
        plain(a + b),
    decreases a.len(),
{
    if a.len() == 0 {
        assert(a + b =~= b);
    } else {
        lemma_plain_concat(a.drop_first(), b);
        assert((a + b).drop_first() =~= a.drop_first() + b);
    }
}

/// Plain text measures as its length and leaves the lexer outside a
/// sequence.
pub proof fn lemma_vis_plain(s: Seq<char>)
    requires
        plain(s),
    ensures
        vis_len_from(s, false) == s.len(),
        esc_after(s, false) == false,
    decreases s.len(),
{
    if s.len() > 0 {
        assert(s[0] != '\u{1b}');
        assert(plain(s.drop_first()));
        lemma_vis_plain(s.drop_first());
    }
}

/// Text free of the closing character `m`.
pub open spec fn no_m(s: Seq<char>) -> bool
    decreases s.len(),
{
    s.len() == 0 || (s[0] != 'm' && no_m(s.drop_first()))
}

/// Inside an escape sequence, characters other than the closing `m` keep the
/// lexer inside and measure as nothing.
pub proof fn lemma_vis_escape_run(s: Seq<char>)
    requires
        no_m(s),
    ensures
        vis_len_from(s, true) == 0,
        esc_after(s, true) == true,
    decreases s.len(),
{
    if s.len() > 0 {
        assert(s[0] != 'm');
        lemma_vis_escape_run(s.drop_first());
    }
}

/// A whole escape sequence: the escape character, a body free of `m`, and
/// the closing `m`.
pub open spec fn is_escape_seq(s: Seq<char>) -> bool {
    &&& s.len() >= 2
    &&& s[0] == '\u{1b}'
    &&& s[s.len() - 1] == 'm'
    &&& no_m(s.subrange(1, s.len() - 1))
}

/// A whole escape sequence measures as nothing and leaves the lexer outside
/// a sequence, whatever state it started in.
pub proof fn lemma_vis_escape_seq(s: Seq<char>, st: bool)
    requires
        is_escape_seq(s),
    ensures
        vis_len_from(s, st) == 0,
        esc_after(s, st) == false,
{
    let body = s.subrange(1, s.len() - 1);
    let head = seq![s[0]];
    let tail = seq!['m'];
    assert(s =~= head + (body + tail));
    lemma_vis_escape_run(body);
    lemma_vis_single(s[0], st);
    lemma_vis_single('m', true);
    lemma_vis_concat(body, tail, true);
    lemma_vis_concat(head, body + tail, st);
    assert(esc_after(head, st) == true);
    assert(vis_len_from(head, st) == 0);
}

/// The reset sequence that closes any styling.
pub open spec fn reset_seq() -> Seq<char> {
    seq!['\u{1b}', '[', '0', 'm']
}

/// Whether styled text already ends with the reset sequence.
pub open spec fn ends_with_reset(s: Seq<char>) -> bool {
    s.len() >= 4 && s.subrange(s.len() - 4, s.len() as int) == reset_seq()
}

/// What truncation keeps, reading `s` with `budget` printable slots left,
/// lexer state `st`, and the partial escape sequence `pending` buffered:
/// printable characters are copied while the budget lasts, escape characters
/// are buffered and flushed whole when their closing `m` arrives, and an
/// unfinished escape at the end of the input is dropped.
pub open spec fn trunc_go(s: Seq<char>, budget: int, st: bool, pending: Seq<char>) -> Seq<char>
    decreases s.len(),
{
    if s.len() == 0 || budget <= 0 {
        Seq::empty()
    } else if s[0] == '\u{1b}' {
        trunc_go(s.drop_first(), budget, true, pending.push(s[0]))
    } else if st {
        if s[0] == 'm' {
            pending.push('m') + trunc_go(s.drop_first(), budget, false, Seq::empty())
        } else {
            trunc_go(s.drop_first(), budget, true, pending.push(s[0]))
        }
    } else {
        seq![s[0]] + trunc_go(s.drop_first(), budget - 1, false, pending)
    }
}

/// What `truncate_visible` yields: the kept text, with a reset appended when
/// the cut used up the whole budget and the text does not already end reset.
pub open spec fn trunc_vis_spec(s: Seq<char>, max: int) -> Seq<char> {
    let kept = trunc_go(s, max, false, Seq::empty());
    if vis_len(kept) >= max && !ends_with_reset(kept) {
        kept + reset_seq()
    } else {
        kept
    }
}

/// What truncation keeps measures as the smaller of the budget and the
/// text's own visible length, and never leaves the lexer inside a sequence.
pub proof fn lemma_trunc_go_vis(s: Seq<char>, budget: int, st: bool, pending: Seq<char>)
    requires
        budget >= 0,
        st ==> vis_len_from(pending, false) == 0 && esc_after(pending, false) == true,
        !st ==> pending.len() == 0,
    ensures
        vis_len_from(trunc_go(s, budget, st, pending), false) == (if vis_len_from(s, st) <= budget {
            vis_len_from(s, st)
        } else {
            budget
        }),
        esc_after(trunc_go(s, budget, st, pending), false) == false,
    decreases s.len(),
{
    lemma_vis_nonneg(s, st);
    if s.len() == 0 || budget <= 0 {
    } else if s[0] == '\u{1b}' {
        let p2 = pending.push(s[0]);
        lemma_vis_single(s[0], true);
        if st {
            lemma_vis_concat(pending, seq![s[0]], false);
            assert(p2 =~= pending + seq![s[0]]);
        } else {
            assert(pending =~= Seq::<char>::empty());
            assert(p2 =~= seq!['\u{1b}']);
            lemma_vis_single(s[0], false);
        }
        lemma_trunc_go_vis(s.drop_first(), budget, true, p2);
    } else if st {
        if s[0] == 'm' {
            let flushed = pending.push('m');
            lemma_vis_single('m', true);
            lemma_vis_concat(pending, seq!['m'], false);
            assert(flushed =~= pending + seq!['m']);
            assert(vis_len_from(flushed, false) == 0);
            assert(esc_after(flushed, false) == false);
            lemma_trunc_go_vis(s.drop_first(), budget, false, Seq::empty());
            lemma_vis_concat(flushed, trunc_go(s.drop_first(), budget, false, Seq::empty()), false);
        } else {
            let p2 = pending.push(s[0]);
            lemma_vis_single(s[0], true);
            lemma_vis_concat(pending, seq![s[0]], false);
            assert(p2 =~= pending + seq![s[0]]);
            lemma_trunc_go_vis(s.drop_first(), budget, true, p2);
        }
    } else {
        lemma_trunc_go_vis(s.drop_first(), budget - 1, false, pending);
        lemma_vis_single(s[0], false);
        lemma_vis_concat(seq![s[0]], trunc_go(s.drop_first(), budget - 1, false, pending), false);
    }
}

/// The reset sequence is a whole escape sequence.
pub proof fn lemma_reset_escape_seq()
    ensures
        is_escape_seq(reset_seq()),
{
    reveal_with_fuel(no_m, 4);
    assert(reset_seq().subrange(1, 3) =~= seq!['[', '0']);
}

/// Truncation yields exactly the requested visible width when the text is at
/// least that wide, and the whole text otherwise; the cut never ends inside
/// an escape sequence.
pub proof fn lemma_trunc_vis_len(s: Seq<char>, max: int)
    requires
        max >= 0,
    ensures
        vis_len(trunc_vis_spec(s, max)) == (if vis_len(s) <= max {
            vis_len(s)
        } else {
            max
        }),
        esc_after(trunc_vis_spec(s, max), false) == false,
{
    lemma_trunc_go_vis(s, max, false, Seq::empty());
    let kept = trunc_go(s, max, false, Seq::empty());
    if vis_len(kept) >= max && !ends_with_reset(kept) {
        lemma_vis_concat(kept, reset_seq(), false);
        lemma_reset_escape_seq();
        lemma_vis_escape_seq(reset_seq(), false);
    }
}

/// Foreground color of the filename in the status bar.
pub open spec fn filename_fg_seq() -> Seq<char> {
    seq!['\u{1b}', '[', '3', '8', ';', '5', ';', '2', '3', '1', 'm']
}

/// Foreground color of the mode name in the status bar.
pub open spec fn mode_fg_seq() -> Seq<char> {
    seq!['\u{1b}', '[', '3', '5', ';', '5', ';', '2', '1', '3', 'm']
}

/// Foreground color of a status message.
pub open spec fn msg_fg_seq() -> Seq<char> {
    seq!['\u{1b}', '[', '3', '8', ';', '5', ';', '2', '2', '0', 'm']
}

/// Foreground color of the echoed command line.
pub open spec fn cmd_fg_seq() -> Seq<char> {
    seq!['\u{1b}', '[', '3', '8', ';', '5', ';', '1', '1', '7', 'm']
}

/// Foreground color of the position indicator.
pub open spec fn info_fg_seq() -> Seq<char> {
    seq!['\u{1b}', '[', '3', '8', ';', '5', ';', '2', '5', '5', 'm']
}

/// The transparent-background sequence.
pub open spec fn transparent_bg_seq() -> Seq<char> {
    seq!['\u{1b}', '[', '4', '9', 'm']
}

/// Every style constant is a whole escape sequence.
pub proof fn lemma_style_escape_seqs()
    ensures
        is_escape_seq(filename_fg_seq()),
        is_escape_seq(mode_fg_seq()),
        is_escape_seq(msg_fg_seq()),
        is_escape_seq(cmd_fg_seq()),
        is_escape_seq(info_fg_seq()),
        is_escape_seq(transparent_bg_seq()),
{
    reveal_with_fuel(no_m, 11);
    assert(filename_fg_seq().subrange(1, 10) =~= seq!['[', '3', '8', ';', '5', ';', '2', '3', '1']);
    assert(mode_fg_seq().subrange(1, 10) =~= seq!['[', '3', '5', ';', '5', ';', '2', '1', '3']);
    assert(msg_fg_seq().subrange(1, 10) =~= seq!['[', '3', '8', ';', '5', ';', '2', '2', '0']);
    assert(cmd_fg_seq().subrange(1, 10) =~= seq!['[', '3', '8', ';', '5', ';', '1', '1', '7']);
    assert(info_fg_seq().subrange(1, 10) =~= seq!['[', '3', '8', ';', '5', ';', '2', '5', '5']);
    assert(transparent_bg_seq().subrange(1, 4) =~= seq!['[', '4', '9']);
}

/// The name of a mode, as shown in the status bar.
pub open spec fn mode_name(m: crate::editor::Mode) -> Seq<char> {
    match m {
        crate::editor::Mode::Normal => seq!['N', 'O', 'R', 'M', 'A', 'L'],
        crate::editor::Mode::Insert => seq!['I', 'N', 'S', 'E', 'R', 'T'],
        crate::editor::Mode::Command => seq!['C', 'O', 'M', 'M', 'A', 'N', 'D'],
    }
}

/// The displayed filename: the recorded one, or a placeholder.
pub open spec fn filename_display(e: Editor) -> Seq<char> {
    match e.filename {
        Some(f) => f@,
        None => seq!['[', 'N', 'o', ' ', 'N', 'a', 'm', 'e', ']'],
    }
}

/// The separator between status-bar fields.
pub open spec fn bar_sep() -> Seq<char> {
    seq![' ', '-', '-', ' ']
}

/// The left status-bar segment: colored filename and mode name.
pub open spec fn left_segment_spec(e: Editor) -> Seq<char> {
    filename_fg_seq() + filename_display(e) + reset_seq() + bar_sep() + mode_fg_seq() + mode_name(
        e.mode,
    ) + reset_seq() + bar_sep()
}

/// The right status-bar segment: the 1-based cursor line over the line
/// count, and the 1-based cursor column.
pub open spec fn right_segment_spec(e: Editor) -> Seq<char> {
    info_fg_seq() + transparent_bg_seq() + seq!['L', 'n', ' '] + crate::text::dec_rep(
        e.cursor_y + 1,
    ) + seq!['/'] + crate::text::dec_rep(e.content@.len() as int) + seq![' ', 'C', 'o', 'l', ' ']
        + crate::text::dec_rep(e.cursor_x + 1)
}

/// The middle status-bar content: the status message when one is set, the
/// echoed command line when the bar shows it, and nothing otherwise.
pub open spec fn middle_content_spec(e: Editor) -> Seq<char> {
    if e.status_msg@.len() > 0 {
        msg_fg_seq() + transparent_bg_seq() + e.status_msg@
    } else if e.show_command {
        cmd_fg_seq() + transparent_bg_seq() + seq![':'] + e.command_buffer@
    } else {
        Seq::empty()
    }
}

/// The visible room left for the middle segment once the left and right
/// segments are placed.
pub open spec fn avail_spec(e: Editor) -> int {
    let lr = vis_len(left_segment_spec(e)) + vis_len(right_segment_spec(e));
    if e.screen_cols >= lr {
        e.screen_cols - lr
    } else {
        0
    }
}

/// The middle segment: the middle content, truncated when it would not fit,
/// and padded with blanks to fill the room exactly.
pub open spec fn middle_segment_spec(e: Editor) -> Seq<char> {
    let mc = middle_content_spec(e);
    let a = avail_spec(e);
    if vis_len(mc) > a {
        let t = trunc_vis_spec(mc, a);
        t + crate::text::spaces(a - vis_len(t))
    } else {
        mc + crate::text::spaces(a - vis_len(mc))
    }
}

/// The status bar: left, middle and right segments packed left to right,
/// padded with blanks, cut to the terminal width when the fixed segments
/// alone would overflow it, and closed with a style reset.
pub open spec fn status_bar_spec(e: Editor) -> Seq<char> {
    let l = left_segment_spec(e);
    let m = middle_segment_spec(e);
    let r = right_segment_spec(e);
    let full = l + m + r + crate::text::spaces(
        e.screen_cols - (vis_len(l) + vis_len(m) + vis_len(r)),
    );
    (if vis_len(full) > e.screen_cols {
        trunc_vis_spec(full, e.screen_cols as int)
    } else {
        full
    }) + reset_seq()
}

/// A run of spaces is plain and measures as its length.
pub proof fn lemma_spaces_vis(n: int)
    ensures
        vis_len_from(crate::text::spaces(n), false) == (if n >= 0 {
            n
        } else {
            0
        }),
        esc_after(crate::text::spaces(n), false) == false,
    decreases n,
{
    if n > 0 {
        lemma_spaces_vis(n - 1);
        assert(crate::text::spaces(n).drop_first() =~= crate::text::spaces(n - 1));
        lemma_vis_single(' ', false);
    } else {
        assert(crate::text::spaces(n) =~= Seq::<char>::empty());
    }
}

/// Decimal representations are plain text.
pub proof fn lemma_dec_rep_plain(n: int)
    ensures
        plain(crate::text::dec_rep(n)),
    decreases n,
{
    reveal_with_fuel(plain, 3);
    if n <= 9 {
        assert(seq![crate::text::digit_char(n)].drop_first() =~= Seq::<char>::empty());
    } else {
        lemma_dec_rep_plain(n / 10);
        assert(seq![crate::text::digit_char(n % 10)].drop_first() =~= Seq::<char>::empty());
        assert(plain(seq![crate::text::digit_char(n % 10)]));
        lemma_plain_concat(crate::text::dec_rep(n / 10), seq![crate::text::digit_char(n % 10)]);
        assert(crate::text::dec_rep(n) =~= crate::text::dec_rep(n / 10) + seq![
            crate::text::digit_char(n % 10),
        ]);
    }
}

/// A concatenation step: a balanced prefix and a balanced plain-or-escape
/// piece stay balanced, and visible lengths add.
proof fn lemma_cat_balanced(a: Seq<char>, b: Seq<char>)
    requires
        esc_after(a, false) == false,
        esc_after(b, false) == false,
    ensures
        vis_len(a + b) == vis_len(a) + vis_len(b),
        esc_after(a + b, false) == false,
{
    lemma_vis_concat(a, b, false);
}

/// A plain piece is balanced and measures as its length.
proof fn lemma_piece_plain(s: Seq<char>)
    requires
        plain(s),
    ensures
        vis_len(s) == s.len(),
        esc_after(s, false) == false,
{
    lemma_vis_plain(s);
}

/// An escape-sequence piece is balanced and measures as nothing.
proof fn lemma_piece_escape(s: Seq<char>)
    requires
        is_escape_seq(s),
    ensures
        vis_len(s) == 0,
        esc_after(s, false) == false,
{
    lemma_vis_escape_seq(s, false);
}

/// The fixed text fragments of the bar are plain.
proof fn lemma_bar_fragments_plain()
    ensures
        plain(bar_sep()),
        plain(mode_name(crate::editor::Mode::Normal)),
        plain(mode_name(crate::editor::Mode::Insert)),
        plain(mode_name(crate::editor::Mode::Command)),
        plain(seq!['[', 'N', 'o', ' ', 'N', 'a', 'm', 'e', ']']),
        plain(seq!['L', 'n', ' ']),
        plain(seq!['/']),
        plain(seq![' ', 'C', 'o', 'l', ' ']),
        plain(seq![':']),
{
    reveal_with_fuel(plain, 11);
}

/// The left segment never ends inside an escape sequence.
proof fn lemma_left_balanced(e: Editor)
    requires
        plain(filename_display(e)),
    ensures
        esc_after(left_segment_spec(e), false) == false,
{
    lemma_style_escape_seqs();
    lemma_reset_escape_seq();
    lemma_bar_fragments_plain();
    let a1 = filename_fg_seq();
    let a2 = a1 + filename_display(e);
    let a3 = a2 + reset_seq();
    let a4 = a3 + bar_sep();
    let a5 = a4 + mode_fg_seq();
    let a6 = a5 + mode_name(e.mode);
    let a7 = a6 + reset_seq();
    lemma_piece_escape(filename_fg_seq());
    lemma_piece_plain(filename_display(e));
    lemma_cat_balanced(a1, filename_display(e));
    lemma_piece_escape(reset_seq());
    lemma_cat_balanced(a2, reset_seq());
    lemma_piece_plain(bar_sep());
    lemma_cat_balanced(a3, bar_sep());
    lemma_piece_escape(mode_fg_seq());
    lemma_cat_balanced(a4, mode_fg_seq());
    lemma_piece_plain(mode_name(e.mode));
    lemma_cat_balanced(a5, mode_name(e.mode));
    lemma_cat_balanced(a6, reset_seq());
    lemma_cat_balanced(a7, bar_sep());
}

/// The right segment never ends inside an escape sequence.
proof fn lemma_right_balanced(e: Editor)
    ensures
        esc_after(right_segment_spec(e), false) == false,
{
    lemma_style_escape_seqs();
    lemma_bar_fragments_plain();
    lemma_dec_rep_plain(e.cursor_y + 1);
    lemma_dec_rep_plain(e.content@.len() as int);
    lemma_dec_rep_plain(e.cursor_x + 1);
    let a1 = info_fg_seq();
    let a2 = a1 + transparent_bg_seq();
    let a3 = a2 + seq!['L', 'n', ' '];
    let a4 = a3 + crate::text::dec_rep(e.cursor_y + 1);
    let a5 = a4 + seq!['/'];
    let a6 = a5 + crate::text::dec_rep(e.content@.len() as int);
    let a7 = a6 + seq![' ', 'C', 'o', 'l', ' '];
    lemma_piece_escape(info_fg_seq());
    lemma_piece_escape(transparent_bg_seq());
    lemma_cat_balanced(a1, transparent_bg_seq());
    lemma_piece_plain(seq!['L', 'n', ' ']);
    lemma_cat_balanced(a2, seq!['L', 'n', ' ']);
    lemma_piece_plain(crate::text::dec_rep(e.cursor_y + 1));
    lemma_cat_balanced(a3, crate::text::dec_rep(e.cursor_y + 1));
    lemma_piece_plain(seq!['/']);
    lemma_cat_balanced(a4, seq!['/']);
    lemma_piece_plain(crate::text::dec_rep(e.content@.len() as int));
    lemma_cat_balanced(a5, crate::text::dec_rep(e.content@.len() as int));
    lemma_piece_plain(seq![' ', 'C', 'o', 'l', ' ']);
    lemma_cat_balanced(a6, seq![' ', 'C', 'o', 'l', ' ']);
    lemma_piece_plain(crate::text::dec_rep(e.cursor_x + 1));
    lemma_cat_balanced(a7, crate::text::dec_rep(e.cursor_x + 1));
}

/// The middle content never ends inside an escape sequence, and its measure
/// is never negative.
proof fn lemma_middle_content_balanced(e: Editor)
    requires
        plain(e.status_msg@),
        plain(e.command_buffer@),
    ensures
        esc_after(middle_content_spec(e), false) == false,
        vis_len(middle_content_spec(e)) >= 0,
{
    lemma_style_escape_seqs();
    lemma_bar_fragments_plain();
    lemma_vis_nonneg(middle_content_spec(e), false);
    if e.status_msg@.len() > 0 {
        let a1 = msg_fg_seq();
        let a2 = a1 + transparent_bg_seq();
        lemma_piece_escape(msg_fg_seq());
        lemma_piece_escape(transparent_bg_seq());
        lemma_cat_balanced(a1, transparent_bg_seq());
        lemma_piece_plain(e.status_msg@);
        lemma_cat_balanced(a2, e.status_msg@);
    } else if e.show_command {
        let a1 = cmd_fg_seq();
        let a2 = a1 + transparent_bg_seq();
        let a3 = a2 + seq![':'];
        lemma_piece_escape(cmd_fg_seq());
        lemma_piece_escape(transparent_bg_seq());
        lemma_cat_balanced(a1, transparent_bg_seq());
        lemma_piece_plain(seq![':']);
        lemma_cat_balanced(a2, seq![':']);
        lemma_piece_plain(e.command_buffer@);
        lemma_cat_balanced(a3, e.command_buffer@);
    }
}

/// The middle segment fills the available room exactly.
proof fn lemma_middle_segment_vis(e: Editor)
    requires
        plain(e.status_msg@),
        plain(e.command_buffer@),
    ensures
        vis_len(middle_segment_spec(e)) == avail_spec(e),
        esc_after(middle_segment_spec(e), false) == false,
{
    let mc = middle_content_spec(e);
    let a = avail_spec(e);
    lemma_middle_content_balanced(e);
    if vis_len(mc) > a {
        let t = trunc_vis_spec(mc, a);
        lemma_trunc_vis_len(mc, a);
        lemma_spaces_vis(a - vis_len(t));
        lemma_cat_balanced(t, crate::text::spaces(a - vis_len(t)));
    } else {
        lemma_spaces_vis(a - vis_len(mc));
        lemma_cat_balanced(mc, crate::text::spaces(a - vis_len(mc)));
    }
}

/// The law of the bar: as long as the filename, the status message and the
/// command line contain no escape character of their own, the status bar's
/// visible width is exactly the terminal width.
pub proof fn lemma_status_bar_width(e: Editor)
    requires
        e.wf(),
        plain(filename_display(e)),
        plain(e.status_msg@),
        plain(e.command_buffer@),
    ensures
        vis_len(status_bar_spec(e)) == e.screen_cols,
{
    let l = left_segment_spec(e);
    let m = middle_segment_spec(e);
    let r = right_segment_spec(e);
    let pad = crate::text::spaces(e.screen_cols - (vis_len(l) + vis_len(m) + vis_len(r)));
    let full = l + m + r + pad;
    lemma_left_balanced(e);
    lemma_right_balanced(e);
    lemma_middle_segment_vis(e);
    lemma_vis_nonneg(l, false);
    lemma_vis_nonneg(r, false);
    lemma_cat_balanced(l, m);
    lemma_cat_balanced(l + m, r);
    lemma_spaces_vis(e.screen_cols - (vis_len(l) + vis_len(m) + vis_len(r)));
    lemma_cat_balanced(l + m + r, pad);
    let bar_body = if vis_len(full) > e.screen_cols {
        trunc_vis_spec(full, e.screen_cols as int)
    } else {
        full
    };
    if vis_len(full) > e.screen_cols {
        lemma_trunc_vis_len(full, e.screen_cols as int);
    }
    lemma_reset_escape_seq();
    lemma_vis_concat(bar_body, reset_seq(), false);
    lemma_vis_escape_seq(reset_seq(), esc_after(bar_body, false));
}

/// The number of characters of `s` that are printable: characters inside
/// color or style escape sequences have no width on the screen.
pub fn visible_length(s: &Vec<char>) -> (r: usize)
    ensures
        r as int == vis_len(s@),
{
    let n = s.len();
    let mut r: usize = 0;
    let mut in_escape = false;
    let mut i: usize = 0;
    proof {
        assert(s@.skip(0) =~= s@);
    }
    while i < n
        invariant
            i <= n,
            n == s@.len(),
            r <= i,
            vis_len(s@) == r + vis_len_from(s@.skip(i as int), in_escape),
        decreases n - i,
    {
        proof {
            assert(s@.skip(i as int)[0] == s@[i as int]);
            assert(s@.skip(i as int).drop_first() =~= s@.skip(i as int + 1));
        }
        let c = s[i];
        if c == '\u{1b}' {
            in_escape = true;
        } else if in_escape {
            if c == 'm' {
                in_escape = false;
            }
        } else {
            r = r + 1;
        }
        i = i + 1;
    }
    r
}

/// The longest prefix of `s` with at most `max_len` printable characters,
/// escape sequences kept whole; a truncated result that does not already end
/// with the reset sequence gets one appended so styling cannot bleed past
/// the cut.
pub fn truncate_visible(s: &Vec<char>, max_len: usize) -> (r: Vec<char>)
    ensures
        r@ == trunc_vis_spec(s@, max_len as int),
{
    let n = s.len();
    let mut result: Vec<char> = Vec::new();
    let mut current_len: usize = 0;
    let mut in_escape = false;
    let mut current_escape: Vec<char> = Vec::new();
    let mut i: usize = 0;
    proof {
        assert(s@.skip(0) =~= s@);
        assert(Seq::<char>::empty() + trunc_go(s@, max_len as int, false, Seq::empty())
            =~= trunc_go(s@, max_len as int, false, Seq::empty()));
    }
    while i < n && current_len < max_len
        invariant
            i <= n,
            n == s@.len(),
            current_len <= max_len,
            trunc_go(s@, max_len as int, false, Seq::empty()) == result@ + trunc_go(
                s@.skip(i as int),
                max_len - current_len,
                in_escape,
                current_escape@,
            ),
            vis_len(result@) == current_len,
            esc_after(result@, false) == false,
            in_escape ==> vis_len_from(current_escape@, false) == 0 && esc_after(
                current_escape@,
                false,
            ) == true,
            !in_escape ==> current_escape@.len() == 0,
        decreases n - i,
    {
        proof {
            assert(s@.skip(i as int)[0] == s@[i as int]);
            assert(s@.skip(i as int).drop_first() =~= s@.skip(i as int + 1));
        }
        let c = s[i];
        if c == '\u{1b}' {
            let ghost pend = current_escape@;
            let ghost was_escape = in_escape;
            current_escape.push(c);
            in_escape = true;
            proof {
                assert(current_escape@ =~= pend + seq!['\u{1b}']);
                lemma_vis_concat(pend, seq!['\u{1b}'], false);
                lemma_vis_single('\u{1b}', true);
                lemma_vis_single('\u{1b}', false);
                if !was_escape {
                    assert(pend =~= Seq::<char>::empty());
                    assert(pend + seq!['\u{1b}'] =~= seq!['\u{1b}']);
                }
            }
        } else if in_escape {
            let ghost pend = current_escape@;
            current_escape.push(c);
            proof {
                assert(current_escape@ =~= pend + seq![c]);
                lemma_vis_concat(pend, seq![c], false);
                lemma_vis_single(c, true);
            }
            if c == 'm' {
                let ghost res = result@;
                let ghost flushed = current_escape@;
                crate::text::append_chars(&mut result, &current_escape);
                current_escape = Vec::new();
                in_escape = false;
                proof {
                    assert(result@ == res + flushed);
                    assert(res + (flushed + trunc_go(
                        s@.skip(i as int + 1),
                        max_len - current_len,
                        false,
                        Seq::empty(),
                    )) =~= (res + flushed) + trunc_go(
                        s@.skip(i as int + 1),
                        max_len - current_len,
                        false,
                        Seq::empty(),
                    ));
                    lemma_vis_concat(res, flushed, false);
                    lemma_vis_single('m', true);
                    lemma_vis_concat(pend, seq!['m'], false);
                    assert(flushed =~= pend + seq!['m']);
                }
            }
        } else {
            let ghost res = result@;
            result.push(c);
            current_len = current_len + 1;
            proof {
                assert(result@ =~= res + seq![c]);
                assert(res + (seq![c] + trunc_go(
                    s@.skip(i as int + 1),
                    max_len - current_len,
                    false,
                    current_escape@,
                )) =~= (res + seq![c]) + trunc_go(
                    s@.skip(i as int + 1),
                    max_len - current_len,
                    false,
                    current_escape@,
                ));
                lemma_vis_concat(res, seq![c], false);
                lemma_vis_single(c, false);
            }
        }
        i = i + 1;
    }
    proof {
        if i == n {
            assert(s@.skip(i as int) =~= Seq::<char>::empty());
        }
        assert(trunc_go(s@, max_len as int, false, Seq::empty()) == result@);
    }
    if current_len >= max_len && !ends_with_reset_exec(&result) {
        result.push('\u{1b}');
        result.push('[');
        result.push('0');
        result.push('m');
        proof {
            assert(result@ =~= trunc_go(s@, max_len as int, false, Seq::empty()) + reset_seq());
        }
    }
    result
}

/// The reset sequence, as characters.
fn reset_chars() -> (r: Vec<char>)
    ensures
        r@ == reset_seq(),
{
    let mut r: Vec<char> = Vec::new();
    r.push('\u{1b}');
    r.push('[');
    r.push('0');
    r.push('m');
    proof {
        assert(r@ =~= reset_seq());
    }
    r
}

/// An eleven-character color sequence `ESC [ 3 a ; 5 ; b c d m`.
fn color_chars(a: char, b: char, c: char, d: char) -> (r: Vec<char>)
    ensures
        r@ == seq!['\u{1b}', '[', '3', a, ';', '5', ';', b, c, d, 'm'],
{
    let mut r: Vec<char> = Vec::new();
    r.push('\u{1b}');
    r.push('[');
    r.push('3');
    r.push(a);
    r.push(';');
    r.push('5');
    r.push(';');
    r.push(b);
    r.push(c);
    r.push(d);
    r.push('m');
    proof {
        assert(r@ =~= seq!['\u{1b}', '[', '3', a, ';', '5', ';', b, c, d, 'm']);
    }
    r
}

/// The transparent-background sequence, as characters.
fn transparent_bg_chars() -> (r: Vec<char>)
    ensures
        r@ == transparent_bg_seq(),
{
    let mut r: Vec<char> = Vec::new();
    r.push('\u{1b}');
    r.push('[');
    r.push('4');
    r.push('9');
    r.push('m');
    proof {
        assert(r@ =~= transparent_bg_seq());
    }
    r
}

/// The name of a mode, as characters.
fn mode_name_chars(m: crate::editor::Mode) -> (r: Vec<char>)
    ensures
        r@ == mode_name(m),
{
    let mut r: Vec<char> = Vec::new();
    match m {
        crate::editor::Mode::Normal => {
            r.push('N');
            r.push('O');
            r.push('R');
            r.push('M');
            r.push('A');
            r.push('L');
            proof {
                assert(r@ =~= mode_name(m));
            }
        },
        crate::editor::Mode::Insert => {
            r.push('I');
            r.push('N');
            r.push('S');
            r.push('E');
            r.push('R');
            r.push('T');
            proof {
                assert(r@ =~= mode_name(m));
            }
        },
        crate::editor::Mode::Command => {
            r.push('C');
            r.push('O');
            r.push('M');
            r.push('M');
            r.push('A');
            r.push('N');
            r.push('D');
            proof {
                assert(r@ =~= mode_name(m));
            }
        },
    }
    r
}

/// The field separator of the bar, as characters.
fn sep_chars() -> (r: Vec<char>)
    ensures
        r@ == bar_sep(),
{
    let mut r: Vec<char> = Vec::new();
    r.push(' ');
    r.push('-');
    r.push('-');
    r.push(' ');
    proof {
        assert(r@ =~= bar_sep());
    }
    r
}

/// The placeholder shown when no filename is set, as characters.
fn no_name_chars() -> (r: Vec<char>)
    ensures
        r@ == seq!['[', 'N', 'o', ' ', 'N', 'a', 'm', 'e', ']'],
{
    let mut r: Vec<char> = Vec::new();
    r.push('[');
    r.push('N');
    r.push('o');
    r.push(' ');
    r.push('N');
    r.push('a');
    r.push('m');
    r.push('e');
    r.push(']');
    proof {
        assert(r@ =~= seq!['[', 'N', 'o', ' ', 'N', 'a', 'm', 'e', ']']);
    }
    r
}

impl Editor {
    /// Compose the status bar from the current state: colored filename and
    /// mode on the left, the status message or echoed command line in the
    /// middle (escape-aware truncated and padded to the remaining room), the
    /// cursor position on the right, the whole bar cut and padded to span
    /// exactly the terminal width, and a closing style reset. When the
    /// filename, status message and command line hold no escape characters
    /// of their own, the bar's visible width equals the terminal width.
    pub fn build_status_bar(&self) -> (r: Vec<char>)
        requires
            self.wf(),
        ensures
            r@ == status_bar_spec(*self),
            plain(filename_display(*self)) && plain(self.status_msg@) && plain(
                self.command_buffer@,
            ) ==> vis_len(r@) == self.screen_cols,
    {
        let mut left = color_chars('8', '2', '3', '1');
        match &self.filename {
            Some(f) => {
                append_chars(&mut left, f);
            },
            None => {
                let nn = no_name_chars();
                append_chars(&mut left, &nn);
            },
        }
        proof {
            assert(left@ == filename_fg_seq() + filename_display(*self));
        }
        let rs = reset_chars();
        let sep = sep_chars();
        append_chars(&mut left, &rs);
        append_chars(&mut left, &sep);
        let mf = color_chars('5', '2', '1', '3');
        append_chars(&mut left, &mf);
        let mn = mode_name_chars(self.mode);
        append_chars(&mut left, &mn);
        append_chars(&mut left, &rs);
        append_chars(&mut left, &sep);
        proof {
            assert(left@ == left_segment_spec(*self));
        }
        let mut right = color_chars('8', '2', '5', '5');
        let tb = transparent_bg_chars();
        append_chars(&mut right, &tb);
        right.push('L');
        right.push('n');
        right.push(' ');
        proof {
            assert(right@ =~= info_fg_seq() + transparent_bg_seq() + seq!['L', 'n', ' ']);
        }
        let d1 = crate::text::fmt_u128(self.cursor_y as u128 + 1);
        append_chars(&mut right, &d1);
        right.push('/');
        proof {
            assert(right@ =~= info_fg_seq() + transparent_bg_seq() + seq!['L', 'n', ' ']
                + crate::text::dec_rep(self.cursor_y + 1) + seq!['/']);
        }
        let d2 = crate::text::fmt_u128(self.content.len() as u128);
        append_chars(&mut right, &d2);
        right.push(' ');
        right.push('C');
        right.push('o');
        right.push('l');
        right.push(' ');
        proof {
            assert(right@ =~= info_fg_seq() + transparent_bg_seq() + seq!['L', 'n', ' ']
                + crate::text::dec_rep(self.cursor_y + 1) + seq!['/'] + crate::text::dec_rep(
                self.content@.len() as int,
            ) + seq![' ', 'C', 'o', 'l', ' ']);
        }
        let d3 = crate::text::fmt_u128(self.cursor_x as u128 + 1);
        append_chars(&mut right, &d3);
        proof {
            assert(right@ == right_segment_spec(*self));
        }
        let mut mc: Vec<char> = Vec::new();
        if self.status_msg.len() > 0 {
            mc = color_chars('8', '2', '2', '0');
            append_chars(&mut mc, &tb);
            append_chars(&mut mc, &self.status_msg);
            proof {
                assert(mc@ == middle_content_spec(*self));
            }
        } else if self.show_command {
            mc = color_chars('8', '1', '1', '7');
            append_chars(&mut mc, &tb);
            mc.push(':');
            proof {
                assert(mc@ =~= cmd_fg_seq() + transparent_bg_seq() + seq![':']);
            }
            append_chars(&mut mc, &self.command_buffer);
            proof {
                assert(mc@ == middle_content_spec(*self));
            }
        } else {
            proof {
                assert(mc@ =~= middle_content_spec(*self));
            }
        }
        let left_len = visible_length(&left);
        let right_len = visible_length(&right);
        let mut avail = self.screen_cols;
        avail = if avail > left_len {
            avail - left_len
        } else {
            0
        };
        avail = if avail > right_len {
            avail - right_len
        } else {
            0
        };
        proof {
            assert(avail as int == avail_spec(*self));
        }
        let mvis = visible_length(&mc);
        let mut middle: Vec<char>;
        if mvis > avail {
            let t = truncate_visible(&mc, avail);
            let tvis = visible_length(&t);
            middle = t;
            let pad = if avail > tvis {
                avail - tvis
            } else {
                0
            };
            let sp = crate::text::spaces_chars(pad);
            append_chars(&mut middle, &sp);
            proof {
                assert(crate::text::spaces(pad as int) =~= crate::text::spaces(
                    avail - tvis as int,
                ));
                assert(middle@ == middle_segment_spec(*self));
            }
        } else {
            let sp = crate::text::spaces_chars(avail - mvis);
            middle = mc;
            append_chars(&mut middle, &sp);
            proof {
                assert(middle@ == middle_segment_spec(*self));
            }
        }
        let mid_vis = visible_length(&middle);
        let mut full = left;
        append_chars(&mut full, &middle);
        append_chars(&mut full, &right);
        let mut pad2 = self.screen_cols;
        pad2 = if pad2 > left_len {
            pad2 - left_len
        } else {
            0
        };
        pad2 = if pad2 > mid_vis {
            pad2 - mid_vis
        } else {
            0
        };
        pad2 = if pad2 > right_len {
            pad2 - right_len
        } else {
            0
        };
        let sp2 = crate::text::spaces_chars(pad2);
        append_chars(&mut full, &sp2);
        proof {
            assert(crate::text::spaces(pad2 as int) =~= crate::text::spaces(
                self.screen_cols - (vis_len(left_segment_spec(*self)) + vis_len(
                    middle_segment_spec(*self),
                ) + vis_len(right_segment_spec(*self))),
            ));
        }
        let fvis = visible_length(&full);
        let mut bar: Vec<char>;
        if fvis > self.screen_cols {
            bar = truncate_visible(&full, self.screen_cols);
        } else {
            bar = full;
        }
        let rs2 = reset_chars();
        append_chars(&mut bar, &rs2);
        proof {
            assert(bar@ == status_bar_spec(*self));
            if plain(filename_display(*self)) && plain(self.status_msg@) && plain(
                self.command_buffer@,
            ) {
                lemma_status_bar_width(*self);
            }
        }
        bar
    }
}

/// The abstract frame a terminal backend draws: for each content row a
/// gutter cell and the visible slice of the document line, the status bar,
/// the gutter width, and the 1-based target cursor cell.
pub struct Frame {
    pub gutter: Vec<Vec<char>>,
    pub rows: Vec<Vec<char>>,
    pub status: Vec<char>,
    pub gutter_width: usize,
    pub cursor_row: usize,
    pub cursor_col: usize,
}

/// The width of the line-number gutter: the digit count of the last line
/// number, or zero when the gutter is off.
pub open spec fn gutter_width_spec(e: Editor) -> int {
    if e.show_line_numbers {
        crate::text::dec_rep(e.content@.len() as int).len() as int
    } else {
        0
    }
}

/// A gutter cell: the 1-based line number right-aligned in the gutter
/// width, followed by one space.
pub open spec fn gutter_cell_spec(ln: int, w: int) -> Seq<char> {
    crate::text::spaces(w - crate::text::dec_rep(ln).len()) + crate::text::dec_rep(ln) + seq![' ']
}

/// The visible slice of document row `dr`: the line from the column offset
/// on, clipped to the width left of the gutter; empty when the line ends
/// before the offset.
pub open spec fn row_slice_spec(e: Editor, dr: int) -> Seq<char> {
    let line = e.doc()[dr];
    let start = e.offset_x as int;
    let w = if e.screen_cols >= gutter_width_spec(e) {
        e.screen_cols - gutter_width_spec(e)
    } else {
        0
    };
    if start < line.len() {
        line.subrange(
            start,
            if start + w <= line.len() {
                start + w
            } else {
                line.len() as int
            },
        )
    } else {
        Seq::empty()
    }
}

impl Editor {
    /// Compose the frame for the current state: one gutter cell and one
    /// visible text slice per content row (blank beyond the end of the
    /// document), the status bar, and the target cursor cell offset past
    /// the gutter, with the row clamped to the content area. The viewport
    /// must already contain the cursor: reconcile it first.
    pub fn render(&self) -> (f: Frame)
        requires
            self.wf(),
            self.viewport_ok(),
        ensures
            f.rows@.len() == self.screen_rows,
            f.gutter@.len() == self.screen_rows,
            forall|r: int|
                0 <= r < self.screen_rows ==> #[trigger] f.rows@[r]@ == (if r + self.offset_y
                    < self.content@.len() {
                    row_slice_spec(*self, r + self.offset_y)
                } else {
                    Seq::<char>::empty()
                }),
            forall|r: int|
                0 <= r < self.screen_rows ==> #[trigger] f.gutter@[r]@ == (if self.show_line_numbers
                    && r + self.offset_y < self.content@.len() {
                    gutter_cell_spec(r + self.offset_y + 1, gutter_width_spec(*self))
                } else {
                    Seq::<char>::empty()
                }),
            f.status@ == status_bar_spec(*self),
            f.gutter_width as int == gutter_width_spec(*self),
            f.cursor_row as int == (if self.cursor_y - self.offset_y + 1 <= self.screen_rows {
                self.cursor_y - self.offset_y + 1
            } else {
                self.screen_rows as int
            }),
            f.cursor_col as int == self.cursor_x - self.offset_x + (if self.show_line_numbers {
                gutter_width_spec(*self) + 2
            } else {
                1
            }),
    {
        let n = self.content.len();
        let gw: usize = if self.show_line_numbers {
            let digits = crate::text::fmt_u128(n as u128);
            digits.len()
        } else {
            0
        };
        let mut gutter: Vec<Vec<char>> = Vec::new();
        let mut rows: Vec<Vec<char>> = Vec::new();
        let mut r: usize = 0;
        while r < self.screen_rows
            invariant
                r <= self.screen_rows,
                n == self.content@.len(),
                self.wf(),
                gw as int == gutter_width_spec(*self),
                rows@.len() == r,
                gutter@.len() == r,
                forall|j: int|
                    0 <= j < r ==> #[trigger] rows@[j]@ == (if j + self.offset_y
                        < self.content@.len() {
                        row_slice_spec(*self, j + self.offset_y)
                    } else {
                        Seq::<char>::empty()
                    }),
                forall|j: int|
                    0 <= j < r ==> #[trigger] gutter@[j]@ == (if self.show_line_numbers && j
                        + self.offset_y < self.content@.len() {
                        gutter_cell_spec(j + self.offset_y + 1, gutter_width_spec(*self))
                    } else {
                        Seq::<char>::empty()
                    }),
            decreases self.screen_rows - r,
        {
            if self.offset_y < n && r < n - self.offset_y {
                let dr = self.offset_y + r;
                if self.show_line_numbers {
                    let num = crate::text::fmt_u128(dr as u128 + 1);
                    let pad = if gw > num.len() {
                        gw - num.len()
                    } else {
                        0
                    };
                    let mut cell = crate::text::spaces_chars(pad);
                    append_chars(&mut cell, &num);
                    cell.push(' ');
                    proof {
                        assert(crate::text::spaces(pad as int) =~= crate::text::spaces(
                            gw - crate::text::dec_rep(dr + 1).len(),
                        ));
                        assert(cell@ =~= gutter_cell_spec(dr + 1, gw as int));
                    }
                    gutter.push(cell);
                } else {
                    gutter.push(Vec::new());
                }
                let line = &self.content[dr];
                let ll = line.len();
                let start = self.offset_x;
                let w = if self.screen_cols > gw {
                    self.screen_cols - gw
                } else {
                    0
                };
                if start < ll {
                    let end = if ll - start <= w {
                        ll
                    } else {
                        start + w
                    };
                    let slice = crate::text::subrange_chars(line, start, end);
                    proof {
                        assert(slice@ == row_slice_spec(*self, dr as int));
                    }
                    rows.push(slice);
                } else {
                    proof {
                        assert(Seq::<char>::empty() =~= row_slice_spec(*self, dr as int));
                    }
                    rows.push(Vec::new());
                }
            } else {
                gutter.push(Vec::new());
                rows.push(Vec::new());
            }
            r = r + 1;
        }
        let status = self.build_status_bar();
        let cr0 = self.cursor_y - self.offset_y + 1;
        let cursor_row = if cr0 > self.screen_rows {
            self.screen_rows
        } else {
            cr0
        };
        proof {
            crate::text::lemma_dec_rep_len_usize(n as int);
        }
        let cursor_col = if self.show_line_numbers {
            self.cursor_x - self.offset_x + gw + 2
        } else {
            self.cursor_x - self.offset_x + 1
        };
        Frame { gutter, rows, status, gutter_width: gw, cursor_row, cursor_col }
    }
}

/// Whether styled text already ends with the reset sequence.
fn ends_with_reset_exec(s: &Vec<char>) -> (r: bool)
    ensures
        r == ends_with_reset(s@),
{
    let n = s.len();
    if n < 4 {
        proof {
            assert(!ends_with_reset(s@));
        }
        false
    } else {
        let r = s[n - 4] == '\u{1b}' && s[n - 3] == '[' && s[n - 2] == '0' && s[n - 1] == 'm';
        proof {
            let tail = s@.subrange(n - 4, n as int);
            assert(tail.len() == 4);
            assert(tail[0] == s@[n - 4] && tail[1] == s@[n - 3] && tail[2] == s@[n - 2] && tail[3]
                == s@[n - 1]);
            if r {
                assert(tail =~= reset_seq());
            } else {
                assert(tail != reset_seq());
            }
        }
        r
    }
}

} // verus!
