//! Character-sequence utilities: string-to-characters conversion, decimal
//! formatting and padding, shared by the status-setting and rendering paths.

use vstd::prelude::*;

verus! {

/// The characters of a string slice, as a vector.
pub fn str_to_chars(s: &str) -> (r: Vec<char>)
    ensures
        r@ == s@,
{
    let mut r: Vec<char> = Vec::new();
    for c in it: s.chars()
        invariant
            r@ == it.seq().subrange(0, it.index() as int),
            it.seq() == s@,
    {
        r.push(c);
    }
    assert(r@ =~= s@);
    r
}

/// Append the characters of `src` to `dst`.
pub fn append_chars(dst: &mut Vec<char>, src: &Vec<char>)
    ensures
        final(dst)@ == old(dst)@ + src@,
{
    let n = src.len();
    let mut i: usize = 0;
    while i < n
        invariant
            i <= n,
            n == src@.len(),
            dst@ == old(dst)@ + src@.subrange(0, i as int),
        decreases n - i,
    {
        dst.push(src[i]);
        proof {
            assert((old(dst)@ + src@.subrange(0, i as int)).push(src@[i as int]) =~= old(dst)@
                + src@.subrange(0, i as int + 1));
        }
        i = i + 1;
    }
    proof {
        assert(src@.subrange(0, n as int) =~= src@);
    }
}

/// The characters of `v` between `a` (inclusive) and `b` (exclusive).
pub fn subrange_chars(v: &Vec<char>, a: usize, b: usize) -> (r: Vec<char>)
    requires
        a <= b <= v@.len(),
    ensures
        r@ == v@.subrange(a as int, b as int),
{
    let mut r: Vec<char> = Vec::new();
    let mut i: usize = a;
    while i < b
        invariant
            a <= i <= b <= v@.len(),
            r@ == v@.subrange(a as int, i as int),
        decreases b - i,
    {
        r.push(v[i]);
        proof {
            assert(v@.subrange(a as int, i as int).push(v@[i as int]) =~= v@.subrange(
                a as int,
                i as int + 1,
            ));
        }
        i = i + 1;
    }
    r
}

/// The decimal digit characters.
pub open spec fn digit_char(d: int) -> char {
    if d == 0 {
        '0'
    } else if d == 1 {
        '1'
    } else if d == 2 {
        '2'
    } else if d == 3 {
        '3'
    } else if d == 4 {
        '4'
    } else if d == 5 {
        '5'
    } else if d == 6 {
        '6'
    } else if d == 7 {
        '7'
    } else if d == 8 {
        '8'
    } else {
        '9'
    }
}

/// The decimal representation of a nonnegative number, most significant
/// digit first, with no leading zeros (zero itself is one digit).
pub open spec fn dec_rep(n: int) -> Seq<char>
    decreases n,
{
    if n <= 9 {
        seq![digit_char(n)]
    } else {
        dec_rep(n / 10).push(digit_char(n % 10))
    }
}

/// Powers of ten.
pub open spec fn pow10(k: nat) -> int
    decreases k,
{
    if k == 0 {
        1
    } else {
        10 * pow10((k - 1) as nat)
    }
}

/// A number below the `k`-th power of ten has at most `k` decimal digits.
pub proof fn lemma_dec_rep_len_bound(n: int, k: nat)
    requires
        0 <= n < pow10(k),
        k >= 1,
    ensures
        dec_rep(n).len() <= k,
    decreases k,
{
    if n <= 9 {
    } else {
        assert(pow10(k) == 10 * pow10((k - 1) as nat));
        lemma_dec_rep_len_bound(n / 10, (k - 1) as nat);
    }
}

/// Every machine-sized number has at most twenty decimal digits.
pub proof fn lemma_dec_rep_len_usize(n: int)
    requires
        0 <= n <= usize::MAX,
    ensures
        dec_rep(n).len() <= 20,
{
    assert(pow10(20) == 100000000000000000000) by {
        reveal_with_fuel(pow10, 21);
    }
    lemma_dec_rep_len_bound(n, 20);
}

/// One decimal digit as a character.
pub fn digit_to_char(d: usize) -> (c: char)
    requires
        d < 10,
    ensures
        c == digit_char(d as int),
{
    if d == 0 {
        '0'
    } else if d == 1 {
        '1'
    } else if d == 2 {
        '2'
    } else if d == 3 {
        '3'
    } else if d == 4 {
        '4'
    } else if d == 5 {
        '5'
    } else if d == 6 {
        '6'
    } else if d == 7 {
        '7'
    } else if d == 8 {
        '8'
    } else {
        '9'
    }
}

/// The decimal representation of a number, as characters.
pub fn fmt_u128(n: u128) -> (r: Vec<char>)
    ensures
        r@ == dec_rep(n as int),
{
    let mut digits: Vec<char> = Vec::new();
    let mut m = n;
    while m > 9
        invariant
            dec_rep(n as int) == dec_rep(m as int) + digits@,
        decreases m,
    {
        let d = digit_to_char((m % 10) as usize);
        let ghost prev = digits@;
        digits.insert(0, d);
        proof {
            assert(digits@ =~= seq![digit_char(m as int % 10)] + prev);
            assert(dec_rep(m as int) == dec_rep(m as int / 10).push(digit_char(m as int % 10)));
            assert(dec_rep(m as int / 10).push(digit_char(m as int % 10)) + prev =~= dec_rep(
                m as int / 10,
            ) + (seq![digit_char(m as int % 10)] + prev));
        }
        m = m / 10;
    }
    let d = digit_to_char(m as usize);
    let ghost prev = digits@;
    digits.insert(0, d);
    proof {
        assert(digits@ =~= seq![digit_char(m as int)] + prev);
        assert(dec_rep(m as int) =~= seq![digit_char(m as int)]);
        assert(seq![digit_char(m as int)] + prev =~= dec_rep(m as int) + prev);
    }
    digits
}

/// A run of `n` spaces.
pub open spec fn spaces(n: int) -> Seq<char> {
    Seq::new(
        if n >= 0 {
            n as nat
        } else {
            0
        },
        |i: int| ' ',
    )
}

/// A run of `n` spaces, as characters.
pub fn spaces_chars(n: usize) -> (r: Vec<char>)
    ensures
        r@ == spaces(n as int),
{
    let mut r: Vec<char> = Vec::new();
    let mut i: usize = 0;
    while i < n
        invariant
            i <= n,
            r@ == spaces(i as int),
        decreases n - i,
    {
        r.push(' ');
        proof {
            assert(spaces(i as int).push(' ') =~= spaces(i as int + 1));
        }
        i = i + 1;
    }
    r
}

/// Whitespace for the purposes of command trimming.
pub open spec fn is_blank(c: char) -> bool {
    c == ' ' || c == '\t' || c == '\r' || c == '\n'
}

/// The sequence with leading blanks removed.
pub open spec fn trim_front(s: Seq<char>) -> Seq<char>
    decreases s.len(),
{
    if s.len() == 0 {
        s
    } else if is_blank(s[0]) {
        trim_front(s.drop_first())
    } else {
        s
    }
}

/// The sequence with trailing blanks removed.
pub open spec fn trim_back(s: Seq<char>) -> Seq<char>
    decreases s.len(),
{
    if s.len() == 0 {
        s
    } else if is_blank(s[s.len() - 1]) {
        trim_back(s.drop_last())
    } else {
        s
    }
}

/// The sequence with both leading and trailing blanks removed.
pub open spec fn trim_spec(s: Seq<char>) -> Seq<char> {
    trim_back(trim_front(s))
}

/// Trim leading and trailing whitespace.
pub fn trim_chars(v: &Vec<char>) -> (r: Vec<char>)
    ensures
        r@ == trim_spec(v@),
{
    let n = v.len();
    let mut start: usize = 0;
    proof {
        assert(v@.skip(0) =~= v@);
    }
    while start < n && (v[start] == ' ' || v[start] == '\t' || v[start] == '\r' || v[start]
        == '\n')
        invariant
            start <= n,
            n == v@.len(),
            trim_front(v@) == trim_front(v@.skip(start as int)),
        decreases n - start,
    {
        proof {
            assert(v@.skip(start as int)[0] == v@[start as int]);
            assert(v@.skip(start as int).drop_first() =~= v@.skip(start as int + 1));
        }
        start = start + 1;
    }
    proof {
        if start == n {
            assert(v@.skip(start as int) =~= Seq::<char>::empty());
        }
        assert(trim_front(v@) == v@.skip(start as int));
        assert(v@.skip(start as int) =~= v@.subrange(start as int, n as int));
    }
    let mut end: usize = n;
    while end > start && (v[end - 1] == ' ' || v[end - 1] == '\t' || v[end - 1] == '\r' || v[end
        - 1] == '\n')
        invariant
            start <= end <= n,
            n == v@.len(),
            trim_back(v@.subrange(start as int, n as int)) == trim_back(
                v@.subrange(start as int, end as int),
            ),
        decreases end - start,
    {
        proof {
            let cur = v@.subrange(start as int, end as int);
            assert(cur[cur.len() - 1] == v@[end - 1]);
            assert(cur.drop_last() =~= v@.subrange(start as int, end as int - 1));
        }
        end = end - 1;
    }
    proof {
        if end == start {
            assert(v@.subrange(start as int, end as int) =~= Seq::<char>::empty());
        }
        assert(trim_back(v@.subrange(start as int, end as int)) == v@.subrange(
            start as int,
            end as int,
        ));
    }
    subrange_chars(v, start, end)
}

} // verus!
