//! Characters and character sequences: white space, trimming, and splitting
//! at a delimiter.

use vstd::prelude::*;

verus! {

/// Whether `c` is white space: a code point that Unicode marks as
/// `White_Space`.
pub open spec fn is_space(c: char) -> bool {
    let u = c as u32;
    ||| 0x09 <= u <= 0x0D
    ||| u == 0x20
    ||| u == 0x85
    ||| u == 0xA0
    ||| u == 0x1680
    ||| 0x2000 <= u <= 0x200A
    ||| u == 0x2028
    ||| u == 0x2029
    ||| u == 0x202F
    ||| u == 0x205F
    ||| u == 0x3000
}

/// Decides `is_space`.
pub fn char_is_space(c: char) -> (b: bool)
    ensures
        b == is_space(c),
{
    let u: u32 = c as u32;
    (0x09 <= u && u <= 0x0D) || u == 0x20 || u == 0x85 || u == 0xA0 || u == 0x1680 || (0x2000 <= u
        && u <= 0x200A) || u == 0x2028 || u == 0x2029 || u == 0x202F || u == 0x205F || u == 0x3000
}

/// The characters of `s`, in order.
pub fn chars_of(s: &str) -> (v: Vec<char>)
    ensures
        v@ == s@,
{
    let mut v: Vec<char> = Vec::new();
    for c in it: s.chars()
        invariant
            v@ == it.seq().take(it.index()),
            it.seq() == s@,
    {
        v.push(c);
    }
    v
}

/// `s` without its leading white space.
pub open spec fn trim_start(s: Seq<char>) -> Seq<char>
    decreases s.len(),
{
    if s.len() > 0 && is_space(s[0]) {
        trim_start(s.drop_first())
    } else {
        s
    }
}

/// `s` without its trailing white space.
pub open spec fn trim_end(s: Seq<char>) -> Seq<char>
    decreases s.len(),
{
    if s.len() > 0 && is_space(s.last()) {
        trim_end(s.drop_last())
    } else {
        s
    }
}

/// `s` without its leading and trailing white space.
pub open spec fn trim(s: Seq<char>) -> Seq<char> {
    trim_end(trim_start(s))
}

/// The pieces of `s` between the occurrences of `d`, in order. There is
/// always one piece more than there are delimiters, so pieces may be empty.
/// Read from the end of `s`: a delimiter closes the last piece and opens an
/// empty one, any other character extends the last piece.
pub open spec fn split_on(s: Seq<char>, d: char) -> Seq<Seq<char>>
    decreases s.len(),
{
    if s.len() == 0 {
        seq![Seq::<char>::empty()]
    } else {
        let before = split_on(s.drop_last(), d);
        if s.last() == d {
            before.push(Seq::<char>::empty())
        } else {
            before.drop_last().push(before.last().push(s.last()))
        }
    }
}

/// The pieces with `d` between each two of them.
pub open spec fn join_with(pieces: Seq<Seq<char>>, d: char) -> Seq<char>
    decreases pieces.len(),
{
    if pieces.len() == 0 {
        Seq::empty()
    } else if pieces.len() == 1 {
        pieces[0]
    } else {
        join_with(pieces.drop_last(), d).push(d) + pieces.last()
    }
}

/// Splitting loses nothing and splits wherever it can: no piece holds the
/// delimiter, and the pieces joined by it are the text again.
pub proof fn lemma_split_then_join(s: Seq<char>, d: char)
    ensures
        split_on(s, d).len() >= 1,
        join_with(split_on(s, d), d) == s,
        forall|i: int, j: int|
            0 <= i < split_on(s, d).len() && 0 <= j < split_on(s, d)[i].len() ==> split_on(
                s,
                d,
            )[i][j] != d,
    decreases s.len(),
{
    if s.len() == 0 {
        assert(s =~= Seq::<char>::empty());
    } else {
        let before = split_on(s.drop_last(), d);
        lemma_split_then_join(s.drop_last(), d);
        let now = split_on(s, d);
        if s.last() == d {
            assert(now.drop_last() =~= before);
            assert(join_with(now, d) =~= s.drop_last().push(d));
            assert(s.drop_last().push(d) =~= s);
        } else {
            let grown = before.last().push(s.last());
            assert(now.last() == grown);
            if before.len() == 1 {
                assert(join_with(now, d) =~= s.drop_last().push(s.last()));
            } else {
                assert(now.drop_last() =~= before.drop_last());
                assert(join_with(now, d) =~= (join_with(before.drop_last(), d).push(d)
                    + before.last()).push(s.last()));
            }
            assert(s.drop_last().push(s.last()) =~= s);
        }
    }
}

/// Each piece trimmed.
pub open spec fn trim_all(pieces: Seq<Seq<char>>) -> Seq<Seq<char>> {
    pieces.map_values(|p: Seq<char>| trim(p))
}

/// The strings of `v` as character sequences.
pub open spec fn texts(v: Seq<String>) -> Seq<Seq<char>> {
    v.map_values(|s: String| s@)
}

/// A range of `s` that is bounded by white space on both sides, and neither
/// starts nor ends with white space, is `s` trimmed.
pub proof fn lemma_trim_is_range(s: Seq<char>, lo: int, hi: int)
    requires
        0 <= lo <= hi <= s.len(),
        forall|k: int| 0 <= k < lo ==> is_space(#[trigger] s[k]),
        forall|k: int| hi <= k < s.len() ==> is_space(#[trigger] s[k]),
        lo < hi ==> !is_space(s[lo]) && !is_space(s[hi - 1]),
    ensures
        trim(s) == s.subrange(lo, hi),
{
    lemma_trim_start_is_skip(s, lo, hi);
    lemma_trim_end_is_take(s.skip(lo), hi - lo);
    assert(s.skip(lo).take(hi - lo) =~= s.subrange(lo, hi));
}

proof fn lemma_trim_start_is_skip(s: Seq<char>, lo: int, hi: int)
    requires
        0 <= lo <= hi <= s.len(),
        forall|k: int| 0 <= k < lo ==> is_space(#[trigger] s[k]),
        forall|k: int| hi <= k < s.len() ==> is_space(#[trigger] s[k]),
        lo < hi ==> !is_space(s[lo]),
    ensures
        lo < hi ==> trim_start(s) == s.skip(lo),
        lo == hi ==> trim_start(s).len() == 0,
    decreases s.len(),
{
    if s.len() > 0 && is_space(s[0]) {
        let t = s.drop_first();
        if lo == 0 {
            // nothing but white space from `hi == 0` on
            assert forall|k: int| 0 <= k < t.len() implies is_space(#[trigger] t[k]) by {
                assert(t[k] == s[k + 1]);
            }
            lemma_trim_start_is_skip(t, 0, 0);
        } else {
            assert forall|k: int| 0 <= k < lo - 1 implies is_space(#[trigger] t[k]) by {
                assert(t[k] == s[k + 1]);
            }
            assert forall|k: int| hi - 1 <= k < t.len() implies is_space(#[trigger] t[k]) by {
                assert(t[k] == s[k + 1]);
            }
            lemma_trim_start_is_skip(t, lo - 1, hi - 1);
            assert(t.skip(lo - 1) =~= s.skip(lo));
        }
    } else {
        assert(s.skip(0) =~= s);
    }
}

proof fn lemma_trim_end_is_take(s: Seq<char>, hi: int)
    requires
        0 <= hi <= s.len(),
        forall|k: int| hi <= k < s.len() ==> is_space(#[trigger] s[k]),
        0 < hi ==> !is_space(s[hi - 1]),
    ensures
        trim_end(s) == s.take(hi),
    decreases s.len(),
{
    if s.len() > 0 && is_space(s.last()) {
        let t = s.drop_last();
        lemma_trim_end_is_take(t, hi);
        assert(t.take(hi) =~= s.take(hi));
    } else {
        assert(s.take(hi) =~= s);
    }
}

/// Trimming all of `pieces` and one more is trimming them and adding the
/// trimmed one.
pub proof fn lemma_trim_all_push(pieces: Seq<Seq<char>>, p: Seq<char>)
    ensures
        trim_all(pieces.push(p)) == trim_all(pieces).push(trim(p)),
{
    assert(trim_all(pieces.push(p)) =~= trim_all(pieces).push(trim(p)));
}

/// The bounds of the range `[start, end)` of `chars` once trimmed.
fn trim_range(chars: &Vec<char>, start: usize, end: usize) -> (r: (usize, usize))
    requires
        start <= end <= chars@.len(),
    ensures
        start <= r.0 <= r.1 <= end,
        chars@.subrange(r.0 as int, r.1 as int) == trim(chars@.subrange(start as int, end as int)),
{
    let mut lo: usize = start;
    while lo < end && char_is_space(chars[lo])
        invariant
            start <= lo <= end <= chars@.len(),
            forall|k: int| start <= k < lo ==> is_space(#[trigger] chars@[k]),
        decreases end - lo,
    {
        lo += 1;
    }
    let mut hi: usize = end;
    while hi > lo && char_is_space(chars[hi - 1])
        invariant
            lo <= hi <= end <= chars@.len(),
            forall|k: int| hi <= k < end ==> is_space(#[trigger] chars@[k]),
        decreases hi - lo,
    {
        hi -= 1;
    }
    proof {
        let piece = chars@.subrange(start as int, end as int);
        assert forall|k: int| 0 <= k < lo - start implies is_space(#[trigger] piece[k]) by {
            assert(piece[k] == chars@[k + start]);
        }
        assert forall|k: int| hi - start <= k < piece.len() implies is_space(
            #[trigger] piece[k],
        ) by {
            assert(piece[k] == chars@[k + start]);
        }
        lemma_trim_is_range(piece, lo - start, hi - start);
        assert(piece.subrange(lo - start, hi - start) =~= chars@.subrange(lo as int, hi as int));
    }
    (lo, hi)
}

/// Splits `text` at each `d` and trims every piece.
pub fn split_trimmed(text: &str, d: char) -> (out: Vec<String>)
    ensures
        texts(out@) == trim_all(split_on(text@, d)),
{
    let chars = chars_of(text);
    let n: usize = chars.len();
    let mut out: Vec<String> = Vec::new();
    let mut start: usize = 0;
    let mut i: usize = 0;
    let ghost mut done: Seq<Seq<char>> = Seq::empty();
    proof {
        assert(chars@.take(0) =~= Seq::<char>::empty());
        assert(chars@.subrange(0, 0) =~= Seq::<char>::empty());
        assert(split_on(chars@.take(0), d) =~= done.push(chars@.subrange(0, 0)));
        assert(texts(out@) =~= trim_all(done));
    }
    while i < n
        invariant
            n == chars@.len(),
            chars@ == text@,
            start <= i <= n,
            split_on(chars@.take(i as int), d) == done.push(
                chars@.subrange(start as int, i as int),
            ),
            texts(out@) == trim_all(done),
        decreases n - i,
    {
        let ghost prefix = chars@.take(i as int);
        let ghost current = chars@.subrange(start as int, i as int);
        proof {
            assert(chars@.take(i + 1).drop_last() =~= prefix);
            assert(done.push(current).drop_last() =~= done);
        }
        if chars[i] == d {
            let (lo, hi) = trim_range(&chars, start, i);
            let piece = text.substring_char(lo, hi).to_owned();
            proof {
                lemma_trim_all_push(done, current);
                assert(texts(out@.push(piece)) =~= texts(out@).push(piece@));
                done = done.push(current);
                assert(chars@.subrange(i + 1, i + 1) =~= Seq::<char>::empty());
            }
            out.push(piece);
            start = i + 1;
        } else {
            proof {
                assert(current.push(chars@[i as int]) =~= chars@.subrange(
                    start as int,
                    i + 1,
                ));
            }
        }
        i += 1;
    }
    let (lo, hi) = trim_range(&chars, start, n);
    let piece = text.substring_char(lo, hi).to_owned();
    proof {
        let current = chars@.subrange(start as int, n as int);
        lemma_trim_all_push(done, current);
        assert(texts(out@.push(piece)) =~= texts(out@).push(piece@));
        assert(chars@.take(n as int) =~= chars@);
    }
    out.push(piece);
    out
}

} // verus!
