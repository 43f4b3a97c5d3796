//! The manifest: the units to apply and the units to revert, each list in
//! the order in which it was declared.
//!
//! A manifest is text. Every line is taken trimmed. The lines before the
//! first blank line are the apply order, the lines between the first and the
//! second blank line are the revert order, and nothing after the second
//! blank line is read.

use crate::text::{split_on, split_trimmed, texts, trim_all};
use vstd::prelude::*;

verus! {

/// The two orders of a manifest.
pub struct Manifest {
    pub apply_order: Vec<String>,
    pub revert_order: Vec<String>,
}

/// The lines of `text`, trimmed. A line ending at the very end of the text
/// adds one blank line, which names nothing.
pub open spec fn lines_of(text: Seq<char>) -> Seq<Seq<char>> {
    trim_all(split_on(text, '\n'))
}

/// The index of the first blank line of `lines` at or after `from`, or the
/// number of lines if there is none.
pub open spec fn next_blank(lines: Seq<Seq<char>>, from: int) -> int
    decreases lines.len() - from,
{
    if from < 0 || from >= lines.len() {
        lines.len() as int
    } else if lines[from].len() == 0 {
        from
    } else {
        next_blank(lines, from + 1)
    }
}

/// The names that `text` lists for applying.
pub open spec fn apply_names(text: Seq<char>) -> Seq<Seq<char>> {
    let lines = lines_of(text);
    lines.take(next_blank(lines, 0))
}

/// The names that `text` lists for reverting.
pub open spec fn revert_names(text: Seq<char>) -> Seq<Seq<char>> {
    let lines = lines_of(text);
    let first = next_blank(lines, 0);
    if first >= lines.len() {
        Seq::empty()
    } else {
        lines.subrange(first + 1, next_blank(lines, first + 1))
    }
}

/// `next_blank` is the least index from `from` on that holds a blank line.
pub proof fn lemma_next_blank(lines: Seq<Seq<char>>, from: int, at: int)
    requires
        0 <= from <= at <= lines.len(),
        forall|k: int| from <= k < at ==> (#[trigger] lines[k]).len() > 0,
        at < lines.len() ==> lines[at].len() == 0,
    ensures
        next_blank(lines, from) == at,
    decreases at - from,
{
    if from < at {
        lemma_next_blank(lines, from + 1, at);
    }
}

/// Copies the lines from `from` up to the next blank line, and returns them
/// with the index of that blank line.
fn section(lines: &Vec<String>, from: usize) -> (r: (Vec<String>, usize))
    requires
        from <= lines@.len(),
    ensures
        r.1 == next_blank(texts(lines@), from as int),
        from <= r.1 <= lines@.len(),
        texts(r.0@) == texts(lines@).subrange(from as int, r.1 as int),
{
    let n: usize = lines.len();
    let mut names: Vec<String> = Vec::new();
    let mut i: usize = from;
    let ghost all = texts(lines@);
    proof {
        assert(texts(names@) =~= all.subrange(from as int, from as int));
    }
    while i < n && !lines[i].as_str().is_empty()
        invariant
            n == lines@.len(),
            all == texts(lines@),
            from <= i <= n,
            forall|k: int| from <= k < i ==> (#[trigger] all[k]).len() > 0,
            texts(names@) == all.subrange(from as int, i as int),
        decreases n - i,
    {
        let name = lines[i].clone();
        proof {
            assert(texts(names@.push(name)) =~= texts(names@).push(name@));
            assert(all.subrange(from as int, i + 1) =~= all.subrange(from as int, i as int).push(
                name@,
            ));
        }
        names.push(name);
        i += 1;
    }
    proof {
        lemma_next_blank(all, from as int, i as int);
    }
    (names, i)
}

/// Reads a manifest.
pub fn parse_manifest(text: &str) -> (m: Manifest)
    ensures
        texts(m.apply_order@) == apply_names(text@),
        texts(m.revert_order@) == revert_names(text@),
{
    let lines = split_trimmed(text, '\n');
    let (apply_order, first) = section(&lines, 0);
    proof {
        assert(texts(lines@).take(first as int) =~= texts(lines@).subrange(0, first as int));
    }
    if first >= lines.len() {
        Manifest { apply_order, revert_order: Vec::new() }
    } else {
        let (revert_order, _) = section(&lines, first + 1);
        Manifest { apply_order, revert_order }
    }
}

} // verus!
