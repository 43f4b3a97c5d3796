//! Splitting a unit's script into the statements that are executed.
//!
//! The split is by the delimiter alone. It does not know of quoted strings,
//! comments or procedural blocks: a delimiter inside one of them ends a
//! statement like any other.

use crate::text::{split_on, split_trimmed, texts, trim_all};
use vstd::prelude::*;

verus! {

/// The character that ends a statement.
pub open spec fn delimiter() -> char {
    ';'
}

/// The pieces that are not empty, in order.
pub open spec fn non_empty(pieces: Seq<Seq<char>>) -> Seq<Seq<char>> {
    pieces.filter(|p: Seq<char>| p.len() > 0)
}

/// The statements of `script`: its pieces between delimiters, each trimmed,
/// without those that are empty once trimmed.
pub open spec fn statements_of(script: Seq<char>) -> Seq<Seq<char>> {
    non_empty(trim_all(split_on(script, delimiter())))
}

/// A piece added at the end is kept if and only if it is not empty.
pub proof fn lemma_non_empty_push(pieces: Seq<Seq<char>>, p: Seq<char>)
    ensures
        non_empty(pieces.push(p)) == if p.len() > 0 {
            non_empty(pieces).push(p)
        } else {
            non_empty(pieces)
        },
{
    pieces.lemma_filter_push(p, |p: Seq<char>| p.len() > 0);
}

/// No statement is empty: what is left of a piece once it is trimmed is
/// executed only if anything is left.
pub proof fn lemma_statements_not_empty(script: Seq<char>, i: int)
    requires
        0 <= i < statements_of(script).len(),
    ensures
        statements_of(script)[i].len() > 0,
{
    let pred = |p: Seq<char>| p.len() > 0;
    trim_all(split_on(script, delimiter())).lemma_filter_pred(pred, i);
}

/// The statements of `script`, in the order in which they stand in it.
pub fn split_statements(script: &str) -> (out: Vec<String>)
    ensures
        texts(out@) == statements_of(script@),
{
    let pieces = split_trimmed(script, ';');
    let n: usize = pieces.len();
    let mut out: Vec<String> = Vec::new();
    let mut i: usize = 0;
    proof {
        assert(texts(pieces@).take(0) =~= Seq::<Seq<char>>::empty());
        assert(non_empty(Seq::<Seq<char>>::empty()) =~= Seq::<Seq<char>>::empty()) by {
            reveal(Seq::filter);
        }
        assert(texts(out@) =~= Seq::<Seq<char>>::empty());
    }
    while i < n
        invariant
            n == pieces@.len(),
            i <= n,
            texts(out@) == non_empty(texts(pieces@).take(i as int)),
        decreases n - i,
    {
        let piece = pieces[i].clone();
        proof {
            let all = texts(pieces@);
            assert(all.take(i + 1) =~= all.take(i as int).push(piece@));
            lemma_non_empty_push(all.take(i as int), piece@);
            assert(texts(out@.push(piece)) =~= texts(out@).push(piece@));
        }
        if !piece.as_str().is_empty() {
            out.push(piece);
        }
        i += 1;
    }
    proof {
        assert(texts(pieces@).take(n as int) =~= texts(pieces@));
    }
    out
}

} // verus!
