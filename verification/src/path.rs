//! The directories in which the shell looks for programs.

use crate::text::{joined, lemma_joined_extend, lemma_joined_push};
use vstd::prelude::*;

verus! {

/// Separates two directories of a search path.
pub const PATH_SEPARATOR: char = ':';

/// The pieces of `text` between the occurrences of `separator`: one more
/// piece than there are separators, and empty where two of them meet or
/// one stands at an end.
pub open spec fn split_at(text: Seq<char>, separator: char) -> Seq<Seq<char>>
    decreases text.len(),
{
    if text.len() == 0 {
        seq![Seq::empty()]
    } else {
        let before = split_at(text.drop_last(), separator);
        if text.last() == separator {
            before.push(Seq::empty())
        } else {
            before.drop_last().push(before.last().push(text.last()))
        }
    }
}

/// There is always a piece.
pub proof fn lemma_split_at_has_pieces(text: Seq<char>, separator: char)
    ensures
        split_at(text, separator).len() > 0,
    decreases text.len(),
{
    if text.len() > 0 {
        lemma_split_at_has_pieces(text.drop_last(), separator);
    }
}

/// Splitting loses nothing but the separators: the pieces, joined by the
/// separator, are the text.
pub proof fn lemma_split_at_round_trip(text: Seq<char>, separator: char)
    ensures
        joined(split_at(text, separator), seq![separator]) == text,
    decreases text.len(),
{
    if text.len() > 0 {
        let shorter = text.drop_last();
        let before = split_at(shorter, separator);
        lemma_split_at_has_pieces(shorter, separator);
        lemma_split_at_round_trip(shorter, separator);
        if text.last() == separator {
            lemma_joined_push(before, Seq::empty(), seq![separator]);
        } else {
            lemma_joined_extend(before, text.last(), seq![separator]);
        }
    }
}

/// The directories that a search path names, in order: the pieces between
/// its colons.
pub fn split_search_path(path: &str) -> (directories: Vec<String>)
    ensures
        directories.deep_view() == split_at(path@, PATH_SEPARATOR),
{
    let mut directories: Vec<String> = Vec::new();
    let mut current = String::new();
    for c in it: path.chars()
        invariant
            it.seq() == path@,
            directories.deep_view().push(current@) == split_at(
                path@.take(it.index()),
                PATH_SEPARATOR,
            ),
    {
        assert(path@.take(it.index() + 1).drop_last() =~= path@.take(it.index()));
        if c == PATH_SEPARATOR {
            directories.push(current);
            current = String::new();
        } else {
            current.push(c);
        }
    }
    assert(path@.take(path@.len() as int) =~= path@);
    directories.push(current);
    directories
}

} // verus!
