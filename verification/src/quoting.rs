//! Cutting a line into words, for callers to whom a quoted word is a word
//! like any other.

pub use crate::parser::quoting::QuotingError;
use crate::parser::quoting::{chunk_quoted_string, chunked, into_texts, texts};
use vstd::prelude::*;

verus! {

/// The words of a line: the texts of its chunks.
pub open spec fn split_words(input: Seq<char>) -> Result<Seq<Seq<char>>, QuotingError> {
    match chunked(input) {
        Ok(chunks) => Ok(texts(chunks)),
        Err(error) => Err(error),
    }
}

/// Splits `input` into words at white space, taking into account single
/// quotes, double quotes and escapes. Fails if and only if the line ends
/// inside a quoted stretch.
pub fn split_quoted_string(input: &str) -> (result: Result<Vec<String>, QuotingError>)
    ensures
        match result {
            Ok(words) => split_words(input@) == Ok::<Seq<Seq<char>>, QuotingError>(
                words.deep_view(),
            ),
            Err(error) => split_words(input@) == Err::<Seq<Seq<char>>, QuotingError>(error),
        },
{
    match chunk_quoted_string(input) {
        Ok(chunks) => Ok(into_texts(chunks)),
        Err(error) => Err(error),
    }
}

} // verus!
