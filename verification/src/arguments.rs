//! The words of the argument string of a command.

use crate::parser::quoting::{chunk_quoted_string, chunked, into_texts, texts};
use crate::quoting::split_words;
use vstd::prelude::*;
use vstd::string::StringExecFns;

verus! {

/// The words of an argument string: the texts of its chunks, or `None` if
/// it ends inside a quoted stretch.
pub open spec fn parsed_args(args_string: Seq<char>) -> Option<Seq<Seq<char>>> {
    match chunked(args_string) {
        Ok(chunks) => Some(texts(chunks)),
        Err(_) => None,
    }
}

/// The words of an argument string are the words of the line that it is:
/// `parse_args` and `split_quoted_string` agree on every string.
pub proof fn lemma_args_are_the_words_of_the_line(args_string: Seq<char>)
    ensures
        parsed_args(args_string) == match split_words(args_string) {
            Ok(words) => Some(words),
            Err(_) => None,
        },
{
}

/// What `parse_args` says of a string that ends inside a quoted stretch.
pub open spec fn invalid_quoting_message() -> Seq<char> {
    "Invalid single-quoting"@
}

/// Splits `args_string` into words at white space, taking into account
/// single quotes, double quotes and escapes as `chunk_quoted_string` does.
/// Fails if and only if the string ends inside a quoted stretch.
pub fn parse_args(args_string: &str) -> (result: Result<Vec<String>, String>)
    ensures
        match result {
            Ok(args) => parsed_args(args_string@) == Some(args.deep_view()),
            Err(message) => parsed_args(args_string@) is None && message@
                == invalid_quoting_message(),
        },
{
    match chunk_quoted_string(args_string) {
        Ok(chunks) => Ok(into_texts(chunks)),
        Err(_) => Err(String::from_str("Invalid single-quoting")),
    }
}

} // verus!
