//! The input side of a command-line shell: one line of text is cut into
//! chunks under the quoting and escaping rules, and the chunks are grouped
//! into the commands of a pipeline with their arguments and redirections.
//!
//! Every function is specified over the views of its arguments and verified
//! against that specification.

pub mod arguments;
pub mod autocomplete;
pub mod builtin;
pub mod input;
pub mod io;
pub mod io_redirection;
pub mod parser;
pub mod path;
pub mod quoting;
pub mod text;
