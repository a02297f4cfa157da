//! Cutting a line into chunks at white space, under single quotes, double
//! quotes and backslash escapes.

use crate::text::{is_whitespace, spec_is_whitespace};
use vstd::prelude::*;

verus! {

/// Starts an escape sequence.
pub const ESCAPE_CHARACTER: char = '\\';

/// Opens and closes a single-quoted stretch.
pub const SINGLE_QUOTE: char = '\'';

/// Opens and closes a double-quoted stretch.
pub const DOUBLE_QUOTE: char = '"';

/// Swallowed when escaped: a line continuation.
pub const NEWLINE: char = '\n';

/// One of the characters that a backslash escapes inside double quotes.
pub const DOLLAR: char = '$';

/// Why a line could not be cut into chunks.
#[derive(Debug, Clone, Copy, PartialEq, Eq, Structural)]
pub enum QuotingError {
    /// The line ends inside a single- or double-quoted stretch.
    DanglingQuote,
}

/// One word of the line, with the quotes and escapes resolved.
#[derive(Debug, PartialEq, Eq)]
pub enum InputChunk {
    /// No part of the word stood in quotes.
    RawText(String),
    /// At least some part of the word stood in quotes, so a pipe or a
    /// redirection operator spelled by it is ordinary text.
    QuotedText(String),
}

/// What a chunk is to the contracts: its text, and whether quotes took part in it.
pub struct Chunk {
    pub text: Seq<char>,
    pub quoted: bool,
}

impl View for InputChunk {
    type V = Chunk;

    open spec fn view(&self) -> Chunk {
        match self {
            InputChunk::RawText(text) => Chunk { text: text@, quoted: false },
            InputChunk::QuotedText(text) => Chunk { text: text@, quoted: true },
        }
    }
}

impl DeepView for InputChunk {
    type V = Chunk;

    open spec fn deep_view(&self) -> Chunk {
        self@
    }
}

impl Clone for InputChunk {
    fn clone(&self) -> (copy: InputChunk)
        ensures
            copy@ == self@,
    {
        match self {
            InputChunk::RawText(text) => InputChunk::RawText(text.clone()),
            InputChunk::QuotedText(text) => InputChunk::QuotedText(text.clone()),
        }
    }
}

impl InputChunk {
    /// The chunk with the given text, quoted or raw.
    pub fn new(text: String, is_quoted: bool) -> (chunk: InputChunk)
        ensures
            chunk@ == (Chunk { text: text@, quoted: is_quoted }),
    {
        if is_quoted {
            InputChunk::QuotedText(text)
        } else {
            InputChunk::RawText(text)
        }
    }
}

/// The characters that a backslash escapes inside double quotes. Before any
/// other character the backslash stands for itself there.
pub open spec fn spec_is_escapable_within_double_quotes(c: char) -> bool {
    c == DOUBLE_QUOTE || c == ESCAPE_CHARACTER || c == DOLLAR || c == NEWLINE
}

/// Whether a backslash escapes `c` inside double quotes.
#[verifier::when_used_as_spec(spec_is_escapable_within_double_quotes)]
pub fn is_escapable_within_double_quotes(c: char) -> (b: bool)
    ensures
        b == spec_is_escapable_within_double_quotes(c),
{
    c == DOUBLE_QUOTE || c == ESCAPE_CHARACTER || c == DOLLAR || c == NEWLINE
}

/// A character is kept if it stands in quotes or is no white space.
pub open spec fn spec_should_capture_char(current_char: char, is_within_quotes: bool) -> bool {
    is_within_quotes || !spec_is_whitespace(current_char)
}

/// Whether `current_char` goes into the word under construction.
#[verifier::when_used_as_spec(spec_should_capture_char)]
pub fn should_capture_char(current_char: char, is_within_quotes: bool) -> (b: bool)
    ensures
        b == spec_should_capture_char(current_char, is_within_quotes),
{
    is_within_quotes || !is_whitespace(current_char)
}

/// A backslash starts an escape anywhere but inside single quotes.
pub open spec fn spec_is_escaping_toggle(
    current_char: char,
    is_within_double_quotes: bool,
    is_within_quotes: bool,
) -> bool {
    (!is_within_quotes || is_within_double_quotes) && current_char == ESCAPE_CHARACTER
}

/// Whether `current_char` starts an escape.
#[verifier::when_used_as_spec(spec_is_escaping_toggle)]
pub fn is_escaping_toggle(
    current_char: char,
    is_within_double_quotes: bool,
    is_within_quotes: bool,
) -> (b: bool)
    ensures
        b == spec_is_escaping_toggle(current_char, is_within_double_quotes, is_within_quotes),
{
    (!is_within_quotes || is_within_double_quotes) && current_char == ESCAPE_CHARACTER
}

/// A single quote opens or closes a stretch anywhere but inside double quotes.
pub open spec fn spec_is_single_quoting_toggle(
    current_char: char,
    is_within_double_quotes: bool,
) -> bool {
    !is_within_double_quotes && current_char == SINGLE_QUOTE
}

/// Whether `current_char` opens or closes a single-quoted stretch.
#[verifier::when_used_as_spec(spec_is_single_quoting_toggle)]
pub fn is_single_quoting_toggle(current_char: char, is_within_double_quotes: bool) -> (b: bool)
    ensures
        b == spec_is_single_quoting_toggle(current_char, is_within_double_quotes),
{
    !is_within_double_quotes && current_char == SINGLE_QUOTE
}

/// A double quote opens or closes a stretch anywhere but inside single quotes.
pub open spec fn spec_is_double_quoting_toggle(
    current_char: char,
    is_within_double_quotes: bool,
    is_within_quotes: bool,
) -> bool {
    (!is_within_quotes || is_within_double_quotes) && current_char == DOUBLE_QUOTE
}

/// Whether `current_char` opens or closes a double-quoted stretch.
#[verifier::when_used_as_spec(spec_is_double_quoting_toggle)]
pub fn is_double_quoting_toggle(
    current_char: char,
    is_within_double_quotes: bool,
    is_within_quotes: bool,
) -> (b: bool)
    ensures
        b == spec_is_double_quoting_toggle(
            current_char,
            is_within_double_quotes,
            is_within_quotes,
        ),
{
    (!is_within_quotes || is_within_double_quotes) && current_char == DOUBLE_QUOTE
}

/// White space ends a word that has begun, unless it is quoted or escaped.
pub open spec fn spec_is_arg_boundary(
    current_char: char,
    current_arg: &str,
    is_within_quotes: bool,
    is_escaping: bool,
) -> bool {
    !is_escaping && !is_within_quotes && spec_is_whitespace(current_char) && current_arg@.len()
        > 0
}

/// Whether `current_char` ends the word held in `current_arg`.
#[verifier::when_used_as_spec(spec_is_arg_boundary)]
pub fn is_arg_boundary(
    current_char: char,
    current_arg: &str,
    is_within_quotes: bool,
    is_escaping: bool,
) -> (b: bool)
    ensures
        b == spec_is_arg_boundary(current_char, current_arg, is_within_quotes, is_escaping),
{
    !is_escaping && !is_within_quotes && is_whitespace(current_char) && !current_arg.is_empty()
}

/// The scanner between two characters.
pub struct Scan {
    /// The chunks that are complete.
    pub chunks: Seq<Chunk>,
    /// The text of the word under construction.
    pub text: Seq<char>,
    /// Whether a quote has taken part in the word under construction.
    pub quoted: bool,
    /// Inside a single- or double-quoted stretch.
    pub within_quotes: bool,
    /// Inside a double-quoted stretch.
    pub within_double_quotes: bool,
    /// The character before was a backslash that escapes the next one.
    pub escaping: bool,
}

/// The scanner before the first character.
pub open spec fn scan_start() -> Scan {
    Scan {
        chunks: Seq::empty(),
        text: Seq::empty(),
        quoted: false,
        within_quotes: false,
        within_double_quotes: false,
        escaping: false,
    }
}

/// The scanner after one more character. The rules apply in this order; the
/// first that fits decides.
pub open spec fn scan_step(scan: Scan, c: char) -> Scan {
    if !scan.escaping && !scan.within_quotes && spec_is_whitespace(c) && scan.text.len() > 0 {
        Scan {
            chunks: scan.chunks.push(Chunk { text: scan.text, quoted: scan.quoted }),
            text: Seq::empty(),
            quoted: false,
            ..scan
        }
    } else if scan.escaping {
        let kept = if scan.within_double_quotes && !spec_is_escapable_within_double_quotes(c) {
            scan.text.push(ESCAPE_CHARACTER)
        } else {
            scan.text
        };
        Scan { text: if c == NEWLINE { kept } else { kept.push(c) }, escaping: false, ..scan }
    } else if spec_is_double_quoting_toggle(c, scan.within_double_quotes, scan.within_quotes) {
        Scan {
            within_double_quotes: !scan.within_double_quotes,
            within_quotes: !scan.within_quotes,
            quoted: true,
            ..scan
        }
    } else if spec_is_single_quoting_toggle(c, scan.within_double_quotes) {
        Scan { within_quotes: !scan.within_quotes, quoted: true, ..scan }
    } else if spec_is_escaping_toggle(c, scan.within_double_quotes, scan.within_quotes) {
        Scan { escaping: true, ..scan }
    } else if spec_should_capture_char(c, scan.within_quotes) {
        Scan { text: scan.text.push(c), ..scan }
    } else {
        scan
    }
}

/// The scanner after all of `input`.
pub open spec fn scan(input: Seq<char>) -> Scan
    decreases input.len(),
{
    if input.len() == 0 {
        scan_start()
    } else {
        scan_step(scan(input.drop_last()), input.last())
    }
}

/// What the scanner hands out at the end of the input: an open quote is an
/// error, and a word that has begun is the last chunk.
pub open spec fn scan_outcome(end: Scan) -> Result<Seq<Chunk>, QuotingError> {
    if end.within_quotes {
        Err(QuotingError::DanglingQuote)
    } else if end.text.len() > 0 {
        Ok(end.chunks.push(Chunk { text: end.text, quoted: end.quoted }))
    } else {
        Ok(end.chunks)
    }
}

/// The chunks of a line.
pub open spec fn chunked(input: Seq<char>) -> Result<Seq<Chunk>, QuotingError> {
    scan_outcome(scan(input))
}

/// Whether every chunk has text.
pub open spec fn all_have_text(chunks: Seq<Chunk>) -> bool {
    forall|i: int| 0 <= i < chunks.len() ==> (#[trigger] chunks[i]).text.len() > 0
}

/// The scanner completes no chunk without text, so no chunk of a line is
/// empty, whatever the line.
pub proof fn lemma_chunks_have_text(input: Seq<char>)
    ensures
        all_have_text(scan(input).chunks),
        chunked(input) matches Ok(chunks) ==> all_have_text(chunks),
    decreases input.len(),
{
    if input.len() > 0 {
        lemma_chunks_have_text(input.drop_last());
    }
}

/// The scanner is outside quotes, inside single quotes or inside double
/// quotes: it is never inside double quotes without being inside quotes.
/// And only a word that a quote has taken part in can be inside quotes.
pub proof fn lemma_quote_states(input: Seq<char>)
    ensures
        ({
            let end = scan(input);
            &&& end.within_double_quotes ==> end.within_quotes
            &&& end.within_quotes ==> end.quoted
        }),
    decreases input.len(),
{
    if input.len() > 0 {
        lemma_quote_states(input.drop_last());
    }
}

/// Splits `input` at white space, taking into account single quotes, double
/// quotes and escapes. Fails if and only if the line ends inside a quoted
/// stretch. No chunk is empty.
pub fn chunk_quoted_string(input: &str) -> (result: Result<Vec<InputChunk>, QuotingError>)
    ensures
        match result {
            Ok(chunks) => chunked(input@) == Ok::<Seq<Chunk>, QuotingError>(chunks.deep_view()),
            Err(error) => chunked(input@) == Err::<Seq<Chunk>, QuotingError>(error),
        },
        result matches Ok(chunks) ==> all_have_text(chunks.deep_view()),
{
    proof {
        lemma_chunks_have_text(input@);
    }
    let mut split_args: Vec<InputChunk> = Vec::new();
    let mut current_arg = String::new();
    let mut is_quoted_text = false;
    let mut is_within_quotes = false;
    let mut is_within_double_quotes = false;
    let mut is_escaping = false;

    assert(split_args.deep_view() =~= Seq::<Chunk>::empty());
    for c in it: input.chars()
        invariant
            it.seq() == input@,
            scan(input@.take(it.index())) == (Scan {
                chunks: split_args.deep_view(),
                text: current_arg@,
                quoted: is_quoted_text,
                within_quotes: is_within_quotes,
                within_double_quotes: is_within_double_quotes,
                escaping: is_escaping,
            }),
    {
        proof {
            let before = input@.take(it.index());
            let after = input@.take(it.index() + 1);
            assert(after.drop_last() =~= before);
        }
        if is_arg_boundary(c, current_arg.as_str(), is_within_quotes, is_escaping) {
            let ghost done = split_args.deep_view();
            let chunk = InputChunk::new(current_arg, is_quoted_text);
            split_args.push(chunk);
            assert(split_args.deep_view() =~= done.push(chunk@));
            current_arg = String::new();
            is_quoted_text = false;
        } else if is_escaping {
            if is_within_double_quotes && !is_escapable_within_double_quotes(c) {
                current_arg.push(ESCAPE_CHARACTER);
            }
            if c != NEWLINE {
                current_arg.push(c);
            }
            is_escaping = false;
        } else if is_double_quoting_toggle(c, is_within_double_quotes, is_within_quotes) {
            is_within_double_quotes = !is_within_double_quotes;
            is_within_quotes = !is_within_quotes;
            is_quoted_text = true;
        } else if is_single_quoting_toggle(c, is_within_double_quotes) {
            is_within_quotes = !is_within_quotes;
            is_quoted_text = true;
        } else if is_escaping_toggle(c, is_within_double_quotes, is_within_quotes) {
            is_escaping = true;
        } else if should_capture_char(c, is_within_quotes) {
            current_arg.push(c);
        }
    }

    assert(input@.take(input@.len() as int) =~= input@);
    if is_within_quotes {
        return Err(QuotingError::DanglingQuote);
    }
    if !current_arg.as_str().is_empty() {
        let ghost done = split_args.deep_view();
        let chunk = InputChunk::new(current_arg, is_quoted_text);
        split_args.push(chunk);
        assert(split_args.deep_view() =~= done.push(chunk@));
    }
    Ok(split_args)
}

/// The texts of chunks, in order.
pub open spec fn texts(chunks: Seq<Chunk>) -> Seq<Seq<char>> {
    chunks.map_values(|chunk: Chunk| chunk.text)
}

/// Hands out the texts of chunks, in order.
pub fn into_texts(chunks: Vec<InputChunk>) -> (words: Vec<String>)
    ensures
        words.deep_view() == texts(chunks.deep_view()),
{
    let ghost given = chunks@;
    let ghost all = chunks.deep_view();
    let mut words: Vec<String> = Vec::new();
    for chunk in it: chunks
        invariant
            it.seq() == given,
            all == given.map_values(|chunk: InputChunk| chunk@),
            words.deep_view() == texts(all.take(it.index())),
    {
        let ghost done = words.deep_view();
        let text = match chunk {
            InputChunk::RawText(text) => text,
            InputChunk::QuotedText(text) => text,
        };
        words.push(text);
        assert(words.deep_view() =~= done.push(text@));
    }
    words
}

} // verus!
