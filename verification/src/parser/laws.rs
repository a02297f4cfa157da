//! What holds of cutting a line into chunks and of grouping chunks into
//! commands, whatever the line.

use crate::parser::quoting::{
    all_have_text, chunked, lemma_chunks_have_text, scan, texts, Chunk, QuotingError, Scan,
    DOUBLE_QUOTE, ESCAPE_CHARACTER, NEWLINE, SINGLE_QUOTE,
};
use crate::parser::splitting::{
    classified, classified_all, source_descriptor, split, split_from, target_descriptor, Lexeme,
    Pending, SplitFailure,
};
use crate::parser::{
    parse_view, parsed, programs_are_named, Command, ParsingError, Redirection, Stage, Target,
};
use crate::text::{
    joined, lemma_joined_extend, lemma_joined_is_empty, lemma_joined_push, no_empty_word,
    spec_is_whitespace,
};
use vstd::prelude::*;

verus! {

/// The line without the white space before its first and after its last
/// word, and with one space for each run of white space between two words.
pub open spec fn collapsed(input: Seq<char>) -> Seq<char>
    decreases input.len(),
{
    if input.len() == 0 {
        Seq::empty()
    } else {
        let before = collapsed(input.drop_last());
        let c = input.last();
        if spec_is_whitespace(c) {
            before
        } else if input.len() >= 2 && spec_is_whitespace(input[input.len() - 2]) && before.len()
            > 0 {
            before.push(' ').push(c)
        } else {
            before.push(c)
        }
    }
}

/// Whether `c` is a quote or the backslash.
pub open spec fn is_quoting_character(c: char) -> bool {
    c == SINGLE_QUOTE || c == DOUBLE_QUOTE || c == ESCAPE_CHARACTER
}

/// Whether the line holds no quote and no backslash.
pub open spec fn is_plain(input: Seq<char>) -> bool {
    forall|i: int| 0 <= i < input.len() ==> !is_quoting_character(#[trigger] input[i])
}

/// The words that the scanner has seen: its chunks, and the word under
/// construction if it has begun.
pub open spec fn words_seen(scan: Scan) -> Seq<Seq<char>> {
    if scan.text.len() > 0 {
        texts(scan.chunks).push(scan.text)
    } else {
        texts(scan.chunks)
    }
}

/// On a line without quotes and backslashes the scanner is never inside a
/// quote or an escape, and the words that it has seen, joined by single
/// spaces, are the line with its white space collapsed.
proof fn lemma_plain_scan(input: Seq<char>)
    requires
        is_plain(input),
    ensures
        ({
            let end = scan(input);
            &&& !end.escaping
            &&& !end.within_quotes
            &&& !end.within_double_quotes
            &&& !end.quoted
            &&& forall|i: int| 0 <= i < end.chunks.len() ==> !(#[trigger] end.chunks[i]).quoted
            &&& no_empty_word(texts(end.chunks))
            &&& end.text.len() > 0 <==> input.len() > 0 && !spec_is_whitespace(input.last())
            &&& joined(words_seen(end), seq![' ']) == collapsed(input)
        }),
    decreases input.len(),
{
    if input.len() > 0 {
        let shorter = input.drop_last();
        let c = input.last();
        lemma_plain_scan(shorter);
        let before = scan(shorter);
        let end = scan(input);
        let words = words_seen(before);
        lemma_joined_is_empty(words, seq![' ']);
        if spec_is_whitespace(c) {
            assert(words_seen(end) =~= words);
        } else if before.text.len() > 0 {
            assert(words_seen(end) =~= words.drop_last().push(words.last().push(c)));
            lemma_joined_extend(words, c, seq![' ']);
        } else {
            assert(end.text =~= seq![c]);
            lemma_joined_push(words, seq![c], seq![' ']);
            if words.len() > 0 {
                assert(joined(words, seq![' ']) + seq![' '] + seq![c] =~= joined(
                    words,
                    seq![' '],
                ).push(' ').push(c));
            }
        }
    }
}

/// Cutting a line without quotes and backslashes into chunks never fails,
/// gives raw chunks only, and loses nothing but white space: the texts of
/// the chunks, joined by single spaces, are the line with its white space
/// collapsed.
pub proof fn lemma_plain_line_round_trip(input: Seq<char>)
    requires
        is_plain(input),
    ensures
        chunked(input) is Ok,
        forall|i: int| 0 <= i < chunked(input)->Ok_0.len() ==> !(#[trigger] chunked(
            input,
        )->Ok_0[i]).quoted,
        joined(texts(chunked(input)->Ok_0), seq![' ']) == collapsed(input),
{
    lemma_plain_scan(input);
    let end = scan(input);
    if end.text.len() > 0 {
        assert(texts(end.chunks.push(Chunk { text: end.text, quoted: end.quoted }))
            =~= texts(end.chunks).push(end.text));
    }
}

/// Inside single quotes every character stands for itself: a line that is
/// one single-quoted stretch with something in it is one quoted chunk, the
/// text between the quotes.
pub proof fn lemma_single_quotes_are_literal(text: Seq<char>)
    requires
        text.len() > 0,
        forall|i: int| 0 <= i < text.len() ==> #[trigger] text[i] != SINGLE_QUOTE,
    ensures
        chunked(seq![SINGLE_QUOTE] + text + seq![SINGLE_QUOTE]) == Ok::<
            Seq<Chunk>,
            QuotingError,
        >(seq![Chunk { text, quoted: true }]),
{
    let opened = seq![SINGLE_QUOTE] + text;
    lemma_within_single_quotes(text, text.len() as int);
    assert(text.take(text.len() as int) =~= text);
    let line = opened + seq![SINGLE_QUOTE];
    assert(line.drop_last() =~= opened);
    let end = scan(line);
    assert(end.chunks.push(Chunk { text: end.text, quoted: end.quoted }) =~= seq![
        Chunk { text, quoted: true },
    ]);
}

/// Behind an opening single quote the scanner keeps every character but a
/// single quote as it is.
proof fn lemma_within_single_quotes(text: Seq<char>, n: int)
    requires
        0 <= n <= text.len(),
        forall|i: int| 0 <= i < text.len() ==> #[trigger] text[i] != SINGLE_QUOTE,
    ensures
        scan(seq![SINGLE_QUOTE] + text.take(n)) == (Scan {
            chunks: Seq::empty(),
            text: text.take(n),
            quoted: true,
            within_quotes: true,
            within_double_quotes: false,
            escaping: false,
        }),
    decreases n,
{
    let line = seq![SINGLE_QUOTE] + text.take(n);
    if n == 0 {
        assert(text.take(0) =~= Seq::<char>::empty());
        assert(scan(line.drop_last()).text =~= Seq::<char>::empty());
    } else {
        lemma_within_single_quotes(text, n - 1);
        assert(line.drop_last() =~= seq![SINGLE_QUOTE] + text.take(n - 1));
        assert(text.take(n - 1).push(text[n - 1]) =~= text.take(n));
    }
}

/// Inside double quotes every character stands for itself, but for the
/// double quote and the backslash: a line that is one double-quoted stretch
/// free of these two, with something in it, is one quoted chunk, the text
/// between the quotes.
pub proof fn lemma_double_quotes_are_literal(text: Seq<char>)
    requires
        text.len() > 0,
        forall|i: int|
            0 <= i < text.len() ==> #[trigger] text[i] != DOUBLE_QUOTE && text[i]
                != ESCAPE_CHARACTER,
    ensures
        chunked(seq![DOUBLE_QUOTE] + text + seq![DOUBLE_QUOTE]) == Ok::<
            Seq<Chunk>,
            QuotingError,
        >(seq![Chunk { text, quoted: true }]),
{
    let opened = seq![DOUBLE_QUOTE] + text;
    lemma_within_double_quotes(text, text.len() as int);
    assert(text.take(text.len() as int) =~= text);
    let line = opened + seq![DOUBLE_QUOTE];
    assert(line.drop_last() =~= opened);
    let end = scan(line);
    assert(end.chunks.push(Chunk { text: end.text, quoted: end.quoted }) =~= seq![
        Chunk { text, quoted: true },
    ]);
}

/// Behind an opening double quote the scanner keeps every character but a
/// double quote and a backslash as it is.
proof fn lemma_within_double_quotes(text: Seq<char>, n: int)
    requires
        0 <= n <= text.len(),
        forall|i: int|
            0 <= i < text.len() ==> #[trigger] text[i] != DOUBLE_QUOTE && text[i]
                != ESCAPE_CHARACTER,
    ensures
        scan(seq![DOUBLE_QUOTE] + text.take(n)) == (Scan {
            chunks: Seq::empty(),
            text: text.take(n),
            quoted: true,
            within_quotes: true,
            within_double_quotes: true,
            escaping: false,
        }),
    decreases n,
{
    let line = seq![DOUBLE_QUOTE] + text.take(n);
    if n == 0 {
        assert(text.take(0) =~= Seq::<char>::empty());
        assert(scan(line.drop_last()).text =~= Seq::<char>::empty());
    } else {
        lemma_within_double_quotes(text, n - 1);
        assert(line.drop_last() =~= seq![DOUBLE_QUOTE] + text.take(n - 1));
        assert(text.take(n - 1).push(text[n - 1]) =~= text.take(n));
    }
}

/// The text with a backslash before each of its characters.
pub open spec fn escaped(text: Seq<char>) -> Seq<char>
    decreases text.len(),
{
    if text.len() == 0 {
        Seq::empty()
    } else {
        escaped(text.drop_last()).push(ESCAPE_CHARACTER).push(text.last())
    }
}

/// Outside quotes a backslash makes the next character stand for itself,
/// whatever it is, but for the newline: a text free of newlines, with a
/// backslash before each of its characters, is one raw chunk, the text.
pub proof fn lemma_escaped_characters_are_literal(text: Seq<char>)
    requires
        text.len() > 0,
        forall|i: int| 0 <= i < text.len() ==> #[trigger] text[i] != NEWLINE,
    ensures
        chunked(escaped(text)) == Ok::<Seq<Chunk>, QuotingError>(
            seq![Chunk { text, quoted: false }],
        ),
{
    lemma_escaped_scan(text, text.len() as int);
    assert(text.take(text.len() as int) =~= text);
    let end = scan(escaped(text));
    assert(end.chunks.push(Chunk { text: end.text, quoted: end.quoted }) =~= seq![
        Chunk { text, quoted: false },
    ]);
}

/// The scanner keeps each character behind a backslash as it is.
proof fn lemma_escaped_scan(text: Seq<char>, n: int)
    requires
        0 <= n <= text.len(),
        forall|i: int| 0 <= i < text.len() ==> #[trigger] text[i] != NEWLINE,
    ensures
        scan(escaped(text.take(n))) == (Scan {
            chunks: Seq::empty(),
            text: text.take(n),
            quoted: false,
            within_quotes: false,
            within_double_quotes: false,
            escaping: false,
        }),
    decreases n,
{
    if n == 0 {
        assert(text.take(0) =~= Seq::<char>::empty());
    } else {
        lemma_escaped_scan(text, n - 1);
        let shorter = escaped(text.take(n - 1));
        let escaping = shorter.push(ESCAPE_CHARACTER);
        let line = escaped(text.take(n));
        assert(text.take(n).drop_last() =~= text.take(n - 1));
        assert(escaping.drop_last() =~= shorter);
        assert(scan(escaping).escaping);
        assert(line.drop_last() =~= escaping);
        assert(text.take(n - 1).push(text[n - 1]) =~= text.take(n));
    }
}

/// Whether every word has text.
pub open spec fn words_have_text(tokens: Seq<Lexeme>) -> bool {
    forall|i: int|
        0 <= i < tokens.len() ==> ((#[trigger] tokens[i]) matches Lexeme::Word(text)
            ==> text.len() > 0)
}

/// What is left of words with text has text.
proof fn lemma_rest_has_text(tokens: Seq<Lexeme>, n: int)
    requires
        words_have_text(tokens),
        0 <= n <= tokens.len(),
    ensures
        words_have_text(tokens.skip(n)),
{
    assert forall|i: int| 0 <= i < tokens.skip(n).len() implies ((#[trigger] tokens.skip(n)[i])
        matches Lexeme::Word(text) ==> text.len() > 0) by {
        assert(tokens.skip(n)[i] == tokens[i + n]);
    }
}

/// Tokens that are a pipeline add at least one command to those that are
/// complete, and where no word is empty, no command is without a program.
proof fn lemma_split_from_names_programs(tokens: Seq<Lexeme>, done: Seq<Stage>, pending: Pending)
    ensures
        split_from(tokens, done, pending) matches Ok(stages) ==> {
            &&& stages.len() > done.len()
            &&& words_have_text(tokens) && programs_are_named(done) && (pending.program matches Some(
                program,
            ) ==> program.len() > 0) ==> programs_are_named(stages)
        },
    decreases tokens.len(),
{
    if tokens.len() > 0 && split_from(tokens, done, pending) is Ok {
        let rest = tokens.drop_first();
        if words_have_text(tokens) {
            lemma_rest_has_text(tokens, 1);
            if rest.len() > 0 {
                lemma_rest_has_text(tokens, 2);
            }
        }
        match tokens[0] {
            Lexeme::Word(text) => {
                lemma_split_from_names_programs(rest, done, pending.with_word(text));
            },
            Lexeme::Pipe => {
                lemma_split_from_names_programs(
                    rest,
                    done.push(pending.stage()),
                    Pending::start(),
                );
            },
            Lexeme::Operator { text, source, append, target } => {
                let from = source_descriptor(source)->0;
                if target is Some {
                    lemma_split_from_names_programs(
                        rest,
                        done,
                        pending.with_redirect(
                            Redirection {
                                source: from,
                                target: Target::Descriptor(target_descriptor(target->0)->0),
                                append,
                            },
                        ),
                    );
                } else {
                    lemma_split_from_names_programs(
                        rest.drop_first(),
                        done,
                        pending.with_redirect(
                            Redirection {
                                source: from,
                                target: Target::File(rest[0]->Word_0),
                                append,
                            },
                        ),
                    );
                }
            },
        }
    }
}

/// A pipeline has no command only if there is no token, and where no word
/// is empty, each of its commands names its program.
pub proof fn lemma_split_names_programs(tokens: Seq<Lexeme>)
    ensures
        split(tokens) matches Ok(stages) ==> {
            &&& stages.len() == 0 <==> tokens.len() == 0
            &&& words_have_text(tokens) ==> programs_are_named(stages)
        },
{
    if tokens.len() > 0 {
        lemma_split_from_names_programs(tokens, Seq::empty(), Pending::start());
    }
}

/// Words as tokens.
pub open spec fn words(texts: Seq<Seq<char>>) -> Seq<Lexeme> {
    texts.map_values(|text: Seq<char>| Lexeme::Word(text))
}

/// The command under construction after some more words: the first is the
/// program if there was none, and the others are arguments.
pub open spec fn with_words(pending: Pending, texts: Seq<Seq<char>>) -> Pending {
    if pending.program is Some {
        Pending { arguments: pending.arguments + texts, ..pending }
    } else if texts.len() > 0 {
        Pending {
            program: Some(texts[0]),
            arguments: pending.arguments + texts.skip(1),
            ..pending
        }
    } else {
        pending
    }
}

/// Words at the beginning go into the command under construction, whatever
/// follows them.
pub proof fn lemma_split_from_words(
    texts: Seq<Seq<char>>,
    more: Seq<Lexeme>,
    done: Seq<Stage>,
    pending: Pending,
)
    ensures
        split_from(words(texts) + more, done, pending) == split_from(
            more,
            done,
            with_words(pending, texts),
        ),
    decreases texts.len(),
{
    if texts.len() > 0 {
        let tokens = words(texts) + more;
        let next = pending.with_word(texts[0]);
        assert(tokens.drop_first() =~= words(texts.drop_first()) + more);
        lemma_split_from_words(texts.drop_first(), more, done, next);
        if pending.program is Some {
            assert(next.arguments + texts.drop_first() =~= pending.arguments + texts);
        }
    }
}

/// Words alone are one command: the first is its program, and the others
/// are its arguments.
pub proof fn lemma_words_are_one_command(texts: Seq<Seq<char>>)
    requires
        texts.len() > 0,
    ensures
        split(words(texts)) == Ok::<Seq<Stage>, SplitFailure>(
            seq![
                Stage { program: texts[0], arguments: texts.skip(1), redirects: Seq::empty() },
            ],
        ),
{
    lemma_split_from_words(texts, Seq::empty(), Seq::empty(), Pending::start());
    assert(Seq::<Stage>::empty().push(with_words(Pending::start(), texts).stage()) =~= seq![
        Stage { program: texts[0], arguments: texts.skip(1), redirects: Seq::empty() },
    ]);
}

/// Whether every chunk is quoted.
pub open spec fn all_quoted(chunks: Seq<Chunk>) -> bool {
    forall|i: int| 0 <= i < chunks.len() ==> (#[trigger] chunks[i]).quoted
}

/// Quoted text is never a pipe or an operator, whatever it spells: chunks
/// that are all quoted are one command, the first its program and the
/// others its arguments.
pub proof fn lemma_quoted_chunks_are_one_command(chunks: Seq<Chunk>)
    requires
        chunks.len() > 0,
        all_quoted(chunks),
    ensures
        split(classified_all(chunks)) == Ok::<Seq<Stage>, SplitFailure>(
            seq![
                Stage {
                    program: chunks[0].text,
                    arguments: texts(chunks).skip(1),
                    redirects: Seq::empty(),
                },
            ],
        ),
{
    assert(classified_all(chunks) =~= words(texts(chunks)));
    lemma_words_are_one_command(texts(chunks));
}

/// The commands that are complete stay as they are: what follows adds to
/// them or fails, and does not depend on them.
pub proof fn lemma_split_from_keeps_done(tokens: Seq<Lexeme>, done: Seq<Stage>, pending: Pending)
    ensures
        split_from(tokens, done, pending) == match split_from(tokens, Seq::empty(), pending) {
            Ok(stages) => Ok(done + stages),
            Err(failure) => Err(failure),
        },
    decreases tokens.len(),
{
    let none = Seq::<Stage>::empty();
    if tokens.len() == 0 {
        if pending.program is Some {
            assert(done.push(pending.stage()) =~= done + none.push(pending.stage()));
        }
    } else {
        let rest = tokens.drop_first();
        match tokens[0] {
            Lexeme::Word(text) => {
                lemma_split_from_keeps_done(rest, done, pending.with_word(text));
            },
            Lexeme::Pipe => {
                if pending.program is Some {
                    let stage = pending.stage();
                    lemma_split_from_keeps_done(rest, done.push(stage), Pending::start());
                    lemma_split_from_keeps_done(rest, none.push(stage), Pending::start());
                    if split_from(rest, none, Pending::start()) is Ok {
                        let stages = split_from(rest, none, Pending::start())->Ok_0;
                        assert(done.push(stage) + stages =~= done + (none.push(stage) + stages));
                    }
                }
            },
            Lexeme::Operator { text, source, append, target } => {
                if pending.program is Some && source_descriptor(source) is Some {
                    let from = source_descriptor(source)->0;
                    if target is Some {
                        if target_descriptor(target->0) is Some {
                            lemma_split_from_keeps_done(
                                rest,
                                done,
                                pending.with_redirect(
                                    Redirection {
                                        source: from,
                                        target: Target::Descriptor(
                                            target_descriptor(target->0)->0,
                                        ),
                                        append,
                                    },
                                ),
                            );
                        }
                    } else if rest.len() > 0 && rest[0] is Word {
                        lemma_split_from_keeps_done(
                            rest.drop_first(),
                            done,
                            pending.with_redirect(
                                Redirection {
                                    source: from,
                                    target: Target::File(rest[0]->Word_0),
                                    append,
                                },
                            ),
                        );
                    }
                }
            },
        }
    }
}

/// Behind tokens that complete a pipeline, a pipe starts the next command.
proof fn lemma_split_from_pipe(
    left: Seq<Lexeme>,
    right: Seq<Lexeme>,
    done: Seq<Stage>,
    pending: Pending,
)
    requires
        split_from(left, done, pending) is Ok,
    ensures
        split_from(left + seq![Lexeme::Pipe] + right, done, pending) == split_from(
            right,
            split_from(left, done, pending)->Ok_0,
            Pending::start(),
        ),
    decreases left.len(),
{
    let line = left + seq![Lexeme::Pipe] + right;
    if left.len() == 0 {
        assert(line.drop_first() =~= right);
    } else {
        let rest = left.drop_first();
        assert(line.drop_first() =~= rest + seq![Lexeme::Pipe] + right);
        match left[0] {
            Lexeme::Word(text) => {
                lemma_split_from_pipe(rest, right, done, pending.with_word(text));
            },
            Lexeme::Pipe => {
                lemma_split_from_pipe(rest, right, done.push(pending.stage()), Pending::start());
            },
            Lexeme::Operator { text, source, append, target } => {
                let from = source_descriptor(source)->0;
                if target is Some {
                    lemma_split_from_pipe(
                        rest,
                        right,
                        done,
                        pending.with_redirect(
                            Redirection {
                                source: from,
                                target: Target::Descriptor(target_descriptor(target->0)->0),
                                append,
                            },
                        ),
                    );
                } else {
                    assert(line.drop_first().drop_first() =~= rest.drop_first() + seq![
                        Lexeme::Pipe,
                    ] + right);
                    lemma_split_from_pipe(
                        rest.drop_first(),
                        right,
                        done,
                        pending.with_redirect(
                            Redirection {
                                source: from,
                                target: Target::File(rest[0]->Word_0),
                                append,
                            },
                        ),
                    );
                }
            },
        }
    }
}

/// A pipe between two pipelines makes one of them: the commands of the
/// first, then those of the second. With nothing behind the pipe, the pipe
/// dangles; and what is wrong with the second pipeline is wrong with the
/// whole.
pub proof fn lemma_pipe_joins_pipelines(left: Seq<Lexeme>, right: Seq<Lexeme>)
    requires
        left.len() > 0,
        split(left) is Ok,
    ensures
        split(left + seq![Lexeme::Pipe] + right) == if right.len() == 0 {
            Err::<Seq<Stage>, SplitFailure>(SplitFailure::DanglingPipe)
        } else {
            match split(right) {
                Ok(stages) => Ok(split(left)->Ok_0 + stages),
                Err(failure) => Err(failure),
            }
        },
{
    lemma_split_from_pipe(left, right, Seq::empty(), Pending::start());
    lemma_split_from_keeps_done(right, split(left)->Ok_0, Pending::start());
}

/// The words of chunks with text have text.
pub proof fn lemma_classified_words_have_text(chunks: Seq<Chunk>)
    requires
        all_have_text(chunks),
    ensures
        words_have_text(classified_all(chunks)),
{
    assert forall|i: int| 0 <= i < classified_all(chunks).len() implies ((
    #[trigger] classified_all(chunks)[i]) matches Lexeme::Word(text) ==> text.len() > 0) by {
        assert(classified_all(chunks)[i] == classified(chunks[i]));
    }
}

/// A line that parses has no command only if it has no chunk, and each of
/// its commands names its program.
pub proof fn lemma_parsed_names_programs(input: Seq<char>)
    ensures
        parsed(input) matches Ok(stages) ==> programs_are_named(stages) && (stages.len() == 0
            <==> chunked(input)->Ok_0.len() == 0),
{
    lemma_chunks_have_text(input);
    if chunked(input) is Ok {
        lemma_classified_words_have_text(chunked(input)->Ok_0);
        lemma_split_names_programs(classified_all(chunked(input)->Ok_0));
    }
}

/// Parsing is a function of the line: whatever two runs on one line
/// return, the two results are equal.
pub proof fn lemma_parsing_twice_agrees(
    input: Seq<char>,
    first: Result<Vec<Command>, ParsingError>,
    second: Result<Vec<Command>, ParsingError>,
)
    requires
        parse_view(first) == parsed(input),
        parse_view(second) == parsed(input),
    ensures
        parse_view(first) == parse_view(second),
        first is Ok <==> second is Ok,
{
}

} // verus!
