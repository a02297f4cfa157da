//! Grouping the chunks of a line into the commands of a pipeline.

use crate::parser::laws::{lemma_classified_words_have_text, lemma_split_names_programs};
use crate::parser::quoting::{all_have_text, Chunk, InputChunk};
use crate::parser::{
    programs_are_named, Command, Descriptor, Redirect, RedirectTo, Redirection, Stage, Target,
};
use crate::text::{parse_decimal, parsed_decimal};
use regex::Regex;
use vstd::prelude::*;
use vstd::string::StringExecFns;

verus! {

/// Why a sequence of chunks is no pipeline.
#[derive(Debug, PartialEq, Eq)]
pub enum SplittingError {
    /// A pipe or a redirection operator, given here, stands where the name
    /// of a program is due.
    ProgramExpected(String),
    /// The line ends with a pipe.
    DanglingPipe,
    /// A redirection operator that needs a file name is the last chunk, or
    /// a pipe or another operator follows it.
    MissingRedirectDestination,
    /// A redirection operator, given here, names a descriptor that is no
    /// number from 0 to 255 written in the digits `0` to `9`.
    InvalidDescriptor(String),
}

/// What a splitting error is to the contracts.
pub enum SplitFailure {
    ProgramExpected(Seq<char>),
    DanglingPipe,
    MissingRedirectDestination,
    InvalidDescriptor(Seq<char>),
}

impl View for SplittingError {
    type V = SplitFailure;

    open spec fn view(&self) -> SplitFailure {
        match self {
            SplittingError::ProgramExpected(found) => SplitFailure::ProgramExpected(found@),
            SplittingError::DanglingPipe => SplitFailure::DanglingPipe,
            SplittingError::MissingRedirectDestination => SplitFailure::MissingRedirectDestination,
            SplittingError::InvalidDescriptor(found) => SplitFailure::InvalidDescriptor(found@),
        }
    }
}

/// The pattern of a redirection operator: digits that name the source, if
/// any; `>`; a second `>` to append; `&` and digits that name a descriptor
/// as the destination, if any.
pub const REDIRECTION_PATTERN: &'static str = r"^(?<from>\d+)?>(?<append>>)?(?<to>&\d+)?$";

/// The capture groups of the leftmost match of the regular expression
/// `pattern` in `haystack`, group 0 first; a group that took no part in the
/// match is `None`. `None` where there is no match, or where `pattern` is
/// no regular expression.
pub uninterp spec fn regex_captures(pattern: Seq<char>, haystack: Seq<char>) -> Option<
    Seq<Option<Seq<char>>>,
>;

/// Compiles `pattern` with `regex::Regex::new` and searches `haystack` with
/// `regex::Regex::captures`. The result is the text of each capture group
/// of the match, as `regex::Captures::iter` yields them; a pattern that
/// does not compile matches nothing.
#[verifier::external_body]
fn captures(pattern: &str, haystack: &str) -> (groups: Option<Vec<Option<String>>>)
    ensures
        groups.deep_view() == regex_captures(pattern@, haystack@),
{
    let regex = Regex::new(pattern).ok()?;
    let captures = regex.captures(haystack)?;
    Some(captures.iter().map(|group| group.map(|found| found.as_str().to_owned())).collect())
}

/// The descriptor that `digits` names: they are one digit or more, all from
/// `0` to `9`, and write a number up to 255.
pub open spec fn parsed_descriptor(digits: Seq<char>) -> Option<Descriptor> {
    match parsed_decimal(digits, 255) {
        Some(number) => Some(Descriptor(number as u8)),
        None => None,
    }
}

/// Reads a descriptor from its decimal digits.
pub fn parse_descriptor(digits: &str) -> (descriptor: Option<Descriptor>)
    ensures
        descriptor == parsed_descriptor(digits@),
{
    match parse_decimal(digits, 255) {
        Some(number) => Some(Descriptor(number as u8)),
        None => None,
    }
}

/// A redirection operator, as the pattern takes it apart.
#[derive(Debug, PartialEq, Eq)]
pub struct RedirectionOperator {
    /// The operator as the line has it.
    pub text: String,
    /// The digits before `>`, where there are any.
    pub source: Option<String>,
    /// Whether `>` stands twice.
    pub append: bool,
    /// `&` and the digits behind it, where the operator ends so.
    pub target: Option<String>,
}

/// What a chunk is to the grammar of a pipeline.
#[derive(Debug, PartialEq, Eq)]
pub enum Token {
    /// The name of a program, an argument or a file.
    Word(String),
    /// The separator of two commands.
    Pipe,
    /// A redirection operator.
    Operator(RedirectionOperator),
}

/// What a token is to the contracts.
pub enum Lexeme {
    Word(Seq<char>),
    Pipe,
    Operator { text: Seq<char>, source: Option<Seq<char>>, append: bool, target: Option<Seq<char>> },
}

impl View for Token {
    type V = Lexeme;

    open spec fn view(&self) -> Lexeme {
        match self {
            Token::Word(text) => Lexeme::Word(text@),
            Token::Pipe => Lexeme::Pipe,
            Token::Operator(operator) => Lexeme::Operator {
                text: operator.text@,
                source: operator.source.deep_view(),
                append: operator.append,
                target: operator.target.deep_view(),
            },
        }
    }
}

impl DeepView for Token {
    type V = Lexeme;

    open spec fn deep_view(&self) -> Lexeme {
        self@
    }
}

/// The text of capture group `index`, if there is such a group and it took
/// part in the match.
pub open spec fn captured(groups: Seq<Option<Seq<char>>>, index: int) -> Option<Seq<char>> {
    if 0 <= index < groups.len() {
        groups[index]
    } else {
        None
    }
}

/// The operator that the capture groups of the pattern spell: the first
/// group is its source, the second is there if it appends, and the third
/// is its destination.
pub open spec fn operator_of(text: Seq<char>, groups: Seq<Option<Seq<char>>>) -> Lexeme {
    Lexeme::Operator {
        text,
        source: captured(groups, 1),
        append: captured(groups, 2) is Some,
        target: captured(groups, 3),
    }
}

/// What raw text is to the grammar, given what the search for the pattern
/// of the redirection operators found in it: an operator if it found a
/// match, and a word otherwise.
pub open spec fn matched(text: Seq<char>, found: Option<Seq<Option<Seq<char>>>>) -> Lexeme {
    match found {
        Some(groups) => operator_of(text, groups),
        None => Lexeme::Word(text),
    }
}

/// What a chunk is to the grammar. Quoted text is a word, whatever it
/// spells. Raw text is a pipe if it is `|`, an operator if the pattern of
/// the redirection operators matches it, and a word otherwise.
pub open spec fn classified(chunk: Chunk) -> Lexeme {
    if chunk.quoted {
        Lexeme::Word(chunk.text)
    } else if chunk.text == seq!['|'] {
        Lexeme::Pipe
    } else {
        matched(chunk.text, regex_captures(REDIRECTION_PATTERN@, chunk.text))
    }
}

/// Whether `text` is the pipe, `|`.
fn is_pipe(text: &str) -> (pipe: bool)
    ensures
        pipe == (text@ == seq!['|']),
{
    let pipe = text.unicode_len() == 1 && text.get_char(0) == '|';
    assert(pipe ==> text@ =~= seq!['|']);
    pipe
}

/// The text of capture group `index`.
fn capture_group(groups: &Vec<Option<String>>, index: usize) -> (text: Option<String>)
    ensures
        text.deep_view() == captured(groups.deep_view(), index as int),
{
    if index < groups.len() {
        match &groups[index] {
            Some(text) => Some(text.clone()),
            None => None,
        }
    } else {
        None
    }
}

impl RedirectionOperator {
    /// Takes the operator `text` apart by the capture groups that the
    /// pattern found in it.
    pub fn from_captures(text: String, groups: &Vec<Option<String>>) -> (operator:
        RedirectionOperator)
        ensures
            Token::Operator(operator)@ == operator_of(text@, groups.deep_view()),
    {
        let source = capture_group(groups, 1);
        let append = capture_group(groups, 2).is_some();
        let target = capture_group(groups, 3);
        RedirectionOperator { text, source, append, target }
    }
}

impl Token {
    /// Tells what raw text is to the grammar, given what the search for
    /// the pattern of the redirection operators found in it.
    pub fn from_match(text: String, found: Option<Vec<Option<String>>>) -> (token: Token)
        ensures
            token@ == matched(text@, found.deep_view()),
    {
        match found {
            Some(groups) => Token::Operator(RedirectionOperator::from_captures(text, &groups)),
            None => Token::Word(text),
        }
    }
}

/// Tells what a chunk is to the grammar.
pub fn classify(chunk: InputChunk) -> (token: Token)
    ensures
        token@ == classified(chunk@),
{
    match chunk {
        InputChunk::QuotedText(text) => Token::Word(text),
        InputChunk::RawText(text) => {
            if is_pipe(text.as_str()) {
                Token::Pipe
            } else {
                let found = captures(REDIRECTION_PATTERN, text.as_str());
                Token::from_match(text, found)
            }
        },
    }
}

/// What each chunk is to the grammar.
pub open spec fn classified_all(chunks: Seq<Chunk>) -> Seq<Lexeme> {
    chunks.map_values(|chunk: Chunk| classified(chunk))
}

/// Tells what each chunk is to the grammar.
pub fn classify_all(chunks: Vec<InputChunk>) -> (tokens: Vec<Token>)
    ensures
        tokens.deep_view() == classified_all(chunks.deep_view()),
{
    let ghost all = chunks.deep_view();
    let ghost given = chunks@;
    let mut tokens: Vec<Token> = Vec::new();
    for chunk in it: chunks
        invariant
            it.seq() == given,
            all == given.map_values(|chunk: InputChunk| chunk@),
            tokens.deep_view() == classified_all(all.take(it.index())),
    {
        let ghost done = tokens.deep_view();
        let token = classify(chunk);
        tokens.push(token);
        assert(tokens.deep_view() =~= done.push(token@));
    }
    tokens
}

/// The command under construction.
pub struct Pending {
    /// The program, once its name has been read.
    pub program: Option<Seq<char>>,
    /// The arguments read so far.
    pub arguments: Seq<Seq<char>>,
    /// The redirections read so far.
    pub redirects: Seq<Redirection>,
}

impl Pending {
    /// Nothing has been read of the command.
    pub open spec fn start() -> Pending {
        Pending { program: None, arguments: Seq::empty(), redirects: Seq::empty() }
    }

    /// A further word: the program if none has been read, else an argument.
    pub open spec fn with_word(self, text: Seq<char>) -> Pending {
        if self.program is None {
            Pending { program: Some(text), ..self }
        } else {
            Pending { arguments: self.arguments.push(text), ..self }
        }
    }

    /// A further redirection.
    pub open spec fn with_redirect(self, redirect: Redirection) -> Pending {
        Pending { redirects: self.redirects.push(redirect), ..self }
    }

    /// The command, once complete.
    pub open spec fn stage(self) -> Stage
        recommends
            self.program is Some,
    {
        Stage {
            program: self.program->0,
            arguments: self.arguments,
            redirects: self.redirects,
        }
    }
}

/// The descriptor that an operator redirects: the one that its digits
/// name, or the standard output if it has none.
pub open spec fn source_descriptor(source: Option<Seq<char>>) -> Option<Descriptor> {
    match source {
        Some(digits) => parsed_descriptor(digits),
        None => Some(Descriptor(1)),
    }
}

/// The descriptor that an operator's ending names: the digits behind the
/// `&` with which it begins.
pub open spec fn target_descriptor(target: Seq<char>) -> Option<Descriptor> {
    if target.len() > 0 && target[0] == '&' {
        parsed_descriptor(target.skip(1))
    } else {
        None
    }
}

/// The commands that `tokens` complete, after the commands `done` and the
/// beginning `pending` of one more.
///
/// A word is the program of the command if it has none, and an argument
/// otherwise. A pipe completes the command. An operator adds a redirection
/// of its source to the descriptor that it names or, if it names none, to
/// the file named by the next token, which has to be a word. A pipe or an
/// operator before the program is an error, and so is the end of the tokens
/// there: it can only come behind a pipe.
pub open spec fn split_from(tokens: Seq<Lexeme>, done: Seq<Stage>, pending: Pending) -> Result<
    Seq<Stage>,
    SplitFailure,
>
    decreases tokens.len(),
{
    if tokens.len() == 0 {
        if pending.program is Some {
            Ok(done.push(pending.stage()))
        } else {
            Err(SplitFailure::DanglingPipe)
        }
    } else {
        let rest = tokens.drop_first();
        match tokens[0] {
            Lexeme::Word(text) => split_from(rest, done, pending.with_word(text)),
            Lexeme::Pipe => {
                if pending.program is Some {
                    split_from(rest, done.push(pending.stage()), Pending::start())
                } else {
                    Err(SplitFailure::ProgramExpected(seq!['|']))
                }
            },
            Lexeme::Operator { text, source, append, target } => {
                if pending.program is None {
                    Err(SplitFailure::ProgramExpected(text))
                } else if source_descriptor(source) is None {
                    Err(SplitFailure::InvalidDescriptor(text))
                } else if target is Some {
                    if target_descriptor(target->0) is None {
                        Err(SplitFailure::InvalidDescriptor(text))
                    } else {
                        split_from(
                            rest,
                            done,
                            pending.with_redirect(
                                Redirection {
                                    source: source_descriptor(source)->0,
                                    target: Target::Descriptor(target_descriptor(target->0)->0),
                                    append,
                                },
                            ),
                        )
                    }
                } else if rest.len() > 0 && rest[0] is Word {
                    split_from(
                        rest.drop_first(),
                        done,
                        pending.with_redirect(
                            Redirection {
                                source: source_descriptor(source)->0,
                                target: Target::File(rest[0]->Word_0),
                                append,
                            },
                        ),
                    )
                } else {
                    Err(SplitFailure::MissingRedirectDestination)
                }
            },
        }
    }
}

/// The pipeline that `tokens` spell: no command if there are no tokens.
pub open spec fn split(tokens: Seq<Lexeme>) -> Result<Seq<Stage>, SplitFailure> {
    if tokens.len() == 0 {
        Ok(Seq::empty())
    } else {
        split_from(tokens, Seq::empty(), Pending::start())
    }
}

/// What the result of splitting is to the contracts.
pub open spec fn split_view(result: Result<Vec<Command>, SplittingError>) -> Result<
    Seq<Stage>,
    SplitFailure,
> {
    match result {
        Ok(commands) => Ok(commands.deep_view()),
        Err(error) => Err(error@),
    }
}

/// What tokens are to the contracts.
spec fn lexemes(tokens: Seq<Token>) -> Seq<Lexeme> {
    tokens.map_values(|token: Token| token@)
}

/// What the command under construction is to the contracts.
spec fn pending_view(
    program: Option<String>,
    arguments: Vec<String>,
    redirects: Vec<Redirect>,
) -> Pending {
    Pending {
        program: program.deep_view(),
        arguments: arguments.deep_view(),
        redirects: redirects.deep_view(),
    }
}

/// Reads the descriptor that an operator's ending names.
fn parse_target(target: &str) -> (descriptor: Option<Descriptor>)
    ensures
        descriptor == target_descriptor(target@),
{
    let length = target.unicode_len();
    if length > 0 && target.get_char(0) == '&' {
        parse_descriptor(target.substring_char(1, length))
    } else {
        None
    }
}

/// The commands that `tokens` complete where the first of them has to name
/// the file of a redirection of `source`.
spec fn split_from_file_name(
    tokens: Seq<Lexeme>,
    done: Seq<Stage>,
    pending: Pending,
    source: Descriptor,
    append: bool,
) -> Result<Seq<Stage>, SplitFailure> {
    if tokens.len() > 0 && tokens[0] is Word {
        split_from(
            tokens.drop_first(),
            done,
            pending.with_redirect(
                Redirection { source, target: Target::File(tokens[0]->Word_0), append },
            ),
        )
    } else {
        Err(SplitFailure::MissingRedirectDestination)
    }
}

/// Groups tokens into the commands of a pipeline.
///
/// Succeeds with no command on no tokens. Otherwise each command is a
/// program, its arguments and its redirections, and a pipe separates two
/// commands. Fails on the first token that breaks this form.
pub fn split_tokens(tokens: Vec<Token>) -> (result: Result<Vec<Command>, SplittingError>)
    ensures
        split_view(result) == split(tokens.deep_view()),
        result matches Ok(commands) ==> (commands.len() == 0 <==> tokens.len() == 0),
{
    proof {
        lemma_split_names_programs(tokens.deep_view());
    }
    if tokens.len() == 0 {
        let commands: Vec<Command> = Vec::new();
        assert(commands.deep_view() =~= Seq::<Stage>::empty());
        return Ok(commands);
    }
    let ghost given = tokens@;
    let ghost all = tokens.deep_view();
    assert(all.skip(0) =~= all);

    let mut commands: Vec<Command> = Vec::new();
    let mut current_program: Option<String> = None;
    let mut current_args: Vec<String> = Vec::new();
    let mut current_redirections: Vec<Redirect> = Vec::new();
    // The source and the mode of a redirection whose file name is due next.
    let mut awaited: Option<(Descriptor, bool)> = None;
    assert(commands.deep_view() =~= Seq::<Stage>::empty());
    assert(current_args.deep_view() =~= Seq::<Seq<char>>::empty());
    assert(current_redirections.deep_view() =~= Seq::<Redirection>::empty());

    for token in it: tokens
        invariant
            it.seq() == given,
            all == lexemes(given),
            all == tokens.deep_view(),
            split(all) == match awaited {
                Some((source, append)) => split_from_file_name(
                    all.skip(it.index()),
                    commands.deep_view(),
                    pending_view(current_program, current_args, current_redirections),
                    source,
                    append,
                ),
                None => split_from(
                    all.skip(it.index()),
                    commands.deep_view(),
                    pending_view(current_program, current_args, current_redirections),
                ),
            },
    {
        let ghost done = commands.deep_view();
        let ghost arguments = current_args.deep_view();
        let ghost redirects = current_redirections.deep_view();
        assert(all.skip(it.index()).drop_first() =~= all.skip(it.index() + 1));
        match awaited {
            Some((source, append)) => {
                match token {
                    Token::Word(name) => {
                        let redirect = Redirect::new(source, RedirectTo::File(name), append);
                        current_redirections.push(redirect);
                        assert(current_redirections.deep_view() =~= redirects.push(redirect@));
                        awaited = None;
                    },
                    _ => {
                        return Err(SplittingError::MissingRedirectDestination);
                    },
                }
            },
            None => {
                match token {
                    Token::Word(text) => {
                        if current_program.is_none() {
                            current_program = Some(text);
                        } else {
                            current_args.push(text);
                            assert(current_args.deep_view() =~= arguments.push(text@));
                        }
                    },
                    Token::Pipe => {
                        match current_program {
                            Some(program) => {
                                let command = Command::new(
                                    program,
                                    current_args,
                                    current_redirections,
                                );
                                commands.push(command);
                                assert(commands.deep_view() =~= done.push(command@));
                                current_program = None;
                                current_args = Vec::new();
                                current_redirections = Vec::new();
                                assert(current_args.deep_view() =~= Seq::<Seq<char>>::empty());
                                assert(current_redirections.deep_view() =~= Seq::<
                                    Redirection,
                                >::empty());
                            },
                            None => {
                                proof {
                                    reveal_strlit("|");
                                }
                                let found = String::from_str("|");
                                assert(found@ =~= seq!['|']);
                                return Err(SplittingError::ProgramExpected(found));
                            },
                        }
                    },
                    Token::Operator(operator) => {
                        let RedirectionOperator { text, source, append, target } = operator;
                        if current_program.is_none() {
                            return Err(SplittingError::ProgramExpected(text));
                        }
                        let source = match source {
                            Some(digits) => parse_descriptor(digits.as_str()),
                            None => Some(Descriptor::stdout()),
                        };
                        let source = match source {
                            Some(source) => source,
                            None => {
                                return Err(SplittingError::InvalidDescriptor(text));
                            },
                        };
                        match target {
                            Some(target) => {
                                match parse_target(target.as_str()) {
                                    Some(descriptor) => {
                                        let redirect = Redirect::new(
                                            source,
                                            RedirectTo::Descriptor(descriptor),
                                            append,
                                        );
                                        current_redirections.push(redirect);
                                        assert(current_redirections.deep_view()
                                            =~= redirects.push(redirect@));
                                    },
                                    None => {
                                        return Err(SplittingError::InvalidDescriptor(text));
                                    },
                                }
                            },
                            None => {
                                awaited = Some((source, append));
                            },
                        }
                    },
                }
            },
        }
    }

    if awaited.is_some() {
        return Err(SplittingError::MissingRedirectDestination);
    }
    match current_program {
        Some(program) => {
            let ghost done = commands.deep_view();
            let command = Command::new(program, current_args, current_redirections);
            commands.push(command);
            assert(commands.deep_view() =~= done.push(command@));
            Ok(commands)
        },
        None => Err(SplittingError::DanglingPipe),
    }
}

/// Groups the chunks of a line into the commands of a pipeline.
///
/// Succeeds with no command on no chunks. Otherwise each command is a
/// program, its arguments and its redirections, and a raw `|` separates two
/// commands. Fails on the first chunk that breaks this form. Where every
/// chunk has text, every command names its program.
pub fn split_commands(chunks: Vec<InputChunk>) -> (result: Result<Vec<Command>, SplittingError>)
    ensures
        split_view(result) == split(classified_all(chunks.deep_view())),
        result matches Ok(commands) ==> {
            &&& commands.len() == 0 <==> chunks.len() == 0
            &&& all_have_text(chunks.deep_view()) ==> programs_are_named(commands.deep_view())
        },
{
    proof {
        lemma_split_names_programs(classified_all(chunks.deep_view()));
        if all_have_text(chunks.deep_view()) {
            lemma_classified_words_have_text(chunks.deep_view());
        }
    }
    split_tokens(classify_all(chunks))
}

} // verus!
