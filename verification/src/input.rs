//! What the line editor computes while a line is typed.

use crate::text::{join, joined, starts_with};
use vstd::prelude::*;
use vstd::std_specs::iter::IteratorSpec;
use vstd::string::StringExecFns;
use vstd::utf8::encode_utf8;

verus! {

/// Whether every word begins with `prefix`.
pub open spec fn is_common_prefix(prefix: Seq<char>, words: Seq<Seq<char>>) -> bool {
    forall|i: int| 0 <= i < words.len() ==> prefix.is_prefix_of(#[trigger] words[i])
}

/// Whether `prefix` is the longest text with which every word begins; the
/// empty text, if there is no word.
pub open spec fn is_longest_common_prefix(prefix: Seq<char>, words: Seq<Seq<char>>) -> bool {
    &&& is_common_prefix(prefix, words)
    &&& words.len() == 0 ==> prefix.len() == 0
    &&& words.len() > 0 ==> forall|other: Seq<char>| #[trigger]
        is_common_prefix(other, words) ==> other.len() <= prefix.len()
}

/// Two texts that are each the longest with which every word begins are
/// the same text.
pub proof fn lemma_longest_common_prefix_is_unique(
    first: Seq<char>,
    second: Seq<char>,
    words: Seq<Seq<char>>,
)
    requires
        is_longest_common_prefix(first, words),
        is_longest_common_prefix(second, words),
    ensures
        first == second,
{
    if words.len() > 0 {
        assert(first.is_prefix_of(words[0]) && second.is_prefix_of(words[0]));
    }
}

/// The longest text with which every word begins; the empty text, if there
/// is no word.
pub open spec fn longest_common_prefix(words: Seq<Seq<char>>) -> Seq<char> {
    choose|prefix: Seq<char>| is_longest_common_prefix(prefix, words)
}

/// The longest text with which both `left` and `right` begin.
fn common_prefix(left: &str, right: &str) -> (prefix: String)
    ensures
        prefix@.is_prefix_of(left@),
        prefix@.is_prefix_of(right@),
        prefix@.len() == left@.len() || prefix@.len() == right@.len() || left@[prefix@.len() as int]
            != right@[prefix@.len() as int],
{
    let mut prefix = String::new();
    let mut rest = right.chars();
    for c in it: left.chars()
        invariant
            it.seq() == left@,
            it.index() <= right@.len(),
            rest.remaining() == right@.skip(it.index()),
            prefix@ == left@.take(it.index()),
            prefix@ == right@.take(it.index()),
    {
        match rest.next() {
            Some(other) => {
                if other != c {
                    return prefix;
                }
            },
            None => {
                return prefix;
            },
        }
        prefix.push(c);
    }
    prefix
}

/// The longest text with which every completion begins; the empty text, if
/// there is no completion.
pub fn longest_prefix(completions: &[String]) -> (prefix: String)
    ensures
        is_longest_common_prefix(prefix@, completions.deep_view()),
        prefix@ == longest_common_prefix(completions.deep_view()),
{
    let prefix = longest_prefix_of(completions);
    proof {
        lemma_longest_common_prefix_is_unique(
            prefix@,
            longest_common_prefix(completions.deep_view()),
            completions.deep_view(),
        );
    }
    prefix
}

/// The longest text with which every completion begins.
fn longest_prefix_of(completions: &[String]) -> (prefix: String)
    ensures
        is_longest_common_prefix(prefix@, completions.deep_view()),
{
    let ghost words = completions.deep_view();
    if completions.len() == 0 {
        return String::new();
    }
    let mut prefix = completions[0].clone();
    assert forall|other: Seq<char>| #[trigger]
        is_common_prefix(other, words.take(1)) implies other.len() <= prefix@.len() by {
        assert(other.is_prefix_of(words.take(1)[0]));
    }
    let mut index: usize = 1;
    while index < completions.len()
        invariant
            1 <= index <= completions.len(),
            words == completions.deep_view(),
            is_common_prefix(prefix@, words.take(index as int)),
            forall|other: Seq<char>| #[trigger]
                is_common_prefix(other, words.take(index as int)) ==> other.len()
                    <= prefix@.len(),
        decreases completions.len() - index,
    {
        let ghost before = prefix@;
        let shorter = common_prefix(prefix.as_str(), completions[index].as_str());
        proof {
            let seen = words.take(index as int);
            let more = words.take(index as int + 1);
            assert(is_common_prefix(shorter@, more));
            assert forall|other: Seq<char>| #[trigger]
                is_common_prefix(other, more) implies other.len() <= shorter@.len() by {
                assert(is_common_prefix(other, seen));
                if other.len() > shorter@.len() {
                    let at = shorter@.len() as int;
                    assert(before[at] == seen[0][at]);
                    assert(other[at] == more[index as int][at]);
                }
            }
        }
        prefix = shorter;
        index += 1;
    }
    assert(words.take(words.len() as int) =~= words);
    prefix
}

/// What the shell writes before it reads a line.
pub const PROMPT: &'static str = "$ ";

/// What the shell writes before it reads a line.
pub fn build_prompt() -> (prompt: &'static str)
    ensures
        prompt@ == PROMPT@,
{
    PROMPT
}

/// The keys that are held while another is pressed.
#[derive(Debug, Clone, Copy, PartialEq, Eq, Structural)]
pub enum Modifiers {
    /// No key.
    Plain,
    /// Shift alone.
    Shift,
    /// Control alone.
    Control,
    /// Any other key or combination.
    Other,
}

/// A key, as far as the editor tells keys apart.
#[derive(Debug, PartialEq, Eq)]
pub enum Key {
    /// The tabulator, with the completions of the line as it is. Where
    /// they are listed, they are listed in this order.
    Tab(Vec<String>),
    Enter,
    /// A key that writes a character.
    Char(char),
    Backspace,
    /// Any other key.
    Other,
}

/// What a key is to the contracts.
pub enum Stroke {
    Tab(Seq<Seq<char>>),
    Enter,
    Char(char),
    Backspace,
    Other,
}

impl View for Key {
    type V = Stroke;

    open spec fn view(&self) -> Stroke {
        match self {
            Key::Tab(completions) => Stroke::Tab(completions.deep_view()),
            Key::Enter => Stroke::Enter,
            Key::Char(c) => Stroke::Char(*c),
            Key::Backspace => Stroke::Backspace,
            Key::Other => Stroke::Other,
        }
    }
}

/// What is to happen after a key.
#[derive(Debug, Clone, Copy, PartialEq, Eq, Structural)]
pub enum Next {
    /// The line is not complete: the next key is read.
    Continue,
    /// The line is complete.
    Submit,
    /// The line is given up.
    Abort,
}

/// What the editor answers to a key.
#[derive(Debug, PartialEq, Eq)]
pub struct Reaction {
    /// The text to write to the terminal.
    pub output: String,
    /// What is to happen then.
    pub next: Next,
}

/// The line while it is typed.
#[derive(Debug)]
pub struct LineEditor {
    input: String,
    multi_autocomplete_on: bool,
}

/// What the editor is to the contracts.
pub struct Editing {
    /// The line as typed so far.
    pub input: Seq<char>,
    /// Whether the tabulator has just found several completions, so that
    /// one more press lists them.
    pub listing: bool,
}

/// What the editor and the terminal are to the contracts after a key.
pub struct Outcome {
    pub editing: Editing,
    pub output: Seq<char>,
    pub next: Next,
}

/// The number of bytes that hold `text`.
pub open spec fn byte_length(text: Seq<char>) -> usize {
    encode_utf8(text).len() as usize
}

/// The line that the tabulator makes of `input`: the longest text with
/// which every completion begins, if the line is the beginning of it.
pub open spec fn completed_line(input: Seq<char>, completions: Seq<Seq<char>>) -> Seq<char> {
    let prefix = longest_common_prefix(completions);
    if completions.len() > 0 && input.is_prefix_of(prefix) {
        prefix
    } else {
        input
    }
}

/// Whether the tabulator lists the completions: there are several, and the
/// key before was the tabulator and found several too.
pub open spec fn lists(editing: Editing, completions: nat) -> bool {
    completions > 1 && editing.listing
}

/// What the tabulator does. The line grows to what all completions have in
/// common. Then a single completion is closed with a space; several are
/// listed under the line, in the order given, where `lists` says so, and
/// the prompt and the line are written again; otherwise the bell rings.
pub open spec fn tabulated(editing: Editing, completions: Seq<Seq<char>>) -> Outcome {
    let line = completed_line(editing.input, completions);
    let added = line.skip(editing.input.len() as int);
    if completions.len() == 1 {
        Outcome {
            editing: Editing { input: line.push(' '), listing: false },
            output: added.push(' '),
            next: Next::Continue,
        }
    } else if lists(editing, completions.len()) {
        Outcome {
            editing: Editing { input: line, listing: false },
            output: added + "\r\n"@ + joined(completions, "  "@) + "\r\n"@ + PROMPT@ + line,
            next: Next::Continue,
        }
    } else {
        Outcome {
            editing: Editing { input: line, listing: completions.len() > 1 },
            output: added + "\x07"@,
            next: Next::Continue,
        }
    }
}

/// What the backspace key does: it takes the last character off the line,
/// or all of them with control, and writes the line anew, first with a
/// space for each byte that has gone and then without.
pub open spec fn erased(editing: Editing, modifiers: Modifiers) -> Outcome {
    let line = if modifiers == Modifiers::Control || editing.input.len() == 0 {
        Seq::<char>::empty()
    } else {
        editing.input.drop_last()
    };
    let gone: usize = if byte_length(editing.input) >= byte_length(line) {
        (byte_length(editing.input) - byte_length(line)) as usize
    } else {
        0
    };
    Outcome {
        editing: Editing { input: line, listing: false },
        output: "\r"@ + PROMPT@ + line + Seq::new(gone as nat, |i: int| ' ') + "\r"@ + PROMPT@
            + line,
        next: Next::Continue,
    }
}

/// What a key does to the line, and what is written to the terminal.
pub open spec fn pressed(editing: Editing, key: Stroke, modifiers: Modifiers) -> Outcome {
    let idle = Editing { input: editing.input, listing: false };
    match key {
        Stroke::Tab(completions) => tabulated(editing, completions),
        Stroke::Enter => Outcome { editing: idle, output: "\r\n"@, next: Next::Submit },
        Stroke::Char(c) => {
            if modifiers == Modifiers::Control && c == 'c' {
                Outcome { editing: idle, output: "\r\n"@, next: Next::Abort }
            } else if modifiers == Modifiers::Control && c == 'j' {
                Outcome { editing: idle, output: "\r\n"@, next: Next::Submit }
            } else if modifiers == Modifiers::Plain || modifiers == Modifiers::Shift {
                Outcome {
                    editing: Editing { input: editing.input.push(c), listing: false },
                    output: seq![c],
                    next: Next::Continue,
                }
            } else {
                Outcome { editing: idle, output: Seq::empty(), next: Next::Continue }
            }
        },
        Stroke::Backspace => erased(editing, modifiers),
        Stroke::Other => Outcome { editing: idle, output: Seq::empty(), next: Next::Continue },
    }
}

impl View for LineEditor {
    type V = Editing;

    closed spec fn view(&self) -> Editing {
        Editing { input: self.input@, listing: self.multi_autocomplete_on }
    }
}

impl LineEditor {
    /// The editor of an empty line.
    pub fn new() -> (editor: LineEditor)
        ensures
            editor@ == (Editing { input: Seq::empty(), listing: false }),
    {
        LineEditor { input: String::new(), multi_autocomplete_on: false }
    }

    /// The line as typed so far.
    pub fn input(&self) -> (input: &str)
        ensures
            input@ == self@.input,
    {
        self.input.as_str()
    }

    /// Whether the tabulator would list `completions` completions now. Only
    /// then does their order matter.
    pub fn lists(&self, completions: usize) -> (listing: bool)
        ensures
            listing == lists(self@, completions as nat),
    {
        completions > 1 && self.multi_autocomplete_on
    }

    /// The line, at the end of the editing.
    pub fn into_input(self) -> (input: String)
        ensures
            input@ == self@.input,
    {
        self.input
    }

    /// Takes a key: changes the line and tells what to write to the
    /// terminal and whether the line is complete.
    pub fn press(&mut self, key: Key, modifiers: Modifiers) -> (reaction: Reaction)
        ensures
            final(self)@ == pressed(old(self)@, key@, modifiers).editing,
            reaction.output@ == pressed(old(self)@, key@, modifiers).output,
            reaction.next == pressed(old(self)@, key@, modifiers).next,
    {
        match key {
            Key::Tab(completions) => self.tabulate(completions),
            Key::Enter => {
                self.multi_autocomplete_on = false;
                Reaction { output: String::from_str("\r\n"), next: Next::Submit }
            },
            Key::Char(c) => {
                self.multi_autocomplete_on = false;
                if modifiers == Modifiers::Control && c == 'c' {
                    Reaction { output: String::from_str("\r\n"), next: Next::Abort }
                } else if modifiers == Modifiers::Control && c == 'j' {
                    Reaction { output: String::from_str("\r\n"), next: Next::Submit }
                } else if modifiers == Modifiers::Plain || modifiers == Modifiers::Shift {
                    self.input.push(c);
                    let mut output = String::new();
                    output.push(c);
                    Reaction { output, next: Next::Continue }
                } else {
                    Reaction { output: String::new(), next: Next::Continue }
                }
            },
            Key::Backspace => self.erase(modifiers),
            Key::Other => {
                self.multi_autocomplete_on = false;
                Reaction { output: String::new(), next: Next::Continue }
            },
        }
    }

    /// Takes the tabulator.
    fn tabulate(&mut self, completions: Vec<String>) -> (reaction: Reaction)
        ensures
            final(self)@ == tabulated(old(self)@, completions.deep_view()).editing,
            reaction.output@ == tabulated(old(self)@, completions.deep_view()).output,
            reaction.next == tabulated(old(self)@, completions.deep_view()).next,
    {
        let mut output = String::new();
        if completions.len() > 0 {
            let prefix = longest_prefix(completions.as_slice());
            if starts_with(prefix.as_str(), self.input.as_str()) {
                let typed = self.input.as_str().unicode_len();
                let added = prefix.as_str().substring_char(typed, prefix.as_str().unicode_len());
                output.append(added);
                self.input = prefix;
            }
        }
        if completions.len() == 1 {
            self.input.push(' ');
            output.push(' ');
            self.multi_autocomplete_on = false;
        } else if self.lists(completions.len()) {
            output.append("\r\n");
            let listed = join(completions.as_slice(), "  ");
            output.append(listed.as_str());
            output.append("\r\n");
            output.append(PROMPT);
            output.append(self.input.as_str());
            self.multi_autocomplete_on = false;
        } else {
            output.append("\x07");
            self.multi_autocomplete_on = completions.len() > 1;
        }
        Reaction { output, next: Next::Continue }
    }

    /// Takes the backspace key.
    fn erase(&mut self, modifiers: Modifiers) -> (reaction: Reaction)
        ensures
            final(self)@ == erased(old(self)@, modifiers).editing,
            reaction.output@ == erased(old(self)@, modifiers).output,
            reaction.next == erased(old(self)@, modifiers).next,
    {
        let before = self.input.as_str().len();
        let typed = self.input.as_str().unicode_len();
        if modifiers == Modifiers::Control || typed == 0 {
            self.input = String::new();
        } else {
            let kept = self.input.as_str().substring_char(0, typed - 1).to_owned();
            self.input = kept;
        }
        self.multi_autocomplete_on = false;
        let after = self.input.as_str().len();
        let gone = if before >= after {
            before - after
        } else {
            0
        };

        let mut output = String::from_str("\r");
        output.append(PROMPT);
        output.append(self.input.as_str());
        let ghost shown = output@;
        let mut written: usize = 0;
        while written < gone
            invariant
                written <= gone,
                output@ == shown + Seq::new(written as nat, |i: int| ' '),
            decreases gone - written,
        {
            output.push(' ');
            written += 1;
        }
        output.append("\r");
        output.append(PROMPT);
        output.append(self.input.as_str());
        Reaction { output, next: Next::Continue }
    }
}

} // verus!
