//! The classes of characters and the operations on texts that the rest
//! builds on.

use vstd::prelude::*;
use vstd::std_specs::iter::IteratorSpec;
use vstd::string::StringExecFns;

verus! {

/// The characters with the Unicode property `White_Space`.
pub open spec fn spec_is_whitespace(c: char) -> bool {
    let code = c as u32;
    ||| 0x09 <= code <= 0x0D
    ||| code == 0x20
    ||| code == 0x85
    ||| code == 0xA0
    ||| code == 0x1680
    ||| 0x2000 <= code <= 0x200A
    ||| code == 0x2028
    ||| code == 0x2029
    ||| code == 0x202F
    ||| code == 0x205F
    ||| code == 0x3000
}

/// Whether `c` is white space.
#[verifier::when_used_as_spec(spec_is_whitespace)]
pub fn is_whitespace(c: char) -> (b: bool)
    ensures
        b == spec_is_whitespace(c),
{
    let code: u32 = c as u32;
    (0x09 <= code && code <= 0x0D) || code == 0x20 || code == 0x85 || code == 0xA0 || code
        == 0x1680 || (0x2000 <= code && code <= 0x200A) || code == 0x2028 || code == 0x2029
        || code == 0x202F || code == 0x205F || code == 0x3000
}

/// The decimal digits `0` to `9`.
pub open spec fn spec_is_ascii_digit(c: char) -> bool {
    '0' <= c <= '9'
}

/// Whether `c` is one of the decimal digits `0` to `9`.
#[verifier::when_used_as_spec(spec_is_ascii_digit)]
pub fn is_ascii_digit(c: char) -> (b: bool)
    ensures
        b == spec_is_ascii_digit(c),
{
    '0' <= c && c <= '9'
}

/// The number that a run of decimal digits writes.
pub open spec fn decimal_value(digits: Seq<char>) -> nat
    decreases digits.len(),
{
    if digits.len() == 0 {
        0
    } else {
        decimal_value(digits.drop_last()) * 10 + (digits.last() as nat - '0' as nat) as nat
    }
}

/// Whether every character is one of the digits `0` to `9`.
pub open spec fn all_digits(digits: Seq<char>) -> bool {
    forall|i: int| 0 <= i < digits.len() ==> spec_is_ascii_digit(#[trigger] digits[i])
}

/// The number that `digits` write, if they are one digit or more, all from
/// `0` to `9`, and the number is no greater than `limit`.
pub open spec fn parsed_decimal(digits: Seq<char>, limit: nat) -> Option<nat> {
    if digits.len() > 0 && all_digits(digits) && decimal_value(digits) <= limit {
        Some(decimal_value(digits))
    } else {
        None
    }
}

/// A run of digits writes no smaller a number than any of its beginnings.
proof fn lemma_decimal_value_grows(digits: Seq<char>, n: int)
    requires
        all_digits(digits),
        0 <= n <= digits.len(),
    ensures
        decimal_value(digits.take(n)) <= decimal_value(digits),
    decreases digits.len(),
{
    if n == digits.len() {
        assert(digits.take(n) =~= digits);
    } else {
        assert(digits.drop_last().take(n) =~= digits.take(n));
        lemma_decimal_value_grows(digits.drop_last(), n);
    }
}

/// Reads a number of at most `limit` from its decimal digits.
pub fn parse_decimal(digits: &str, limit: u32) -> (number: Option<u32>)
    ensures
        match number {
            Some(number) => parsed_decimal(digits@, limit as nat) == Some(number as nat),
            None => parsed_decimal(digits@, limit as nat) is None,
        },
{
    let mut value: u64 = 0;
    for c in it: digits.chars()
        invariant
            it.seq() == digits@,
            all_digits(digits@.take(it.index())),
            value == decimal_value(digits@.take(it.index())),
            value <= limit,
    {
        assert(digits@.take(it.index() + 1).drop_last() =~= digits@.take(it.index()));
        if !is_ascii_digit(c) {
            return None;
        }
        value = value * 10 + (c as u64 - '0' as u64);
        if value > limit as u64 {
            proof {
                if all_digits(digits@) {
                    lemma_decimal_value_grows(digits@, it.index() + 1);
                }
            }
            return None;
        }
    }
    assert(digits@.take(digits@.len() as int) =~= digits@);
    if digits.is_empty() {
        None
    } else {
        Some(value as u32)
    }
}

/// `String::push` appends one character to the end of the string.
pub assume_specification[ String::push ](s: &mut String, c: char)
    ensures
        final(s)@ == old(s)@.push(c),
;

/// Whether `text` begins with `prefix`.
pub fn starts_with(text: &str, prefix: &str) -> (begins: bool)
    ensures
        begins == prefix@.is_prefix_of(text@),
{
    let mut rest = text.chars();
    for c in it: prefix.chars()
        invariant
            it.seq() == prefix@,
            it.index() <= text@.len(),
            rest.remaining() == text@.skip(it.index()),
            prefix@.take(it.index()) == text@.take(it.index()),
    {
        match rest.next() {
            Some(other) => {
                if other != c {
                    return false;
                }
            },
            None => {
                return false;
            },
        }
    }
    true
}

/// Whether two strings hold the same text.
pub fn same_text(left: &str, right: &str) -> (same: bool)
    ensures
        same == (left@ == right@),
{
    let same = left.unicode_len() == right.unicode_len() && starts_with(left, right);
    assert(same ==> left@ =~= right@);
    same
}

/// The text without the white space at its beginning.
pub open spec fn spec_trim_start(text: Seq<char>) -> Seq<char>
    decreases text.len(),
{
    if text.len() > 0 && spec_is_whitespace(text.first()) {
        spec_trim_start(text.drop_first())
    } else {
        text
    }
}

/// The text without the white space at its end.
pub open spec fn spec_trim_end(text: Seq<char>) -> Seq<char>
    decreases text.len(),
{
    if text.len() > 0 && spec_is_whitespace(text.last()) {
        spec_trim_end(text.drop_last())
    } else {
        text
    }
}

/// The text without the white space at its beginning and at its end.
pub open spec fn spec_trim(text: Seq<char>) -> Seq<char> {
    spec_trim_end(spec_trim_start(text))
}

/// White space at the beginning goes, up to the first other character.
proof fn lemma_trim_start_skips(text: Seq<char>, n: int)
    requires
        0 <= n <= text.len(),
        forall|i: int| 0 <= i < n ==> spec_is_whitespace(#[trigger] text[i]),
        n < text.len() ==> !spec_is_whitespace(text[n]),
    ensures
        spec_trim_start(text) == text.skip(n),
    decreases n,
{
    if n > 0 {
        lemma_trim_start_skips(text.drop_first(), n - 1);
    }
}

/// White space at the end goes, down to the last other character.
proof fn lemma_trim_end_takes(text: Seq<char>, n: int)
    requires
        0 <= n <= text.len(),
        forall|i: int| n <= i < text.len() ==> spec_is_whitespace(#[trigger] text[i]),
        n > 0 ==> !spec_is_whitespace(text[n - 1]),
    ensures
        spec_trim_end(text) == text.take(n),
    decreases text.len() - n,
{
    if n < text.len() {
        lemma_trim_end_takes(text.drop_last(), n);
    }
}

/// The text without the white space at its beginning and at its end.
pub fn trim(text: &str) -> (trimmed: String)
    ensures
        trimmed@ == spec_trim(text@),
{
    // The place of the first character that is no white space, once there
    // is one, and the place behind the last such character.
    let length = text.unicode_len();
    let mut start: usize = 0;
    let mut end: usize = 0;
    let mut index: usize = 0;
    for c in it: text.chars()
        invariant
            it.seq() == text@,
            length == text@.len(),
            index == it.index(),
            start <= end <= index,
            end == 0 ==> start == 0,
            forall|i: int|
                0 <= i < (if end == 0 {
                    index
                } else {
                    start
                }) ==> spec_is_whitespace(#[trigger] text@[i]),
            forall|i: int| end <= i < index ==> spec_is_whitespace(#[trigger] text@[i]),
            end > 0 ==> !spec_is_whitespace(text@[start as int]) && !spec_is_whitespace(
                text@[end - 1],
            ),
    {
        if !is_whitespace(c) {
            if end == 0 {
                start = index;
            }
            end = index + 1;
        }
        index += 1;
    }
    let trimmed = if end == 0 {
        String::new()
    } else {
        text.substring_char(start, end).to_owned()
    };
    proof {
        let first = if end == 0 {
            text@.len() as int
        } else {
            start as int
        };
        let kept = if end == 0 {
            0
        } else {
            end - start
        };
        lemma_trim_start_skips(text@, first);
        lemma_trim_end_takes(text@.skip(first), kept);
    }
    trimmed
}

/// The words with `separator` between each two of them.
pub open spec fn joined(words: Seq<Seq<char>>, separator: Seq<char>) -> Seq<char>
    decreases words.len(),
{
    if words.len() == 0 {
        Seq::empty()
    } else if words.len() == 1 {
        words[0]
    } else {
        joined(words.drop_last(), separator) + separator + words.last()
    }
}

/// Whether no word is empty.
pub open spec fn no_empty_word(words: Seq<Seq<char>>) -> bool {
    forall|i: int| 0 <= i < words.len() ==> (#[trigger] words[i]).len() > 0
}

/// Words that are not empty join to a text that is empty only if there is
/// no word.
pub proof fn lemma_joined_is_empty(words: Seq<Seq<char>>, separator: Seq<char>)
    requires
        no_empty_word(words),
    ensures
        joined(words, separator).len() > 0 <==> words.len() > 0,
    decreases words.len(),
{
    if words.len() > 1 {
        lemma_joined_is_empty(words.drop_last(), separator);
    }
}

/// One more word joins behind a separator, unless it is the first.
pub proof fn lemma_joined_push(words: Seq<Seq<char>>, word: Seq<char>, separator: Seq<char>)
    ensures
        joined(words.push(word), separator) == if words.len() == 0 {
            word
        } else {
            joined(words, separator) + separator + word
        },
{
    assert(words.push(word).drop_last() =~= words);
}

/// One more character in the last word is one more character in the
/// joined text.
pub proof fn lemma_joined_extend(words: Seq<Seq<char>>, c: char, separator: Seq<char>)
    requires
        words.len() > 0,
    ensures
        joined(words.drop_last().push(words.last().push(c)), separator) == joined(
            words,
            separator,
        ).push(c),
{
    let longer = words.drop_last().push(words.last().push(c));
    assert(longer.drop_last() =~= words.drop_last());
    if words.len() > 1 {
        assert(joined(words.drop_last(), separator) + separator + words.last().push(c) =~= (
        joined(words.drop_last(), separator) + separator + words.last()).push(c));
    }
}

/// The words with `separator` between each two of them.
pub fn join(words: &[String], separator: &str) -> (text: String)
    ensures
        text@ == joined(words.deep_view(), separator@),
{
    let ghost all = words.deep_view();
    let mut text = String::new();
    let mut index: usize = 0;
    while index < words.len()
        invariant
            index <= words.len(),
            all == words.deep_view(),
            text@ == joined(all.take(index as int), separator@),
        decreases words.len() - index,
    {
        proof {
            assert(all.take(index as int + 1) =~= all.take(index as int).push(all[index as int]));
            lemma_joined_push(all.take(index as int), all[index as int], separator@);
        }
        if index > 0 {
            text.append(separator);
        }
        text.append(words[index].as_str());
        index += 1;
    }
    assert(all.take(all.len() as int) =~= all);
    text
}

} // verus!
