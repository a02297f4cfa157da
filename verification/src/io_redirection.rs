//! Finding a redirection of the output or of the error output among the
//! arguments of a command.

use vstd::prelude::*;
use vstd::string::StringExecFns;

verus! {

/// Why the arguments hold no usable redirection.
#[derive(Debug, Clone, Copy, PartialEq, Eq, Structural)]
pub enum IoRedirectionError {
    /// A redirection operator is the last argument: the name of the file
    /// is missing.
    MissingArgument,
}

/// The character that writes the digit `digit`.
pub open spec fn digit_char(digit: nat) -> char
    recommends
        digit < 10,
{
    ('0' as nat + digit) as char
}

/// The number `n` in decimal digits, without leading zeros.
pub open spec fn decimal_digits(n: nat) -> Seq<char>
    decreases n,
{
    if n < 10 {
        seq![digit_char(n)]
    } else {
        decimal_digits(n / 10).push(digit_char(n % 10))
    }
}

/// The character that writes a digit.
fn digit(value: u8) -> (c: char)
    requires
        value < 10,
    ensures
        c == digit_char(value as nat),
{
    (48u8 + value) as char
}

/// A descriptor's number in decimal digits.
fn descriptor_digits(descriptor: u8) -> (digits: String)
    ensures
        digits@ == decimal_digits(descriptor as nat),
{
    let mut digits = String::new();
    if descriptor >= 100 {
        digits.push(digit(descriptor / 100));
    }
    if descriptor >= 10 {
        digits.push(digit((descriptor / 10) % 10));
    }
    digits.push(digit(descriptor % 10));
    proof {
        reveal_with_fuel(decimal_digits, 3);
    }
    digits
}

/// Whether `argument` is an operator that redirects `descriptor` into a
/// file, and if so, whether it appends: the descriptor's number and `>` or
/// `>>`; for the standard output the number may be missing.
pub open spec fn redirection_mode(argument: Seq<char>, descriptor: u8) -> Option<bool> {
    let digits = decimal_digits(descriptor as nat);
    if argument == digits.push('>') || (descriptor == 1 && argument == seq!['>']) {
        Some(false)
    } else if argument == digits.push('>').push('>') || (descriptor == 1 && argument
        == seq!['>', '>']) {
        Some(true)
    } else {
        None
    }
}

/// The place of the first operator that redirects `descriptor`; the number
/// of arguments, if there is none.
pub open spec fn first_redirection(arguments: Seq<Seq<char>>, descriptor: u8) -> int
    decreases arguments.len(),
{
    if arguments.len() == 0 || redirection_mode(arguments[0], descriptor) is Some {
        0
    } else {
        1 + first_redirection(arguments.drop_first(), descriptor)
    }
}

/// The first redirection of `descriptor` among the arguments, as the name
/// of the file and whether to append to it, and the arguments that are
/// left. The operator and the file name behind it leave the arguments. An
/// operator in the last place is an error, and the arguments stay.
pub open spec fn extracted(arguments: Seq<Seq<char>>, descriptor: u8) -> (
    Result<Option<(Seq<char>, bool)>, IoRedirectionError>,
    Seq<Seq<char>>,
) {
    let at = first_redirection(arguments, descriptor);
    if at >= arguments.len() {
        (Ok(None), arguments)
    } else if at == arguments.len() - 1 {
        (Err(IoRedirectionError::MissingArgument), arguments)
    } else {
        (
            Ok(Some((arguments[at + 1], redirection_mode(arguments[at], descriptor)->0))),
            arguments.take(at) + arguments.skip(at + 2),
        )
    }
}

/// Behind arguments that are no operator, the first operator is the first
/// one of the rest.
proof fn lemma_first_redirection_skips(arguments: Seq<Seq<char>>, descriptor: u8, n: int)
    requires
        0 <= n <= arguments.len(),
        forall|i: int| 0 <= i < n ==> redirection_mode(#[trigger] arguments[i], descriptor) is None,
    ensures
        first_redirection(arguments, descriptor) == n + first_redirection(
            arguments.skip(n),
            descriptor,
        ),
    decreases n,
{
    if n == 0 {
        assert(arguments.skip(0) =~= arguments);
    } else {
        let rest = arguments.drop_first();
        lemma_first_redirection_skips(rest, descriptor, n - 1);
        assert(rest.skip(n - 1) =~= arguments.skip(n));
    }
}

/// What the result of an extraction is to the contracts.
pub open spec fn extraction_view(
    result: Result<Option<(String, bool)>, IoRedirectionError>,
) -> Result<Option<(Seq<char>, bool)>, IoRedirectionError> {
    match result {
        Ok(Some((file_name, append))) => Ok(Some((file_name@, append))),
        Ok(None) => Ok(None),
        Err(error) => Err(error),
    }
}

/// Looks for the first redirection of `descriptor` in `args` and takes it
/// out of them: the operator and the file name behind it.
pub fn extract_io_redirection(args: &mut Vec<String>, descriptor: u8) -> (result: Result<
    Option<(String, bool)>,
    IoRedirectionError,
>)
    ensures
        extraction_view(result) == extracted(old(args).deep_view(), descriptor).0,
        final(args).deep_view() == extracted(old(args).deep_view(), descriptor).1,
{
    let ghost arguments = args.deep_view();
    let digits = descriptor_digits(descriptor);
    let plain = digits.clone().concat(">");
    let appending = digits.concat(">>");
    let bare = String::from_str(">");
    let bare_appending = String::from_str(">>");
    proof {
        reveal_strlit(">");
        reveal_strlit(">>");
    }

    let mut index: usize = 0;
    while index < args.len()
        invariant
            index <= args.len(),
            args.deep_view() == arguments,
            arguments == old(args).deep_view(),
            plain@ == decimal_digits(descriptor as nat).push('>'),
            appending@ == decimal_digits(descriptor as nat).push('>').push('>'),
            bare@ == seq!['>'],
            bare_appending@ == seq!['>', '>'],
            forall|i: int|
                0 <= i < index ==> redirection_mode(#[trigger] arguments[i], descriptor) is None,
        decreases args.len() - index,
    {
        let is_plain = args[index] == plain || (descriptor == 1 && args[index] == bare);
        let is_appending = args[index] == appending || (descriptor == 1 && args[index]
            == bare_appending);
        if is_plain || is_appending {
            proof {
                lemma_first_redirection_skips(arguments, descriptor, index as int);
            }
            if index == args.len() - 1 {
                return Err(IoRedirectionError::MissingArgument);
            }
            let file_name = args.remove(index + 1);
            let _ = args.remove(index);
            assert(args.deep_view() =~= arguments.take(index as int) + arguments.skip(
                index as int + 2,
            ));
            return Ok(Some((file_name, !is_plain)));
        }
        index += 1;
    }
    proof {
        lemma_first_redirection_skips(arguments, descriptor, index as int);
    }
    Ok(None)
}

} // verus!
