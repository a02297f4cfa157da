//! The completions that the shell knows without looking at the disk.

use crate::builtin::BuiltInCommand;
use crate::text::starts_with;
use vstd::prelude::*;

verus! {

/// The names of the built-in commands, in the order in which they are
/// declared.
pub open spec fn builtin_names() -> Seq<Seq<char>> {
    BuiltInCommand::spec_all().map_values(|builtin: BuiltInCommand| builtin.spec_name())
}

/// The names of the built-in commands that begin with `input`, in the
/// order in which the commands are declared.
pub open spec fn completed(input: Seq<char>) -> Seq<Seq<char>> {
    builtin_names().filter(|name: Seq<char>| input.is_prefix_of(name))
}

/// The names of the built-in commands that begin with `input`.
pub fn builtin_completions(input: &str) -> (completions: Vec<String>)
    ensures
        completions.deep_view() == completed(input@),
{
    let all = BuiltInCommand::all();
    let ghost names = builtin_names();
    let ghost begins = |name: Seq<char>| input@.is_prefix_of(name);
    let mut completions: Vec<String> = Vec::new();
    let mut index: usize = 0;
    proof {
        reveal(Seq::filter);
    }
    while index < 5
        invariant
            index <= 5,
            all@ == BuiltInCommand::spec_all(),
            names == builtin_names(),
            begins == (|name: Seq<char>| input@.is_prefix_of(name)),
            completions.deep_view() == names.take(index as int).filter(begins),
        decreases 5 - index,
    {
        let name = all[index].name();
        proof {
            reveal(Seq::filter);
            assert(names.take(index as int + 1).drop_last() =~= names.take(index as int));
        }
        if starts_with(name, input) {
            completions.push(name.to_owned());
        }
        index += 1;
    }
    assert(names.take(5) =~= names);
    completions
}

} // verus!
