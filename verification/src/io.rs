//! Where the redirections of a command send what it writes.

use crate::parser::{Descriptor, Redirect, RedirectTo, Redirection, Target};
use vstd::prelude::*;

verus! {

/// Why the redirections of a command cannot be set up.
#[derive(Debug, Clone, Copy, PartialEq, Eq, Structural)]
pub enum IoError {
    /// A redirection goes to a descriptor other than the output and the
    /// error output.
    UnsupportedDescriptor(u8),
}

/// What a descriptor is connected to.
#[derive(Debug, PartialEq, Eq)]
pub enum Destination {
    /// The standard output of the shell.
    Stdout,
    /// The standard error output of the shell.
    Stderr,
    /// The file of this name, added to if `append` is set and emptied first
    /// otherwise.
    File { name: String, append: bool },
}

/// What a destination is to the contracts.
pub enum Sink {
    Stdout,
    Stderr,
    File { name: Seq<char>, append: bool },
}

impl View for Destination {
    type V = Sink;

    open spec fn view(&self) -> Sink {
        match self {
            Destination::Stdout => Sink::Stdout,
            Destination::Stderr => Sink::Stderr,
            Destination::File { name, append } => Sink::File { name: name@, append: *append },
        }
    }
}

impl Clone for Destination {
    fn clone(&self) -> (copy: Destination)
        ensures
            copy@ == self@,
    {
        match self {
            Destination::Stdout => Destination::Stdout,
            Destination::Stderr => Destination::Stderr,
            Destination::File { name, append } => Destination::File {
                name: name.clone(),
                append: *append,
            },
        }
    }
}

/// What the output and the error output of a command are connected to.
#[derive(Debug, PartialEq, Eq)]
pub struct Routing {
    /// Where descriptor 1 goes.
    pub output: Destination,
    /// Where descriptor 2 goes.
    pub error: Destination,
}

/// What a routing is to the contracts.
pub struct Routes {
    pub output: Sink,
    pub error: Sink,
}

impl View for Routing {
    type V = Routes;

    open spec fn view(&self) -> Routes {
        Routes { output: self.output@, error: self.error@ }
    }
}

/// Without a redirection the output and the error output are those of the
/// shell.
pub open spec fn unrouted() -> Routes {
    Routes { output: Sink::Stdout, error: Sink::Stderr }
}

/// Where a redirection sends its source, given where the two outputs go
/// when it is met: into its file, or to where the descriptor that it names
/// goes then. It can name the output and the error output only.
pub open spec fn sink_of(redirect: Redirection, routes: Routes) -> Result<Sink, IoError> {
    match redirect.target {
        Target::Descriptor(Descriptor(to)) => if to == 1 {
            Ok(routes.output)
        } else if to == 2 {
            Ok(routes.error)
        } else {
            Err(IoError::UnsupportedDescriptor(to))
        },
        Target::File(name) => Ok(Sink::File { name, append: redirect.append }),
    }
}

/// The routes after one more redirection: its source goes to its sink. A
/// source other than the output and the error output changes nothing.
pub open spec fn rerouted(routes: Routes, redirect: Redirection) -> Result<Routes, IoError> {
    match sink_of(redirect, routes) {
        Ok(sink) => if redirect.source == Descriptor(1) {
            Ok(Routes { output: sink, ..routes })
        } else if redirect.source == Descriptor(2) {
            Ok(Routes { error: sink, ..routes })
        } else {
            Ok(routes)
        },
        Err(error) => Err(error),
    }
}

/// Where the output and the error output go under the redirections of a
/// command, taken in order: a later redirection of a descriptor overrides an
/// earlier one, and a redirection to a descriptor goes to where that one
/// goes at that point. The first redirection that cannot be set up is the
/// error.
pub open spec fn routed(redirects: Seq<Redirection>) -> Result<Routes, IoError>
    decreases redirects.len(),
{
    if redirects.len() == 0 {
        Ok(unrouted())
    } else {
        match routed(redirects.drop_last()) {
            Ok(routes) => rerouted(routes, redirects.last()),
            Err(error) => Err(error),
        }
    }
}

/// What the result of resolving is to the contracts.
pub open spec fn routing_view(result: Result<Routing, IoError>) -> Result<Routes, IoError> {
    match result {
        Ok(routing) => Ok(routing@),
        Err(error) => Err(error),
    }
}

/// What is wrong with the beginning of the redirections is wrong with all
/// of them.
pub proof fn lemma_routed_error_stays(redirects: Seq<Redirection>, n: int)
    requires
        0 <= n <= redirects.len(),
        routed(redirects.take(n)) is Err,
    ensures
        routed(redirects) == routed(redirects.take(n)),
    decreases redirects.len(),
{
    if n < redirects.len() {
        assert(redirects.drop_last().take(n) =~= redirects.take(n));
        lemma_routed_error_stays(redirects.drop_last(), n);
    } else {
        assert(redirects.take(n) =~= redirects);
    }
}

/// The last redirection of the output into a file decides where the output
/// goes, whatever stood before it, and leaves the error output where it
/// was; and so for the error output.
pub proof fn lemma_last_file_wins(redirects: Seq<Redirection>, last: Redirection)
    requires
        routed(redirects) is Ok,
        last.target is File,
        last.source == Descriptor(1) || last.source == Descriptor(2),
    ensures
        routed(redirects.push(last)) == Ok::<Routes, IoError>(
            if last.source == Descriptor(1) {
                Routes {
                    output: Sink::File { name: last.target->File_0, append: last.append },
                    error: routed(redirects)->Ok_0.error,
                }
            } else {
                Routes {
                    output: routed(redirects)->Ok_0.output,
                    error: Sink::File { name: last.target->File_0, append: last.append },
                }
            },
        ),
{
    assert(redirects.push(last).drop_last() =~= redirects);
}

/// A redirection to a descriptor behind one of that descriptor into a file
/// goes into the file too: both outputs end in it.
pub proof fn lemma_duplicate_follows_file(name: Seq<char>, append: bool, duplicate_appends: bool)
    ensures
        routed(
            seq![
                Redirection { source: Descriptor(2), target: Target::File(name), append },
                Redirection {
                    source: Descriptor(1),
                    target: Target::Descriptor(Descriptor(2)),
                    append: duplicate_appends,
                },
            ],
        ) == Ok::<Routes, IoError>(
            Routes { output: Sink::File { name, append }, error: Sink::File { name, append } },
        ),
{
    reveal_with_fuel(routed, 3);
}

/// Tells where the output and the error output of a command go under its
/// redirections.
pub fn resolve_redirects(redirects: &[Redirect]) -> (result: Result<Routing, IoError>)
    ensures
        routing_view(result) == routed(redirects.deep_view()),
{
    let ghost all = redirects.deep_view();
    let mut output = Destination::Stdout;
    let mut error = Destination::Stderr;
    let mut index: usize = 0;
    while index < redirects.len()
        invariant
            index <= redirects.len(),
            all == redirects.deep_view(),
            routed(all.take(index as int)) == Ok::<Routes, IoError>(
                Routes { output: output@, error: error@ },
            ),
        decreases redirects.len() - index,
    {
        let redirect = &redirects[index];
        proof {
            assert(all.take(index as int + 1).drop_last() =~= all.take(index as int));
        }
        let sink = match redirect.to() {
            RedirectTo::Descriptor(Descriptor(to)) => {
                if to == 1 {
                    output.clone()
                } else if to == 2 {
                    error.clone()
                } else {
                    proof {
                        lemma_routed_error_stays(all, index as int + 1);
                    }
                    return Err(IoError::UnsupportedDescriptor(to));
                }
            },
            RedirectTo::File(name) => Destination::File { name, append: redirect.append() },
        };
        let source = redirect.from();
        if source.0 == 1 {
            output = sink;
        } else if source.0 == 2 {
            error = sink;
        }
        index += 1;
    }
    assert(all.take(all.len() as int) =~= all);
    Ok(Routing { output, error })
}

} // verus!
