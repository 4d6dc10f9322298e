//! What a command-line client of the node decides: which request its
//! arguments ask for, and the path of an invocation.

use vstd::prelude::*;
use vstd::string::*;
use crate::bytes::{matches_at, find_from, bytes_eq, copy_of, append_bytes, lemma_find_from_is_first};
use crate::router::{invoke_prefix, invocation_of};
use crate::store::{is_safe_name, is_name_byte, slash, lemma_separators};

verus! {

/// What the client is asked to do.
#[derive(Clone, Debug, PartialEq, Eq)]
pub enum Command {
    /// Upload the file at this path.
    Upload(Vec<u8>),
    /// Invoke the function of this name with this argument.
    Invoke(Vec<u8>, Vec<u8>),
    /// Too few arguments were given.
    Usage,
    /// The action is neither `upload` nor `invoke`.
    UnknownAction,
}

/// A command over plain bytes.
pub enum CommandModel {
    Upload(Seq<u8>),
    Invoke(Seq<u8>, Seq<u8>),
    Usage,
    UnknownAction,
}

impl View for Command {
    type V = CommandModel;

    open spec fn view(&self) -> CommandModel {
        match self {
            Command::Upload(path) => CommandModel::Upload(path@),
            Command::Invoke(name, argument) => CommandModel::Invoke(name@, argument@),
            Command::Usage => CommandModel::Usage,
            Command::UnknownAction => CommandModel::UnknownAction,
        }
    }
}

/// The command that a list of arguments asks for. The program's own name
/// comes first, then the action, then the path or the name; an invocation
/// may give the function's argument after that, and has an empty one else.
pub open spec fn command_of(args: Seq<Seq<u8>>) -> CommandModel {
    if args.len() < 3 {
        CommandModel::Usage
    } else if args[1] == "upload".spec_bytes() {
        CommandModel::Upload(args[2])
    } else if args[1] == "invoke".spec_bytes() {
        CommandModel::Invoke(
            args[2],
            if args.len() > 3 {
                args[3]
            } else {
                Seq::empty()
            },
        )
    } else {
        CommandModel::UnknownAction
    }
}

/// The arguments of a list, each as plain bytes.
pub open spec fn args_view(args: Seq<Vec<u8>>) -> Seq<Seq<u8>> {
    args.map_values(|a: Vec<u8>| a@)
}

/// Reads the command that the arguments ask for.
pub fn parse_command(args: &[Vec<u8>]) -> (command: Command)
    ensures
        command@ == command_of(args_view(args@)),
{
    if args.len() < 3 {
        return Command::Usage;
    }
    assert(args_view(args@)[1] == args@[1]@);
    assert(args_view(args@)[2] == args@[2]@);
    let action = args[1].as_slice();
    if bytes_eq(action, "upload".as_bytes()) {
        Command::Upload(copy_of(args[2].as_slice()))
    } else if bytes_eq(action, "invoke".as_bytes()) {
        let argument = if args.len() > 3 {
            assert(args_view(args@)[3] == args@[3]@);
            copy_of(args[3].as_slice())
        } else {
            Vec::new()
        };
        Command::Invoke(copy_of(args[2].as_slice()), argument)
    } else {
        Command::UnknownAction
    }
}

/// The path that invokes `name` with `argument`.
pub open spec fn invoke_path(name: Seq<u8>, argument: Seq<u8>) -> Seq<u8> {
    invoke_prefix() + name + slash() + argument
}

/// The address that invokes `name` with `argument` on the node at `base`:
/// the base, then the invocation path.
pub fn invoke_url(base: &[u8], name: &[u8], argument: &[u8]) -> (url: Vec<u8>)
    ensures
        url@ == base@ + invoke_path(name@, argument@),
{
    let mut url = copy_of(base);
    append_bytes(&mut url, "/invoke/".as_bytes());
    append_bytes(&mut url, name);
    append_bytes(&mut url, "/".as_bytes());
    append_bytes(&mut url, argument);
    proof {
        assert(url@ =~= base@ + invoke_path(name@, argument@));
    }
    url
}

/// The node reads out of an invocation path what the client put in: the
/// path that the client makes for a safe name and any argument is taken by
/// the router for exactly that name and that argument.
pub proof fn lemma_invoke_path_is_understood(name: Seq<u8>, argument: Seq<u8>)
    requires
        is_safe_name(name),
    ensures
        matches_at(invoke_path(name, argument), invoke_prefix(), 0),
        invocation_of(invoke_path(name, argument)) == Some((name, argument)),
{
    lemma_separators();
    let path = invoke_path(name, argument);
    let prefix = invoke_prefix();
    assert(path.subrange(0, prefix.len() as int) =~= prefix);
    let rest = path.subrange(prefix.len() as int, path.len() as int);
    assert(rest =~= name + slash() + argument);
    let cut = name.len() as int;
    assert(rest.subrange(cut, cut + 1) =~= slash());
    assert(matches_at(rest, slash(), cut));
    lemma_find_from_is_first(rest, slash(), 0);
    let found = find_from(rest, slash(), 0);
    assert(found.is_some());
    let at = found.unwrap();
    if at < cut {
        assert(rest.subrange(at, at + 1)[0] == rest[at]);
        assert(rest[at] == name[at]);
        assert(is_name_byte(name[at]));
        assert(false);
    }
    assert(at == cut);
    assert(rest.subrange(0, cut) =~= name);
    assert(rest.subrange(cut + 1, rest.len() as int) =~= argument);
}

} // verus!
