//! The command line: `runner [-p PROVIDER]... [-q QUERY]`.
use vstd::prelude::*;

use crate::config::views;
use crate::text::{owned, push_str, str_eq};
use crate::ui::{opt_views, Options};

verus! {

/// What the command line asks for.
pub enum Command {
    /// Open the launcher with these options.
    Run(Options),
    /// Print the help and exit.
    Help,
}

/// A command line that cannot be read.
pub enum ArgError {
    /// `-p` without a provider name.
    MissingProvider,
    /// `-q` without a query.
    MissingQuery,
    /// An argument that is not an option of runner.
    Unknown(String),
}

/// What a command line means, over plain values.
pub enum ArgsModel {
    Run { providers: Option<Seq<Seq<char>>>, initial_query: Seq<char> },
    Help,
    MissingProvider,
    MissingQuery,
    Unknown(Seq<char>),
}

/// The meaning of `args[i..]`, with the providers and query read so far.
pub open spec fn args_from(args: Seq<Seq<char>>, i: int, providers: Seq<Seq<char>>, query: Seq<char>) -> ArgsModel
    decreases args.len() - i,
{
    if i < 0 || i >= args.len() {
        ArgsModel::Run {
            providers: if providers.len() > 0 {
                Some(providers)
            } else {
                None
            },
            initial_query: query,
        }
    } else {
        let a = args[i];
        if a == "-p"@ || a == "--provider"@ {
            if i + 1 < args.len() {
                args_from(args, i + 2, providers.push(args[i + 1]), query)
            } else {
                ArgsModel::MissingProvider
            }
        } else if a == "-q"@ || a == "--query"@ {
            if i + 1 < args.len() {
                args_from(args, i + 2, providers, args[i + 1])
            } else {
                ArgsModel::MissingQuery
            }
        } else if a == "-h"@ || a == "--help"@ {
            ArgsModel::Help
        } else {
            ArgsModel::Unknown(a)
        }
    }
}

/// The meaning of a command line (without the program's name).
pub open spec fn parse_args_spec(args: Seq<Seq<char>>) -> ArgsModel {
    args_from(args, 0, Seq::empty(), Seq::empty())
}

/// A parse result over plain values.
pub open spec fn args_view(r: Result<Command, ArgError>) -> ArgsModel {
    match r {
        Ok(Command::Run(o)) => ArgsModel::Run {
            providers: opt_views(o.providers),
            initial_query: o.initial_query@,
        },
        Ok(Command::Help) => ArgsModel::Help,
        Err(ArgError::MissingProvider) => ArgsModel::MissingProvider,
        Err(ArgError::MissingQuery) => ArgsModel::MissingQuery,
        Err(ArgError::Unknown(a)) => ArgsModel::Unknown(a@),
    }
}

/// Reads the command line (without the program's name): `-p`/`--provider NAME`
/// (repeatable), `-q`/`--query TEXT`, `-h`/`--help`.
pub fn parse_args(args: &[String]) -> (r: Result<Command, ArgError>)
    ensures
        args_view(r) == parse_args_spec(views(args@)),
{
    let ghost a = views(args@);
    let mut providers: Vec<String> = Vec::new();
    let mut query = String::new();
    let mut i: usize = 0;
    assert(views(providers@) =~= Seq::empty());
    while i < args.len()
        invariant
            a == views(args@),
            i <= args@.len(),
            parse_args_spec(a) == args_from(a, i as int, views(providers@), query@),
        decreases args@.len() - i,
    {
        let arg = args[i].as_str();
        assert(a[i as int] == arg@);
        if str_eq(arg, "-p") || str_eq(arg, "--provider") {
            if i + 1 >= args.len() {
                return Err(ArgError::MissingProvider);
            }
            let ghost before = providers@;
            providers.push(owned(args[i + 1].as_str()));
            assert(views(providers@) =~= views(before).push(a[i + 1]));
            i = i + 2;
        } else if str_eq(arg, "-q") || str_eq(arg, "--query") {
            if i + 1 >= args.len() {
                return Err(ArgError::MissingQuery);
            }
            query = owned(args[i + 1].as_str());
            i = i + 2;
        } else if str_eq(arg, "-h") || str_eq(arg, "--help") {
            return Ok(Command::Help);
        } else {
            return Err(ArgError::Unknown(owned(arg)));
        }
    }
    let providers = if providers.len() > 0 {
        Some(providers)
    } else {
        None
    };
    Ok(Command::Run(Options { providers, initial_query: query }))
}

impl ArgError {
    /// The message printed before the help.
    pub fn message(&self) -> (r: String)
        ensures
            r@ == (match self {
                ArgError::MissingProvider => "missing provider name"@,
                ArgError::MissingQuery => "missing query text"@,
                ArgError::Unknown(a) => "unknown argument: "@ + a@,
            }),
    {
        match self {
            ArgError::MissingProvider => owned("missing provider name"),
            ArgError::MissingQuery => owned("missing query text"),
            ArgError::Unknown(a) => {
                let mut m = owned("unknown argument: ");
                push_str(&mut m, a.as_str());
                m
            },
        }
    }
}

} // verus!
