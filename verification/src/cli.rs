//! Parsing of the command line into the command to run.
//!
//! Printing usage text and executing the commands stay outside the
//! library; `Invalid` tells the caller to print help and fail.

use vstd::prelude::*;

use crate::text::str_is;

verus! {

/// One invocation's command.
pub enum Command {
    Add { name: String, password: String },
    List,
    Remove { name: String },
    Unlock { password: Option<String> },
    Lock,
    Help,
    Tui,
    StartDaemon,
    StopDaemon,
    DaemonStatus,
    Invalid,
}

/// Mathematical model of a [`Command`].
pub ghost enum CommandView {
    Add { name: Seq<char>, password: Seq<char> },
    List,
    Remove { name: Seq<char> },
    Unlock { password: Option<Seq<char>> },
    Lock,
    Help,
    Tui,
    StartDaemon,
    StopDaemon,
    DaemonStatus,
    Invalid,
}

impl View for Command {
    type V = CommandView;

    open spec fn view(&self) -> CommandView {
        match self {
            Command::Add { name, password } => CommandView::Add {
                name: name@,
                password: password@,
            },
            Command::List => CommandView::List,
            Command::Remove { name } => CommandView::Remove { name: name@ },
            Command::Unlock { password } => CommandView::Unlock {
                password: password.deep_view(),
            },
            Command::Lock => CommandView::Lock,
            Command::Help => CommandView::Help,
            Command::Tui => CommandView::Tui,
            Command::StartDaemon => CommandView::StartDaemon,
            Command::StopDaemon => CommandView::StopDaemon,
            Command::DaemonStatus => CommandView::DaemonStatus,
            Command::Invalid => CommandView::Invalid,
        }
    }
}

/// The command an argument list denotes. The first argument is the
/// program name; `add` takes its entry name and password from the second
/// and fourth following arguments (the third is the user name, which the
/// stored entry does not keep).
pub open spec fn spec_parse_args(args: Seq<Seq<char>>) -> CommandView {
    if args.len() < 2 {
        CommandView::Invalid
    } else if args[1] == "add"@ {
        if args.len() < 5 {
            CommandView::Invalid
        } else {
            CommandView::Add { name: args[2], password: args[4] }
        }
    } else if args[1] == "list"@ {
        CommandView::List
    } else if args[1] == "remove"@ {
        if args.len() < 3 {
            CommandView::Invalid
        } else {
            CommandView::Remove { name: args[2] }
        }
    } else if args[1] == "unlock"@ {
        if args.len() > 2 {
            CommandView::Unlock { password: Some(args[2]) }
        } else {
            CommandView::Unlock { password: None }
        }
    } else if args[1] == "lock"@ {
        CommandView::Lock
    } else if args[1] == "help"@ {
        CommandView::Help
    } else if args[1] == "tui"@ {
        CommandView::Tui
    } else if args[1] == "daemon"@ {
        if args.len() < 3 {
            CommandView::Invalid
        } else if args[2] == "start"@ {
            CommandView::StartDaemon
        } else if args[2] == "stop"@ {
            CommandView::StopDaemon
        } else if args[2] == "status"@ {
            CommandView::DaemonStatus
        } else {
            CommandView::Invalid
        }
    } else {
        CommandView::Invalid
    }
}

/// Parses the argument list. The caller prints usage and error text for
/// `Invalid` commands.
pub fn parse_args(args: Vec<String>) -> (r: Command)
    ensures
        r@ == spec_parse_args(args.deep_view()),
{
    proof {
        assert forall|i: int| 0 <= i < args@.len() implies args.deep_view()[i]
            == args@[i]@ by {}
    }
    if args.len() < 2 {
        return Command::Invalid;
    }
    let arg = args[1].as_str();
    if str_is(arg, "add") {
        if args.len() < 5 {
            Command::Invalid
        } else {
            Command::Add { name: args[2].clone(), password: args[4].clone() }
        }
    } else if str_is(arg, "list") {
        Command::List
    } else if str_is(arg, "remove") {
        if args.len() < 3 {
            Command::Invalid
        } else {
            Command::Remove { name: args[2].clone() }
        }
    } else if str_is(arg, "unlock") {
        if args.len() > 2 {
            Command::Unlock { password: Some(args[2].clone()) }
        } else {
            Command::Unlock { password: None }
        }
    } else if str_is(arg, "lock") {
        Command::Lock
    } else if str_is(arg, "help") {
        Command::Help
    } else if str_is(arg, "tui") {
        Command::Tui
    } else if str_is(arg, "daemon") {
        if args.len() < 3 {
            Command::Invalid
        } else if str_is(args[2].as_str(), "start") {
            Command::StartDaemon
        } else if str_is(args[2].as_str(), "stop") {
            Command::StopDaemon
        } else if str_is(args[2].as_str(), "status") {
            Command::DaemonStatus
        } else {
            Command::Invalid
        }
    } else {
        Command::Invalid
    }
}

} // verus!
