//! The commands of the program and their arguments.

use crate::common::error::{Error, ErrorView};
use crate::text::same_text;
use vstd::prelude::*;

verus! {

/// The arguments of a command that works on a data directory.
#[derive(Debug)]
pub struct DataDirArgs {
    /// The data directory.
    pub data_dir: String,
}

/// The arguments of the command that pushes one message.
#[derive(Debug)]
pub struct PushArgs {
    /// The data directory.
    pub data_dir: String,
    /// The message to push.
    pub message: String,
}

/// The commands of the program.
#[derive(Debug)]
pub enum Commands {
    /// Run passes for ever, one after each pause.
    Server(DataDirArgs),
    /// Run one pass.
    Once(DataDirArgs),
    /// Push one message.
    Push(PushArgs),
}

/// What the command line asks for.
#[derive(Debug)]
pub struct Cli {
    pub command: Commands,
}

/// A command line as plain values.
pub enum CliView {
    Server { data_dir: Seq<char> },
    Once { data_dir: Seq<char> },
    Push { data_dir: Seq<char>, message: Seq<char> },
}

impl View for Cli {
    type V = CliView;

    open spec fn view(&self) -> CliView {
        match self.command {
            Commands::Server(a) => CliView::Server { data_dir: a.data_dir@ },
            Commands::Once(a) => CliView::Once { data_dir: a.data_dir@ },
            Commands::Push(a) => CliView::Push { data_dir: a.data_dir@, message: a.message@ },
        }
    }
}

/// The data directory that is used where none is named.
pub open spec fn default_data_dir() -> Seq<char> {
    "./data"@
}

/// The data directory that was named, or the default one.
pub open spec fn data_dir_or_default(data_dir: Option<Seq<char>>) -> Seq<char> {
    match data_dir {
        Some(d) => d,
        None => default_data_dir(),
    }
}

/// What a command's name and options ask for: `server` and `once` take a
/// data directory, `push` takes one and needs a message.
pub open spec fn cli_of(
    command: Seq<char>,
    data_dir: Option<Seq<char>>,
    message: Option<Seq<char>>,
) -> Option<CliView> {
    if command == "server"@ {
        Some(CliView::Server { data_dir: data_dir_or_default(data_dir) })
    } else if command == "once"@ {
        Some(CliView::Once { data_dir: data_dir_or_default(data_dir) })
    } else if command == "push"@ {
        match message {
            Some(m) => Some(CliView::Push { data_dir: data_dir_or_default(data_dir), message: m }),
            None => None,
        }
    } else {
        None
    }
}

/// Why a command's name and options ask for nothing: `push` lacks its
/// message, or the name is no command.
pub open spec fn cli_failure_of(command: Seq<char>) -> ErrorView {
    if command == "push"@ {
        ErrorView::Internal("push needs a message"@)
    } else {
        ErrorView::Internal("unknown command"@)
    }
}

/// The view of a text that may be missing.
pub open spec fn text_view(t: Option<String>) -> Option<Seq<char>> {
    match t {
        Some(s) => Some(s@),
        None => None,
    }
}

impl Cli {
    /// The name of the command.
    pub fn command_name(&self) -> (r: &'static str)
        ensures
            r@ == match self@ {
                CliView::Server { .. } => "server"@,
                CliView::Once { .. } => "once"@,
                CliView::Push { .. } => "push"@,
            },
    {
        match &self.command {
            Commands::Server(_) => "server",
            Commands::Once(_) => "once",
            Commands::Push(_) => "push",
        }
    }

    /// Makes the command line from the name of a command and its options as
    /// they were given. A name that is no command is refused, and so is `push`
    /// without a message.
    pub fn from_parts(command: &str, data_dir: Option<String>, message: Option<String>) -> (r:
        Result<Cli, Error>)
        ensures
            match r {
                Ok(cli) => cli_of(command@, text_view(data_dir), text_view(message)) == Some(cli@),
                Err(e) => cli_of(command@, text_view(data_dir), text_view(message)) is None
                    && e@ == cli_failure_of(command@),
            },
    {
        let dir = match data_dir {
            Some(d) => d,
            None => String::from_str("./data"),
        };
        if same_text(command, "server") {
            Ok(Cli { command: Commands::Server(DataDirArgs { data_dir: dir }) })
        } else if same_text(command, "once") {
            Ok(Cli { command: Commands::Once(DataDirArgs { data_dir: dir }) })
        } else if same_text(command, "push") {
            match message {
                Some(m) => Ok(
                    Cli { command: Commands::Push(PushArgs { data_dir: dir, message: m }) },
                ),
                None => Err(Error::Internal(String::from_str("push needs a message"))),
            }
        } else {
            Err(Error::Internal(String::from_str("unknown command")))
        }
    }
}

} // verus!
