//! The command-line surface, as plain data.  Reading the actual arguments
//! into these types is the surrounding application's business.

use vstd::prelude::*;

verus! {

/// Which kind of entity a listing shows.
pub enum Entity {
    Project,
    TimeEntry,
}

/// The configuration subcommands.
pub enum ConfigSubCommand {
    /// Create a configuration file.
    Init,
    /// Report the block matching the current directory.
    Active,
}

/// The subcommands of the client.
pub enum Command {
    Current,
    List { number: Option<usize>, entity: Option<Entity> },
    Running,
    Stop,
    Auth { api_token: String },
    Start {
        interactive: bool,
        description: Option<String>,
        project: Option<String>,
        billable: bool,
    },
    Continue { interactive: bool },
    Config { edit: bool, delete: bool, path: bool, cmd: Option<ConfigSubCommand> },
}

/// Where a stop was requested from; decides what is reported about it.
pub enum StopCommandOrigin {
    CommandLine,
    StartCommand,
    ContinueCommand,
}

/// Everything read from the command line.
pub struct CommandLineArguments {
    pub cmd: Option<Command>,
    /// Change into this directory before running the command.
    pub directory: Option<String>,
    pub proxy: Option<String>,
    /// Use the external picker program instead of the embedded one.
    pub fzf: bool,
}

} // verus!
