//! The error kinds the library reports.  Each carries a `message` method
//! returning plain text; how the text is decorated for a terminal is left
//! to the caller.

use vstd::prelude::*;
use vstd::string::StringExecFns;

verus! {

/// Errors of the remote entity snapshot collaborator.
#[derive(Debug)]
pub enum ApiError {
    Network,
    Deserialization,
}

impl ApiError {
    /// The text shown for this error.
    pub open spec fn spec_message(&self) -> Seq<char> {
        match self {
            ApiError::Network => "An error occurred when making a network request\nCheck your connection and try again."@,
            ApiError::Deserialization => "An error occurred when making a network request."@,
        }
    }

    pub fn message(&self) -> (r: String)
        ensures
            r@ == self.spec_message(),
    {
        match self {
            ApiError::Network => String::from_str(
                "An error occurred when making a network request\nCheck your connection and try again.",
            ),
            ApiError::Deserialization => String::from_str(
                "An error occurred when making a network request.",
            ),
        }
    }
}

/// Errors of the credential storage collaborator.
#[derive(Debug)]
pub enum StorageError {
    Read,
    Write,
    Delete,
    Unknown,
    EnvironmentOverride,
}

impl StorageError {
    /// The text shown for this error.
    pub open spec fn spec_message(&self) -> Seq<char> {
        match self {
            StorageError::Read => "Please set your API token first by calling toggl auth <API_TOKEN>."@,
            StorageError::Write => "An unknown error occurred while writing your credentials."@,
            StorageError::Delete => "An unknown error occurred while deleting your credentials."@,
            StorageError::Unknown => "An unknown error occurred while reading your credentials."@,
            StorageError::EnvironmentOverride => "Credentials are supplied by the environment and cannot be changed here."@,
        }
    }

    pub fn message(&self) -> (r: String)
        ensures
            r@ == self.spec_message(),
    {
        match self {
            StorageError::Read => String::from_str(
                "Please set your API token first by calling toggl auth <API_TOKEN>.",
            ),
            StorageError::Write => String::from_str(
                "An unknown error occurred while writing your credentials.",
            ),
            StorageError::Delete => String::from_str(
                "An unknown error occurred while deleting your credentials.",
            ),
            StorageError::Unknown => String::from_str(
                "An unknown error occurred while reading your credentials.",
            ),
            StorageError::EnvironmentOverride => String::from_str(
                "Credentials are supplied by the environment and cannot be changed here.",
            ),
        }
    }
}

/// Errors of the interactive picker collaborator.
#[derive(Debug)]
pub enum PickerError {
    Cancelled,
    FzfNotInstalled,
    Generic,
}

impl PickerError {
    /// The text shown for this error.
    pub open spec fn spec_message(&self) -> Seq<char> {
        match self {
            PickerError::Cancelled => "Operation cancelled"@,
            PickerError::FzfNotInstalled => "fzf could not be found. Is it installed?"@,
            PickerError::Generic => "Something went wrong."@,
        }
    }

    pub fn message(&self) -> (r: String)
        ensures
            r@ == self.spec_message(),
    {
        match self {
            PickerError::Cancelled => String::from_str("Operation cancelled"),
            PickerError::FzfNotInstalled => String::from_str(
                "fzf could not be found. Is it installed?",
            ),
            PickerError::Generic => String::from_str("Something went wrong."),
        }
    }
}

/// Errors of configuration location, parsing and macro resolution.
#[derive(Debug)]
pub enum ConfigError {
    /// The document is malformed: structurally invalid text, a duplicate
    /// field, an unknown field, a duplicate default block, or an invalid
    /// branch pattern.
    Parse,
    /// No configuration file was found for any ancestor directory, nor a
    /// global fallback.
    FileNotFound,
    /// A `{{...}}` token matching none of the known names and not starting
    /// with `$`.
    UnrecognizedMacro(String),
    /// A macro-invoked external command failed; carries the command text
    /// and its captured error output.
    ShellResolution(String, String),
    /// A workspace name that matches no known workspace.
    WorkspaceNotFound(String),
}

impl ConfigError {
    /// The text shown for this error.
    pub open spec fn spec_message(&self) -> Seq<char> {
        match self {
            ConfigError::Parse => "Failed to parse config file\nTo edit the configuration file in your editor run toggl config --edit"@,
            ConfigError::FileNotFound => "No config file found\nRun toggl config init to create one"@,
            ConfigError::UnrecognizedMacro(m) => "Unrecognized macro in config file: "@ + m@,
            ConfigError::ShellResolution(command, output) => "Failed to resolve shell macro: "@
                + output@ + "\nCommand: "@ + command@,
            ConfigError::WorkspaceNotFound(w) => "Invalid workspace in config file: "@ + w@,
        }
    }

    pub fn message(&self) -> (r: String)
        ensures
            r@ == self.spec_message(),
    {
        match self {
            ConfigError::Parse => String::from_str(
                "Failed to parse config file\nTo edit the configuration file in your editor run toggl config --edit",
            ),
            ConfigError::FileNotFound => String::from_str(
                "No config file found\nRun toggl config init to create one",
            ),
            ConfigError::UnrecognizedMacro(m) => String::from_str(
                "Unrecognized macro in config file: ",
            ).concat(m.as_str()),
            ConfigError::ShellResolution(command, output) => String::from_str(
                "Failed to resolve shell macro: ",
            ).concat(output.as_str()).concat("\nCommand: ").concat(command.as_str()),
            ConfigError::WorkspaceNotFound(w) => String::from_str(
                "Invalid workspace in config file: ",
            ).concat(w.as_str()),
        }
    }
}

/// Errors of command-line argument validation.
#[derive(Debug)]
pub enum ArgumentError {
    DirectoryNotFound(String),
    NotADirectory(String),
}

impl ArgumentError {
    /// The text shown for this error.
    pub open spec fn spec_message(&self) -> Seq<char> {
        match self {
            ArgumentError::DirectoryNotFound(path) => "Directory not found: "@ + path@,
            ArgumentError::NotADirectory(path) => "Not a directory: "@ + path@,
        }
    }

    pub fn message(&self) -> (r: String)
        ensures
            r@ == self.spec_message(),
    {
        match self {
            ArgumentError::DirectoryNotFound(path) => String::from_str(
                "Directory not found: ",
            ).concat(path.as_str()),
            ArgumentError::NotADirectory(path) => String::from_str("Not a directory: ").concat(
                path.as_str(),
            ),
        }
    }
}

} // verus!
