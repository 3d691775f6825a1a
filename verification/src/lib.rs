//! Directory-scoped configuration resolution and templating for a
//! time-tracking command line client.
//!
//! The library locates the configuration file that governs a working
//! directory, parses its rule blocks, matches the active branch name against
//! the block patterns, expands `{{token}}` macro expressions, and combines
//! the matched rule with a snapshot of remote entities into a draft time
//! entry.

pub mod arguments;
pub mod builder;
pub mod colors;
pub mod credentials;
pub mod error;
pub mod locate;
pub mod model;
pub mod models;
pub mod parser;
pub mod paths;
pub mod picker;
pub mod strings;
pub mod template;

pub use arguments::{Command, CommandLineArguments, ConfigSubCommand, Entity, StopCommandOrigin};
pub use builder::ResolvedEntry;
pub use credentials::{Credentials, CredentialsStorage, EnvironmentStorage};
pub use model::{BranchConfig, TrackConfig};
pub use models::{Client, Entities, NetworkClient, NetworkTask, NetworkWorkspace, Project, Task, User, Workspace};
pub use picker::{ItemPicker, PickableItem, PickableItemId, PickableItemKind, PickerKind};
pub use paths::DirPath;
pub use strings::remove_trailing_newline;
