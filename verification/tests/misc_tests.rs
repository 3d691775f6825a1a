use toggl_cli::credentials::CredentialsStorage;
use toggl_cli::error::{ApiError, ArgumentError, ConfigError, PickerError, StorageError};
use toggl_cli::picker::get_picker;
use toggl_cli::{
    remove_trailing_newline, EnvironmentStorage, PickableItem, PickableItemId, PickableItemKind,
    PickerKind, StopCommandOrigin,
};

#[test]
fn trailing_whitespace_is_removed_and_nothing_else() {
    assert_eq!(remove_trailing_newline("value\n".to_string()), "value".to_string());
    assert_eq!(remove_trailing_newline("value\r\n".to_string()), "value".to_string());
    assert_eq!(remove_trailing_newline("  value  \t ".to_string()), "  value".to_string());
    assert_eq!(remove_trailing_newline("".to_string()), "".to_string());
    assert_eq!(remove_trailing_newline(" \n ".to_string()), "".to_string());
}

#[test]
fn the_environment_storage_reads_and_never_writes() {
    let storage = EnvironmentStorage::new("tok-123".to_string());
    assert_eq!(storage.read().unwrap().api_token, "tok-123".to_string());
    assert!(matches!(
        storage.persist("other".to_string()),
        Err(StorageError::EnvironmentOverride)
    ));
    assert!(matches!(storage.clear(), Err(StorageError::EnvironmentOverride)));
}

#[test]
fn the_picker_choice_follows_the_flag() {
    assert!(matches!(get_picker(true), PickerKind::Fzf));
    assert!(matches!(get_picker(false), PickerKind::Skim));
}

#[test]
fn pickable_items_keep_identity_and_text() {
    let item = PickableItem::new(
        PickableItemId {
            id: 5,
            kind: PickableItemKind::Task,
        },
        "task line".to_string(),
    );
    assert_eq!(item.text(), &"task line".to_string());
    assert_eq!(item.id.id, 5);
    assert!(matches!(item.id.kind, PickableItemKind::Task));
    assert!(matches!(StopCommandOrigin::CommandLine, StopCommandOrigin::CommandLine));
}

#[test]
fn error_messages_name_their_payloads() {
    let m = ConfigError::UnrecognizedMacro("nope".to_string()).message();
    assert_eq!(m, "Unrecognized macro in config file: nope".to_string());
    let m = ConfigError::ShellResolution("cmd".to_string(), "boom".to_string()).message();
    assert_eq!(
        m,
        "Failed to resolve shell macro: boom\nCommand: cmd".to_string()
    );
    let m = ConfigError::WorkspaceNotFound("w".to_string()).message();
    assert_eq!(m, "Invalid workspace in config file: w".to_string());
    assert!(ConfigError::Parse.message().starts_with("Failed to parse config file"));
    assert!(ConfigError::FileNotFound.message().starts_with("No config file found"));
    let m = ArgumentError::DirectoryNotFound("/x".to_string()).message();
    assert_eq!(m, "Directory not found: /x".to_string());
    let m = ArgumentError::NotADirectory("/y".to_string()).message();
    assert_eq!(m, "Not a directory: /y".to_string());
    assert!(!ApiError::Network.message().is_empty());
    assert!(!ApiError::Deserialization.message().is_empty());
    assert!(!StorageError::Read.message().is_empty());
    assert!(!PickerError::Cancelled.message().is_empty());
    assert!(!PickerError::FzfNotInstalled.message().is_empty());
    assert!(!PickerError::Generic.message().is_empty());
}
