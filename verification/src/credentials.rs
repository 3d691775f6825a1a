//! Credentials and their storage.  The environment-backed storage is plain
//! data; a system keyring lives behind the same interface in the
//! surrounding application.

use vstd::prelude::*;

use crate::error::StorageError;

verus! {

/// The token the remote service authenticates by.
pub struct Credentials {
    pub api_token: String,
}

/// Where credentials are kept between runs.
pub trait CredentialsStorage {
    /// The stored credentials, or why they could not be read.
    fn read(&self) -> Result<Credentials, StorageError>;

    /// Stores a token.
    fn persist(&self, api_token: String) -> Result<(), StorageError>;

    /// Removes the stored token.
    fn clear(&self) -> Result<(), StorageError>;
}

/// Credentials supplied by the environment for one run: readable, never
/// writable — an override, not a store.
pub struct EnvironmentStorage {
    token: String,
}

impl EnvironmentStorage {
    /// A storage handing out exactly `token`.
    pub fn new(token: String) -> (r: EnvironmentStorage)
        ensures
            r.spec_token() == token@,
    {
        EnvironmentStorage { token }
    }

    /// The token this storage was made with.
    pub closed spec fn spec_token(&self) -> Seq<char> {
        self.token@
    }

    /// The stored credentials: always the token supplied at construction.
    pub fn read_credentials(&self) -> (r: Credentials)
        ensures
            r.api_token@ == self.spec_token(),
    {
        Credentials { api_token: self.token.clone() }
    }
}

impl CredentialsStorage for EnvironmentStorage {
    fn read(&self) -> Result<Credentials, StorageError> {
        Ok(self.read_credentials())
    }

    fn persist(&self, _api_token: String) -> Result<(), StorageError> {
        Err(StorageError::EnvironmentOverride)
    }

    fn clear(&self) -> Result<(), StorageError> {
        Err(StorageError::EnvironmentOverride)
    }
}

} // verus!
