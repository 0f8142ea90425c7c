//! What the secure credential store holds and where. Reading and writing
//! the OS keychain or the credential file is the application's work.
use vstd::prelude::*;

verus! {

/// Service name of the OS keychain entry (the app identifier).
pub const KEYRING_SERVICE: &'static str = "dev.niruhsa.music.app";

/// The single keychain entry name: one credential is stored at a time.
pub const KEYRING_USER: &'static str = "default";

/// File name used by `FileStore`.
pub const CRED_FILENAME: &'static str = "credential.json";

/// Which kind of credential is stored (a bearer token can expire; a secret
/// key cannot).
#[derive(Debug, Clone, Copy, PartialEq, Eq, Structural)]
pub enum StoredCredentialKind {
    SecretKey,
    Bearer,
}

/// The stored credential, with the server URLs and the identity last seen;
/// `T` is the permission tier.
#[derive(Debug, Clone)]
pub struct StoredCredential<T> {
    pub kind: StoredCredentialKind,
    pub secret: String,
    pub rest_url: Option<String>,
    pub grpc_url: Option<String>,
    /// Whether `grpc_url` was set explicitly (else it is derived from the
    /// REST URL).
    pub grpc_explicit: Option<bool>,
    pub user_id: Option<String>,
    pub username: Option<String>,
    pub tier: Option<T>,
    pub expires_at: Option<String>,
}

/// File-backed credential store at a caller-chosen path.
pub struct FileStore {
    path: String,
}

impl FileStore {
    pub fn new(path: String) -> (r: Self)
        ensures
            r.path_spec() == path@,
    {
        FileStore { path }
    }

    pub closed spec fn path_spec(&self) -> Seq<char> {
        self.path@
    }

    pub fn path(&self) -> (r: &str)
        ensures
            r@ == self.path_spec(),
    {
        self.path.as_str()
    }
}

/// OS keychain-backed store (one entry: `KEYRING_SERVICE` / `KEYRING_USER`).
pub struct KeyringStore;

impl KeyringStore {
    pub fn new() -> (r: Self) {
        KeyringStore
    }
}

} // verus!
