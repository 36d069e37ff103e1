//! The errors of the vault tool, and the text each one is shown with.
use vstd::prelude::*;

use crate::text::push_str;

verus! {

/// What can go wrong while managing a vault.
#[derive(Debug, Clone, PartialEq, Eq)]
pub enum EnvzError {
    VaultNotFound,
    VaultAlreadyExists,
    KeyNotFound(String),
    AuthFailed,
    Crypto(String),
    Keychain(String),
    InvalidVault(String),
    InvalidKey(String),
    ParseError(String),
    CommandError(String),
    /// An input/output failure, carried as its message.
    Io(String),
}

/// The mathematical value of an [`EnvzError`]: the same variants, with texts
/// as character sequences.
pub enum ErrorView {
    VaultNotFound,
    VaultAlreadyExists,
    KeyNotFound(Seq<char>),
    AuthFailed,
    Crypto(Seq<char>),
    Keychain(Seq<char>),
    InvalidVault(Seq<char>),
    InvalidKey(Seq<char>),
    ParseError(Seq<char>),
    CommandError(Seq<char>),
    Io(Seq<char>),
}

impl View for EnvzError {
    type V = ErrorView;

    open spec fn view(&self) -> ErrorView {
        match self {
            EnvzError::VaultNotFound => ErrorView::VaultNotFound,
            EnvzError::VaultAlreadyExists => ErrorView::VaultAlreadyExists,
            EnvzError::KeyNotFound(s) => ErrorView::KeyNotFound(s@),
            EnvzError::AuthFailed => ErrorView::AuthFailed,
            EnvzError::Crypto(s) => ErrorView::Crypto(s@),
            EnvzError::Keychain(s) => ErrorView::Keychain(s@),
            EnvzError::InvalidVault(s) => ErrorView::InvalidVault(s@),
            EnvzError::InvalidKey(s) => ErrorView::InvalidKey(s@),
            EnvzError::ParseError(s) => ErrorView::ParseError(s@),
            EnvzError::CommandError(s) => ErrorView::CommandError(s@),
            EnvzError::Io(s) => ErrorView::Io(s@),
        }
    }
}

/// The text shown to the user for an error.
pub open spec fn error_text(e: ErrorView) -> Seq<char> {
    match e {
        ErrorView::VaultNotFound => "Vault not found. Run `envz init` first."@,
        ErrorView::VaultAlreadyExists =>
            "Vault already exists in this directory. Use --force to overwrite."@,
        ErrorView::KeyNotFound(s) => "Key not found: "@ + s,
        ErrorView::AuthFailed => "Authentication failed or was cancelled."@,
        ErrorView::Crypto(s) => "Encryption error: "@ + s,
        ErrorView::Keychain(s) => "Keychain error: "@ + s,
        ErrorView::InvalidVault(s) => "Invalid vault file: "@ + s,
        ErrorView::InvalidKey(s) => "Invalid variable name '"@ + s
            + "': must match [A-Za-z_][A-Za-z0-9_]*"@,
        ErrorView::ParseError(s) => "Failed to parse env file: "@ + s,
        ErrorView::CommandError(s) => "Command failed: "@ + s,
        ErrorView::Io(s) => s,
    }
}

impl EnvzError {
    /// The text shown to the user for this error.
    pub fn message(&self) -> (r: String)
        ensures
            r@ == error_text(self@),
    {
        let mut r = String::new();
        match self {
            EnvzError::VaultNotFound => push_str(&mut r, "Vault not found. Run `envz init` first."),
            EnvzError::VaultAlreadyExists => push_str(
                &mut r,
                "Vault already exists in this directory. Use --force to overwrite.",
            ),
            EnvzError::KeyNotFound(s) => {
                push_str(&mut r, "Key not found: ");
                push_str(&mut r, s.as_str());
            },
            EnvzError::AuthFailed => push_str(&mut r, "Authentication failed or was cancelled."),
            EnvzError::Crypto(s) => {
                push_str(&mut r, "Encryption error: ");
                push_str(&mut r, s.as_str());
            },
            EnvzError::Keychain(s) => {
                push_str(&mut r, "Keychain error: ");
                push_str(&mut r, s.as_str());
            },
            EnvzError::InvalidVault(s) => {
                push_str(&mut r, "Invalid vault file: ");
                push_str(&mut r, s.as_str());
            },
            EnvzError::InvalidKey(s) => {
                push_str(&mut r, "Invalid variable name '");
                push_str(&mut r, s.as_str());
                push_str(&mut r, "': must match [A-Za-z_][A-Za-z0-9_]*");
            },
            EnvzError::ParseError(s) => {
                push_str(&mut r, "Failed to parse env file: ");
                push_str(&mut r, s.as_str());
            },
            EnvzError::CommandError(s) => {
                push_str(&mut r, "Command failed: ");
                push_str(&mut r, s.as_str());
            },
            EnvzError::Io(s) => push_str(&mut r, s.as_str()),
        }
        assert(r@ == error_text(self@)) by {
            assert(forall|t: Seq<char>| Seq::<char>::empty() + t =~= t);
        }
        r
    }
}

} // verus!
