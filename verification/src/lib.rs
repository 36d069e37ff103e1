//! Encrypted storage of environment variables: the vault format, key
//! derivation, the `.env` file format and the decisions of the `envz`
//! commands, each with a contract proved by Verus.

pub mod text;
pub mod error;
pub mod envmap;
pub mod envfile;
pub mod crypto;
pub mod store;
pub mod codesign;
pub mod keychain;
pub mod env_filter;
pub mod commands;
