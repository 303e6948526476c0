//! Core of a game-version launcher.
//!
//! The core resolves a symbolic version id against a remote catalog,
//! filters platform-conditional libraries, plans the download work for an
//! installation, selects native binaries out of downloaded archives, and
//! composes the durable installation metadata. All network and filesystem
//! traffic stays with the shell around the core: the core takes bytes and
//! plain values in, and hands plans, records and decisions back.
pub mod appstate;
pub mod catalog;
pub mod errors;
pub mod install;
pub mod json;
pub mod metadata;
pub mod natives;
pub mod paths;
pub mod platform;
pub mod profiles;
pub mod resolve;
pub mod text;
