//! Resolution core of a binary/tool version manager.
//!
//! Given a command name, a set of installed binaries (each identified by
//! owner, name, version, and the commands it provides) and optional
//! version constraints, this library decides which single installed
//! executable should run.  It covers the data model for installed
//! binaries, name + version matching with owner disambiguation and
//! "latest" tie-breaking, and the resolution of a command's global
//! binding (PATH-delegated vs. manager-managed).
//!
//! Everything here is a pure decision procedure over an already-loaded,
//! immutable manifest snapshot: callers perform any filesystem work (such
//! as scanning PATH for an executable) and hand the outcome in as plain
//! values.

pub mod config;
pub mod errors;
pub mod helpers;
pub mod manifest;
pub mod names;
pub mod text;
pub mod version;
