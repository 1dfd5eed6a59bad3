//! Command execution for a WebAssembly developer CLI.
//!
//! Two subsystems live here. The first moves component binaries between a
//! local file, an on-disk artifact cache and an OCI registry. The second wraps
//! the execution of a command in lifecycle hooks that installed plugins may
//! subscribe to.
//!
//! Nothing in this crate touches the disk or the network itself. Every
//! operation is a small machine that names the next thing to do and decides
//! how to go on once it is told what happened. A host performs the requests.

pub mod cache;
pub mod command;
pub mod dispatch;
pub mod effect;
pub mod error;
pub mod hook;
pub mod reference;
pub mod registry;
pub mod text;
pub mod transfer;
pub mod wadm;
