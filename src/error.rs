//! The error classes of the package manager.
use vstd::prelude::*;

verus! {

#[derive(Clone, Debug)]
pub enum PkgError {
    /// A repository without a configured or usable address.
    Config(String),
    /// Requested names that no configured repository holds.
    NotFound(Vec<String>),
    /// A dependency cycle is reachable from the named package.
    CycleDetected(String),
    /// Names reached through dependency edges that no repository holds.
    MissingFromDatabase(Vec<String>),
    /// A download or clone failed.
    Transfer(String),
    /// A package artifact is malformed or has no single manifest.
    Archive(String),
    /// A build stage exited abnormally.
    ScriptFailure(String),
    /// A build recipe is missing something its own declarations need.
    Recipe(String),
    /// A filesystem operation failed.
    Io(String),
}

} // verus!
