//! sconectl: a launcher that resolves the host's container-engine
//! environment and assembles a single containerized invocation.
//!
//! The library holds the launcher's logic: endpoint classification,
//! configuration precedence, argument extraction, command assembly and the
//! execution state machine. Process and filesystem contact stays with the
//! binary that drives it.

pub mod args;
pub mod creds;
pub mod driver;
pub mod image;
pub mod invocation;
pub mod kube;
pub mod endpoint;
pub mod strutil;

use vstd::prelude::*;

verus! {

/// A fatal condition the launcher reports before it exits.
///
/// The usage errors (see [`LauncherError::is_usage`]) are mistakes in what
/// the caller asked for: a missing command, a flag without a value, a
/// relative CAS-config path. The rest mean the host is not provisioned: no
/// shell, no engine CLI, no home directory, a directory that could not be
/// created.
#[derive(Clone, Copy, PartialEq, Eq, Structural, Debug)]
pub enum LauncherError {
    MissingFlagValue,
    RelativeCasPath,
    MissingCommand,
    MissingHome,
    ShellNotFound,
    EngineNotFound,
    DirCreationFailed,
}

impl LauncherError {
    /// True of the errors caused by what the caller asked for, as opposed to
    /// the state of the host.
    pub open spec fn spec_is_usage(self) -> bool {
        match self {
            LauncherError::MissingFlagValue => true,
            LauncherError::RelativeCasPath => true,
            LauncherError::MissingCommand => true,
            _ => false,
        }
    }

    pub fn is_usage(&self) -> (r: bool)
        ensures
            r == self.spec_is_usage(),
    {
        match self {
            LauncherError::MissingFlagValue => true,
            LauncherError::RelativeCasPath => true,
            LauncherError::MissingCommand => true,
            _ => false,
        }
    }
}

} // verus!
