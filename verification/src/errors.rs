//! The error taxonomy of the engine, with stable process exit codes.

use vstd::prelude::*;

verus! {

/// Errors surfaced by the engine and its surrounding tooling.
///
/// Construction-time path errors (`PathEscapesRoot`) are unrecoverable for
/// that path; `FilesystemUnsuitable` reports a read-only or `noexec` mount or
/// an immutable attribute; `ExecutionFailed` wraps a failed operation with
/// context; `RestoreBackupMissing` is recoverable via the best-effort restore
/// policy; `NothingToLink` signals that a whole operation was a no-op.
#[derive(Debug, Clone, PartialEq, Eq)]
pub enum Error {
    /// CLI usage errors (conflicting flags, missing selections, etc.)
    CliMisuse(String),
    /// A required command could not be found.
    CommandNotFound(String),
    /// An operation failed; the payload names the target and the cause.
    ExecutionFailed(String),
    /// A replacement implementation is not usable.
    InvalidImplementation(String),
    /// An underlying OS error, carried as its message.
    Io(String),
    /// Unsupported distribution or release.
    Incompatible(String),
    /// Zero viable requests remained after filtering.
    NothingToLink(String),
    /// Restore was requested but no backup exists for the target.
    RestoreBackupMissing(String),
    /// Repository gating failed for a package.
    RepoGateFailed { package: String, details: String },
    /// The package manager database lock did not clear in time.
    PacmanLockTimeout,
    /// The operation requires root privileges.
    RootRequired,
    /// The filesystem cannot take the mutation (read-only, noexec, immutable).
    FilesystemUnsuitable(String),
    /// Installing the package-manager hook failed.
    HookInstallError(String),
    /// A path escaped its declared root during construction.
    PathEscapesRoot(String),
    /// Any other error.
    Other(String),
}

impl Error {
    /// Map errors to stable process exit codes.
    pub fn exit_code(&self) -> (code: i32)
        ensures
            code == match self {
                Error::CliMisuse(_) => 2int,
                Error::Incompatible(_) => 10int,
                Error::NothingToLink(_) => 20int,
                Error::RestoreBackupMissing(_) => 30int,
                Error::RepoGateFailed { .. } => 40int,
                Error::PacmanLockTimeout => 50int,
                Error::RootRequired => 70int,
                Error::FilesystemUnsuitable(_) => 80int,
                Error::HookInstallError(_) => 90int,
                _ => 1int,
            },
    {
        match self {
            Error::CliMisuse(_) => 2,
            Error::Incompatible(_) => 10,
            Error::NothingToLink(_) => 20,
            Error::RestoreBackupMissing(_) => 30,
            Error::RepoGateFailed { .. } => 40,
            Error::PacmanLockTimeout => 50,
            Error::RootRequired => 70,
            Error::FilesystemUnsuitable(_) => 80,
            Error::HookInstallError(_) => 90,
            _ => 1,
        }
    }
}

} // verus!
