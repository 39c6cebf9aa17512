//! The worker's error shapes, and how repository-layer failures map onto
//! the HTTP-facing error.

use vstd::prelude::*;

verus! {

/// An error a route or command handler reports.
#[derive(Clone, Debug)]
pub enum TonkWorkerError {
    /// The addressed repository, branch or record does not exist.
    NotFound(String),
    /// An internal failure.
    Internal(String),
    /// The request itself is malformed.
    Router(String),
    /// The caller may not do this.
    Forbidden(String),
    /// The request conflicts with the current state.
    Conflict(String),
    /// An upstream service failure, classified.
    Upstream { status: u16, code: Option<String>, message: String },
    /// A command was refused before commit.
    Command { code: String, message: String },
    /// An account root is required first.
    RootRequired,
}

/// An error from the repository layer.
#[derive(Clone, Debug)]
pub enum RepositoryError {
    /// An internal failure.
    Internal(String),
    /// The requested configuration is inconsistent.
    InvalidConfiguration(String),
    /// An account root is required first.
    RootRequired,
}

/// What kind of failure the reactor reported.
#[derive(Clone, Copy, Debug, PartialEq, Eq, Structural)]
pub enum ReactorErrorKind {
    RepositoryNotFound,
    BranchNotFound,
    QueryFailed,
    Commit,
    Induce,
    Pull,
    Push,
}

/// A reactor failure: its kind and its rendered message.
#[derive(Clone, Debug)]
pub struct ReactorError {
    pub kind: ReactorErrorKind,
    pub message: String,
}

/// A missing repository or branch is a 404; everything else is internal.
pub fn reactor_to_error(err: ReactorError) -> (r: TonkWorkerError)
    ensures
        match err.kind {
            ReactorErrorKind::RepositoryNotFound | ReactorErrorKind::BranchNotFound => r
                == TonkWorkerError::NotFound(err.message),
            _ => r == TonkWorkerError::Internal(err.message),
        },
{
    match err.kind {
        ReactorErrorKind::RepositoryNotFound | ReactorErrorKind::BranchNotFound => {
            TonkWorkerError::NotFound(err.message)
        },
        _ => TonkWorkerError::Internal(err.message),
    }
}

/// A command refusal with its stable code.
pub fn command_error(code: &str, message: String) -> (r: TonkWorkerError)
    ensures
        r matches TonkWorkerError::Command { code: c, message: m } && c@ == code@ && m == message,
{
    TonkWorkerError::Command { code: String::from_str(code), message }
}

/// What a failed rename means to the caller.
#[derive(Clone, Copy, Debug, PartialEq, Eq, Structural)]
pub enum RenameOutcome {
    /// The rename committed.
    Renamed,
    /// The rename did not commit.
    Failed,
}

/// Any error is a failed rename; only success is `Renamed`.
pub fn rename_outcome(result: Result<(), RepositoryError>) -> (r: RenameOutcome)
    ensures
        r == (if result is Ok {
            RenameOutcome::Renamed
        } else {
            RenameOutcome::Failed
        }),
{
    match result {
        Ok(()) => RenameOutcome::Renamed,
        Err(_) => RenameOutcome::Failed,
    }
}

} // verus!
