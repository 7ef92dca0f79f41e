use vstd::prelude::*;

verus! {

/// A request that cannot be served as asked.
#[derive(Debug, Clone, Copy, PartialEq, Eq, Structural)]
pub enum ClientError {
    CommandNotFound,
    InvalidCommandId,
    AlreadyRunning,
}

/// Every failure that a command of the application can report. The payload
/// of a failure that comes from outside the library is its message.
#[derive(Debug, PartialEq, Eq)]
pub enum AppCommandError {
    ClientError(ClientError),
    QueryError(String),
    TauriError(String),
    IoError(String),
    SystemTimeError(String),
    JoinError(String),
    PoisonError(String),
    NixError(i32),
}

} // verus!
