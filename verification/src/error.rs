//! The kinds of failure of the storage layer and of one execution.
use vstd::prelude::*;
use vstd::std_specs::convert::FromSpecImpl;

verus! {

/// Why an operation on the tracking copy or on the global state was refused.
#[derive(Clone, Copy, Debug, PartialEq, Eq, Structural)]
pub enum StorageError {
    /// The handle used does not carry the right that the operation needs.
    PermissionDenied,
    /// An accumulation met a value that is no accumulator.
    TypeMismatch,
    /// The store has run out of version numbers.
    VersionExhausted,
}

/// Why an execution ended without an effect set.
#[derive(Clone, Debug, PartialEq, Eq)]
pub enum ExecutionError {
    /// A storage operation of the contract was refused.
    Storage(StorageError),
    /// The interpreter stopped: a trap, no gas left, no entry point.
    Interpreter { message: String },
}

impl From<StorageError> for ExecutionError {
    fn from(error: StorageError) -> (wrapped: ExecutionError) {
        ExecutionError::Storage(error)
    }
}

impl FromSpecImpl<StorageError> for ExecutionError {
    open spec fn obeys_from_spec() -> bool {
        true
    }

    open spec fn from_spec(error: StorageError) -> ExecutionError {
        ExecutionError::Storage(error)
    }
}

/// Why the engine refused a deploy or a commit.
#[derive(Clone, Debug, PartialEq, Eq)]
pub enum Error {
    /// The bytecode failed validation; the deploy never ran.
    PreprocessingError { error: String },
    /// The deploy is not authorized.
    SignatureError { error: String },
    /// The execution failed; nothing of it is committed.
    ExecError(ExecutionError),
    /// The store failed to commit.
    StorageError(StorageError),
}

impl From<StorageError> for Error {
    fn from(error: StorageError) -> (wrapped: Error) {
        Error::StorageError(error)
    }
}

impl FromSpecImpl<StorageError> for Error {
    open spec fn obeys_from_spec() -> bool {
        true
    }

    open spec fn from_spec(error: StorageError) -> Error {
        Error::StorageError(error)
    }
}

impl From<ExecutionError> for Error {
    fn from(error: ExecutionError) -> (wrapped: Error) {
        Error::ExecError(error)
    }
}

impl FromSpecImpl<ExecutionError> for Error {
    open spec fn obeys_from_spec() -> bool {
        true
    }

    open spec fn from_spec(error: ExecutionError) -> Error {
        Error::ExecError(error)
    }
}

} // verus!
