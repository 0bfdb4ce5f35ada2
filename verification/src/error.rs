//! Error taxonomy for the upload engine.

use vstd::prelude::*;

verus! {

/// Error enum to wrap the failures that can occur while driving an upload.
///
/// `StdIo` carries the rendered kind of a stream read error, `SdkError` the
/// rendered form of a storage-backend error, `Internal` an invariant
/// violation, `JoinError` a dispatched part task that could not be joined,
/// and `AcquireError` a concurrency permit that could not be acquired.
#[derive(Debug, Clone)]
pub enum Error {
    StdIo(String),
    SdkError(String),
    Internal(String),
    JoinError,
    AcquireError,
}

impl Error {
    /// Constructs an `Error::Internal` from `message`.
    pub fn internal(message: &str) -> (r: Error)
        ensures
            r matches Error::Internal(m) && m@ == message@,
    {
        Error::Internal(message.to_string())
    }

    /// Constructs an `Error::SdkError` from `err`.
    ///
    /// Relies on std's `Debug` formatting (`format!`) to render the
    /// backend error as text; which text comes out is not specified.
    #[verifier::external_body]
    pub fn sdk<E>(err: E) -> (r: Error) where E: core::fmt::Debug
        ensures
            r is SdkError,
    {
        Error::SdkError(format!("{:?}", err))
    }

    /// Renders the error as a human-readable string.
    pub fn message(&self) -> (r: String)
        ensures
            self matches Error::StdIo(m) ==> r@ == m@,
            self matches Error::SdkError(m) ==> r@ == m@,
            self matches Error::Internal(m) ==> r@ == m@,
            *self is JoinError ==> r@ == "JoinError"@,
            *self is AcquireError ==> r@ == "AcquireError"@,
    {
        match self {
            Error::StdIo(m) => m.clone(),
            Error::SdkError(m) => m.clone(),
            Error::Internal(m) => m.clone(),
            Error::JoinError => "JoinError".to_string(),
            Error::AcquireError => "AcquireError".to_string(),
        }
    }
}

} // verus!
