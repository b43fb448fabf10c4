use vstd::prelude::*;

verus! {

/// A failure reported by the backend (storage, corruption, encoding).
///
/// The actor never inspects it: it is handed to the caller unchanged.
#[derive(Debug, PartialEq, Eq)]
pub enum StoreError {
    /// The storage engine failed, with its message.
    Backend(String),
    /// A key or value could not be encoded or decoded, with the message.
    Serialization(String),
}

/// The result of a backend operation.
pub type StoreResult<T> = Result<T, StoreError>;

} // verus!
