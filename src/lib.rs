//! A serializing notification layer over a key-value backend.
//!
//! One actor applies every read, write and delete in a single total order,
//! and keeps, for each key that has no value yet, the queue of callers that
//! wait for its next value.
pub mod actor;
pub mod backend;
pub mod byte_map;
pub mod error;
pub mod keys;
pub mod laws;
pub mod memory;
pub mod obligations;

pub use actor::{Actor, Outcome, Response, StoreCommand};
pub use backend::KeyValueBackend;
pub use error::{StoreError, StoreResult};
pub use memory::MemoryBackend;
pub use obligations::ObligationTable;
