//! The ways in which carrying out a command can end without success.

use crate::store::payload::SerializeError;
use crate::store::sync::error::StoreError;
use vstd::prelude::*;

verus! {

/// The base error for the framework: why a command was not carried out.
#[derive(Debug)]
pub enum Error<E> {
    /// The store turned a read or a write down. A conflict among these says that
    /// another writer took the place first.
    Store(StoreError),
    /// The bytes stored at `sequence` could not be read back as an event.
    Deserialize { sequence: usize },
    /// The aggregate rejected the command in the state it was in.
    DomainValidation(E),
    /// An event, or the metadata, could not be written down as bytes.
    Serialize(SerializeError),
    /// The stream has no sequence numbers left for the events to take.
    SequenceExhausted,
}

} // verus!
