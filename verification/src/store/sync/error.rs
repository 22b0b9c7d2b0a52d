//! What a store reports when it turns a request down.

use crate::wire::{decimal_text, push_number};
use vstd::prelude::*;
use vstd::string::StringExecFns;

verus! {

/// Why a store turned a request down.
#[derive(Debug)]
pub enum Cause {
    /// Nothing is kept at the place that was asked for.
    NotFound { id: String, sequence: usize },
    /// The place to write to is taken already.
    AlreadyExists { id: String, sequence: usize },
    /// Anything else, in the backend's own words.
    Backend(String),
}

impl Cause {
    /// The cause in words.
    pub open spec fn words(&self) -> Seq<char> {
        match self {
            Cause::NotFound { id, sequence } => "Payload not found for id: "@ + id@
                + " and sequence: "@ + decimal_text(*sequence as nat),
            Cause::AlreadyExists { id, sequence } => "Payload with sequence "@ + decimal_text(
                *sequence as nat,
            ) + " already exists for id "@ + id@,
            Cause::Backend(words) => words@,
        }
    }

    /// The cause in words.
    pub fn message(&self) -> (text: String)
        ensures
            text@ == self.words(),
    {
        match self {
            Cause::NotFound { id, sequence } => {
                let mut text = "Payload not found for id: ".to_owned();
                text.append(id.as_str());
                text.append(" and sequence: ");
                push_number(&mut text, *sequence);
                text
            },
            Cause::AlreadyExists { id, sequence } => {
                let mut text = "Payload with sequence ".to_owned();
                push_number(&mut text, *sequence);
                text.append(" already exists for id ");
                text.append(id.as_str());
                text
            },
            Cause::Backend(words) => words.clone(),
        }
    }
}

/// A request that a store turned down, by the kind of request.
#[derive(Debug)]
pub enum StoreError {
    /// The store could not be set up.
    Setup(Cause),
    /// A write was turned down.
    Write(Cause),
    /// A read was turned down.
    Read(Cause),
}

impl StoreError {
    /// The error of a write to a place that is taken.
    pub open spec fn is_conflict(&self) -> bool {
        self matches StoreError::Write(Cause::AlreadyExists { .. })
    }

    /// The error of a read from a place that holds nothing.
    pub open spec fn is_not_found(&self) -> bool {
        self matches StoreError::Read(Cause::NotFound { .. })
    }

    /// The conflict that a write to `(id, sequence)` runs into.
    pub open spec fn is_conflict_at(&self, id: Seq<char>, sequence: nat) -> bool {
        self matches StoreError::Write(Cause::AlreadyExists { id: i, sequence: s }) && i@ == id
            && s == sequence
    }

    /// The error of a read from `(id, sequence)` where nothing is kept.
    pub open spec fn is_not_found_at(&self, id: Seq<char>, sequence: nat) -> bool {
        self matches StoreError::Read(Cause::NotFound { id: i, sequence: s }) && i@ == id && s
            == sequence
    }

    /// The error in words: what failed, and why.
    pub open spec fn words(&self) -> Seq<char> {
        match self {
            StoreError::Setup(cause) => "Failed setup database: "@ + cause.words(),
            StoreError::Write(cause) => "Failed to write data: "@ + cause.words(),
            StoreError::Read(cause) => "Failed to read data: "@ + cause.words(),
        }
    }

    /// The error in words: what failed, and why.
    pub fn message(&self) -> (text: String)
        ensures
            text@ == self.words(),
    {
        match self {
            StoreError::Setup(cause) => {
                let mut text = "Failed setup database: ".to_owned();
                text.append(cause.message().as_str());
                text
            },
            StoreError::Write(cause) => {
                let mut text = "Failed to write data: ".to_owned();
                text.append(cause.message().as_str());
                text
            },
            StoreError::Read(cause) => {
                let mut text = "Failed to read data: ".to_owned();
                text.append(cause.message().as_str());
                text
            },
        }
    }

    /// A write ran into a place that is taken: the conflict of the error taxonomy.
    pub fn conflict(&self) -> (b: bool)
        ensures
            b == self.is_conflict(),
    {
        match self {
            StoreError::Write(Cause::AlreadyExists { .. }) => true,
            _ => false,
        }
    }

    /// A read found nothing at the place it asked for.
    pub fn not_found(&self) -> (b: bool)
        ensures
            b == self.is_not_found(),
    {
        match self {
            StoreError::Read(Cause::NotFound { .. }) => true,
            _ => false,
        }
    }
}

} // verus!
