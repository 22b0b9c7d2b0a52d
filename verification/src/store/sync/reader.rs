//! The capability to read a store.

use crate::store::journal::{envelopes, Journal};
use crate::store::payload::Payload;
use crate::store::sync::error::StoreError;
use vstd::prelude::*;

verus! {

/// A store as a model of what it holds. Both capabilities speak of this one model,
/// so that what a writer puts in is what a reader of the same store finds.
pub trait Stored {
    /// What the store holds, as the store itself accounts for it. A store that gives
    /// no account of itself holds nothing as far as contracts go.
    open spec fn held(&self) -> Journal {
        Journal::empty()
    }

    /// The store has no failures of its own: it turns a read down only where nothing is
    /// kept, and a write only where the place is taken. True of a store in memory; a
    /// backend that can lose its connection says `false`, and so does one that says
    /// nothing.
    open spec fn faultless(&self) -> bool {
        false
    }
}

/// Every store has a journal: the well-formed part of what it holds.
pub trait Journaled {
    /// What the store holds.
    spec fn stored(&self) -> Journal;
}

impl<S: Stored + ?Sized> Journaled for S {
    open spec fn stored(&self) -> Journal {
        self.held().sound()
    }
}

/// What a store holds is well formed, whatever was done to the store.
pub proof fn lemma_stored_well_formed<S: Stored + ?Sized>(store: &S)
    ensures
        store.stored().well_formed(),
{
}

/// Joins a read of everything below the last sequence there is with the read of that
/// last place: the envelope found there comes behind the others, a place that holds
/// nothing adds nothing, and any other failure of the last read is handed on.
pub fn join_latest(found: Vec<Payload>, last: Result<Payload, StoreError>) -> (r: Result<
    Vec<Payload>,
    StoreError,
>)
    ensures
        match last {
            Ok(payload) => r matches Ok(all) && all@ == found@.push(payload),
            Err(e) => if e.is_not_found() {
                r matches Ok(all) && all == found
            } else {
                r matches Err(given) && given == e
            },
        },
{
    let mut found = found;
    match last {
        Ok(payload) => {
            found.push(payload);
            Ok(found)
        },
        Err(e) => {
            if e.not_found() {
                Ok(found)
            } else {
                Err(e)
            }
        },
    }
}

/// Read access to a store: one envelope by its place, or a stretch of one stream.
pub trait Reader: Stored {
    /// The envelope kept at `(id, seq)`. A place that holds nothing is never read with
    /// success, and the not-found error is given for such places only.
    fn read(&self, id: &str, seq: usize) -> (r: Result<Payload, StoreError>)
        ensures
            r matches Ok(p) ==> self.stored().contains(id@, seq as nat) && p@
                == self.stored().at(id@, seq as nat),
            r matches Err(e) ==> (e.is_not_found() ==> !self.stored().contains(id@, seq as nat)),
            self.faultless() ==> (r matches Err(e) ==> e.is_not_found()),
    ;

    /// The envelopes of `id` with `from <= sequence < to`, in ascending order of sequence:
    /// the order of envelopes, which within one stream is that of their sequences, and
    /// in which no envelope comes twice. An unknown `id` and an empty range give an
    /// empty list, not an error.
    fn read_to(&self, id: &str, from: usize, to: usize) -> (r: Result<Vec<Payload>, StoreError>)
        ensures
            r matches Ok(found) ==> envelopes(found@) == self.stored().range(
                id@,
                from as int,
                to as int,
            ),
            self.faultless() ==> r is Ok,
    ;

    /// The envelopes of `id` with `from <= sequence`, in ascending order of sequence:
    /// a range read without an upper end.
    fn read_to_latest(&self, id: &str, from: usize) -> (r: Result<Vec<Payload>, StoreError>)
        ensures
            r matches Ok(found) ==> envelopes(found@) == self.stored().latest(id@, from as int),
            self.faultless() ==> r is Ok,
    {
        let found = match self.read_to(id, from, usize::MAX) {
            Ok(found) => found,
            Err(e) => {
                return Err(e);
            },
        };
        let last = self.read(id, usize::MAX);
        let ghost below = found@;
        let r = join_latest(found, last);
        proof {
            if r is Ok && last is Ok {
                assert(envelopes(r->Ok_0@) =~= envelopes(below).push(last->Ok_0@));
            }
        }
        r
    }
}

/// A read-side extension that a read facade can carry. It has no operation of its own
/// yet: the core never calls one.
pub trait Query {

}

/// The extension that extends nothing.
#[derive(Debug, Clone, Copy, Default)]
pub struct DefaultQuery {}

impl Query for DefaultQuery {

}

/// The handle through which a store is read: it grants reading and nothing else.
/// It borrows the store, so every copy of it reads the same one.
pub struct ReadStore<'a, R: Reader, Q: Query> {
    /// The store that is read.
    pub base: &'a R,
    /// The read-side extensions this handle carries.
    pub queries: Vec<Q>,
}

impl<'a, R: Reader, Q: Query> Clone for ReadStore<'a, R, Q> {
    /// A second handle on the same store. The extensions stay with the first.
    fn clone(&self) -> (other: Self)
        ensures
            other.base == self.base,
            other.queries@.len() == 0,
    {
        ReadStore { base: self.base, queries: Vec::new() }
    }
}

impl<'a, R: Reader, Q: Query> ReadStore<'a, R, Q> {
    /// A handle on `reader` that carries one extension.
    pub fn new(reader: &'a R, queries: Q) -> (store: Self)
        ensures
            store.base == reader,
            store.queries@ == seq![queries],
    {
        let mut extensions: Vec<Q> = Vec::new();
        extensions.push(queries);
        ReadStore { base: reader, queries: extensions }
    }

    /// The envelope kept at `(id, seq)`, as the store reads it.
    pub fn read(&self, id: &str, seq: usize) -> (r: Result<Payload, StoreError>)
        ensures
            r matches Ok(p) ==> self.base.stored().contains(id@, seq as nat) && p@
                == self.base.stored().at(id@, seq as nat),
            r matches Err(e) ==> (e.is_not_found() ==> !self.base.stored().contains(
                id@,
                seq as nat,
            )),
            self.base.faultless() ==> (r matches Err(e) ==> e.is_not_found()),
    {
        self.base.read(id, seq)
    }

    /// The envelopes of `id` with `from <= sequence < to`, as the store reads them.
    pub fn read_to(&self, id: &str, from: usize, to: usize) -> (r: Result<
        Vec<Payload>,
        StoreError,
    >)
        ensures
            r matches Ok(found) ==> envelopes(found@) == self.base.stored().range(
                id@,
                from as int,
                to as int,
            ),
            self.base.faultless() ==> r is Ok,
    {
        self.base.read_to(id, from, to)
    }

    /// The envelopes of `id` with `from <= sequence`, as the store reads them.
    pub fn read_to_latest(&self, id: &str, from: usize) -> (r: Result<Vec<Payload>, StoreError>)
        ensures
            r matches Ok(found) ==> envelopes(found@) == self.base.stored().latest(
                id@,
                from as int,
            ),
            self.base.faultless() ==> r is Ok,
    {
        self.base.read_to_latest(id, from)
    }
}

} // verus!
