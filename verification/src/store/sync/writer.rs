//! The capability to write to a store.

use crate::store::payload::Payload;
use crate::store::sync::error::StoreError;
use crate::store::sync::reader::{Journaled, Stored};
use vstd::prelude::*;

verus! {

/// Write access to a store: appending one envelope to a stream.
pub trait Writer: Stored {
    /// Keeps `payload` in the stream of `id`, at the payload's own sequence. A write
    /// either lands whole or leaves the store as it was; it never lands on a place
    /// that is taken, and the conflict error is given for taken places only.
    fn write(&mut self, id: &str, payload: Payload) -> (r: Result<(), StoreError>)
        ensures
            r is Ok ==> !old(self).stored().contains(id@, payload@.sequence)
                && final(self).stored() == old(self).stored().append(id@, payload@),
            r matches Err(e) ==> final(self).stored() == old(self).stored() && (e.is_conflict()
                ==> old(self).stored().contains(id@, payload@.sequence)),
            old(self).faultless() ==> (r is Ok <==> !old(self).stored().contains(
                id@,
                payload@.sequence,
            )) && (r matches Err(e) ==> e.is_conflict()),
            final(self).faultless() == old(self).faultless(),
    ;
}

/// The handle through which a store is written: it grants appending and nothing else.
/// It borrows the store for as long as it lives, and what it appends is in the store
/// when the borrow ends.
pub struct WriteStore<'a, W: Writer> {
    /// The store that is written.
    pub base: &'a mut W,
}

impl<'a, W: Writer> WriteStore<'a, W> {
    /// A handle on `writer`.
    pub fn new(writer: &'a mut W) -> (store: Self)
        ensures
            *store.base == *old(writer),
            *final(store.base) == *final(writer),
    {
        WriteStore { base: writer }
    }

    /// Appends `payload` to the stream of `id`, as the store writes it.
    pub fn write(&mut self, id: &str, payload: Payload) -> (r: Result<(), StoreError>)
        ensures
            r is Ok ==> !old(self).base.stored().contains(id@, payload@.sequence)
                && final(self).base.stored() == old(self).base.stored().append(id@, payload@),
            r matches Err(e) ==> final(self).base.stored() == old(self).base.stored() && (
            e.is_conflict() ==> old(self).base.stored().contains(id@, payload@.sequence)),
            old(self).base.faultless() ==> (r is Ok <==> !old(self).base.stored().contains(
                id@,
                payload@.sequence,
            )) && (r matches Err(e) ==> e.is_conflict()),
            final(self).base.faultless() == old(self).base.faultless(),
            *final(final(self).base) == *final(old(self).base),
    {
        self.base.write(id, payload)
    }
}

} // verus!
