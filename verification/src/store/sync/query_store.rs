//! The store that an engine keeps its read models in, behind its two handles.

use crate::store::journal::Journal;
use crate::store::sync::reader::{DefaultQuery, ReadStore, Reader, Stored};
use crate::store::sync::writer::{WriteStore, Writer};
use vstd::prelude::*;

verus! {

/// A store of read models that hands out read access and write access apart.
pub struct QueryStore<S> {
    /// The store behind both handles.
    pub store: S,
}

impl<S: Reader + Writer> QueryStore<S> {
    /// A query store on top of `store`.
    pub fn new(store: S) -> (queries: Self)
        ensures
            queries.store == store,
    {
        QueryStore { store }
    }

    /// A handle that reads this store.
    pub fn read_store(&self) -> (handle: ReadStore<'_, S, DefaultQuery>)
        ensures
            *handle.base == self.store,
            handle.queries@.len() == 1,
    {
        ReadStore::new(&self.store, DefaultQuery {  })
    }

    /// A handle that writes to this store. The store holds what the handle appended
    /// once the handle is gone.
    pub fn write_store(&mut self) -> (handle: WriteStore<'_, S>)
        ensures
            *handle.base == old(self).store,
            *final(handle.base) == final(self).store,
    {
        WriteStore::new(&mut self.store)
    }
}

impl<S: Stored> Stored for QueryStore<S> {
    open spec fn held(&self) -> Journal {
        self.store.held()
    }

    open spec fn faultless(&self) -> bool {
        self.store.faultless()
    }
}

} // verus!
