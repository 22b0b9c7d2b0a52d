//! Event-sourced aggregates: replay an aggregate's history, let it decide on a
//! command, and append the events it produced in strict per-aggregate order.

pub mod aggregate;
pub mod bank_account;
pub mod command_enum;
pub mod error;
pub mod event_json;
pub mod execution;
pub mod store;
pub mod wire;

use crate::aggregate::{Aggregate, Apply, Handle, State};
use crate::error::Error;
use crate::execution::{append_pending, outcome, prepare};
use crate::store::journal::{lemma_free_after_latest, Journal};
use crate::store::payload::{optional_bytes, SerializeError};
use crate::store::sync::event_store::EventStore;
use crate::store::sync::query_store::QueryStore;
use crate::store::sync::reader::{
    lemma_stored_well_formed, DefaultQuery, Journaled, ReadStore, Reader, Stored,
};
use crate::store::sync::writer::{WriteStore, Writer};
use std::collections::HashMap;
use vstd::prelude::*;

verus! {

/// `serde_json::to_vec` on a map from text to text: the map as a JSON object, in bytes.
///
/// The call gives bytes for every such map: serde_json fails only where a value
/// refuses to be written or a map has keys that are no text, and it writes to a
/// buffer in memory. An empty map is written as the two braces `{}`. Of other maps
/// nothing more is claimed: a map hands its entries out in an order that differs from
/// process to process, so the bytes are no function of its contents.
#[verifier::external_body]
fn metadata_to_json(metadata: &HashMap<String, String>) -> (bytes: Option<Vec<u8>>)
    ensures
        bytes is Some,
        metadata@.len() == 0 ==> bytes.unwrap()@ == seq![123u8, 125u8],
{
    serde_json::to_vec(metadata).ok()
}

/// The engine: an event store to replay from and append to, and whatever stands for
/// the query side.
pub struct Tsuzuri<S, Q> {
    event_store: EventStore<S>,
    query_store: Q,
}

/// Puts an engine together, with or without a query store.
pub struct TsuzuriBuilder<S, Q> {
    event_store: EventStore<S>,
    query_store: Q,
}

/// Marks an engine that has no query store.
pub struct NoQueryStore;

/// Holds the query store of an engine that has one.
pub struct WithQueryStore<P>(pub QueryStore<P>);

impl<S: Reader + Writer> TsuzuriBuilder<S, NoQueryStore> {
    /// Starts from the event store, which every engine needs.
    pub fn new(event_store: EventStore<S>) -> (builder: Self)
        ensures
            builder.events() == event_store,
    {
        TsuzuriBuilder { event_store, query_store: NoQueryStore }
    }
}

impl<S: Reader + Writer, Q> TsuzuriBuilder<S, Q> {
    /// The event store the engine will have.
    pub closed spec fn events(&self) -> EventStore<S> {
        self.event_store
    }

    /// What the engine will have on its query side.
    pub closed spec fn queries(&self) -> Q {
        self.query_store
    }

    /// Sets the query store: the engine will have this one.
    pub fn query_store<P: Reader + Writer>(self, query: QueryStore<P>) -> (builder: TsuzuriBuilder<
        S,
        WithQueryStore<P>,
    >)
        ensures
            builder.events() == self.events(),
            builder.queries() == WithQueryStore(query),
    {
        TsuzuriBuilder { event_store: self.event_store, query_store: WithQueryStore(query) }
    }

    /// The engine, with what was set so far.
    pub fn build(self) -> (engine: Tsuzuri<S, Q>)
        ensures
            engine.events() == self.events(),
            engine.queries() == self.queries(),
    {
        Tsuzuri { event_store: self.event_store, query_store: self.query_store }
    }
}

impl<S: Reader + Writer, P: Reader + Writer> Tsuzuri<S, WithQueryStore<P>> {
    /// A handle that writes to the query store.
    pub fn qs_write(&mut self) -> (handle: WriteStore<'_, P>)
        ensures
            *handle.base == old(self).queries().0.store,
            *final(handle.base) == final(self).queries().0.store,
            final(self).events() == old(self).events(),
    {
        self.query_store.0.write_store()
    }

    /// A handle that reads the query store.
    pub fn qs_read(&self) -> (handle: ReadStore<'_, P, DefaultQuery>)
        ensures
            *handle.base == self.queries().0.store,
    {
        self.query_store.0.read_store()
    }
}

impl<S: Reader + Writer, Q> Stored for Tsuzuri<S, Q> {
    /// What the engine's event store holds.
    open spec fn held(&self) -> Journal {
        self.events().held()
    }

    open spec fn faultless(&self) -> bool {
        self.events().faultless()
    }
}

impl<S: Reader + Writer, Q> Tsuzuri<S, Q> {
    /// The engine's event store.
    pub closed spec fn events(&self) -> EventStore<S> {
        self.event_store
    }

    /// What the engine has on its query side.
    pub closed spec fn queries(&self) -> Q {
        self.query_store
    }

    /// An engine on the stores given.
    pub fn new(event_store: EventStore<S>, query_store: Q) -> (engine: Self)
        ensures
            engine.events() == event_store,
            engine.queries() == query_store,
    {
        Tsuzuri { event_store, query_store }
    }

    /// A handle that appends to the event store.
    pub fn es_write(&mut self) -> (handle: WriteStore<'_, S>)
        ensures
            *handle.base == old(self).events().store,
            *final(handle.base) == final(self).events().store,
            final(self).queries() == old(self).queries(),
    {
        self.event_store.write_store()
    }

    /// A handle that reads the event store.
    pub fn es_read(&self) -> (handle: ReadStore<'_, S, DefaultQuery>)
        ensures
            *handle.base == self.events().store,
    {
        self.event_store.read_store()
    }

    /// Carries out a command on the aggregate `id`, with the metadata of the new
    /// envelopes given as bytes: replays the history, lets the aggregate decide, and
    /// appends what it decided. See [`outcome`] for how the call ends.
    ///
    /// A failed read ends the call with the store's error and nothing written. A store
    /// without failures of its own never fails the call: the new places are free, as
    /// nobody else writes between the read and the appends.
    pub fn carry_out<T>(&mut self, id: &str, cmd: T::Command, metadata: Option<Vec<u8>>) -> (r:
        Result<(), Error<<State<T> as Handle<T::Command>>::Error>>) where
        T: Aggregate,
        State<T>: Apply<T::Event> + Handle<T::Command>,

        ensures
            outcome::<T>(
                old(self).stored(),
                final(self).stored(),
                id@,
                cmd,
                optional_bytes(metadata),
                r,
            ) || (r matches Err(Error::Store(_)) && final(self).stored() == old(self).stored()
                && !old(self).faultless()),
            old(self).faultless() ==> !(r matches Err(Error::Store(_))),
            final(self).faultless() == old(self).faultless(),
            final(self).queries() == old(self).queries(),
    {
        let ghost before = self.stored();
        proof {
            lemma_stored_well_formed(&*self);
            lemma_free_after_latest(before, id@);
        }
        let history = match self.es_read().read_to_latest(id, 0) {
            Ok(history) => history,
            Err(e) => {
                return Err(Error::Store(e));
            },
        };
        let pending = match prepare::<T>(id, cmd, metadata, &history) {
            Ok(pending) => pending,
            Err(e) => {
                return Err(e);
            },
        };
        proof {
            assert(pending.bodies().skip(0) == pending.bodies());
        }
        let mut writer = self.es_write();
        match append_pending(&mut writer, pending) {
            Ok(()) => Ok(()),
            Err(e) => Err(Error::Store(e)),
        }
    }

    /// Carries out a command on the aggregate `id`, with no metadata but the empty map:
    /// every new envelope carries the empty JSON object `{}`. Ends as
    /// [`Tsuzuri::execute_with_metadata`] does with the empty map, which is as
    /// [`Tsuzuri::carry_out`] does with those two bytes.
    pub fn execute<T>(&mut self, id: &str, cmd: T::Command) -> (r: Result<
        (),
        Error<<State<T> as Handle<T::Command>>::Error>,
    >) where T: Aggregate, State<T>: Apply<T::Event> + Handle<T::Command>
        ensures
            outcome::<T>(
                old(self).stored(),
                final(self).stored(),
                id@,
                cmd,
                Some(seq![123u8, 125u8]),
                r,
            ) || final(self).stored() == old(self).stored() && !old(self).faultless()
                && r matches Err(Error::Store(_)),
            old(self).faultless() ==> !(r matches Err(Error::Store(_))),
            final(self).faultless() == old(self).faultless(),
            final(self).queries() == old(self).queries(),
    {
        self.execute_with_metadata::<T>(id, cmd, HashMap::new())
    }

    /// Carries out a command on the aggregate `id`: replays the history, lets the
    /// aggregate decide, and appends what it decided, each new envelope carrying the
    /// metadata as one JSON object.
    ///
    /// The metadata is written down once, before anything else, and the call ends as
    /// [`Tsuzuri::carry_out`] does with the bytes it was written as. Which bytes those
    /// are is for the map to say, whose entries come in no fixed order; every envelope
    /// of the call carries the same.
    pub fn execute_with_metadata<T>(
        &mut self,
        id: &str,
        cmd: T::Command,
        metadata: HashMap<String, String>,
    ) -> (r: Result<(), Error<<State<T> as Handle<T::Command>>::Error>>) where
        T: Aggregate,
        State<T>: Apply<T::Event> + Handle<T::Command>,

        ensures
            (exists|written: Seq<u8>| #[trigger]
                outcome::<T>(
                    old(self).stored(),
                    final(self).stored(),
                    id@,
                    cmd,
                    Some(written),
                    r,
                )) || final(self).stored() == old(self).stored() && !old(self).faultless()
                && r matches Err(Error::Store(_)),
            metadata@.len() == 0 ==> outcome::<T>(
                old(self).stored(),
                final(self).stored(),
                id@,
                cmd,
                Some(seq![123u8, 125u8]),
                r,
            ) || final(self).stored() == old(self).stored() && !old(self).faultless()
                && r matches Err(Error::Store(_)),
            old(self).faultless() ==> !(r matches Err(Error::Store(_))),
            final(self).faultless() == old(self).faultless(),
            final(self).queries() == old(self).queries(),
    {
        match metadata_to_json(&metadata) {
            Some(bytes) => self.carry_out::<T>(id, cmd, Some(bytes)),
            // Not taken: every map from text to text is written.
            None => Err(Error::Serialize(SerializeError)),
        }
    }
}

} // verus!
