//! Aggregates: what decides on commands and is rebuilt from events.

use crate::store::payload::optional_bytes;
use vstd::prelude::*;

verus! {

/// Represents an aggregate root in an event-sourced system.
///
/// An aggregate root is the entry point of a cluster of entities that change together
/// in response to commands. Its state is never stored: it is rebuilt from its events,
/// which cross the store as bytes that the aggregate itself reads and writes.
pub trait Aggregate: Sized {
    type Command;

    type Event;

    /// The aggregate with the given identifier in its default state.
    open spec fn init_spec(id: Seq<char>) -> Self {
        arbitrary()
    }

    /// The event that a run of bytes stands for, where it stands for one.
    open spec fn decoded(bytes: Seq<u8>) -> Option<Self::Event> {
        None
    }

    /// The bytes that stand for an event, where the event can be written down.
    open spec fn encoded(event: Self::Event) -> Option<Seq<u8>> {
        None
    }

    /// Initializes an aggregate with the given identifier.
    ///
    /// This method is called to create a new instance of an aggregate root
    /// with a default state.
    fn init(id: String) -> (agg: Self)
        ensures
            agg == Self::init_spec(id@),
    ;

    /// Reads an event back from the bytes it was stored as.
    fn decode(bytes: &[u8]) -> (event: Option<Self::Event>)
        ensures
            event == Self::decoded(bytes@),
    ;

    /// Writes an event down as the bytes to store.
    fn encode(event: &Self::Event) -> (bytes: Option<Vec<u8>>)
        ensures
            optional_bytes(bytes) == Self::encoded(*event),
    ;
}

/// What a handler decided, with the events as a mathematical sequence.
pub open spec fn decision<V, X>(r: Result<Vec<V>, X>) -> Result<Seq<V>, X> {
    match r {
        Ok(events) => Ok(events@),
        Err(e) => Err(e),
    }
}

/// Handles a command, returning events.
///
/// Commands use the aggregate's state to validate business rules, and return
/// events which are later used to update the aggregate state. A handler reads the
/// state and never changes it: what it decides is a function of state and command.
pub trait Handle<C>: Aggregate {
    type Error;

    /// What the aggregate decides on a command in a given state.
    open spec fn handle_spec(&self, cmd: C) -> Result<Seq<Self::Event>, Self::Error> {
        arbitrary()
    }

    fn handle(&self, cmd: C) -> (r: Result<Vec<Self::Event>, Self::Error>)
        ensures
            decision(r) == self.handle_spec(cmd),
    ;
}

/// Applies an event, updating the aggregate state.
///
/// Events modify aggregate state, and are emitted as the result of commands. The new
/// state is a function of the old state and the event.
pub trait Apply<E>: Aggregate {
    /// The state after an event.
    open spec fn apply_spec(self, event: E) -> Self {
        arbitrary()
    }

    fn apply(&mut self, event: E)
        ensures
            *final(self) == old(self).apply_spec(event),
    ;
}

/// The aggregate as the engine holds it while it replays and decides.
#[derive(Debug, Default)]
pub struct State<T>(pub T);

impl<T> Aggregate for State<T> where T: Aggregate {
    type Command = T::Command;

    type Event = T::Event;

    open spec fn init_spec(id: Seq<char>) -> Self {
        State(T::init_spec(id))
    }

    open spec fn decoded(bytes: Seq<u8>) -> Option<Self::Event> {
        T::decoded(bytes)
    }

    open spec fn encoded(event: Self::Event) -> Option<Seq<u8>> {
        T::encoded(event)
    }

    fn init(id: String) -> (agg: Self) {
        State(T::init(id))
    }

    fn decode(bytes: &[u8]) -> (event: Option<Self::Event>) {
        T::decode(bytes)
    }

    fn encode(event: &Self::Event) -> (bytes: Option<Vec<u8>>) {
        T::encode(event)
    }
}

/// The state that a run of events leaves an aggregate in: each event applied in turn.
pub open spec fn replayed<A: Apply<E>, E>(start: A, events: Seq<E>) -> A
    decreases events.len(),
{
    if events.len() == 0 {
        start
    } else {
        replayed(start, events.drop_last()).apply_spec(events.last())
    }
}

} // verus!
