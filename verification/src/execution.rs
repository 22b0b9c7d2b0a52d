//! One execution, step by step: replay the history, let the aggregate decide, and
//! append what it decided. The steps decide everything and wait for nothing, so that
//! whoever drives them may read and write the store in its own time.

use crate::aggregate::{replayed, Aggregate, Apply, Handle, State};
use crate::error::Error;
use crate::store::journal::{envelopes, lemma_contiguous_history, Journal};
use crate::store::payload::{optional_bytes, Envelope, Payload, SerializeError};
use crate::store::sync::error::StoreError;
use crate::store::sync::reader::Journaled;
use crate::store::sync::writer::{WriteStore, Writer};
use vstd::prelude::*;

verus! {

/// Every envelope of a history holds bytes that the aggregate reads as an event.
pub open spec fn readable<T: Aggregate>(history: Seq<Envelope>) -> bool {
    forall|i: int| 0 <= i < history.len() ==> (#[trigger] T::decoded(history[i].bytes)) is Some
}

/// The events that a history holds, in its order.
pub open spec fn events_of<T: Aggregate>(history: Seq<Envelope>) -> Seq<T::Event> {
    Seq::new(history.len(), |i: int| T::decoded(history[i].bytes).unwrap())
}

/// Where a history leaves the cursor: at the sequence of its last envelope, or at 0
/// where it holds none.
pub open spec fn cursor_after(history: Seq<Envelope>) -> nat {
    if history.len() == 0 {
        0
    } else {
        history.last().sequence
    }
}

/// The envelope at `i` is the first of a history that the aggregate cannot read.
pub open spec fn first_unreadable<T: Aggregate>(history: Seq<Envelope>, i: int) -> bool {
    &&& 0 <= i < history.len()
    &&& T::decoded(history[i].bytes) is None
    &&& readable::<T>(history.take(i))
}

/// The sequence of the first envelope of a history that the aggregate cannot read.
pub open spec fn stumbling_block<T: Aggregate>(history: Seq<Envelope>) -> nat {
    history[choose|i: int| first_unreadable::<T>(history, i)].sequence
}

/// A history has one first unreadable envelope at most.
pub proof fn lemma_first_unreadable_is_unique<T: Aggregate>(history: Seq<Envelope>, i: int)
    requires
        first_unreadable::<T>(history, i),
    ensures
        !readable::<T>(history),
        stumbling_block::<T>(history) == history[i].sequence,
{
    let j = choose|j: int| first_unreadable::<T>(history, j);
    if i < j {
        assert(history.take(j)[i] == history[i]);
    }
    if j < i {
        assert(history.take(i)[j] == history[j]);
    }
}

/// Rebuilds an aggregate from its history: a fresh aggregate, with each stored event
/// applied in the order given. Hands back the state and the sequence of the last
/// envelope (0 for an empty history), or the sequence of the first envelope whose
/// bytes are no event.
pub fn replay<T>(id: &str, history: &Vec<Payload>) -> (r: Result<(State<T>, usize), usize>) where
    T: Aggregate,
    State<T>: Apply<T::Event>,

    ensures
        r is Ok <==> readable::<T>(envelopes(history@)),
        r matches Ok((state, cursor)) ==> state == replayed(
            State::<T>::init_spec(id@),
            events_of::<T>(envelopes(history@)),
        ) && cursor == cursor_after(envelopes(history@)),
        r matches Err(sequence) ==> sequence == stumbling_block::<T>(envelopes(history@)),
{
    let ghost past = envelopes(history@);
    let mut state = State::<T>::init(id.to_owned());
    let mut cursor: usize = 0;
    let mut i: usize = 0;
    while i < history.len()
        invariant
            i <= history.len(),
            past == envelopes(history@),
            readable::<T>(past.take(i as int)),
            state == replayed(State::<T>::init_spec(id@), events_of::<T>(past.take(i as int))),
            cursor == cursor_after(past.take(i as int)),
        decreases history.len() - i,
    {
        let envelope = &history[i];
        match T::decode(envelope.bytes.as_slice()) {
            Some(event) => {
                state.apply(event);
                cursor = envelope.sequence;
            },
            None => {
                proof {
                    lemma_first_unreadable_is_unique::<T>(past, i as int);
                }
                return Err(envelope.sequence);
            },
        }
        proof {
            let now = past.take(i + 1);
            assert(events_of::<T>(now).drop_last() == events_of::<T>(past.take(i as int)));
        }
        i = i + 1;
    }
    proof {
        assert(past.take(i as int) == past);
    }
    Ok((state, cursor))
}

/// Every event of a list can be written down as bytes.
pub open spec fn writable<T: Aggregate>(events: Seq<T::Event>) -> bool {
    forall|i: int| 0 <= i < events.len() ==> (#[trigger] T::encoded(events[i])) is Some
}

/// The bytes that the events of a list are written down as, in its order.
pub open spec fn bodies_of<T: Aggregate>(events: Seq<T::Event>) -> Seq<Seq<u8>> {
    Seq::new(events.len(), |i: int| T::encoded(events[i]).unwrap())
}

/// The bytes of a list of buffers.
pub open spec fn bodies(buffers: Seq<Vec<u8>>) -> Seq<Seq<u8>> {
    buffers.map_values(|b: Vec<u8>| b@)
}

/// Writes every event of a list down as bytes, or none where one of them cannot be.
pub fn encode_all<T: Aggregate>(events: &Vec<T::Event>) -> (r: Option<Vec<Vec<u8>>>)
    ensures
        r is Some <==> writable::<T>(events@),
        r matches Some(buffers) ==> bodies(buffers@) == bodies_of::<T>(events@),
{
    let mut buffers: Vec<Vec<u8>> = Vec::new();
    let mut i: usize = 0;
    while i < events.len()
        invariant
            i <= events.len(),
            writable::<T>(events@.take(i as int)),
            bodies(buffers@) == bodies_of::<T>(events@.take(i as int)),
        decreases events.len() - i,
    {
        match T::encode(&events[i]) {
            Some(buffer) => {
                let ghost before = buffers@;
                buffers.push(buffer);
                proof {
                    assert(bodies(buffers@) =~= bodies(before).push(buffer@));
                }
            },
            None => {
                return None;
            },
        }
        i = i + 1;
    }
    proof {
        assert(events@.take(i as int) == events@);
    }
    Some(buffers)
}

/// What a command comes to after a history, before anything is written: the cursor
/// to append behind and the bytes to append, or the error that ends the execution.
///
/// The history is replayed onto a fresh aggregate, which then decides on the command.
/// Unreadable history, a rejected command, an event that cannot be written down and a
/// stream without sequence numbers left for the events each have an error of their own.
pub open spec fn plan<T>(id: Seq<char>, cmd: T::Command, history: Seq<Envelope>) -> Result<
    (nat, Seq<Seq<u8>>),
    Error<<State<T> as Handle<T::Command>>::Error>,
> where T: Aggregate, State<T>: Apply<T::Event> + Handle<T::Command> {
    if !readable::<T>(history) {
        Err(Error::Deserialize { sequence: stumbling_block::<T>(history) as usize })
    } else {
        match replayed(State::<T>::init_spec(id), events_of::<T>(history)).handle_spec(cmd) {
            Err(e) => Err(Error::DomainValidation(e)),
            Ok(events) => if !writable::<State<T>>(events) {
                Err(Error::Serialize(SerializeError))
            } else if cursor_after(history) + events.len() > usize::MAX {
                Err(Error::SequenceExhausted)
            } else {
                Ok((cursor_after(history), bodies_of::<State<T>>(events)))
            },
        }
    }
}

/// The appends that an execution has still to make: the events of one command as
/// bytes, the cursor they go behind, and how many of them were handed out already.
#[derive(Debug)]
pub struct Pending {
    id: String,
    cursor: usize,
    buffers: Vec<Vec<u8>>,
    metadata: Option<Vec<u8>>,
    handed_out: usize,
}

impl Pending {
    /// There is a sequence number for every event, and no more events are handed out
    /// than there are.
    #[verifier::type_invariant]
    spec fn well_formed(self) -> bool {
        &&& self.cursor + self.buffers.len() <= usize::MAX
        &&& self.handed_out <= self.buffers.len()
    }

    /// The aggregate that the events belong to.
    pub closed spec fn id(self) -> Seq<char> {
        self.id@
    }

    /// The sequence that the first event goes behind.
    pub closed spec fn cursor(self) -> nat {
        self.cursor as nat
    }

    /// The events as bytes, in the order they are appended in.
    pub closed spec fn bodies(self) -> Seq<Seq<u8>> {
        bodies(self.buffers@)
    }

    /// The metadata that every envelope carries.
    pub closed spec fn metadata(self) -> Option<Seq<u8>> {
        optional_bytes(self.metadata)
    }

    /// The number of events that were handed out as envelopes.
    pub closed spec fn handed_out(self) -> nat {
        self.handed_out as nat
    }

    /// The appends of `events` behind `cursor`, none handed out yet; nothing where
    /// the stream has not that many sequence numbers left.
    pub fn new(id: &str, cursor: usize, events: Vec<Vec<u8>>, metadata: Option<Vec<u8>>) -> (r:
        Option<Pending>)
        ensures
            r is Some <==> cursor + events.len() <= usize::MAX,
            r matches Some(pending) ==> pending.id() == id@ && pending.cursor() == cursor
                && pending.bodies() == bodies(events@) && pending.metadata() == optional_bytes(
                metadata,
            ) && pending.handed_out() == 0,
    {
        if events.len() > usize::MAX - cursor {
            return None;
        }
        Some(Pending { id: id.to_owned(), cursor, buffers: events, metadata, handed_out: 0 })
    }

    /// The aggregate that the events belong to.
    pub fn aggregate(&self) -> (id: &str)
        ensures
            id@ == self.id(),
    {
        self.id.as_str()
    }

    /// The number of events that are still to be handed out.
    pub fn remaining(&self) -> (n: usize)
        ensures
            n == self.bodies().len() - self.handed_out(),
    {
        proof {
            use_type_invariant(self);
        }
        self.buffers.len() - self.handed_out
    }

    /// Hands out the next event as an envelope to append, stamped with the clock: the
    /// events come in their order, at the sequences that follow the cursor one by one,
    /// each with the same metadata. Nothing once every event was handed out.
    pub fn next(&mut self) -> (r: Option<Payload>)
        ensures
            r is Some <==> old(self).handed_out() < old(self).bodies().len(),
            r matches Some(payload) ==> landed(
                payload@,
                old(self).id(),
                old(self).cursor() + old(self).handed_out() + 1,
                old(self).bodies()[old(self).handed_out() as int],
                old(self).metadata(),
            ) && final(self).handed_out() == old(self).handed_out() + 1,
            r is None ==> final(self).handed_out() == old(self).handed_out(),
            final(self).id() == old(self).id(),
            final(self).cursor() == old(self).cursor(),
            final(self).bodies() == old(self).bodies(),
            final(self).metadata() == old(self).metadata(),
    {
        proof {
            use_type_invariant(&*self);
        }
        if self.handed_out >= self.buffers.len() {
            return None;
        }
        let sequence = self.cursor + self.handed_out + 1;
        let shared = match &self.metadata {
            Some(m) => Some(m.clone()),
            None => None,
        };
        let body = self.buffers[self.handed_out].clone();
        let payload = Payload::new(self.id.as_str(), sequence, body, shared).unwrap();
        self.handed_out = self.handed_out + 1;
        Some(payload)
    }
}

/// Replays a history and lets the aggregate decide on a command: everything that an
/// execution does between reading the history and appending to the store. Hands
/// back the appends to make, or the error that ends the execution, as [`plan`] says.
pub fn prepare<T>(id: &str, cmd: T::Command, metadata: Option<Vec<u8>>, history: &Vec<Payload>) -> (r:
    Result<Pending, Error<<State<T> as Handle<T::Command>>::Error>>) where
    T: Aggregate,
    State<T>: Apply<T::Event> + Handle<T::Command>,

    ensures
        match plan::<T>(id@, cmd, envelopes(history@)) {
            Ok((cursor, bodies)) => r matches Ok(pending) && pending.id() == id@
                && pending.cursor() == cursor && pending.bodies() == bodies && pending.metadata()
                == optional_bytes(metadata) && pending.handed_out() == 0,
            Err(e) => r matches Err(given) && given == e,
        },
{
    let (state, cursor) = match replay::<T>(id, history) {
        Ok(replayed) => replayed,
        Err(sequence) => {
            return Err(Error::Deserialize { sequence });
        },
    };
    let events = match state.handle(cmd) {
        Ok(events) => events,
        Err(e) => {
            return Err(Error::DomainValidation(e));
        },
    };
    let buffers = match encode_all::<State<T>>(&events) {
        Some(buffers) => buffers,
        None => {
            return Err(Error::Serialize(SerializeError));
        },
    };
    proof {
        assert(bodies_of::<State<T>>(events@).len() == events@.len());
    }
    match Pending::new(id, cursor, buffers, metadata) {
        Some(pending) => Ok(pending),
        None => Err(Error::SequenceExhausted),
    }
}

/// An envelope holds what was to be written at `sequence` of the stream of `id`.
/// When it was created is left open: that is the clock's to say.
pub open spec fn landed(
    envelope: Envelope,
    id: Seq<char>,
    sequence: nat,
    body: Seq<u8>,
    metadata: Option<Seq<u8>>,
) -> bool {
    &&& envelope.id == id
    &&& envelope.sequence == sequence
    &&& envelope.bytes == body
    &&& envelope.metadata == metadata
}

/// `after` is `before` with the first `count` of `bodies` appended to the stream of
/// `id`, at the sequences `cursor + 1, .., cursor + count` in their order, each with
/// the same `metadata`. Those places were free, and nothing else differs.
pub open spec fn extended(
    before: Journal,
    after: Journal,
    id: Seq<char>,
    cursor: nat,
    bodies: Seq<Seq<u8>>,
    metadata: Option<Seq<u8>>,
    count: nat,
) -> bool {
    &&& count <= bodies.len()
    &&& forall|place: (Seq<char>, nat)| #[trigger]
        after.entries.contains_key(place) <==> before.entries.contains_key(place) || (place.0 == id
            && cursor < place.1 <= cursor + count)
    &&& forall|place: (Seq<char>, nat)| #[trigger]
        before.entries.contains_key(place) ==> after.entries[place] == before.entries[place]
    &&& forall|sequence: nat|
        cursor < sequence <= cursor + count ==> !before.contains(id, sequence) && landed(
            #[trigger] after.at(id, sequence),
            id,
            sequence,
            bodies[sequence - cursor - 1],
            metadata,
        )
}

/// One more envelope appended extends a journal by one more.
pub proof fn lemma_extended_by_one(
    before: Journal,
    after: Journal,
    id: Seq<char>,
    cursor: nat,
    bodies: Seq<Seq<u8>>,
    metadata: Option<Seq<u8>>,
    count: nat,
    envelope: Envelope,
)
    requires
        extended(before, after, id, cursor, bodies, metadata, count),
        count < bodies.len(),
        !after.contains(id, cursor + count + 1),
        landed(envelope, id, cursor + count + 1, bodies[count as int], metadata),
    ensures
        extended(before, after.append(id, envelope), id, cursor, bodies, metadata, count + 1),
{
    let next = after.append(id, envelope);
    assert forall|sequence: nat| cursor < sequence <= cursor + count + 1 implies !before.contains(
        id,
        sequence,
    ) && landed(
        #[trigger] next.at(id, sequence),
        id,
        sequence,
        bodies[sequence - cursor - 1],
        metadata,
    ) by {
        if sequence <= cursor + count {
            assert(landed(
                after.at(id, sequence),
                id,
                sequence,
                bodies[sequence - cursor - 1],
                metadata,
            ));
        }
    }
}

/// Makes the appends that an execution has still to make: one envelope for each event
/// that was not handed out yet, strictly one at a time and in the order of the events.
///
/// The first write that the store turns down ends the call with the store's error;
/// what was written before it stays written. A store without failures of its own
/// turns a write down exactly where the place is taken, and with the conflict error.
pub fn append_pending<W: Writer>(writer: &mut WriteStore<'_, W>, pending: Pending) -> (r: Result<
    (),
    StoreError,
>)
    ensures
        r is Ok ==> extended(
            old(writer).base.stored(),
            final(writer).base.stored(),
            pending.id(),
            pending.cursor() + pending.handed_out(),
            pending.bodies().skip(pending.handed_out() as int),
            pending.metadata(),
            (pending.bodies().len() - pending.handed_out()) as nat,
        ),
        r matches Err(e) ==> exists|count: nat|
            count < pending.bodies().len() - pending.handed_out() && #[trigger] extended(
                old(writer).base.stored(),
                final(writer).base.stored(),
                pending.id(),
                pending.cursor() + pending.handed_out(),
                pending.bodies().skip(pending.handed_out() as int),
                pending.metadata(),
                count,
            ) && (e.is_conflict() ==> old(writer).base.stored().contains(
                pending.id(),
                pending.cursor() + pending.handed_out() + count + 1,
            )) && (old(writer).base.faultless() ==> old(writer).base.stored().contains(
                pending.id(),
                pending.cursor() + pending.handed_out() + count + 1,
            )),
        old(writer).base.faultless() ==> (r matches Err(e) ==> e.is_conflict()),
        old(writer).base.faultless() && old(writer).base.stored().free_from(
            pending.id(),
            pending.cursor() + pending.handed_out() + 1,
        ) ==> r is Ok,
        final(writer).base.faultless() == old(writer).base.faultless(),
        *final(final(writer).base) == *final(old(writer).base),
{
    let ghost before = writer.base.stored();
    let ghost id = pending.id();
    let ghost start = pending.cursor() + pending.handed_out();
    let ghost wanted = pending.bodies().skip(pending.handed_out() as int);
    let ghost metadata = pending.metadata();
    let mut left = pending;
    proof {
        use_type_invariant(&left);
    }
    let aggregate = left.aggregate().to_owned();
    loop
        invariant
            id == pending.id(),
            start == pending.cursor() + pending.handed_out(),
            wanted == pending.bodies().skip(pending.handed_out() as int),
            metadata == pending.metadata(),
            aggregate@ == id,
            left.id() == id,
            left.cursor() == pending.cursor(),
            left.bodies() == pending.bodies(),
            left.metadata() == metadata,
            pending.handed_out() <= left.handed_out() <= pending.bodies().len(),
            before == old(writer).base.stored(),
            extended(
                before,
                writer.base.stored(),
                id,
                start,
                wanted,
                metadata,
                (left.handed_out() - pending.handed_out()) as nat,
            ),
            writer.base.faultless() == old(writer).base.faultless(),
            *final(writer.base) == *final(old(writer).base),
        ensures
            id == pending.id(),
            start == pending.cursor() + pending.handed_out(),
            wanted == pending.bodies().skip(pending.handed_out() as int),
            metadata == pending.metadata(),
            extended(before, writer.base.stored(), id, start, wanted, metadata, wanted.len()),
            writer.base.faultless() == old(writer).base.faultless(),
            *final(writer.base) == *final(old(writer).base),
        decreases pending.bodies().len() - left.handed_out(),
    {
        let ghost made = (left.handed_out() - pending.handed_out()) as nat;
        let payload = match left.next() {
            Some(payload) => payload,
            None => {
                break ;
            },
        };
        let ghost current = writer.base.stored();
        match writer.write(aggregate.as_str(), payload) {
            Ok(()) => {
                proof {
                    lemma_extended_by_one(
                        before,
                        current,
                        id,
                        start,
                        wanted,
                        metadata,
                        made,
                        payload@,
                    );
                }
            },
            Err(e) => {
                proof {
                    assert(before.contains(id, start + made + 1) <==> current.contains(
                        id,
                        start + made + 1,
                    ));
                }
                return Err(e);
            },
        }
    }
    Ok(())
}

/// Appends events, already written down as bytes, to the stream of `id` behind
/// `cursor`, as [`append_pending`] does.
pub fn append_events<W: Writer>(
    writer: &mut WriteStore<'_, W>,
    id: &str,
    cursor: usize,
    events: Vec<Vec<u8>>,
    metadata: Option<Vec<u8>>,
) -> (r: Result<(), StoreError>)
    requires
        cursor + events.len() <= usize::MAX,
    ensures
        r is Ok ==> extended(
            old(writer).base.stored(),
            final(writer).base.stored(),
            id@,
            cursor as nat,
            bodies(events@),
            optional_bytes(metadata),
            events.len() as nat,
        ),
        r matches Err(e) ==> exists|count: nat|
            count < events.len() && #[trigger] extended(
                old(writer).base.stored(),
                final(writer).base.stored(),
                id@,
                cursor as nat,
                bodies(events@),
                optional_bytes(metadata),
                count,
            ) && (e.is_conflict() ==> old(writer).base.stored().contains(
                id@,
                (cursor + count + 1) as nat,
            )) && (old(writer).base.faultless() ==> old(writer).base.stored().contains(
                id@,
                (cursor + count + 1) as nat,
            )),
        old(writer).base.faultless() ==> (r matches Err(e) ==> e.is_conflict()),
        old(writer).base.faultless() && old(writer).base.stored().free_from(
            id@,
            (cursor + 1) as nat,
        ) ==> r is Ok,
        final(writer).base.faultless() == old(writer).base.faultless(),
        *final(final(writer).base) == *final(old(writer).base),
{
    proof {
        assert(bodies(events@).skip(0) == bodies(events@));
    }
    let pending = Pending::new(id, cursor, events, metadata).unwrap();
    append_pending(writer, pending)
}

/// How carrying out one command ends, and what it leaves in the store, for a store
/// that was read without failure.
///
/// Where the [`plan`] is an error, the call ends with it and the store is untouched.
/// Otherwise the events are appended behind the cursor: all of them where the call
/// succeeds, and the first few where the store turned a write down and the call ends
/// with the store's error.
pub open spec fn outcome<T>(
    before: Journal,
    after: Journal,
    id: Seq<char>,
    cmd: T::Command,
    metadata: Option<Seq<u8>>,
    r: Result<(), Error<<State<T> as Handle<T::Command>>::Error>>,
) -> bool where T: Aggregate, State<T>: Apply<T::Event> + Handle<T::Command> {
    match plan::<T>(id, cmd, before.latest(id, 0)) {
        Err(e) => after == before && (r matches Err(given) && given == e),
        Ok((cursor, bodies)) => match r {
            Ok(()) => extended(before, after, id, cursor, bodies, metadata, bodies.len()),
            Err(Error::Store(e)) => exists|count: nat|
                count < bodies.len() && #[trigger] extended(
                    before,
                    after,
                    id,
                    cursor,
                    bodies,
                    metadata,
                    count,
                ) && (e.is_conflict() ==> before.contains(id, cursor + count + 1)),
            _ => false,
        },
    }
}

/// Replay is deterministic: replaying one history onto a fresh aggregate twice ends
/// the same way both times, and where it gives a state, in the same state and at the
/// same cursor.
pub proof fn lemma_replay_is_deterministic<T>(
    id: &str,
    history: &Vec<Payload>,
    first: Result<(State<T>, usize), usize>,
    second: Result<(State<T>, usize), usize>,
) where T: Aggregate, State<T>: Apply<T::Event>
    requires
        call_ensures(replay::<T>, (id, history), first),
        call_ensures(replay::<T>, (id, history), second),
    ensures
        first == second,
{
}

/// `after` is `before` with `count` envelopes appended to the stream of `id`, right
/// behind the last one that `before` holds for it: what a command that was carried
/// out with success leaves behind.
pub open spec fn appended(before: Journal, after: Journal, id: Seq<char>, count: nat) -> bool {
    exists|bodies: Seq<Seq<u8>>, metadata: Option<Seq<u8>>| #[trigger]
        extended(
            before,
            after,
            id,
            cursor_after(before.latest(id, 0)),
            bodies,
            metadata,
            count,
        )
}

/// A command that was carried out with success appended as many envelopes as the
/// aggregate decided events, right behind the history.
pub proof fn lemma_success_appends<T>(
    before: Journal,
    after: Journal,
    id: Seq<char>,
    cmd: T::Command,
    metadata: Option<Seq<u8>>,
) where T: Aggregate, State<T>: Apply<T::Event> + Handle<T::Command>
    requires
        outcome::<T>(before, after, id, cmd, metadata, Ok(())),
    ensures
        plan::<T>(id, cmd, before.latest(id, 0)) matches Ok((cursor, bodies)) && appended(
            before,
            after,
            id,
            bodies.len(),
        ),
{
    let (cursor, bodies) = plan::<T>(id, cmd, before.latest(id, 0))->Ok_0;
    assert(extended(
        before,
        after,
        id,
        cursor_after(before.latest(id, 0)),
        bodies,
        metadata,
        bodies.len(),
    ));
}

/// A command that fails for a reason other than the store leaves the store as it was:
/// unreadable history, a rejected command, an event that cannot be written down and an
/// exhausted stream append nothing.
pub proof fn lemma_failure_appends_nothing<T>(
    before: Journal,
    after: Journal,
    id: Seq<char>,
    cmd: T::Command,
    metadata: Option<Seq<u8>>,
    r: Result<(), Error<<State<T> as Handle<T::Command>>::Error>>,
) where T: Aggregate, State<T>: Apply<T::Event> + Handle<T::Command>
    requires
        outcome::<T>(before, after, id, cmd, metadata, r),
        r is Err,
        !(r matches Err(Error::Store(_))),
    ensures
        after == before,
{
}

/// Appending to a contiguous stream keeps it contiguous: `count` envelopes appended
/// behind `held` of them make `held + count`, with no gap.
pub proof fn lemma_append_keeps_contiguous(
    before: Journal,
    after: Journal,
    id: Seq<char>,
    held: nat,
    count: nat,
)
    requires
        before.well_formed(),
        before.contiguous(id, held),
        appended(before, after, id, count),
    ensures
        after.contiguous(id, held + count),
{
    lemma_contiguous_history(before, id, held);
    let history = before.latest(id, 0);
    assert(cursor_after(history) == held);
    assert forall|sequence: nat| #[trigger]
        after.contains(id, sequence) <==> 1 <= sequence <= held + count by {
        assert(after.entries.contains_key((id, sequence)) <==> before.entries.contains_key(
            (id, sequence),
        ) || held < sequence <= held + count);
        assert(before.contains(id, sequence) <==> 1 <= sequence <= held);
    }
}

/// Of two executions that read the same history, the one that appends second appends
/// nothing: the place behind the cursor is taken by then, so its first write is turned
/// down and the store stays as the first execution left it.
pub proof fn lemma_second_appends_nothing(
    before: Journal,
    between: Journal,
    after: Journal,
    id: Seq<char>,
    cursor: nat,
    first: Seq<Seq<u8>>,
    second: Seq<Seq<u8>>,
    first_metadata: Option<Seq<u8>>,
    second_metadata: Option<Seq<u8>>,
    first_count: nat,
    second_count: nat,
)
    requires
        extended(before, between, id, cursor, first, first_metadata, first_count),
        first_count >= 1,
        extended(between, after, id, cursor, second, second_metadata, second_count),
    ensures
        second_count == 0,
        after == between,
{
    if second_count >= 1 {
        assert(landed(after.at(id, cursor + 1), id, cursor + 1, second[0], second_metadata));
    }
}

/// The sum of a list of counts.
pub open spec fn total(counts: Seq<nat>) -> nat
    decreases counts.len(),
{
    if counts.len() == 0 {
        0
    } else {
        total(counts.drop_last()) + counts.last()
    }
}

/// Appends are monotonic: any number of commands carried out with success on one
/// aggregate, one after the other and starting from an empty stream, leave as many
/// envelopes as they appended between them, at the sequences 1, 2, .. without a gap.
///
/// `journals[i]` is what the store holds before command `i` and `journals[i + 1]` what
/// it holds after it; `counts[i]` is the number of events of command `i`.
pub proof fn lemma_monotonic_append(journals: Seq<Journal>, id: Seq<char>, counts: Seq<nat>)
    requires
        journals.len() == counts.len() + 1,
        forall|i: int| 0 <= i < journals.len() ==> (#[trigger] journals[i]).well_formed(),
        journals[0].contiguous(id, 0),
        forall|i: int|
            0 <= i < counts.len() ==> appended(
                #[trigger] journals[i],
                journals[i + 1],
                id,
                counts[i],
            ),
    ensures
        journals.last().contiguous(id, total(counts)),
        journals.last().latest(id, 0).len() == total(counts),
        forall|i: int|
            0 <= i < total(counts) ==> (#[trigger] journals.last().latest(id, 0)[i]).sequence == i
                + 1,
    decreases counts.len(),
{
    if counts.len() > 0 {
        let earlier = journals.drop_last();
        let fewer = counts.drop_last();
        lemma_monotonic_append(earlier, id, fewer);
        let last = counts.len() - 1;
        lemma_append_keeps_contiguous(
            journals[last],
            journals[last + 1],
            id,
            total(fewer),
            counts.last(),
        );
    }
    lemma_contiguous_history(journals.last(), id, total(counts));
}

} // verus!
