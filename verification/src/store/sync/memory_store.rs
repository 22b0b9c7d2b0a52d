//! A store that keeps everything in memory.

use crate::store::journal::{envelopes, Journal};
use crate::store::payload::{Envelope, Payload};
use crate::store::sync::error::{Cause, StoreError};
use crate::store::sync::reader::{Journaled, Reader, Stored};
use crate::store::sync::writer::Writer;
use std::collections::BTreeMap;
use vstd::hash_map::StringHashMap;
use vstd::prelude::*;
use vstd::std_specs::cmp::OrdSpec;
use vstd::std_specs::iter::IteratorSpec;

verus! {

/// The envelopes of one stream at the places `from, .., to - 1` that are occupied, in that order.
spec fn stream_range(stream: Map<usize, Payload>, from: int, to: int) -> Seq<Envelope>
    decreases to - from,
{
    if to <= from || to <= 0 {
        Seq::empty()
    } else {
        let before = stream_range(stream, from, to - 1);
        if to - 1 <= usize::MAX && stream.contains_key((to - 1) as usize) {
            before.push(stream[(to - 1) as usize]@)
        } else {
            before
        }
    }
}

/// A stretch of places that holds nothing adds nothing to a range.
proof fn lemma_stream_range_gap(stream: Map<usize, Payload>, from: int, a: int, b: int)
    requires
        a <= b,
        forall|k: usize| a <= k < b ==> !stream.contains_key(k),
    ensures
        stream_range(stream, from, b) == stream_range(stream, from, a),
    decreases b - a,
{
    if a < b {
        lemma_stream_range_gap(stream, from, a, b - 1);
    }
}

/// `usize` keys are ordered as the integers they are.
proof fn lemma_keys_are_ordered()
    ensures
        vstd::std_specs::btree::key_obeys_cmp_spec::<usize>(),
{
    broadcast use vstd::std_specs::btree::group_btree_axioms;
    broadcast use vstd::laws_cmp::group_laws_cmp;

}

/// Keys that a tree hands out in its own order ascend strictly.
proof fn lemma_keys_ascend(keys: Seq<usize>)
    requires
        vstd::std_specs::btree::increasing_seq(keys),
    ensures
        forall|i: int, j: int| 0 <= i < j < keys.len() ==> keys[i] < keys[j],
{
    broadcast use vstd::std_specs::btree::group_btree_axioms;
    broadcast use vstd::laws_cmp::group_laws_cmp;

    assert forall|i: int, j: int| 0 <= i < j < keys.len() implies keys[i] < keys[j] by {
        assert(keys[i].cmp_spec(&keys[j]) is Less);
    }
}

/// The entries of a stream as its tree hands them out: in strictly ascending order of
/// key, each one an entry of the stream, and none of the stream's entries left out.
spec fn lists_in_order(stream: Map<usize, Payload>, entries: Seq<(&usize, &Payload)>) -> bool {
    &&& forall|i: int, j: int|
        0 <= i < j < entries.len() ==> *(#[trigger] entries[i]).0 < *(#[trigger] entries[j]).0
    &&& forall|i: int|
        0 <= i < entries.len() ==> stream.contains_key(*(#[trigger] entries[i]).0)
            && stream[*entries[i].0] == *entries[i].1
    &&& forall|k: usize| #[trigger]
        stream.contains_key(k) ==> exists|i: int|
            0 <= i < entries.len() && *(#[trigger] entries[i]).0 == k
}

/// Between two neighbours of an ordered listing the stream holds nothing.
proof fn lemma_nothing_between(
    stream: Map<usize, Payload>,
    entries: Seq<(&usize, &Payload)>,
    i: int,
    k: usize,
)
    requires
        lists_in_order(stream, entries),
        0 <= i <= entries.len(),
        i > 0 ==> *entries[i - 1].0 < k,
        i < entries.len() ==> k < *entries[i].0,
    ensures
        !stream.contains_key(k),
{
    if stream.contains_key(k) {
        let j = choose|j: int| 0 <= j < entries.len() && *(#[trigger] entries[j]).0 == k;
    }
}

/// Where a scan has got to before it looks at entry `i`: the key of that entry,
/// or the end of the range where the entries (or the range) end first.
spec fn frontier(entries: Seq<(&usize, &Payload)>, i: int, end: int) -> int {
    if i < entries.len() && *entries[i].0 < end {
        *entries[i].0 as int
    } else {
        end
    }
}

/// Moving a scan on to the next entry leaves the range it has covered as it is.
proof fn lemma_frontier_moves(
    stream: Map<usize, Payload>,
    entries: Seq<(&usize, &Payload)>,
    i: int,
    from: int,
    end: int,
)
    requires
        lists_in_order(stream, entries),
        0 <= i <= entries.len(),
        0 <= end,
    ensures
        i == 0 ==> stream_range(stream, from, frontier(entries, 0, end)) == Seq::<Envelope>::empty(),
        i > 0 && *entries[i - 1].0 < end ==> stream_range(stream, from, frontier(entries, i, end))
            == stream_range(stream, from, *entries[i - 1].0 + 1),
{
    let start: int = if i == 0 {
        0
    } else {
        *entries[i - 1].0 + 1
    };
    let stop = frontier(entries, i, end);
    if i == 0 || *entries[i - 1].0 < end {
        assert forall|k: usize| start <= k < stop implies !stream.contains_key(k) by {
            lemma_nothing_between(stream, entries, i, k);
        }
        lemma_stream_range_gap(stream, from, start, stop);
    }
}

/// Clones of the payloads of `stream` with `from <= sequence < to`, or `<= to` where the
/// range is `closed`, in ascending order of sequence. The stream is walked in its own
/// order, and no further than the end of the range.
#[verifier::loop_isolation(false)]
fn scan(stream: &BTreeMap<usize, Payload>, from: usize, to: usize, closed: bool) -> (out: Vec<
    Payload,
>)
    ensures
        envelopes(out@) == stream_range(
            stream@,
            from as int,
            to + if closed {
                1int
            } else {
                0int
            },
        ),
{
    broadcast use vstd::std_specs::btree::group_btree_axioms;

    proof {
        lemma_keys_are_ordered();
    }
    let ghost end: int = to + if closed {
        1int
    } else {
        0int
    };
    let mut out: Vec<Payload> = Vec::new();
    let iter = stream.iter();
    proof {
        let entries = iter.remaining();
        let keys = entries.map_values(|kv: (&usize, &Payload)| *kv.0);
        lemma_keys_ascend(keys);
        assert forall|i: int, j: int| 0 <= i < j < entries.len() implies *(
        #[trigger] entries[i]).0 < *(#[trigger] entries[j]).0 by {
            assert(keys[i] < keys[j]);
        }
        assert forall|k: usize| #[trigger] stream@.contains_key(k) implies exists|i: int|
            0 <= i < entries.len() && *(#[trigger] entries[i]).0 == k by {
            let i = choose|i: int| 0 <= i < entries.len() && entries[i] == (&k, &stream@[k]);
        }
        lemma_frontier_moves(stream@, entries, 0, from as int, end);
    }
    for kv in it: iter
        invariant
            lists_in_order(stream@, it.seq()),
            envelopes(out@) == stream_range(stream@, from as int, frontier(it.seq(), it.index(), end)),
    {
        let (k, v) = kv;
        if *k > to || (*k == to && !closed) {
            break ;
        }
        if from <= *k {
            out.push(v.clone());
        }
        proof {
            lemma_frontier_moves(stream@, it.seq(), it.index() + 1, from as int, end);
        }
    }
    out
}

/// A simple in-memory store that keeps payloads organized by `id` and sequence number.
///
/// Each `id` has a stream: a map from sequence number to payload, ordered by sequence
/// number. A map from text finds the stream of an `id`. That map hands its values out
/// for reading only, so the streams stand in a list of their own, where they can be
/// written to, and the map holds the place of each.
pub struct MemoryStore {
    /// Where in `streams` the stream of each known `id` stands.
    index: StringHashMap<usize>,
    /// The streams, each one ordered by sequence number.
    streams: Vec<BTreeMap<usize, Payload>>,
}

impl MemoryStore {
    /// Each known `id` has a stream of its own, and each payload is kept under its own
    /// sequence number.
    #[verifier::type_invariant]
    spec fn well_formed(self) -> bool {
        &&& forall|id: Seq<char>| #[trigger]
            self.index@.contains_key(id) ==> self.index@[id] < self.streams.len()
        &&& forall|a: Seq<char>, b: Seq<char>|
            self.index@.contains_key(a) && self.index@.contains_key(b) && #[trigger] self.index@[a]
                == #[trigger] self.index@[b] ==> a == b
        &&& forall|i: int, k: usize|
            0 <= i < self.streams.len() && #[trigger] self.streams[i]@.contains_key(k)
                ==> self.streams[i]@[k].sequence == k
    }

    /// The stream kept for `id`: empty where the store has not seen the `id`.
    closed spec fn stream(self, id: Seq<char>) -> Map<usize, Payload> {
        if self.index@.contains_key(id) {
            self.streams[self.index@[id] as int]@
        } else {
            Map::empty()
        }
    }

    /// Create a new empty MemoryStore.
    pub fn new() -> (store: Self)
        ensures
            store.stored() == Journal::empty(),
    {
        MemoryStore { index: StringHashMap::new(), streams: Vec::new() }
    }

    /// Append a new payload to the store.
    ///
    /// Returns an error if a payload with the same sequence number already exists for the
    /// given id, and leaves the store as it was.
    pub fn append(&mut self, id: &str, payload: Payload) -> (r: Result<(), StoreError>)
        ensures
            r is Ok <==> !old(self).stored().contains(id@, payload@.sequence),
            r is Ok ==> final(self).stored() == old(self).stored().append(id@, payload@),
            r matches Err(e) ==> final(self).stored() == old(self).stored() && e.is_conflict_at(
                id@,
                payload@.sequence,
            ),
    {
        broadcast use vstd::std_specs::btree::group_btree_axioms;

        proof {
            use_type_invariant(&*self);
            lemma_keys_are_ordered();
        }
        let sequence = payload.sequence;
        let known = match self.index.get(id) {
            Some(slot) => Some(*slot),
            None => None,
        };
        if let Some(slot) = known {
            if self.streams[slot].contains_key(&sequence) {
                return Err(
                    StoreError::Write(Cause::AlreadyExists { id: id.to_owned(), sequence }),
                );
            }
        }
        let mut index = StringHashMap::new();
        std::mem::swap(&mut index, &mut self.index);
        let mut streams = Vec::new();
        std::mem::swap(&mut streams, &mut self.streams);
        let slot = match known {
            Some(slot) => slot,
            None => {
                let slot = streams.len();
                streams.push(BTreeMap::new());
                index.insert(id.to_owned(), slot);
                slot
            },
        };
        streams[slot].insert(sequence, payload);
        self.streams = streams;
        self.index = index;
        proof {
            assert(final(self).stored().entries =~= old(self).stored().append(
                id@,
                payload@,
            ).entries);
        }
        Ok(())
    }
}

impl Stored for MemoryStore {
    open spec fn faultless(&self) -> bool {
        true
    }

    closed spec fn held(&self) -> Journal {
        Journal {
            entries: Map::new(
                |place: (Seq<char>, nat)|
                    place.1 <= usize::MAX && self.stream(place.0).contains_key(place.1 as usize),
                |place: (Seq<char>, nat)| self.stream(place.0)[place.1 as usize]@,
            ),
        }
    }
}

impl MemoryStore {
    /// A range of the journal is the range of one stream.
    proof fn lemma_range_of_stream(self, id: Seq<char>, from: int, to: int)
        requires
            self.well_formed(),
        ensures
            self.stored().range(id, from, to) == stream_range(self.stream(id), from, to),
        decreases to - from,
    {
        if !(to <= from || to <= 0) {
            self.lemma_range_of_stream(id, from, to - 1);
        }
    }

    /// Clones of the payloads of `id` with `from <= sequence < to`, or `<= to` where the
    /// range is `closed`, in ascending order of sequence.
    fn collect(&self, id: &str, from: usize, to: usize, closed: bool) -> (out: Vec<Payload>)
        ensures
            envelopes(out@) == self.stored().range(
                id@,
                from as int,
                to + if closed {
                    1int
                } else {
                    0int
                },
            ),
    {
        proof {
            use_type_invariant(self);
            self.lemma_range_of_stream(
                id@,
                from as int,
                to + if closed {
                    1int
                } else {
                    0int
                },
            );
        }
        match self.index.get(id) {
            Some(slot) => scan(&self.streams[*slot], from, to, closed),
            None => {
                proof {
                    lemma_stream_range_gap(
                        Map::empty(),
                        from as int,
                        0,
                        to + if closed {
                            1int
                        } else {
                            0int
                        },
                    );
                }
                Vec::new()
            },
        }
    }
}

impl Reader for MemoryStore {
    /// Reading from memory fails for one reason only: nothing is kept at the place.
    fn read(&self, id: &str, seq: usize) -> (r: Result<Payload, StoreError>)
        ensures
            r matches Err(e) ==> e.is_not_found_at(id@, seq as nat),
    {
        broadcast use vstd::std_specs::btree::group_btree_axioms;

        proof {
            use_type_invariant(self);
            lemma_keys_are_ordered();
        }
        if let Some(slot) = self.index.get(id) {
            if let Some(payload) = self.streams[*slot].get(&seq) {
                return Ok(payload.clone());
            }
        }
        Err(StoreError::Read(Cause::NotFound { id: id.to_owned(), sequence: seq }))
    }

    /// Reading a range from memory never fails.
    fn read_to(&self, id: &str, from: usize, to: usize) -> (r: Result<Vec<Payload>, StoreError>)
    {
        Ok(self.collect(id, from, to, false))
    }

    /// Reading a stream to its end from memory never fails.
    fn read_to_latest(&self, id: &str, from: usize) -> (r: Result<Vec<Payload>, StoreError>)
    {
        Ok(self.collect(id, from, usize::MAX, true))
    }
}

impl Writer for MemoryStore {
    /// Writing to memory fails for one reason only: the place is taken.
    fn write(&mut self, id: &str, payload: Payload) -> (r: Result<(), StoreError>)
        ensures
            r matches Err(e) ==> e.is_conflict_at(id@, payload@.sequence),
    {
        self.append(id, payload)
    }
}

impl Default for MemoryStore {
    fn default() -> (store: Self)
        ensures
            store.stored() == Journal::empty(),
    {
        MemoryStore::new()
    }
}

} // verus!
