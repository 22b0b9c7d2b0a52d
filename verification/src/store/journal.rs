//! What a store holds, as a mathematical value.

use crate::store::payload::{Envelope, Payload};
use vstd::prelude::*;

verus! {

/// The contents of a store: at most one envelope at each place `(id, sequence)`.
#[verifier::ext_equal]
pub struct Journal {
    /// The envelope kept at each occupied place.
    pub entries: Map<(Seq<char>, nat), Envelope>,
}

impl Journal {
    /// The journal that holds nothing.
    pub open spec fn empty() -> Journal {
        Journal { entries: Map::empty() }
    }

    /// An envelope is kept at `(id, sequence)`.
    pub open spec fn contains(self, id: Seq<char>, sequence: nat) -> bool {
        self.entries.contains_key((id, sequence))
    }

    /// The envelope kept at `(id, sequence)`.
    pub open spec fn at(self, id: Seq<char>, sequence: nat) -> Envelope {
        self.entries[(id, sequence)]
    }

    /// The journal with `envelope` kept in the stream of `id`, at the envelope's own sequence.
    pub open spec fn append(self, id: Seq<char>, envelope: Envelope) -> Journal {
        Journal { entries: self.entries.insert((id, envelope.sequence), envelope) }
    }

    /// Every envelope carries the sequence of the place it is kept at, and every
    /// sequence fits a `usize`.
    pub open spec fn well_formed(self) -> bool {
        forall|id: Seq<char>, sequence: nat| #[trigger]
            self.contains(id, sequence) ==> self.at(id, sequence).sequence == sequence
                && sequence <= usize::MAX
    }

    /// The part of a journal that is well formed: its entries without those that carry
    /// another sequence than their place has, or one that no `usize` holds.
    pub open spec fn sound(self) -> Journal {
        Journal {
            entries: Map::new(
                |place: (Seq<char>, nat)|
                    self.entries.contains_key(place) && self.entries[place].sequence == place.1
                        && place.1 <= usize::MAX,
                |place: (Seq<char>, nat)| self.entries[place],
            ),
        }
    }

    /// The envelopes of `id` at the places `from, from + 1, .., to - 1` that are occupied,
    /// in that order. Empty where `to <= from`, and where the journal knows no such `id`.
    pub open spec fn range(self, id: Seq<char>, from: int, to: int) -> Seq<Envelope>
        decreases to - from,
    {
        if to <= from || to <= 0 {
            Seq::empty()
        } else {
            let before = self.range(id, from, to - 1);
            if self.contains(id, (to - 1) as nat) {
                before.push(self.at(id, (to - 1) as nat))
            } else {
                before
            }
        }
    }

    /// The envelopes of `id` from `from` onwards, in ascending order of sequence, for a
    /// journal whose sequences all fit a `usize`: the range that ends beyond the last of them.
    pub open spec fn latest(self, id: Seq<char>, from: int) -> Seq<Envelope> {
        self.range(id, from, usize::MAX + 1)
    }

    /// The stream of `id` holds exactly the sequences `1, 2, .., count`: `count`
    /// envelopes, none missing in between.
    pub open spec fn contiguous(self, id: Seq<char>, count: nat) -> bool {
        forall|sequence: nat| #[trigger]
            self.contains(id, sequence) <==> 1 <= sequence <= count
    }

    /// The place `(id, sequence)` is free, and so is every later place of the stream.
    pub open spec fn free_from(self, id: Seq<char>, sequence: nat) -> bool {
        forall|later: nat| later >= sequence ==> !#[trigger] self.contains(id, later)
    }
}

/// The envelopes that a list of payloads stands for.
pub open spec fn envelopes(payloads: Seq<Payload>) -> Seq<Envelope> {
    payloads.map_values(|p: Payload| p@)
}

/// No two envelopes of a stream share a sequence: envelopes of one stream that carry
/// the same sequence are kept at the same place, and so are one envelope.
pub proof fn lemma_sequences_are_unique(journal: Journal, id: Seq<char>, a: nat, b: nat)
    requires
        journal.well_formed(),
        journal.contains(id, a),
        journal.contains(id, b),
        journal.at(id, a).sequence == journal.at(id, b).sequence,
    ensures
        a == b,
        journal.at(id, a) == journal.at(id, b),
{
}

/// What a range read hands out is what the journal keeps: each envelope of a range
/// lies within the range and is the one kept at its own sequence.
pub proof fn lemma_range_members(journal: Journal, id: Seq<char>, from: int, to: int, i: int)
    requires
        journal.well_formed(),
        0 <= i < journal.range(id, from, to).len(),
    ensures
        from <= journal.range(id, from, to)[i].sequence < to,
        journal.contains(id, journal.range(id, from, to)[i].sequence),
        journal.at(id, journal.range(id, from, to)[i].sequence) == journal.range(id, from, to)[i],
    decreases to - from,
{
    if !(to <= from || to <= 0) {
        let before = journal.range(id, from, to - 1);
        if i < before.len() {
            lemma_range_members(journal, id, from, to - 1, i);
        }
    }
}

/// A range read hands its envelopes out in strictly ascending order of sequence, so
/// that no two of them share one.
pub proof fn lemma_range_ascends(journal: Journal, id: Seq<char>, from: int, to: int, i: int, j: int)
    requires
        journal.well_formed(),
        0 <= i < j < journal.range(id, from, to).len(),
    ensures
        journal.range(id, from, to)[i].sequence < journal.range(id, from, to)[j].sequence,
    decreases to - from,
{
    if !(to <= from || to <= 0) {
        let before = journal.range(id, from, to - 1);
        if j < before.len() {
            lemma_range_ascends(journal, id, from, to - 1, i, j);
        } else {
            lemma_range_members(journal, id, from, to - 1, i);
        }
    }
}

/// A range read leaves nothing out: every envelope kept within the range is handed out.
pub proof fn lemma_range_complete(journal: Journal, id: Seq<char>, from: int, to: int, sequence: nat)
    requires
        from <= sequence < to,
        journal.contains(id, sequence),
    ensures
        journal.range(id, from, to).contains(journal.at(id, sequence)),
    decreases to - from,
{
    let found = journal.range(id, from, to);
    if sequence == to - 1 {
        assert(found[found.len() - 1] == journal.at(id, sequence));
    } else {
        lemma_range_complete(journal, id, from, to - 1, sequence);
        let before = journal.range(id, from, to - 1);
        let i = choose|i: int| 0 <= i < before.len() && before[i] == journal.at(id, sequence);
        assert(found[i] == journal.at(id, sequence));
    }
}

/// The last envelope of a range read is the last one kept within the range.
pub proof fn lemma_range_tops(journal: Journal, id: Seq<char>, from: int, to: int, sequence: nat)
    requires
        journal.well_formed(),
        from <= sequence < to,
        journal.contains(id, sequence),
    ensures
        journal.range(id, from, to).len() > 0,
        journal.range(id, from, to).last().sequence >= sequence,
    decreases to - from,
{
    if !journal.contains(id, (to - 1) as nat) {
        lemma_range_tops(journal, id, from, to - 1, sequence);
    }
}

/// Reading to the latest is a range read without an upper end: whatever end beyond
/// the largest sequence is chosen, the range read gives the same envelopes.
pub proof fn lemma_latest_is_open_range(journal: Journal, id: Seq<char>, from: int, to: int)
    requires
        journal.well_formed(),
        to > usize::MAX,
    ensures
        journal.range(id, from, to) == journal.latest(id, from),
    decreases to,
{
    if to > usize::MAX + 1 {
        lemma_latest_is_open_range(journal, id, from, to - 1);
    }
}

/// Beyond the last envelope that reading to the latest hands out, the stream is free.
pub proof fn lemma_free_after_latest(journal: Journal, id: Seq<char>)
    requires
        journal.well_formed(),
    ensures
        journal.latest(id, 0).len() == 0 ==> journal.free_from(id, 0),
        journal.latest(id, 0).len() > 0 ==> journal.free_from(
            id,
            journal.latest(id, 0).last().sequence + 1,
        ),
{
    let found = journal.latest(id, 0);
    assert forall|later: nat| journal.contains(id, later) implies found.len() > 0
        && found.last().sequence >= later by {
        lemma_range_tops(journal, id, 0, usize::MAX + 1, later);
    }
}

/// What was written is what is read back: after an envelope is appended, its place
/// holds that very envelope, bytes and metadata included, and every other place
/// holds what it held.
pub proof fn lemma_append_then_read(journal: Journal, id: Seq<char>, envelope: Envelope)
    ensures
        journal.append(id, envelope).contains(id, envelope.sequence),
        journal.append(id, envelope).at(id, envelope.sequence) == envelope,
        forall|other: Seq<char>, sequence: nat|
            (other, sequence) != (id, envelope.sequence) ==> (journal.append(id, envelope).contains(
                other,
                sequence,
            ) <==> journal.contains(other, sequence)) && journal.append(id, envelope).at(
                other,
                sequence,
            ) == journal.at(other, sequence),
{
}

/// A stretch of places that holds nothing adds nothing to a range.
pub proof fn lemma_range_gap(journal: Journal, id: Seq<char>, from: int, a: int, b: int)
    requires
        a <= b,
        forall|sequence: nat| a <= sequence < b ==> !journal.contains(id, sequence),
    ensures
        journal.range(id, from, b) == journal.range(id, from, a),
    decreases b - a,
{
    if a < b {
        lemma_range_gap(journal, id, from, a, b - 1);
    }
}

/// The first `count` places of a contiguous stream, read as a range, are its first
/// `count` envelopes: as many, with the sequences `1, 2, .., count` in this order.
pub proof fn lemma_contiguous_range(journal: Journal, id: Seq<char>, total: nat, count: nat)
    requires
        journal.well_formed(),
        journal.contiguous(id, total),
        count <= total,
    ensures
        journal.range(id, 0, count as int + 1).len() == count,
        forall|i: int|
            0 <= i < count ==> (#[trigger] journal.range(id, 0, count as int + 1)[i]).sequence == i + 1,
    decreases count,
{
    if count > 0 {
        lemma_contiguous_range(journal, id, total, (count - 1) as nat);
    } else {
        assert(journal.range(id, 0, 0) == Seq::<Envelope>::empty());
    }
}

/// A contiguous stream of `count` envelopes is read to the latest as exactly `count`
/// envelopes, with the sequences `1, 2, .., count` in this order and no gap.
pub proof fn lemma_contiguous_history(journal: Journal, id: Seq<char>, count: nat)
    requires
        journal.well_formed(),
        journal.contiguous(id, count),
    ensures
        journal.latest(id, 0).len() == count,
        forall|i: int| 0 <= i < count ==> (#[trigger] journal.latest(id, 0)[i]).sequence == i + 1,
{
    lemma_contiguous_range(journal, id, count, count);
    if count + 1 <= usize::MAX + 1 {
        lemma_range_gap(journal, id, 0, count as int + 1, usize::MAX + 1);
    }
}

} // verus!
