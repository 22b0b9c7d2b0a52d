//! The persisted unit: one serialized event with its place in an aggregate's stream.

use std::cmp::Ordering;
use vstd::prelude::*;
use vstd::std_specs::iter::IteratorSpec;

verus! {

/// Raised when an envelope cannot be put together from its parts.
#[derive(Debug)]
pub struct SerializeError;

/// An envelope as a mathematical value: what [`Payload`] stands for in contracts.
pub struct Envelope {
    /// Identifier of the aggregate the event belongs to.
    pub id: Seq<char>,
    /// Place of the event in the aggregate's stream.
    pub sequence: nat,
    /// The serialized event.
    pub bytes: Seq<u8>,
    /// The serialized side channel, where there is one.
    pub metadata: Option<Seq<u8>>,
    /// Nanoseconds between the Unix epoch and the envelope's creation.
    pub created_at: int,
}

/// Code point of a character.
pub open spec fn code_point(c: char) -> int {
    c as u32 as int
}

/// Lexicographic order of two texts by code point, the order of `str`.
pub open spec fn text_order(a: Seq<char>, b: Seq<char>) -> Ordering
    decreases a.len(),
{
    if a.len() == 0 {
        if b.len() == 0 {
            Ordering::Equal
        } else {
            Ordering::Less
        }
    } else if b.len() == 0 {
        Ordering::Greater
    } else if code_point(a.first()) < code_point(b.first()) {
        Ordering::Less
    } else if code_point(a.first()) > code_point(b.first()) {
        Ordering::Greater
    } else {
        text_order(a.drop_first(), b.drop_first())
    }
}

impl Envelope {
    /// Two envelopes take the same place: same sequence, creation time and identifier.
    pub open spec fn same_place(self, other: Envelope) -> bool {
        &&& self.sequence == other.sequence
        &&& self.id == other.id
        &&& self.created_at == other.created_at
    }

    /// Envelopes are ordered by sequence, then by creation time, then by identifier.
    pub open spec fn order(self, other: Envelope) -> Ordering {
        if self.sequence < other.sequence {
            Ordering::Less
        } else if self.sequence > other.sequence {
            Ordering::Greater
        } else if self.created_at < other.created_at {
            Ordering::Less
        } else if self.created_at > other.created_at {
            Ordering::Greater
        } else {
            text_order(self.id, other.id)
        }
    }
}

/// Basic format of the data to be saved.
#[derive(Debug)]
pub struct Payload {
    /// Aggregate entity identifier
    pub id: String,
    /// The sequence number for an aggregate instance.
    pub sequence: usize,
    /// Data body in binary format
    pub bytes: Vec<u8>,
    /// Side channel in binary format, such as causation and correlation data
    pub metadata: Option<Vec<u8>>,
    /// Time the event was generated, in nanoseconds since the Unix epoch
    pub created_at: i128,
}

impl View for Payload {
    type V = Envelope;

    open spec fn view(&self) -> Envelope {
        Envelope {
            id: self.id@,
            sequence: self.sequence as nat,
            bytes: self.bytes@,
            metadata: optional_bytes(self.metadata),
            created_at: self.created_at as int,
        }
    }
}

/// The system clock through `time::OffsetDateTime::now_utc`, as the nanoseconds that
/// `unix_timestamp_nanos` counts from the Unix epoch. Nothing is claimed of the value:
/// it is whatever the clock says, and two readings need not even be ordered. A clock
/// set beyond the years that the `time` crate can hold makes `now_utc` panic.
#[verifier::external_body]
fn unix_nanos_now() -> i128 {
    time::OffsetDateTime::now_utc().unix_timestamp_nanos()
}

/// The code point of a character.
fn code_of(c: char) -> (n: u32)
    ensures
        n == code_point(c),
{
    c as u32
}

/// Three-way comparison of two texts, character by character: the order of `str`.
fn compare_text(a: &str, b: &str) -> (o: Ordering)
    ensures
        o == text_order(a@, b@),
{
    broadcast use vstd::string::group_string_axioms;

    let mut left = a.chars();
    let mut right = b.chars();
    loop
        invariant
            text_order(a@, b@) == text_order(left.remaining(), right.remaining()),
            left.decrease() is Some,
        decreases left.decrease()->0,
    {
        match (left.next(), right.next()) {
            (None, None) => {
                return Ordering::Equal;
            },
            (None, Some(_)) => {
                return Ordering::Less;
            },
            (Some(_), None) => {
                return Ordering::Greater;
            },
            (Some(c), Some(d)) => {
                let m = code_of(c);
                let n = code_of(d);
                if m < n {
                    return Ordering::Less;
                }
                if m > n {
                    return Ordering::Greater;
                }
            },
        }
    }
}

/// The bytes of an optional buffer.
pub open spec fn optional_bytes(m: Option<Vec<u8>>) -> Option<Seq<u8>> {
    match m {
        Some(m) => Some(m@),
        None => None,
    }
}

impl Payload {
    /// An envelope created now: the parts given, stamped with the system clock.
    /// Every call succeeds; what time the stamp shows is the clock's business.
    pub fn new(id: &str, seq: usize, event: Vec<u8>, metadata: Option<Vec<u8>>) -> (r: Result<
        Self,
        SerializeError,
    >)
        ensures
            r is Ok,
            r.unwrap()@ == (Envelope {
                id: id@,
                sequence: seq as nat,
                bytes: event@,
                metadata: optional_bytes(metadata),
                created_at: r.unwrap()@.created_at,
            }),
    {
        Ok(Payload::stamped(id, seq, event, metadata, unix_nanos_now()))
    }

    /// An envelope with a creation time supplied by the caller.
    pub fn stamped(
        id: &str,
        seq: usize,
        event: Vec<u8>,
        metadata: Option<Vec<u8>>,
        created_at: i128,
    ) -> (p: Payload)
        ensures
            p@ == (Envelope {
                id: id@,
                sequence: seq as nat,
                bytes: event@,
                metadata: optional_bytes(metadata),
                created_at: created_at as int,
            }),
    {
        Payload { id: id.to_owned(), sequence: seq, bytes: event, metadata, created_at }
    }
}

impl Payload {
    /// Three-way comparison: by sequence, then by creation time, then by identifier.
    pub fn cmp(&self, other: &Self) -> (o: Ordering)
        ensures
            o == self@.order(other@),
    {
        if self.sequence < other.sequence {
            Ordering::Less
        } else if self.sequence > other.sequence {
            Ordering::Greater
        } else if self.created_at < other.created_at {
            Ordering::Less
        } else if self.created_at > other.created_at {
            Ordering::Greater
        } else {
            compare_text(self.id.as_str(), other.id.as_str())
        }
    }
}

impl Clone for Payload {
    fn clone(&self) -> (p: Self)
        ensures
            p@ == self@,
    {
        let metadata = match &self.metadata {
            Some(m) => Some(m.clone()),
            None => None,
        };
        Payload {
            id: self.id.clone(),
            sequence: self.sequence,
            bytes: self.bytes.clone(),
            metadata,
            created_at: self.created_at,
        }
    }
}

impl PartialEq for Payload {
    fn eq(&self, other: &Self) -> (r: bool) {
        self.sequence == other.sequence && self.id == other.id && self.created_at
            == other.created_at
    }
}

impl vstd::std_specs::cmp::PartialEqSpecImpl for Payload {
    open spec fn obeys_eq_spec() -> bool {
        true
    }

    open spec fn eq_spec(&self, other: &Self) -> bool {
        self@.same_place(other@)
    }
}

impl Eq for Payload {

}

impl PartialOrd for Payload {
    fn partial_cmp(&self, other: &Self) -> (r: Option<Ordering>) {
        Some(self.cmp(other))
    }
}

impl vstd::std_specs::cmp::PartialOrdSpecImpl for Payload {
    open spec fn obeys_partial_cmp_spec() -> bool {
        true
    }

    open spec fn partial_cmp_spec(&self, other: &Self) -> Option<Ordering> {
        Some(self@.order(other@))
    }
}

/// Characters with the same code point are the same character.
pub proof fn lemma_code_point_injective(c: char, d: char)
    ensures
        code_point(c) == code_point(d) ==> c == d,
{
}

/// Texts compare equal exactly when they are the same text.
pub proof fn lemma_text_order_equal(a: Seq<char>, b: Seq<char>)
    ensures
        text_order(a, b) == Ordering::Equal <==> a == b,
    decreases a.len(),
{
    if a.len() > 0 && b.len() > 0 {
        lemma_text_order_equal(a.drop_first(), b.drop_first());
        assert(a =~= seq![a.first()] + a.drop_first());
        assert(b =~= seq![b.first()] + b.drop_first());
        lemma_code_point_injective(a.first(), b.first());
    } else if a.len() == 0 && b.len() == 0 {
        assert(a =~= b);
    }
}

/// Swapping the two sides of a text comparison mirrors its result.
pub proof fn lemma_text_order_mirror(a: Seq<char>, b: Seq<char>)
    ensures
        text_order(a, b) == Ordering::Less <==> text_order(b, a) == Ordering::Greater,
        text_order(a, b) == Ordering::Equal <==> text_order(b, a) == Ordering::Equal,
    decreases a.len(),
{
    if a.len() > 0 && b.len() > 0 {
        lemma_text_order_mirror(a.drop_first(), b.drop_first());
    }
}

/// Equality and order agree: two envelopes are equal exactly when neither comes
/// before the other, which is when sequence, creation time and identifier all match.
pub proof fn lemma_equal_iff_ordered_equal(a: Envelope, b: Envelope)
    ensures
        a.same_place(b) <==> a.order(b) == Ordering::Equal,
{
    lemma_text_order_equal(a.id, b.id);
}

/// The order is led by the sequence: an envelope with the smaller sequence comes first,
/// whatever the creation times and identifiers are.
pub proof fn lemma_order_led_by_sequence(a: Envelope, b: Envelope)
    ensures
        a.sequence < b.sequence ==> a.order(b) == Ordering::Less,
        a.sequence > b.sequence ==> a.order(b) == Ordering::Greater,
{
}

/// Swapping the two envelopes mirrors the result of their comparison.
pub proof fn lemma_order_mirror(a: Envelope, b: Envelope)
    ensures
        a.order(b) == Ordering::Less <==> b.order(a) == Ordering::Greater,
        a.order(b) == Ordering::Equal <==> b.order(a) == Ordering::Equal,
{
    lemma_text_order_mirror(a.id, b.id);
}

} // verus!
