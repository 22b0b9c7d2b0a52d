use tsuzuri::aggregate::{Aggregate, Apply, Handle, State};
use tsuzuri::error::Error;
use tsuzuri::store::payload::Payload;
use tsuzuri::store::sync::error::{Cause, StoreError};
use tsuzuri::store::sync::event_store::EventStore;
use tsuzuri::store::sync::memory_store::MemoryStore;
use tsuzuri::store::sync::reader::{Reader, Stored};
use tsuzuri::store::sync::writer::Writer;
use tsuzuri::{NoQueryStore, Tsuzuri};

/// A backend that loses its connection on demand.
struct Remote {
    kept: MemoryStore,
    reads_fail: bool,
    writes_left: usize,
}

impl Remote {
    fn new(writes_left: usize) -> Self {
        Remote { kept: MemoryStore::new(), reads_fail: false, writes_left }
    }
}

impl Stored for Remote {}

impl Reader for Remote {
    fn read(&self, id: &str, seq: usize) -> Result<Payload, StoreError> {
        if self.reads_fail {
            return Err(StoreError::Read(Cause::Backend("connection lost".to_string())));
        }
        self.kept.read(id, seq)
    }

    fn read_to(&self, id: &str, from: usize, to: usize) -> Result<Vec<Payload>, StoreError> {
        if self.reads_fail {
            return Err(StoreError::Read(Cause::Backend("connection lost".to_string())));
        }
        self.kept.read_to(id, from, to)
    }
}

impl Writer for Remote {
    fn write(&mut self, id: &str, payload: Payload) -> Result<(), StoreError> {
        if self.writes_left == 0 {
            return Err(StoreError::Write(Cause::Backend("connection lost".to_string())));
        }
        self.writes_left -= 1;
        self.kept.write(id, payload)
    }
}

/// Counts in pairs: every command is recorded as two events.
#[derive(Debug)]
struct Tally {
    total: u64,
}

struct Add(u8);

#[derive(Clone, Debug)]
struct Added(u8);

impl Aggregate for Tally {
    type Command = Add;
    type Event = Added;

    fn init(_id: String) -> Self {
        Tally { total: 0 }
    }

    fn decode(bytes: &[u8]) -> Option<Added> {
        match bytes {
            [n] => Some(Added(*n)),
            _ => None,
        }
    }

    fn encode(event: &Added) -> Option<Vec<u8>> {
        if event.0 == u8::MAX {
            None
        } else {
            Some(vec![event.0])
        }
    }
}

impl Handle<Add> for State<Tally> {
    type Error = String;

    fn handle(&self, cmd: Add) -> Result<Vec<Added>, String> {
        if cmd.0 == 0 {
            Err("nothing to add".to_string())
        } else {
            Ok(vec![Added(cmd.0), Added(cmd.0)])
        }
    }
}

impl Apply<Added> for State<Tally> {
    fn apply(&mut self, event: Added) {
        self.0.total += event.0 as u64;
    }
}

fn sequences(found: &[Payload]) -> Vec<usize> {
    found.iter().map(|p| p.sequence).collect()
}

#[test]
fn a_backend_gets_reading_to_the_latest_from_its_range_read() {
    let mut remote = Remote::new(10);
    for s in [3, 1, usize::MAX, 2] {
        remote.write("a", Payload::stamped("a", s, vec![1], None, 0)).unwrap();
    }
    assert_eq!(sequences(&remote.read_to_latest("a", 0).unwrap()), vec![1, 2, 3, usize::MAX]);
    assert_eq!(sequences(&remote.read_to_latest("a", 2).unwrap()), vec![2, 3, usize::MAX]);
    assert!(remote.read_to_latest("b", 0).unwrap().is_empty());
    remote.reads_fail = true;
    assert!(matches!(
        remote.read_to_latest("a", 0),
        Err(StoreError::Read(Cause::Backend(_)))
    ));
}

#[test]
fn every_event_of_a_command_gets_a_sequence_of_its_own() {
    let mut tsuzuri = Tsuzuri::new(EventStore::new(MemoryStore::new()), NoQueryStore);
    tsuzuri.execute::<Tally>("t", Add(2)).unwrap();
    tsuzuri.execute::<Tally>("t", Add(5)).unwrap();
    let history = tsuzuri.es_read().read_to_latest("t", 0).unwrap();
    assert_eq!(sequences(&history), vec![1, 2, 3, 4]);
    let bodies: Vec<Vec<u8>> = history.iter().map(|p| p.bytes.clone()).collect();
    assert_eq!(bodies, vec![vec![2], vec![2], vec![5], vec![5]]);
    assert_eq!(history[0].metadata, history[1].metadata);
    let (state, cursor) = tsuzuri::execution::replay::<Tally>("t", &history).unwrap();
    assert_eq!(cursor, 4);
    assert_eq!(state.0.total, 14);
}

#[test]
fn a_failed_read_fails_the_command_with_the_error_of_the_store() {
    let mut remote = Remote::new(10);
    remote.reads_fail = true;
    let mut tsuzuri = Tsuzuri::new(EventStore::new(remote), NoQueryStore);
    match tsuzuri.execute::<Tally>("t", Add(1)) {
        Err(Error::Store(StoreError::Read(Cause::Backend(words)))) => {
            assert_eq!(words, "connection lost")
        }
        other => panic!("unexpected outcome: {:?}", other),
    }
}

#[test]
fn a_failed_write_fails_the_command_and_keeps_what_was_written_before() {
    let mut tsuzuri = Tsuzuri::new(EventStore::new(Remote::new(3)), NoQueryStore);
    tsuzuri.execute::<Tally>("t", Add(1)).unwrap();
    match tsuzuri.execute::<Tally>("t", Add(2)) {
        Err(Error::Store(StoreError::Write(Cause::Backend(_)))) => {}
        other => panic!("unexpected outcome: {:?}", other),
    }
    let history = tsuzuri.es_read().read_to_latest("t", 0).unwrap();
    assert_eq!(sequences(&history), vec![1, 2, 3]);
    assert_eq!(history[2].bytes, vec![2]);
}

#[test]
fn a_rejected_command_carries_the_words_of_the_aggregate() {
    let mut tsuzuri = Tsuzuri::new(EventStore::new(MemoryStore::new()), NoQueryStore);
    match tsuzuri.execute::<Tally>("t", Add(0)) {
        Err(Error::DomainValidation(words)) => assert_eq!(words, "nothing to add"),
        other => panic!("unexpected outcome: {:?}", other),
    }
    assert!(tsuzuri.es_read().read_to_latest("t", 0).unwrap().is_empty());
}

#[test]
fn an_event_that_cannot_be_written_down_fails_the_command_before_any_write() {
    let mut tsuzuri = Tsuzuri::new(EventStore::new(MemoryStore::new()), NoQueryStore);
    match tsuzuri.execute::<Tally>("t", Add(u8::MAX)) {
        Err(Error::Serialize(_)) => {}
        other => panic!("unexpected outcome: {:?}", other),
    }
    assert!(tsuzuri.es_read().read_to_latest("t", 0).unwrap().is_empty());
    assert!(tsuzuri::execution::encode_all::<Tally>(&vec![Added(1), Added(u8::MAX)]).is_none());
    assert_eq!(
        tsuzuri::execution::encode_all::<Tally>(&vec![Added(1), Added(2)]),
        Some(vec![vec![1], vec![2]])
    );
}

#[test]
fn a_command_that_needs_more_sequences_than_are_left_appends_nothing() {
    let mut store = MemoryStore::new();
    store.append("t", Payload::stamped("t", usize::MAX - 1, vec![1], None, 0)).unwrap();
    let mut tsuzuri = Tsuzuri::new(EventStore::new(store), NoQueryStore);
    match tsuzuri.execute::<Tally>("t", Add(1)) {
        Err(Error::SequenceExhausted) => {}
        other => panic!("unexpected outcome: {:?}", other),
    }
    assert_eq!(tsuzuri.es_read().read_to_latest("t", 0).unwrap().len(), 1);
}
