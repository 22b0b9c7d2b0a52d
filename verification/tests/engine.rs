use std::collections::HashMap;

use tsuzuri::aggregate::{Aggregate, Handle, State};
use tsuzuri::bank_account::{
    BankAccount, BankAccountCommand, BankAccountError, BankAccountEvent, DepositFunds,
    FundsDeposited, OpenAccount, WithdrawFunds,
};
use tsuzuri::error::Error;
use tsuzuri::store::payload::Payload;
use tsuzuri::store::sync::event_store::EventStore;
use tsuzuri::store::sync::memory_store::MemoryStore;
use tsuzuri::store::sync::query_store::QueryStore;
use tsuzuri::store::sync::writer::WriteStore;
use tsuzuri::execution::{append_events, append_pending, encode_all, prepare, replay, Pending};
use tsuzuri::{Tsuzuri, TsuzuriBuilder};

fn engine() -> Tsuzuri<MemoryStore, tsuzuri::NoQueryStore> {
    TsuzuriBuilder::new(EventStore::new(MemoryStore::new())).build()
}

fn open() -> BankAccountCommand {
    BankAccountCommand::OpenAccount(OpenAccount {})
}

fn deposit(amount: u32) -> BankAccountCommand {
    BankAccountCommand::DepositFunds(DepositFunds { amount })
}

fn withdraw(amount: u32) -> BankAccountCommand {
    BankAccountCommand::WithdrawFunds(WithdrawFunds { amount })
}

fn account_with_250(id: &str) -> Tsuzuri<MemoryStore, tsuzuri::NoQueryStore> {
    let mut tsuzuri = engine();
    tsuzuri.execute::<BankAccount>(id, open()).unwrap();
    tsuzuri.execute::<BankAccount>(id, deposit(100)).unwrap();
    tsuzuri.execute::<BankAccount>(id, deposit(200)).unwrap();
    tsuzuri.execute::<BankAccount>(id, withdraw(50)).unwrap();
    tsuzuri
}

#[test]
fn test_write_with_writer() {
    let query_store = QueryStore::new(MemoryStore::new());
    let event_store = EventStore::new(MemoryStore::new());

    let mut tsuzuri = TsuzuriBuilder::new(event_store).query_store(query_store).build();

    let id = "test_1_A";

    let cmd = BankAccountCommand::OpenAccount(OpenAccount {});
    tsuzuri.execute::<BankAccount>(id, cmd).unwrap();

    let cmd = BankAccountCommand::DepositFunds(DepositFunds { amount: 100 });
    tsuzuri.execute::<BankAccount>(id, cmd).unwrap();

    let cmd = BankAccountCommand::DepositFunds(DepositFunds { amount: 200 });
    tsuzuri.execute::<BankAccount>(id, cmd).unwrap();

    let cmd = BankAccountCommand::WithdrawFunds(WithdrawFunds { amount: 50 });
    tsuzuri.execute::<BankAccount>(id, cmd).unwrap();

    assert_eq!(tsuzuri.es_read().read_to_latest(id, 0).unwrap().len(), 4);
    assert_eq!(tsuzuri.qs_read().read_to_latest(id, 0).unwrap().len(), 0);
}

#[test]
fn four_commands_leave_four_envelopes_and_a_balance_of_250() {
    let tsuzuri = account_with_250("acct-1");
    let history = tsuzuri.es_read().read_to_latest("acct-1", 0).unwrap();
    let sequences: Vec<usize> = history.iter().map(|p| p.sequence).collect();
    assert_eq!(sequences, vec![1, 2, 3, 4]);
    for envelope in &history {
        assert_eq!(envelope.id, "acct-1");
    }
    let (state, cursor) = replay::<BankAccount>("acct-1", &history).unwrap();
    assert_eq!(cursor, 4);
    assert!(state.0.opened);
    assert_eq!(state.0.balance, 250);
}

#[test]
fn opening_an_open_account_is_rejected_and_appends_nothing() {
    let mut tsuzuri = account_with_250("acct-1");
    match tsuzuri.execute::<BankAccount>("acct-1", open()) {
        Err(Error::DomainValidation(e)) => {
            assert_eq!(e, BankAccountError::AccountAlreadyOpened);
            assert_eq!(e.message(), "account already opened");
        }
        other => panic!("unexpected outcome: {:?}", other),
    }
    assert_eq!(tsuzuri.es_read().read_to_latest("acct-1", 0).unwrap().len(), 4);
}

#[test]
fn withdrawing_more_than_the_balance_is_rejected_and_appends_nothing() {
    let mut tsuzuri = account_with_250("acct-1");
    match tsuzuri.execute::<BankAccount>("acct-1", withdraw(9999)) {
        Err(Error::DomainValidation(e)) => {
            assert_eq!(e, BankAccountError::InsufficientBalance);
            assert_eq!(e.message(), "insufficient balance");
        }
        other => panic!("unexpected outcome: {:?}", other),
    }
    assert_eq!(tsuzuri.es_read().read_to_latest("acct-1", 0).unwrap().len(), 4);
}

#[test]
fn withdrawing_the_whole_balance_is_accepted() {
    let mut tsuzuri = account_with_250("acct-1");
    tsuzuri.execute::<BankAccount>("acct-1", withdraw(250)).unwrap();
    let history = tsuzuri.es_read().read_to_latest("acct-1", 0).unwrap();
    let (state, cursor) = replay::<BankAccount>("acct-1", &history).unwrap();
    assert_eq!(cursor, 5);
    assert_eq!(state.0.balance, 0);
    match tsuzuri.execute::<BankAccount>("acct-1", withdraw(1)) {
        Err(Error::DomainValidation(BankAccountError::InsufficientBalance)) => {}
        other => panic!("unexpected outcome: {:?}", other),
    }
}

#[test]
fn commands_on_a_closed_account_are_rejected() {
    let mut tsuzuri = engine();
    match tsuzuri.execute::<BankAccount>("fresh", deposit(5)) {
        Err(Error::DomainValidation(e)) => {
            assert_eq!(e, BankAccountError::AccountNotOpen);
            assert_eq!(e.message(), "account not open");
        }
        other => panic!("unexpected outcome: {:?}", other),
    }
    match tsuzuri.execute::<BankAccount>("fresh", withdraw(5)) {
        Err(Error::DomainValidation(BankAccountError::AccountNotOpen)) => {}
        other => panic!("unexpected outcome: {:?}", other),
    }
    assert!(tsuzuri.es_read().read_to_latest("fresh", 0).unwrap().is_empty());
}

#[test]
fn an_amount_of_zero_is_rejected() {
    let mut tsuzuri = engine();
    tsuzuri.execute::<BankAccount>("a", open()).unwrap();
    match tsuzuri.execute::<BankAccount>("a", deposit(0)) {
        Err(Error::DomainValidation(e)) => {
            assert_eq!(e, BankAccountError::AmountIsZero);
            assert_eq!(e.message(), "cannot withdraw/deposit an amount of 0");
        }
        other => panic!("unexpected outcome: {:?}", other),
    }
    match tsuzuri.execute::<BankAccount>("a", withdraw(0)) {
        Err(Error::DomainValidation(BankAccountError::AmountIsZero)) => {}
        other => panic!("unexpected outcome: {:?}", other),
    }
    assert_eq!(tsuzuri.es_read().read_to_latest("a", 0).unwrap().len(), 1);
}

#[test]
fn two_writers_that_read_the_same_history_collide_on_the_first_append() {
    let mut store = MemoryStore::new();
    let id = "raced";

    let first_history = {
        let reader = tsuzuri::store::sync::reader::ReadStore::new(
            &store,
            tsuzuri::store::sync::reader::DefaultQuery {},
        );
        reader.read_to_latest(id, 0).unwrap()
    };
    let second_history = first_history.clone();
    let (first_state, first_cursor) = replay::<BankAccount>(id, &first_history).unwrap();
    let (second_state, second_cursor) = replay::<BankAccount>(id, &second_history).unwrap();
    assert_eq!(first_cursor, 0);
    assert_eq!(second_cursor, 0);

    let first_events = encode_all::<BankAccount>(&first_state.handle(open()).unwrap()).unwrap();
    let second_events = encode_all::<BankAccount>(&second_state.handle(open()).unwrap()).unwrap();

    let first = {
        let mut writer = WriteStore::new(&mut store);
        append_events(&mut writer, id, first_cursor, first_events, None)
    };
    let second = {
        let mut writer = WriteStore::new(&mut store);
        append_events(&mut writer, id, second_cursor, second_events, None)
    };
    assert!(first.is_ok());
    let error = second.unwrap_err();
    assert!(error.conflict());
    assert!(!error.not_found());

    let reader = tsuzuri::store::sync::reader::ReadStore::new(
        &store,
        tsuzuri::store::sync::reader::DefaultQuery {},
    );
    assert_eq!(reader.read_to_latest(id, 0).unwrap().len(), 1);
}

#[test]
fn two_deposits_racing_for_sequence_one_let_one_through() {
    let mut store = MemoryStore::new();
    let deposit = BankAccountEvent::DepositedFunds(FundsDeposited { amount: 7 }).to_bytes();
    let mut outcomes = Vec::new();
    for _ in 0..2 {
        let mut writer = WriteStore::new(&mut store);
        outcomes.push(append_events(&mut writer, "fresh", 0, vec![deposit.clone()], None));
    }
    assert_eq!(outcomes.iter().filter(|o| o.is_ok()).count(), 1);
    assert_eq!(
        outcomes.iter().filter(|o| matches!(o, Err(e) if e.conflict())).count(),
        1
    );
}

#[test]
fn a_lost_race_keeps_what_was_appended_before_it() {
    let mut store = MemoryStore::new();
    let taken = Payload::stamped("a", 2, vec![0], None, 0);
    assert!(tsuzuri::store::sync::writer::Writer::write(&mut store, "a", taken).is_ok());
    let events = vec![vec![1u8], vec![2u8], vec![3u8]];
    let r = {
        let mut writer = WriteStore::new(&mut store);
        append_events(&mut writer, "a", 0, events, Some(vec![9]))
    };
    assert!(r.unwrap_err().conflict());
    let kept = tsuzuri::store::sync::reader::Reader::read_to_latest(&store, "a", 0).unwrap();
    assert_eq!(kept.len(), 2);
    assert_eq!(kept[0].sequence, 1);
    assert_eq!(kept[0].bytes, vec![1u8]);
    assert_eq!(kept[0].metadata, Some(vec![9]));
    assert_eq!(kept[1].sequence, 2);
    assert_eq!(kept[1].bytes, vec![0u8]);
}

#[test]
fn replaying_a_history_twice_gives_the_same_state() {
    let tsuzuri = account_with_250("acct-1");
    let history = tsuzuri.es_read().read_to_latest("acct-1", 0).unwrap();
    let (first, first_cursor) = replay::<BankAccount>("acct-1", &history).unwrap();
    let (second, second_cursor) = replay::<BankAccount>("acct-1", &history).unwrap();
    assert_eq!(first.0.opened, second.0.opened);
    assert_eq!(first.0.balance, second.0.balance);
    assert_eq!(first_cursor, second_cursor);
}

#[test]
fn replaying_nothing_gives_a_fresh_aggregate_at_cursor_zero() {
    let (state, cursor) = replay::<BankAccount>("nobody", &Vec::new()).unwrap();
    assert_eq!(cursor, 0);
    assert!(!state.0.opened);
    assert_eq!(state.0.balance, 0);
}

#[test]
fn the_cursor_follows_the_sequence_of_the_last_envelope() {
    let opened = BankAccountEvent::default().to_bytes();
    let history = vec![
        Payload::stamped("a", 3, opened.clone(), None, 0),
        Payload::stamped("a", 8, BankAccountEvent::from(FundsDeposited { amount: 5 }).to_bytes(), None, 0),
    ];
    let (state, cursor) = replay::<BankAccount>("a", &history).unwrap();
    assert_eq!(cursor, 8);
    assert_eq!(state.0.balance, 5);
}

#[test]
fn bytes_that_are_no_event_stop_the_replay_at_their_sequence() {
    let opened = BankAccountEvent::default().to_bytes();
    let history = vec![
        Payload::stamped("a", 1, opened, None, 0),
        Payload::stamped("a", 2, b"not an event".to_vec(), None, 0),
        Payload::stamped("a", 3, b"neither".to_vec(), None, 0),
    ];
    assert_eq!(replay::<BankAccount>("a", &history).unwrap_err(), 2);
}

#[test]
fn unreadable_history_fails_the_command_and_appends_nothing() {
    let mut store = MemoryStore::new();
    store.append("a", Payload::stamped("a", 1, b"{}".to_vec(), None, 0)).unwrap();
    let mut tsuzuri = Tsuzuri::new(EventStore::new(store), tsuzuri::NoQueryStore);
    match tsuzuri.execute::<BankAccount>("a", open()) {
        Err(Error::Deserialize { sequence }) => assert_eq!(sequence, 1),
        other => panic!("unexpected outcome: {:?}", other),
    }
    assert_eq!(tsuzuri.es_read().read_to_latest("a", 0).unwrap().len(), 1);
}

#[test]
fn a_stream_that_ends_at_the_last_sequence_takes_no_more_events() {
    let mut store = MemoryStore::new();
    let opened = BankAccountEvent::default().to_bytes();
    store.append("a", Payload::stamped("a", usize::MAX, opened, None, 0)).unwrap();
    let mut tsuzuri = Tsuzuri::new(EventStore::new(store), tsuzuri::NoQueryStore);
    match tsuzuri.execute::<BankAccount>("a", deposit(1)) {
        Err(Error::SequenceExhausted) => {}
        other => panic!("unexpected outcome: {:?}", other),
    }
    assert_eq!(tsuzuri.es_read().read_to_latest("a", 0).unwrap().len(), 1);
}

#[test]
fn successful_commands_append_without_gaps() {
    let mut tsuzuri = engine();
    tsuzuri.execute::<BankAccount>("a", open()).unwrap();
    for n in 1..=20u32 {
        tsuzuri.execute::<BankAccount>("a", deposit(n)).unwrap();
    }
    let history = tsuzuri.es_read().read_to_latest("a", 0).unwrap();
    let sequences: Vec<usize> = history.iter().map(|p| p.sequence).collect();
    assert_eq!(sequences, (1..=21).collect::<Vec<usize>>());
    let (state, cursor) = replay::<BankAccount>("a", &history).unwrap();
    assert_eq!(cursor, 21);
    assert_eq!(state.0.balance, 210);
}

#[test]
fn aggregates_do_not_share_a_stream() {
    let mut tsuzuri = engine();
    tsuzuri.execute::<BankAccount>("a", open()).unwrap();
    tsuzuri.execute::<BankAccount>("b", open()).unwrap();
    tsuzuri.execute::<BankAccount>("a", deposit(3)).unwrap();
    let a = tsuzuri.es_read().read_to_latest("a", 0).unwrap();
    let b = tsuzuri.es_read().read_to_latest("b", 0).unwrap();
    assert_eq!(a.iter().map(|p| p.sequence).collect::<Vec<_>>(), vec![1, 2]);
    assert_eq!(b.iter().map(|p| p.sequence).collect::<Vec<_>>(), vec![1]);
}

#[test]
fn the_metadata_travels_as_one_json_object_on_every_envelope() {
    let mut tsuzuri = engine();
    let mut metadata = HashMap::new();
    metadata.insert("causation".to_string(), "signup".to_string());
    tsuzuri.execute_with_metadata::<BankAccount>("a", open(), metadata.clone()).unwrap();
    let history = tsuzuri.es_read().read_to_latest("a", 0).unwrap();
    let stored = history[0].metadata.clone().unwrap();
    assert_eq!(stored, b"{\"causation\":\"signup\"}".to_vec());
    let read_back: HashMap<String, String> = serde_json::from_slice(&stored).unwrap();
    assert_eq!(read_back, metadata);
}

#[test]
fn without_metadata_the_envelopes_carry_the_empty_object() {
    let mut tsuzuri = engine();
    tsuzuri.execute::<BankAccount>("a", open()).unwrap();
    let history = tsuzuri.es_read().read_to_latest("a", 0).unwrap();
    assert_eq!(history[0].metadata, Some(b"{}".to_vec()));
}

#[test]
fn carrying_out_with_given_metadata_stores_those_bytes() {
    let mut tsuzuri = engine();
    tsuzuri.carry_out::<BankAccount>("a", open(), Some(vec![1, 2, 3])).unwrap();
    tsuzuri.carry_out::<BankAccount>("a", deposit(4), None).unwrap();
    let history = tsuzuri.es_read().read_to_latest("a", 0).unwrap();
    assert_eq!(history[0].metadata, Some(vec![1, 2, 3]));
    assert_eq!(history[0].bytes, b"{\"OpenedAccount\":{}}".to_vec());
    assert_eq!(history[1].metadata, None);
    assert_eq!(history[1].bytes, b"{\"DepositedFunds\":{\"amount\":4}}".to_vec());
}

#[test]
fn the_write_handle_of_an_engine_appends_to_its_event_store() {
    let mut tsuzuri = engine();
    tsuzuri
        .es_write()
        .write("a", Payload::stamped("a", 1, BankAccountEvent::default().to_bytes(), None, 0))
        .unwrap();
    tsuzuri.execute::<BankAccount>("a", deposit(10)).unwrap();
    let history = tsuzuri.es_read().read_to_latest("a", 0).unwrap();
    assert_eq!(history.len(), 2);
    assert_eq!(history[1].sequence, 2);
}

#[test]
fn the_query_store_is_apart_from_the_event_store() {
    let mut tsuzuri = TsuzuriBuilder::new(EventStore::new(MemoryStore::new()))
        .query_store(QueryStore::new(MemoryStore::new()))
        .build();
    tsuzuri.qs_write().write("view", Payload::stamped("view", 1, vec![7], None, 0)).unwrap();
    assert_eq!(tsuzuri.qs_read().read("view", 1).unwrap().bytes, vec![7]);
    assert!(tsuzuri.es_read().read("view", 1).is_err());
}

#[test]
fn a_state_starts_as_its_aggregate_does() {
    let state = State::<BankAccount>::init("x".to_string());
    assert!(!state.0.opened);
    assert_eq!(state.0.balance, 0);
    let decoded = State::<BankAccount>::decode(b"{\"WithdrewFunds\":{\"amount\":12}}");
    assert!(matches!(
        decoded,
        Some(BankAccountEvent::WithdrewFunds(e)) if e.amount == 12
    ));
}

#[test]
fn two_executions_that_read_the_same_history_let_one_through() {
    let mut store = MemoryStore::new();
    store.append("d", Payload::stamped("d", 1, BankAccountEvent::default().to_bytes(), None, 0)).unwrap();
    let history = tsuzuri::store::sync::reader::Reader::read_to_latest(&store, "d", 0).unwrap();
    let first = prepare::<BankAccount>("d", deposit(10), None, &history).unwrap();
    let second = prepare::<BankAccount>("d", deposit(20), None, &history).unwrap();
    let first = append_pending(&mut WriteStore::new(&mut store), first);
    let second = append_pending(&mut WriteStore::new(&mut store), second);
    assert!(first.is_ok());
    assert!(second.unwrap_err().conflict());
    let kept = tsuzuri::store::sync::reader::Reader::read_to_latest(&store, "d", 0).unwrap();
    assert_eq!(kept.len(), 2);
    assert_eq!(kept[1].sequence, 2);
    assert_eq!(kept[1].bytes, b"{\"DepositedFunds\":{\"amount\":10}}".to_vec());
}

#[test]
fn a_prepared_execution_hands_out_its_envelopes_in_order() {
    let history = vec![Payload::stamped("a", 7, BankAccountEvent::default().to_bytes(), None, 0)];
    let mut pending = prepare::<BankAccount>("a", deposit(5), Some(vec![1]), &history).unwrap();
    assert_eq!(pending.aggregate(), "a");
    assert_eq!(pending.remaining(), 1);
    let envelope = pending.next().unwrap();
    assert_eq!(envelope.id, "a");
    assert_eq!(envelope.sequence, 8);
    assert_eq!(envelope.bytes, b"{\"DepositedFunds\":{\"amount\":5}}".to_vec());
    assert_eq!(envelope.metadata, Some(vec![1]));
    assert_eq!(pending.remaining(), 0);
    assert!(pending.next().is_none());
    assert!(pending.next().is_none());
}

#[test]
fn preparing_fails_as_the_execution_would() {
    let opened = vec![Payload::stamped("a", 1, BankAccountEvent::default().to_bytes(), None, 0)];
    assert!(matches!(
        prepare::<BankAccount>("a", open(), None, &opened),
        Err(Error::DomainValidation(BankAccountError::AccountAlreadyOpened))
    ));
    assert!(matches!(
        prepare::<BankAccount>("a", deposit(1), None, &Vec::new()),
        Err(Error::DomainValidation(BankAccountError::AccountNotOpen))
    ));
    let garbled = vec![Payload::stamped("a", 4, vec![0], None, 0)];
    assert!(matches!(
        prepare::<BankAccount>("a", open(), None, &garbled),
        Err(Error::Deserialize { sequence: 4 })
    ));
    let full = vec![Payload::stamped("a", usize::MAX, BankAccountEvent::default().to_bytes(), None, 0)];
    assert!(matches!(
        prepare::<BankAccount>("a", deposit(1), None, &full),
        Err(Error::SequenceExhausted)
    ));
}

#[test]
fn pending_appends_need_a_sequence_for_every_event() {
    assert!(Pending::new("a", usize::MAX, vec![vec![1]], None).is_none());
    assert!(Pending::new("a", usize::MAX - 1, vec![vec![1], vec![2]], None).is_none());
    let mut last = Pending::new("a", usize::MAX - 1, vec![vec![1]], None).unwrap();
    assert_eq!(last.next().unwrap().sequence, usize::MAX);
    let mut none = Pending::new("a", usize::MAX, Vec::new(), None).unwrap();
    assert_eq!(none.remaining(), 0);
    assert!(none.next().is_none());
}

#[test]
fn appends_go_on_where_the_handing_out_stopped() {
    let mut store = MemoryStore::new();
    let mut pending = Pending::new("a", 0, vec![vec![1], vec![2], vec![3]], None).unwrap();
    let first = pending.next().unwrap();
    assert_eq!(first.sequence, 1);
    append_pending(&mut WriteStore::new(&mut store), pending).unwrap();
    let kept = tsuzuri::store::sync::reader::Reader::read_to_latest(&store, "a", 0).unwrap();
    assert_eq!(kept.iter().map(|p| p.sequence).collect::<Vec<_>>(), vec![2, 3]);
    assert_eq!(kept[0].bytes, vec![2]);
}

#[test]
fn executing_is_executing_with_the_empty_map() {
    let mut plain = engine();
    let mut with_map = engine();
    plain.execute::<BankAccount>("a", open()).unwrap();
    with_map.execute_with_metadata::<BankAccount>("a", open(), HashMap::new()).unwrap();
    let plain = plain.es_read().read_to_latest("a", 0).unwrap();
    let with_map = with_map.es_read().read_to_latest("a", 0).unwrap();
    assert_eq!(plain.len(), 1);
    assert_eq!(with_map.len(), 1);
    assert_eq!(plain[0].sequence, with_map[0].sequence);
    assert_eq!(plain[0].bytes, with_map[0].bytes);
    assert_eq!(plain[0].metadata, Some(vec![123u8, 125u8]));
    assert_eq!(with_map[0].metadata, Some(vec![123u8, 125u8]));
    assert!(matches!(
        plain_rejection(),
        (
            Err(Error::DomainValidation(BankAccountError::AccountNotOpen)),
            Err(Error::DomainValidation(BankAccountError::AccountNotOpen))
        )
    ));
}

fn plain_rejection() -> (
    Result<(), Error<BankAccountError>>,
    Result<(), Error<BankAccountError>>,
) {
    let mut plain = engine();
    let mut with_map = engine();
    (
        plain.execute::<BankAccount>("a", deposit(1)),
        with_map.execute_with_metadata::<BankAccount>("a", deposit(1), HashMap::new()),
    )
}
