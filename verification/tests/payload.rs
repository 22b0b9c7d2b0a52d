use std::cmp::Ordering;

use tsuzuri::store::payload::Payload;

fn at(id: &str, sequence: usize, created_at: i128) -> Payload {
    Payload::stamped(id, sequence, vec![1], None, created_at)
}

#[test]
fn a_stamped_payload_holds_what_it_was_given() {
    let payload = Payload::stamped("acct-1", 7, vec![1, 2], Some(vec![3]), 99);
    assert_eq!(payload.id, "acct-1");
    assert_eq!(payload.sequence, 7);
    assert_eq!(payload.bytes, vec![1, 2]);
    assert_eq!(payload.metadata, Some(vec![3]));
    assert_eq!(payload.created_at, 99);
}

#[test]
fn a_new_payload_is_stamped_with_the_clock() {
    let before = std::time::SystemTime::now()
        .duration_since(std::time::UNIX_EPOCH)
        .unwrap()
        .as_nanos() as i128;
    let payload = Payload::new("acct-1", 3, vec![5], None).unwrap();
    let after = std::time::SystemTime::now()
        .duration_since(std::time::UNIX_EPOCH)
        .unwrap()
        .as_nanos() as i128;
    assert_eq!(payload.id, "acct-1");
    assert_eq!(payload.sequence, 3);
    assert_eq!(payload.bytes, vec![5]);
    assert_eq!(payload.metadata, None);
    assert!(before <= payload.created_at && payload.created_at <= after);
}

#[test]
fn payloads_are_ordered_by_sequence_first() {
    assert_eq!(at("z", 1, 900).cmp(&at("a", 2, 100)), Ordering::Less);
    assert_eq!(at("a", 2, 100).cmp(&at("z", 1, 900)), Ordering::Greater);
    assert!(at("z", 1, 900) < at("a", 2, 100));
}

#[test]
fn payloads_of_one_sequence_are_ordered_by_creation_time() {
    assert_eq!(at("z", 1, 100).cmp(&at("a", 1, 200)), Ordering::Less);
    assert_eq!(at("a", 1, 200).cmp(&at("z", 1, 100)), Ordering::Greater);
    assert_eq!(at("a", 1, -1).cmp(&at("a", 1, 0)), Ordering::Less);
}

#[test]
fn payloads_of_one_sequence_and_time_are_ordered_by_identifier() {
    assert_eq!(at("a", 1, 100).cmp(&at("b", 1, 100)), Ordering::Less);
    assert_eq!(at("b", 1, 100).cmp(&at("a", 1, 100)), Ordering::Greater);
    assert_eq!(at("a", 1, 100).cmp(&at("ab", 1, 100)), Ordering::Less);
    assert_eq!(at("", 1, 100).cmp(&at("a", 1, 100)), Ordering::Less);
    assert_eq!(at("Z", 1, 100).cmp(&at("a", 1, 100)), Ordering::Less);
    assert_eq!(at("z", 1, 100).cmp(&at("é", 1, 100)), Ordering::Less);
    assert_eq!(at("a", 1, 100).cmp(&at("a", 1, 100)), Ordering::Equal);
}

#[test]
fn equality_looks_at_sequence_identifier_and_creation_time() {
    let one = Payload::stamped("a", 1, vec![1], None, 100);
    let same_place = Payload::stamped("a", 1, vec![2, 3], Some(vec![4]), 100);
    assert!(one == same_place);
    assert_eq!(one.partial_cmp(&same_place), Some(Ordering::Equal));
    assert!(one != at("a", 2, 100));
    assert!(one != at("b", 1, 100));
    assert!(one != at("a", 1, 101));
}

#[test]
fn partial_order_is_the_order() {
    let pairs = [
        (at("a", 1, 5), at("a", 2, 5)),
        (at("a", 1, 5), at("a", 1, 6)),
        (at("a", 1, 5), at("b", 1, 5)),
        (at("a", 1, 5), at("a", 1, 5)),
    ];
    for (x, y) in &pairs {
        assert_eq!(x.partial_cmp(y), Some(x.cmp(y)));
        assert_eq!(y.partial_cmp(x), Some(y.cmp(x)));
    }
}

#[test]
fn a_clone_is_the_same_envelope() {
    let payload = Payload::stamped("acct-1", 7, vec![1, 2], Some(vec![3]), 99);
    let copy = payload.clone();
    assert_eq!(copy.id, payload.id);
    assert_eq!(copy.sequence, payload.sequence);
    assert_eq!(copy.bytes, payload.bytes);
    assert_eq!(copy.metadata, payload.metadata);
    assert_eq!(copy.created_at, payload.created_at);
}
