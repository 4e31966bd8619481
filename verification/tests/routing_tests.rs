use px_mpc_module::routing::{KEYGEN_PARTIES, KEYGEN_THRESHOLD, SIGNING_PARTIES};
use px_mpc_module::{accepts_message, partial_signatures_awaited};

#[test]
fn broadcast_from_other_party_is_taken() {
    assert!(accepts_message(1, 2, None));
}

#[test]
fn own_message_is_dropped() {
    assert!(!accepts_message(2, 2, None));
    assert!(!accepts_message(2, 2, Some(2)));
}

#[test]
fn direct_message_only_for_its_receiver() {
    assert!(accepts_message(3, 1, Some(3)));
    assert!(!accepts_message(2, 1, Some(3)));
}

#[test]
fn broadcast_reaches_every_other_party() {
    for sender in 1..=3u16 {
        for index in 1..=3u16 {
            assert_eq!(accepts_message(index, sender, None), index != sender);
        }
    }
}

#[test]
fn signing_waits_for_one_partial_signature() {
    assert_eq!(partial_signatures_awaited(SIGNING_PARTIES), 1);
    assert_eq!(partial_signatures_awaited(1), 0);
    assert_eq!(partial_signatures_awaited(5), 4);
}

#[test]
fn keygen_parameters() {
    assert_eq!(KEYGEN_THRESHOLD, 1);
    assert_eq!(KEYGEN_PARTIES, 3);
}
