//! Tests of the client registry: the readiness-signal rule, pruning on
//! failed writes, and byte-for-byte delivery to attached clients.

use multiplexer_rs::model::WriteOutcome;
use multiplexer_rs::registry::Clients;

#[test]
fn first_client_fires_signal_later_clients_do_not() {
    let mut c = Clients::new(false, false);
    assert!(c.is_empty());
    // 0 -> 1 clients: the signal fires.
    assert!(c.accept_client(1, true));
    // 1 -> 2 clients: it does not.
    assert!(!c.accept_client(2, true));
    assert_eq!(c.client_count(), 2);
}

#[test]
fn no_signal_channel_means_no_signal() {
    let mut c = Clients::new(false, false);
    assert!(!c.accept_client(1, false));
    assert!(!c.is_empty());
}

#[test]
fn signal_fires_again_after_registry_empties() {
    let mut c = Clients::new(false, false);
    assert!(c.accept_client(1, true));
    let empty = c.send_to_all(b"x", &vec![WriteOutcome::Failed]);
    assert!(empty);
    // A fresh 0 -> 1 transition fires the signal once more.
    assert!(c.accept_client(2, true));
}

#[test]
fn add_client_reports_prior_emptiness() {
    let mut c = Clients::new(true, true);
    assert!(c.add_client(7));
    assert!(!c.add_client(8));
    assert!(c.contains_id(7));
    assert!(c.contains_id(8));
    assert!(!c.contains_id(9));
}

#[test]
fn failed_write_prunes_exactly_that_client() {
    let mut c = Clients::new(false, false);
    c.add_client(1);
    c.add_client(2);
    c.add_client(3);
    let outcomes = vec![WriteOutcome::Written, WriteOutcome::Failed, WriteOutcome::Written];
    let empty = c.send_to_all(b"abc", &outcomes);
    assert!(!empty);
    assert_eq!(c.client_count(), 2);
    assert!(c.contains_id(1));
    assert!(!c.contains_id(2));
    assert!(c.contains_id(3));
    assert_eq!(c.ids(), vec![1, 3]);
    // The pruned client is gone for every later broadcast: only two outcomes
    // are reported now, and failing both empties the registry.
    let empty = c.send_to_all(b"d", &vec![WriteOutcome::Failed, WriteOutcome::Failed]);
    assert!(empty);
    assert_eq!(c.client_count(), 0);
}

#[test]
fn would_block_is_tolerated() {
    let mut c = Clients::new(false, false);
    c.add_client(1);
    let empty = c.send_to_all(b"chunk", &vec![WriteOutcome::WouldBlock]);
    assert!(!empty);
    assert!(c.contains_id(1));
}

#[test]
fn empty_chunk_broadcast_changes_nothing() {
    let mut c = Clients::new(false, false);
    c.add_client(1);
    c.add_client(2);
    let empty = c.send_to_all(b"", &vec![WriteOutcome::Written, WriteOutcome::Written]);
    assert!(!empty);
    assert_eq!(c.ids(), vec![1, 2]);
}

#[test]
fn send_to_one_keeps_all_but_hard_failures() {
    assert!(Clients::send_to_one(WriteOutcome::Written));
    assert!(Clients::send_to_one(WriteOutcome::WouldBlock));
    assert!(!Clients::send_to_one(WriteOutcome::Failed));
}

#[test]
fn attached_clients_receive_every_chunk_in_order() {
    // Two clients attached throughout; the bytes each captures, concatenated,
    // equal the byte sequence the source produced.
    let chunks: Vec<&[u8]> = vec![b"first ", b"second ", b"third"];
    let mut c = Clients::new(false, false);
    c.add_client(0);
    c.add_client(1);
    let mut captured: Vec<Vec<u8>> = vec![Vec::new(), Vec::new()];
    for chunk in &chunks {
        // The harness plays the I/O layer: write the chunk to every
        // registered client, report every write as completed.
        let ids = c.ids();
        let mut outcomes = Vec::new();
        for id in &ids {
            captured[*id as usize].extend_from_slice(chunk);
            outcomes.push(WriteOutcome::Written);
        }
        let empty = c.send_to_all(chunk, &outcomes);
        assert!(!empty);
    }
    let whole: Vec<u8> = b"first second third".to_vec();
    assert_eq!(captured[0], whole);
    assert_eq!(captured[1], whole);
}

#[test]
fn fanout_strategy_does_not_change_the_registry() {
    // The same outcomes lead to the same registry whatever the strategy flag.
    let mut sequential = Clients::new(false, false);
    let mut parallel = Clients::new(false, true);
    for c in [&mut sequential, &mut parallel] {
        c.add_client(1);
        c.add_client(2);
        let outcomes = vec![WriteOutcome::Failed, WriteOutcome::Written];
        let empty = c.send_to_all(b"data", &outcomes);
        assert!(!empty);
    }
    assert_eq!(sequential.ids(), parallel.ids());
    assert_eq!(sequential.ids(), vec![2]);
}

#[test]
fn late_client_receives_nothing_broadcast_before_it() {
    let mut c = Clients::new(false, false);
    c.add_client(0);
    let mut captured: Vec<Vec<u8>> = vec![Vec::new(), Vec::new()];

    // Chunk broadcast while only client 0 is attached.
    let ids = c.ids();
    assert_eq!(ids, vec![0]);
    let mut outcomes = Vec::new();
    for id in &ids {
        captured[*id as usize].extend_from_slice(b"early");
        outcomes.push(WriteOutcome::Written);
    }
    c.send_to_all(b"early", &outcomes);

    // Client 1 connects only now.
    c.add_client(1);

    // The next chunk goes to both.
    let ids = c.ids();
    assert_eq!(ids, vec![0, 1]);
    let mut outcomes = Vec::new();
    for id in &ids {
        captured[*id as usize].extend_from_slice(b"late");
        outcomes.push(WriteOutcome::Written);
    }
    c.send_to_all(b"late", &outcomes);

    assert_eq!(captured[0], b"earlylate".to_vec());
    assert_eq!(captured[1], b"late".to_vec());
}
