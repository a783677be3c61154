//! Tests of the relay-loop state machine: mode selection, read
//! classification, the command-mode production cycle and the stop conditions.

use multiplexer_rs::model::WriteOutcome;
use multiplexer_rs::registry::Clients;
use multiplexer_rs::relay::classify_read;
use multiplexer_rs::relay::mode_of;
use multiplexer_rs::relay::next_action;
use multiplexer_rs::relay::relay_start;
use multiplexer_rs::relay::relay_step;
use multiplexer_rs::relay::split_command;
use multiplexer_rs::relay::Mode;
use multiplexer_rs::relay::RelayAction;
use multiplexer_rs::relay::RelayEvent;
use multiplexer_rs::relay::RelayState;

#[test]
fn stdin_mode_starts_producing_immediately() {
    let s = relay_start(Mode::Stdin);
    assert_eq!(s, RelayState::Streaming);
    assert_eq!(next_action(s), RelayAction::ReadChunk);
}

#[test]
fn command_mode_waits_for_a_client_first() {
    let s = relay_start(Mode::Command);
    assert_eq!(s, RelayState::AwaitingSignal);
    assert_eq!(next_action(s), RelayAction::WaitForSignal);
}

#[test]
fn mode_follows_the_configured_command() {
    assert_eq!(mode_of(&None), Mode::Stdin);
    assert_eq!(mode_of(&Some(vec!["cat".to_string()])), Mode::Command);
}

#[test]
fn zero_byte_read_means_end_of_stream() {
    assert_eq!(classify_read(0), RelayEvent::EndOfStream);
    assert_eq!(classify_read(5), RelayEvent::ChunkRead { len: 5 });
}

#[test]
fn stdin_relay_keeps_draining_with_no_clients() {
    let mode = Mode::Stdin;
    let s = relay_start(mode);
    let s = relay_step(mode, s, RelayEvent::ChunkRead { len: 4 });
    assert_eq!(s, RelayState::Broadcasting { len: 4 });
    assert_eq!(next_action(s), RelayAction::BroadcastChunk { len: 4 });
    // Every client went away: stdin mode goes on reading anyway.
    let s = relay_step(mode, s, RelayEvent::Broadcasted { empty_after: true });
    assert_eq!(s, RelayState::Streaming);
    // End of stream ends the relay for good.
    let s = relay_step(mode, s, RelayEvent::EndOfStream);
    assert_eq!(s, RelayState::Finished);
    assert_eq!(next_action(s), RelayAction::Stop);
}

#[test]
fn read_error_stops_the_relay_in_both_modes() {
    for mode in [Mode::Stdin, Mode::Command] {
        let s = relay_step(mode, RelayState::Streaming, RelayEvent::ReadFailed);
        assert_eq!(s, RelayState::Finished);
    }
}

#[test]
fn command_mode_cycle_ends_when_clients_vanish() {
    let mode = Mode::Command;
    let s = RelayState::Broadcasting { len: 2 };
    let s = relay_step(mode, s, RelayEvent::Broadcasted { empty_after: true });
    assert_eq!(s, RelayState::AwaitingChildExit);
    assert_eq!(next_action(s), RelayAction::WaitForChildExit);
}

#[test]
fn command_without_arguments_splits_cleanly() {
    let cmd = vec!["cat".to_string()];
    let (program, args) = split_command(&cmd);
    assert_eq!(program, "cat");
    assert!(args.is_empty());
}

#[test]
fn event_outside_the_protocol_changes_nothing() {
    // The runtime only ever reports the event its action produced; any other
    // combination leaves the state as it is.
    let s = RelayState::Streaming;
    assert_eq!(relay_step(Mode::Command, s, RelayEvent::Signal), s);
    assert_eq!(relay_step(Mode::Command, s, RelayEvent::ChildExited), s);
}

#[test]
fn command_mode_spawns_runs_and_waits_again() {
    // The configured command `C` with arguments `[a, b]`, two connected
    // clients, child output "A\n" then "B\n" then end of stream.
    let cmd = vec!["C".to_string(), "a".to_string(), "b".to_string()];
    let (program, args) = split_command(&cmd);
    assert_eq!(program, "C");
    assert_eq!(args, vec!["a".to_string(), "b".to_string()]);

    let mode = Mode::Command;
    let mut registry = Clients::new(false, false);
    registry.add_client(0);
    registry.add_client(1);
    let mut captured: Vec<Vec<u8>> = vec![Vec::new(), Vec::new()];

    let mut state = relay_start(mode);
    state = relay_step(mode, state, RelayEvent::Signal);
    assert_eq!(next_action(state), RelayAction::SpawnChild);
    state = relay_step(mode, state, RelayEvent::Spawned);
    assert_eq!(next_action(state), RelayAction::ReadChunk);

    for chunk in [b"A\n", b"B\n"] {
        state = relay_step(mode, state, classify_read(chunk.len()));
        assert_eq!(next_action(state), RelayAction::BroadcastChunk { len: chunk.len() });
        let ids = registry.ids();
        let mut outcomes = Vec::new();
        for id in &ids {
            captured[*id as usize].extend_from_slice(chunk);
            outcomes.push(WriteOutcome::Written);
        }
        let empty = registry.send_to_all(chunk, &outcomes);
        state = relay_step(mode, state, RelayEvent::Broadcasted { empty_after: empty });
        assert_eq!(state, RelayState::Streaming);
    }

    // Both clients received exactly "A\nB\n".
    assert_eq!(captured[0], b"A\nB\n".to_vec());
    assert_eq!(captured[1], b"A\nB\n".to_vec());

    // Child output ends: wait for the exit, then for a fresh signal; no new
    // process is spawned before a new client connects.
    state = relay_step(mode, state, RelayEvent::EndOfStream);
    assert_eq!(state, RelayState::AwaitingChildExit);
    assert_eq!(next_action(state), RelayAction::WaitForChildExit);
    state = relay_step(mode, state, RelayEvent::ChildExited);
    assert_eq!(state, RelayState::AwaitingSignal);
    assert_eq!(next_action(state), RelayAction::WaitForSignal);
}
