//! The Stream Relay Loop, as a verified state machine.
//!
//! The loop itself blocks in reads, in waiting for the readiness signal and
//! in waiting for the child to exit, so the unverified runtime drives it: it
//! performs the action that the current state calls for, turns what happened
//! into an event, and asks `relay_step` for the next state.  All decisions —
//! when to broadcast, when a production cycle ends, when a child may be
//! spawned, when the relay stops — are taken here.
//!
//! The chosen policy where observed designs differ: in stdin mode the relay
//! keeps draining its source even while no client is connected, so clients
//! may disconnect and reconnect; in command mode, when the child's output
//! ends or every client is gone, the relay waits for the child to exit and
//! then for a fresh readiness signal, and only that signal leads to a new
//! spawn.  A non-transient read error stops the relay in either mode.

use vstd::prelude::*;

verus! {

/// Where the relayed bytes come from.
#[derive(Clone, Copy, PartialEq, Eq, Structural, Debug)]
pub enum Mode {
    /// Relay the process's standard input; production starts unconditionally.
    Stdin,
    /// Spawn the configured command on demand and relay its standard output.
    Command,
}

/// The state of the relay loop; each state calls for one action from the
/// runtime.
#[derive(Clone, Copy, PartialEq, Eq, Structural, Debug)]
pub enum RelayState {
    /// Command mode, between production cycles: block on the readiness
    /// signal.
    AwaitingSignal,
    /// A signal arrived: spawn a fresh child process.
    Spawning,
    /// A source is active: read the next chunk from it.
    Streaming,
    /// A chunk of `len` bytes was read: broadcast it to every client.
    Broadcasting { len: usize },
    /// The production cycle is over: wait for the child process to exit.
    AwaitingChildExit,
    /// The relay is done; the process may shut down.
    Finished,
}

/// What the runtime reports back after performing an action.
#[derive(Clone, Copy, PartialEq, Eq, Structural, Debug)]
pub enum RelayEvent {
    /// The readiness signal arrived: a client connected to an empty registry.
    Signal,
    /// A child process was spawned and its output stream obtained.
    Spawned,
    /// A read returned `len` bytes.
    ChunkRead { len: usize },
    /// A read returned zero bytes: the source is exhausted.
    EndOfStream,
    /// A read failed with a non-transient error.
    ReadFailed,
    /// The chunk was broadcast; `empty_after` reports whether any client
    /// remains after pruning.
    Broadcasted { empty_after: bool },
    /// The child process exited.
    ChildExited,
}

/// The action the runtime must perform in a state.
#[derive(Clone, Copy, PartialEq, Eq, Structural, Debug)]
pub enum RelayAction {
    /// Block until the readiness signal fires.
    WaitForSignal,
    /// Spawn the configured command and take its output stream.
    SpawnChild,
    /// Read the next chunk from the active source.
    ReadChunk,
    /// Write the chunk of `len` bytes to every registered client.
    BroadcastChunk { len: usize },
    /// Wait for the child process to exit.
    WaitForChildExit,
    /// Stop relaying.
    Stop,
}

/// Where the relay starts: stdin mode begins producing immediately, command
/// mode first waits for a client.
pub open spec fn init_state(mode: Mode) -> RelayState {
    match mode {
        Mode::Stdin => RelayState::Streaming,
        Mode::Command => RelayState::AwaitingSignal,
    }
}

/// The transition relation of the relay loop.
///
/// A zero-length read means end of stream, never a chunk to broadcast, so a
/// `ChunkRead` of zero bytes is treated exactly as `EndOfStream`.  An event
/// that the current state's action cannot produce changes nothing.
pub open spec fn next_state(mode: Mode, s: RelayState, e: RelayEvent) -> RelayState {
    match (s, e) {
        (RelayState::AwaitingSignal, RelayEvent::Signal) => RelayState::Spawning,
        (RelayState::Spawning, RelayEvent::Spawned) => RelayState::Streaming,
        (RelayState::Streaming, RelayEvent::ChunkRead { len }) => if len == 0 {
            end_of_source(mode)
        } else {
            RelayState::Broadcasting { len }
        },
        (RelayState::Streaming, RelayEvent::EndOfStream) => end_of_source(mode),
        (RelayState::Streaming, RelayEvent::ReadFailed) => RelayState::Finished,
        (RelayState::Broadcasting { len }, RelayEvent::Broadcasted { empty_after }) => match mode {
            Mode::Stdin => RelayState::Streaming,
            Mode::Command => if empty_after {
                RelayState::AwaitingChildExit
            } else {
                RelayState::Streaming
            },
        },
        (RelayState::AwaitingChildExit, RelayEvent::ChildExited) => RelayState::AwaitingSignal,
        (_, _) => s,
    }
}

/// What happens when the active source is exhausted: stdin mode is done for
/// good; command mode ends the production cycle and will re-spawn on the next
/// readiness signal.
pub open spec fn end_of_source(mode: Mode) -> RelayState {
    match mode {
        Mode::Stdin => RelayState::Finished,
        Mode::Command => RelayState::AwaitingChildExit,
    }
}

/// The action each state calls for.
pub open spec fn action_of(s: RelayState) -> RelayAction {
    match s {
        RelayState::AwaitingSignal => RelayAction::WaitForSignal,
        RelayState::Spawning => RelayAction::SpawnChild,
        RelayState::Streaming => RelayAction::ReadChunk,
        RelayState::Broadcasting { len } => RelayAction::BroadcastChunk { len },
        RelayState::AwaitingChildExit => RelayAction::WaitForChildExit,
        RelayState::Finished => RelayAction::Stop,
    }
}

/// The state in which the relay starts for the given mode.
pub fn relay_start(mode: Mode) -> (s: RelayState)
    ensures
        s == init_state(mode),
{
    match mode {
        Mode::Stdin => RelayState::Streaming,
        Mode::Command => RelayState::AwaitingSignal,
    }
}

/// The state a relay in the given mode enters when its source is exhausted.
pub fn relay_end_of_source(mode: Mode) -> (s: RelayState)
    ensures
        s == end_of_source(mode),
{
    match mode {
        Mode::Stdin => RelayState::Finished,
        Mode::Command => RelayState::AwaitingChildExit,
    }
}

/// One step of the relay loop: the state after `event` happened in `state`.
pub fn relay_step(mode: Mode, state: RelayState, event: RelayEvent) -> (next: RelayState)
    ensures
        next == next_state(mode, state, event),
{
    match (state, event) {
        (RelayState::AwaitingSignal, RelayEvent::Signal) => RelayState::Spawning,
        (RelayState::Spawning, RelayEvent::Spawned) => RelayState::Streaming,
        (RelayState::Streaming, RelayEvent::ChunkRead { len }) => if len == 0 {
            relay_end_of_source(mode)
        } else {
            RelayState::Broadcasting { len }
        },
        (RelayState::Streaming, RelayEvent::EndOfStream) => relay_end_of_source(mode),
        (RelayState::Streaming, RelayEvent::ReadFailed) => RelayState::Finished,
        (RelayState::Broadcasting { len: _ }, RelayEvent::Broadcasted { empty_after }) => match mode {
            Mode::Stdin => RelayState::Streaming,
            Mode::Command => if empty_after {
                RelayState::AwaitingChildExit
            } else {
                RelayState::Streaming
            },
        },
        (RelayState::AwaitingChildExit, RelayEvent::ChildExited) => RelayState::AwaitingSignal,
        (_, _) => state,
    }
}

/// The action the runtime must perform next.
pub fn next_action(state: RelayState) -> (a: RelayAction)
    ensures
        a == action_of(state),
{
    match state {
        RelayState::AwaitingSignal => RelayAction::WaitForSignal,
        RelayState::Spawning => RelayAction::SpawnChild,
        RelayState::Streaming => RelayAction::ReadChunk,
        RelayState::Broadcasting { len } => RelayAction::BroadcastChunk { len },
        RelayState::AwaitingChildExit => RelayAction::WaitForChildExit,
        RelayState::Finished => RelayAction::Stop,
    }
}

/// Turns the byte count of a successful read into the relay event it means:
/// zero bytes is end of stream, never an empty chunk to broadcast.
pub fn classify_read(n: usize) -> (e: RelayEvent)
    ensures
        n == 0 ==> e == RelayEvent::EndOfStream,
        n > 0 ==> e == (RelayEvent::ChunkRead { len: n }),
{
    if n == 0 {
        RelayEvent::EndOfStream
    } else {
        RelayEvent::ChunkRead { len: n }
    }
}

/// A child process is spawned only in direct response to a readiness signal:
/// the only way into `Spawning` is the signal arriving while the relay waits
/// for it.  In particular, after a child exits, no new child is spawned
/// before a client connects to the then-empty registry.
pub proof fn lemma_spawn_only_after_signal(mode: Mode, s: RelayState, e: RelayEvent)
    ensures
        (!(s is Spawning) && next_state(mode, s, e) is Spawning) ==> (s is AwaitingSignal
            && e is Signal),
        next_state(mode, RelayState::AwaitingChildExit, RelayEvent::ChildExited)
            == RelayState::AwaitingSignal,
        action_of(RelayState::AwaitingSignal) == RelayAction::WaitForSignal,
{
}

/// Stdin mode starts producing immediately and never waits for a signal, a
/// spawn or a child exit: its reachable states are streaming, broadcasting
/// and finished.
pub open spec fn stdin_reachable(s: RelayState) -> bool {
    s is Streaming || s is Broadcasting || s is Finished
}

/// The states reachable in stdin mode stay within `stdin_reachable`.
pub proof fn lemma_stdin_never_waits(s: RelayState, e: RelayEvent)
    ensures
        stdin_reachable(init_state(Mode::Stdin)),
        stdin_reachable(s) ==> stdin_reachable(next_state(Mode::Stdin, s, e)),
{
}

/// The relay only ever asks for a broadcast of a chunk that was actually
/// read, and such a chunk is never empty.
pub proof fn lemma_broadcast_only_nonempty(mode: Mode, s: RelayState, e: RelayEvent)
    ensures
        (!(s is Broadcasting) && next_state(mode, s, e) is Broadcasting) ==> (e matches
            RelayEvent::ChunkRead { len } && len > 0 && (next_state(mode, s, e) == (
        RelayState::Broadcasting { len }))),
{
}

/// The operating mode the configuration asks for: a command vector means
/// command mode, its absence means relaying standard input.
pub fn mode_of(cmd: &Option<Vec<String>>) -> (m: Mode)
    ensures
        m == (match *cmd {
            Option::Some(_) => Mode::Command,
            Option::None => Mode::Stdin,
        }),
{
    match cmd {
        Option::Some(_) => Mode::Command,
        Option::None => Mode::Stdin,
    }
}

/// Splits the configured command vector into the program to spawn and the
/// argument vector handed to it verbatim.
pub fn split_command(cmd: &Vec<String>) -> (r: (String, Vec<String>))
    requires
        cmd@.len() >= 1,
    ensures
        r.0 == cmd@[0],
        r.1@.len() == cmd@.len() - 1,
        forall|i: int| 0 <= i < r.1@.len() ==> r.1@[i] == cmd@[i + 1],
{
    let program = cmd[0].clone();
    let mut args: Vec<String> = Vec::new();
    let mut i: usize = 1;
    while i < cmd.len()
        invariant
            1 <= i <= cmd@.len(),
            args@.len() == i - 1,
            forall|k: int| 0 <= k < args@.len() ==> args@[k] == cmd@[k + 1],
        decreases cmd@.len() - i,
    {
        args.push(cmd[i].clone());
        i += 1;
    }
    (program, args)
}

} // verus!
