//! Mathematical model of the client registry.
//!
//! The registry is modelled as the sequence of connected client identifiers
//! together with the bytes delivered to each of them since it was added.  Its
//! two operations, adding a client and broadcasting one chunk, are modelled as
//! events; `step` says what one event does to the state.  The proof functions
//! at the end state the delivery guarantees of the relay over arbitrary event
//! sequences.

use vstd::prelude::*;

verus! {

/// Result of one write attempt to one client connection, as reported by the
/// I/O layer.
#[derive(Clone, Copy, PartialEq, Eq, Structural, Debug)]
pub enum WriteOutcome {
    /// The write completed.
    Written,
    /// The write could not complete right now: a transient condition of a
    /// non-blocking connection, tolerated without retry or buffering.
    WouldBlock,
    /// The write failed with a non-transient error.
    Failed,
}

/// A client stays registered after a broadcast unless its write failed with a
/// non-transient error; a transient would-block condition counts as handled.
pub open spec fn keeps(o: WriteOutcome) -> bool {
    !(o is Failed)
}

/// Bytes are known to have reached a client only when its write completed.
pub open spec fn delivers(o: WriteOutcome) -> bool {
    o is Written
}

/// Abstract state of the registry: the identifiers of the connected clients in
/// registration order, and for each of them the bytes delivered to it since it
/// was added.
#[verifier::ext_equal]
pub struct RegistryView {
    pub clients: Seq<u64>,
    pub delivered: Map<u64, Seq<u8>>,
}

/// Well-formedness: client identifiers are distinct, and exactly the connected
/// clients have a delivery record.
pub open spec fn view_wf(v: RegistryView) -> bool {
    &&& v.clients.no_duplicates()
    &&& v.delivered.dom() == v.clients.to_set()
}

/// One operation on the registry.
pub enum RegistryEvent {
    /// A new connection was accepted and registered under a fresh identifier.
    ClientAdded { id: u64 },
    /// One chunk was written to every registered client; `outcomes` reports,
    /// in registry order, how each write went.
    ChunkBroadcast { chunk: Seq<u8>, outcomes: Seq<WriteOutcome> },
}

/// The events the registry can be asked to perform in a given state: an added
/// identifier is fresh, and a broadcast reports one outcome per client.
pub open spec fn valid_event(v: RegistryView, e: RegistryEvent) -> bool {
    match e {
        RegistryEvent::ClientAdded { id } => !v.clients.contains(id),
        RegistryEvent::ChunkBroadcast { outcomes, .. } => outcomes.len() == v.clients.len(),
    }
}

/// The clients that survive a broadcast with the given outcomes, in their
/// original order.
pub open spec fn pruned(clients: Seq<u64>, outcomes: Seq<WriteOutcome>) -> Seq<u64>
    decreases clients.len(),
{
    if clients.len() == 0 {
        Seq::empty()
    } else {
        let rest = pruned(clients.drop_last(), outcomes.drop_last());
        if keeps(outcomes[clients.len() - 1]) {
            rest.push(clients.last())
        } else {
            rest
        }
    }
}

/// What one event does to the registry state.
///
/// Adding registers the client with an empty delivery record.  Broadcasting
/// removes the clients whose writes failed and extends the record of each
/// surviving client whose write completed by the chunk; the evolution depends
/// only on the reported outcomes, never on the fan-out strategy that produced
/// them.
pub open spec fn step(v: RegistryView, e: RegistryEvent) -> RegistryView {
    match e {
        RegistryEvent::ClientAdded { id } => RegistryView {
            clients: v.clients.push(id),
            delivered: v.delivered.insert(id, Seq::empty()),
        },
        RegistryEvent::ChunkBroadcast { chunk, outcomes } => RegistryView {
            clients: pruned(v.clients, outcomes),
            delivered: Map::new(
                |id: u64| pruned(v.clients, outcomes).contains(id),
                |id: u64|
                    if delivers(outcomes[v.clients.index_of(id)]) {
                        v.delivered[id] + chunk
                    } else {
                        v.delivered[id]
                    },
            ),
        },
    }
}

/// The state after a whole sequence of events.
pub open spec fn run_events(v: RegistryView, es: Seq<RegistryEvent>) -> RegistryView
    decreases es.len(),
{
    if es.len() == 0 {
        v
    } else {
        run_events(step(v, es[0]), es.drop_first())
    }
}

/// Every event of the sequence is valid in the state it is applied to.
pub open spec fn valid_events(v: RegistryView, es: Seq<RegistryEvent>) -> bool
    decreases es.len(),
{
    es.len() == 0 || (valid_event(v, es[0]) && valid_events(step(v, es[0]), es.drop_first()))
}

/// `index_of` really names an index of `id` whenever `id` occurs.
pub proof fn lemma_index_of_works(s: Seq<u64>, id: u64)
    requires
        s.contains(id),
    ensures
        0 <= s.index_of(id) < s.len(),
        s[s.index_of(id)] == id,
{
    let i = choose|i: int| 0 <= i < s.len() && s[i] == id;
    assert(0 <= i < s.len() && s[i] == id);
}

/// In a duplicate-free sequence, `index_of` names the one index of `id`.
pub proof fn lemma_index_of_unique(s: Seq<u64>, id: u64, j: int)
    requires
        s.no_duplicates(),
        0 <= j < s.len(),
        s[j] == id,
    ensures
        s.contains(id),
        s.index_of(id) == j,
{
    assert(s.contains(id));
    lemma_index_of_works(s, id);
}

/// The survivors of a broadcast are exactly the clients whose outcome keeps
/// them.
pub proof fn lemma_pruned_membership(clients: Seq<u64>, outcomes: Seq<WriteOutcome>, id: u64)
    requires
        outcomes.len() == clients.len(),
    ensures
        pruned(clients, outcomes).contains(id) <==> (exists|i: int|
            0 <= i < clients.len() && clients[i] == id && keeps(outcomes[i])),
    decreases clients.len(),
{
    if clients.len() == 0 {
    } else {
        let n = clients.len() - 1;
        let c0 = clients.drop_last();
        let o0 = outcomes.drop_last();
        lemma_pruned_membership(c0, o0, id);
        let rest = pruned(c0, o0);
        if keeps(outcomes[n]) {
            assert(pruned(clients, outcomes) == rest.push(clients.last()));
            if pruned(clients, outcomes).contains(id) {
                let k = choose|k: int|
                    0 <= k < rest.push(clients.last()).len() && rest.push(clients.last())[k] == id;
                if k < rest.len() {
                    assert(rest.contains(id));
                    let i = choose|i: int| 0 <= i < c0.len() && c0[i] == id && keeps(o0[i]);
                    assert(clients[i] == id && keeps(outcomes[i]));
                } else {
                    assert(clients[n] == id && keeps(outcomes[n]));
                }
            }
            if exists|i: int| 0 <= i < clients.len() && clients[i] == id && keeps(outcomes[i]) {
                let i = choose|i: int|
                    0 <= i < clients.len() && clients[i] == id && keeps(outcomes[i]);
                if i < n {
                    assert(c0[i] == id && keeps(o0[i]));
                    assert(rest.contains(id));
                    let k = choose|k: int| 0 <= k < rest.len() && rest[k] == id;
                    assert(rest.push(clients.last())[k] == id);
                    assert(pruned(clients, outcomes).contains(id));
                } else {
                    assert(rest.push(clients.last())[rest.len() as int] == id);
                    assert(pruned(clients, outcomes).contains(id));
                }
            }
        } else {
            assert(pruned(clients, outcomes) == rest);
            if pruned(clients, outcomes).contains(id) {
                let i = choose|i: int| 0 <= i < c0.len() && c0[i] == id && keeps(o0[i]);
                assert(clients[i] == id && keeps(outcomes[i]));
            }
            if exists|i: int| 0 <= i < clients.len() && clients[i] == id && keeps(outcomes[i]) {
                let i = choose|i: int|
                    0 <= i < clients.len() && clients[i] == id && keeps(outcomes[i]);
                assert(i < n);
                assert(c0[i] == id && keeps(o0[i]));
                assert(rest.contains(id));
            }
        }
    }
}

/// Pruning keeps the client identifiers distinct and introduces none.
pub proof fn lemma_pruned_sub(clients: Seq<u64>, outcomes: Seq<WriteOutcome>)
    requires
        outcomes.len() == clients.len(),
        clients.no_duplicates(),
    ensures
        pruned(clients, outcomes).no_duplicates(),
        forall|id: u64| #[trigger] pruned(clients, outcomes).contains(id) ==> clients.contains(id),
    decreases clients.len(),
{
    if clients.len() == 0 {
    } else {
        let n = clients.len() - 1;
        let c0 = clients.drop_last();
        let o0 = outcomes.drop_last();
        lemma_pruned_sub(c0, o0);
        let rest = pruned(c0, o0);
        assert forall|id: u64| #[trigger] pruned(clients, outcomes).contains(id)
            implies clients.contains(id) by {
            lemma_pruned_membership(clients, outcomes, id);
        }
        if keeps(outcomes[n]) {
            assert(!rest.contains(clients.last())) by {
                if rest.contains(clients.last()) {
                    lemma_pruned_membership(c0, o0, clients.last());
                    let i = choose|i: int|
                        0 <= i < c0.len() && c0[i] == clients.last() && keeps(o0[i]);
                    assert(clients[i] == clients[n]);
                }
            }
            assert forall|i: int, j: int|
                0 <= i < rest.push(clients.last()).len() && 0 <= j < rest.push(
                    clients.last(),
                ).len() && i != j implies rest.push(clients.last())[i] != rest.push(
                clients.last(),
            )[j] by {
                if rest.push(clients.last())[i] == rest.push(clients.last())[j] {
                    if i < rest.len() && j < rest.len() {
                    } else if i < rest.len() {
                        assert(rest.contains(rest[i]));
                    } else if j < rest.len() {
                        assert(rest.contains(rest[j]));
                    }
                }
            }
        }
    }
}

/// A broadcast in which every write is at least tolerated removes nobody.
pub proof fn lemma_pruned_all_kept(clients: Seq<u64>, outcomes: Seq<WriteOutcome>)
    requires
        outcomes.len() == clients.len(),
        forall|i: int| 0 <= i < outcomes.len() ==> keeps(#[trigger] outcomes[i]),
    ensures
        pruned(clients, outcomes) == clients,
    decreases clients.len(),
{
    if clients.len() == 0 {
        assert(pruned(clients, outcomes) =~= clients);
    } else {
        lemma_pruned_all_kept(clients.drop_last(), outcomes.drop_last());
        assert(pruned(clients, outcomes) =~= clients);
    }
}

/// A valid event leads from a well-formed state to a well-formed state.
pub proof fn lemma_step_wf(v: RegistryView, e: RegistryEvent)
    requires
        view_wf(v),
        valid_event(v, e),
    ensures
        view_wf(step(v, e)),
{
    match e {
        RegistryEvent::ClientAdded { id } => {
            let c1 = v.clients.push(id);
            assert forall|i: int, j: int| 0 <= i < c1.len() && 0 <= j < c1.len() && i != j
                implies c1[i] != c1[j] by {
                if i < v.clients.len() && j < v.clients.len() {
                } else if i < v.clients.len() {
                    assert(v.clients.contains(v.clients[i]));
                } else if j < v.clients.len() {
                    assert(v.clients.contains(v.clients[j]));
                }
            }
            assert(step(v, e).delivered.dom() =~= step(v, e).clients.to_set()) by {
                assert forall|x: u64| #[trigger] c1.contains(x)
                    implies v.clients.contains(x) || x == id by {
                    let k = choose|k: int| 0 <= k < c1.len() && c1[k] == x;
                    if k < v.clients.len() {
                        assert(v.clients.contains(x));
                    }
                }
                assert forall|x: u64| v.clients.contains(x) implies #[trigger] c1.contains(x) by {
                    let k = choose|k: int| 0 <= k < v.clients.len() && v.clients[k] == x;
                    assert(c1[k] == x);
                }
                assert(c1.contains(id)) by {
                    assert(c1[v.clients.len() as int] == id);
                }
            }
        },
        RegistryEvent::ChunkBroadcast { outcomes, .. } => {
            lemma_pruned_sub(v.clients, outcomes);
            assert(step(v, e).delivered.dom() =~= step(v, e).clients.to_set());
        },
    }
}

/// The bytes broadcast by a sequence of events: the concatenation of its
/// chunks, in order.
pub open spec fn chunks_concat(es: Seq<RegistryEvent>) -> Seq<u8>
    decreases es.len(),
{
    if es.len() == 0 {
        Seq::empty()
    } else {
        (match es[0] {
            RegistryEvent::ChunkBroadcast { chunk, .. } => chunk,
            _ => Seq::<u8>::empty(),
        }) + chunks_concat(es.drop_first())
    }
}

/// The outcome a broadcast event reports for client `id` (meaningful when the
/// event is a broadcast and `id` is registered).
pub open spec fn outcome_for(v: RegistryView, e: RegistryEvent, id: u64) -> WriteOutcome {
    match e {
        RegistryEvent::ChunkBroadcast { outcomes, .. } => outcomes[v.clients.index_of(id)],
        _ => WriteOutcome::Written,
    }
}

/// Along the whole event sequence, every broadcast write to client `id`
/// completes.
pub open spec fn always_written(v: RegistryView, es: Seq<RegistryEvent>, id: u64) -> bool
    decreases es.len(),
{
    es.len() == 0 || {
        &&& (es[0] is ChunkBroadcast ==> delivers(outcome_for(v, es[0], id)))
        &&& always_written(step(v, es[0]), es.drop_first(), id)
    }
}

/// No event of the sequence registers a client under identifier `id`.
pub open spec fn never_adds(es: Seq<RegistryEvent>, id: u64) -> bool
    decreases es.len(),
{
    es.len() == 0 || {
        &&& (match es[0] {
            RegistryEvent::ClientAdded { id: j } => j != id,
            _ => true,
        })
        &&& never_adds(es.drop_first(), id)
    }
}

/// A client that is attached throughout and whose writes all complete
/// receives every broadcast chunk, byte for byte, in broadcast order: after
/// the events its delivery record has grown by exactly the concatenation of
/// the chunks.  The statement does not depend on the fan-out strategy: the
/// events carry only the reported outcomes.
pub proof fn lemma_attached_client_receives_stream(
    v: RegistryView,
    es: Seq<RegistryEvent>,
    id: u64,
)
    requires
        view_wf(v),
        valid_events(v, es),
        v.clients.contains(id),
        always_written(v, es, id),
    ensures
        run_events(v, es).clients.contains(id),
        run_events(v, es).delivered[id] == v.delivered[id] + chunks_concat(es),
    decreases es.len(),
{
    if es.len() == 0 {
        assert(v.delivered[id] + chunks_concat(es) =~= v.delivered[id]);
    } else {
        let e = es[0];
        let v1 = step(v, e);
        lemma_step_wf(v, e);
        match e {
            RegistryEvent::ClientAdded { .. } => {
                assert(v1.clients.contains(id)) by {
                    let k = choose|k: int| 0 <= k < v.clients.len() && v.clients[k] == id;
                    assert(v1.clients[k] == id);
                }
                assert(v1.delivered[id] == v.delivered[id]);
                lemma_attached_client_receives_stream(v1, es.drop_first(), id);
                assert(v.delivered[id] + chunks_concat(es) =~= (v.delivered[id]
                    + Seq::<u8>::empty()) + chunks_concat(es.drop_first()));
                assert(v.delivered[id] + Seq::<u8>::empty() =~= v.delivered[id]);
            },
            RegistryEvent::ChunkBroadcast { chunk, outcomes } => {
                lemma_index_of_works(v.clients, id);
                let j = v.clients.index_of(id);
                assert(delivers(outcomes[j]));
                assert(v1.clients.contains(id)) by {
                    lemma_pruned_membership(v.clients, outcomes, id);
                    assert(v.clients[j] == id && keeps(outcomes[j]));
                }
                assert(v1.delivered[id] == v.delivered[id] + chunk);
                lemma_attached_client_receives_stream(v1, es.drop_first(), id);
                assert(v.delivered[id] + chunks_concat(es) =~= (v.delivered[id] + chunk)
                    + chunks_concat(es.drop_first()));
            },
        }
    }
}

/// A client added after some chunks were already broadcast receives none of
/// them: starting from its registration, its delivery record is exactly the
/// concatenation of the chunks broadcast afterwards.
pub proof fn lemma_new_client_gets_only_new_chunks(
    v: RegistryView,
    es: Seq<RegistryEvent>,
    id: u64,
)
    requires
        view_wf(v),
        !v.clients.contains(id),
        valid_events(step(v, (RegistryEvent::ClientAdded { id })), es),
        always_written(step(v, (RegistryEvent::ClientAdded { id })), es, id),
    ensures
        run_events(step(v, (RegistryEvent::ClientAdded { id })), es).delivered[id]
            == chunks_concat(es),
{
    let e = RegistryEvent::ClientAdded { id };
    let v1 = step(v, e);
    lemma_step_wf(v, e);
    assert(v1.clients.contains(id)) by {
        assert(v1.clients[v.clients.len() as int] == id);
    }
    assert(v1.delivered[id] == Seq::<u8>::empty());
    lemma_attached_client_receives_stream(v1, es, id);
    assert(Seq::<u8>::empty() + chunks_concat(es) =~= chunks_concat(es));
}

/// A client whose write fails with a non-transient error is removed by that
/// very broadcast.
pub proof fn lemma_failed_write_removes_client(
    v: RegistryView,
    chunk: Seq<u8>,
    outcomes: Seq<WriteOutcome>,
    id: u64,
)
    requires
        view_wf(v),
        v.clients.contains(id),
        outcomes.len() == v.clients.len(),
        !keeps(outcomes[v.clients.index_of(id)]),
    ensures
        !step(v, (RegistryEvent::ChunkBroadcast { chunk, outcomes })).clients.contains(id),
{
    lemma_index_of_works(v.clients, id);
    lemma_pruned_membership(v.clients, outcomes, id);
    if pruned(v.clients, outcomes).contains(id) {
        let i = choose|i: int|
            0 <= i < v.clients.len() && v.clients[i] == id && keeps(outcomes[i]);
        lemma_index_of_unique(v.clients, id, i);
    }
}

/// Once absent, a client stays absent from the registry for the whole rest of
/// the run, as long as its identifier is not registered again.
pub proof fn lemma_absent_client_stays_absent(v: RegistryView, es: Seq<RegistryEvent>, id: u64)
    requires
        view_wf(v),
        valid_events(v, es),
        !v.clients.contains(id),
        never_adds(es, id),
    ensures
        !run_events(v, es).clients.contains(id),
    decreases es.len(),
{
    if es.len() == 0 {
    } else {
        let e = es[0];
        let v1 = step(v, e);
        lemma_step_wf(v, e);
        match e {
            RegistryEvent::ClientAdded { .. } => {
                assert(!v1.clients.contains(id)) by {
                    if v1.clients.contains(id) {
                        let k = choose|k: int| 0 <= k < v1.clients.len() && v1.clients[k] == id;
                        if k < v.clients.len() {
                            assert(v.clients.contains(id));
                        }
                    }
                }
            },
            RegistryEvent::ChunkBroadcast { outcomes, .. } => {
                assert(!v1.clients.contains(id)) by {
                    lemma_pruned_membership(v.clients, outcomes, id);
                    if v1.clients.contains(id) {
                        let i = choose|i: int|
                            0 <= i < v.clients.len() && v.clients[i] == id && keeps(outcomes[i]);
                        assert(v.clients.contains(id));
                    }
                }
            },
        }
        lemma_absent_client_stays_absent(v1, es.drop_first(), id);
    }
}

/// How many readiness signals the acceptor fires along the events: one for
/// each client added while the registry is empty, by the emission rule of
/// `add`.
pub open spec fn signal_count(v: RegistryView, es: Seq<RegistryEvent>) -> nat
    decreases es.len(),
{
    if es.len() == 0 {
        0
    } else {
        (if es[0] is ClientAdded && v.clients.len() == 0 {
            1nat
        } else {
            0nat
        }) + signal_count(step(v, es[0]), es.drop_first())
    }
}

/// How many times the registry goes from empty to non-empty along the events.
pub open spec fn empty_to_nonempty_count(v: RegistryView, es: Seq<RegistryEvent>) -> nat
    decreases es.len(),
{
    if es.len() == 0 {
        0
    } else {
        (if v.clients.len() == 0 && step(v, es[0]).clients.len() > 0 {
            1nat
        } else {
            0nat
        }) + empty_to_nonempty_count(step(v, es[0]), es.drop_first())
    }
}

/// The readiness signal fires exactly once per empty-to-non-empty transition
/// of the registry: never on a transition such as one client to two, and
/// never without a transition.
pub proof fn lemma_signal_exactly_per_transition(v: RegistryView, es: Seq<RegistryEvent>)
    requires
        valid_events(v, es),
    ensures
        signal_count(v, es) == empty_to_nonempty_count(v, es),
    decreases es.len(),
{
    if es.len() == 0 {
    } else {
        let e = es[0];
        match e {
            RegistryEvent::ClientAdded { .. } => {
                assert(step(v, e).clients.len() == v.clients.len() + 1);
            },
            RegistryEvent::ChunkBroadcast { .. } => {
                if v.clients.len() == 0 {
                    assert(step(v, e).clients.len() == 0);
                }
            },
        }
        lemma_signal_exactly_per_transition(step(v, e), es.drop_first());
    }
}

/// Broadcasting a chunk of zero bytes, with every write at least tolerated,
/// leaves the registry exactly as it was: same clients, same delivery
/// records.
pub proof fn lemma_empty_chunk_is_noop(v: RegistryView, outcomes: Seq<WriteOutcome>)
    requires
        view_wf(v),
        outcomes.len() == v.clients.len(),
        forall|i: int| 0 <= i < outcomes.len() ==> keeps(#[trigger] outcomes[i]),
    ensures
        step(v, (RegistryEvent::ChunkBroadcast { chunk: Seq::empty(), outcomes })) == v,
{
    let e = RegistryEvent::ChunkBroadcast { chunk: Seq::empty(), outcomes };
    lemma_pruned_all_kept(v.clients, outcomes);
    assert(step(v, e).clients == v.clients);
    assert(step(v, e).delivered =~~= v.delivered) by {
        assert forall|id: u64| #[trigger] v.delivered.dom().contains(id)
            implies v.clients.contains(id) by {
        }
        assert forall|id: u64| v.clients.contains(id)
            implies step(v, e).delivered[id] == v.delivered[id] by {
            assert(v.delivered[id] + Seq::<u8>::empty() =~= v.delivered[id]);
        }
    }
    assert(step(v, e) =~~= v);
}

} // verus!
