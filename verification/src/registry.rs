//! The Client Registry: the shared set of live outbound connections.
//!
//! Each accepted connection is represented here by the identifier the
//! accepting layer assigned to it; the I/O layer owns the operating-system
//! handles, keeps them in the same order, performs the actual socket writes
//! (sequentially or in parallel, as configured) and reports one
//! `WriteOutcome` per client back to `send_to_all`.  Every operation is
//! related to the mathematical model in `model`: the registry's evolution
//! depends only on the reported outcomes, never on the fan-out strategy.

use vstd::prelude::*;

use crate::model::{
    keeps, pruned, step, view_wf, RegistryEvent, RegistryView, WriteOutcome,
};
use crate::model::lemma_step_wf;

verus! {

/// The registry of connected clients, with the configuration flags that
/// govern how connections are handled.
pub struct Clients {
    /// The identifiers of the registered clients, in acceptance order.
    pub writers: Vec<u64>,
    /// The bytes delivered to each registered client since it was added.
    pub delivered: Ghost<Map<u64, Seq<u8>>>,
    /// Fan one chunk out to all clients concurrently instead of in registry
    /// order.  The choice never changes what the registry does with the
    /// reported outcomes.
    pub is_parallel: bool,
    /// Leave connections blocking instead of setting them non-blocking.
    pub is_blocking: bool,
}

impl View for Clients {
    type V = RegistryView;

    open spec fn view(&self) -> RegistryView {
        RegistryView { clients: self.writers@, delivered: self.delivered@ }
    }
}

impl Clients {
    /// The registry invariant: distinct client identifiers, one delivery
    /// record per connected client.
    pub open spec fn wf(self) -> bool {
        view_wf(self@)
    }

    /// An empty registry with the given connection-handling configuration.
    pub fn new(is_blocking: bool, is_parallel: bool) -> (c: Clients)
        ensures
            c.wf(),
            c@.clients == Seq::<u64>::empty(),
            c@.delivered == Map::<u64, Seq<u8>>::empty(),
            c.is_blocking == is_blocking,
            c.is_parallel == is_parallel,
    {
        let c = Clients {
            writers: Vec::new(),
            delivered: Ghost(Map::empty()),
            is_parallel,
            is_blocking,
        };
        proof {
            assert(c@.delivered.dom() =~= c@.clients.to_set());
        }
        c
    }

    /// The blocking-mode policy for a freshly accepted connection: it is put
    /// into non-blocking mode unless blocking writes were requested.
    pub fn wants_nonblocking(&self) -> (b: bool)
        ensures
            b == !self.is_blocking,
    {
        !self.is_blocking
    }

    /// Registers a freshly accepted connection and reports whether the
    /// registry was empty immediately before — the fact the acceptor needs to
    /// decide whether to fire the readiness signal.
    pub fn add_client(&mut self, id: u64) -> (was_empty: bool)
        requires
            old(self).wf(),
            !old(self)@.clients.contains(id),
        ensures
            final(self).wf(),
            final(self)@ == step(old(self)@, (RegistryEvent::ClientAdded { id })),
            was_empty == (old(self)@.clients.len() == 0),
            final(self).is_parallel == old(self).is_parallel,
            final(self).is_blocking == old(self).is_blocking,
    {
        let was_empty = self.writers.len() == 0;
        self.writers.push(id);
        proof {
            self.delivered@ = self.delivered@.insert(id, Seq::empty());
            lemma_step_wf(old(self)@, RegistryEvent::ClientAdded { id });
            assert(self@ =~~= step(old(self)@, RegistryEvent::ClientAdded { id }));
        }
        was_empty
    }

    /// Registers a connection and decides whether the readiness signal must
    /// fire: exactly when a signal channel exists and this client took the
    /// registry from empty to non-empty.
    pub fn accept_client(&mut self, id: u64, has_channel: bool) -> (fire_signal: bool)
        requires
            old(self).wf(),
            !old(self)@.clients.contains(id),
        ensures
            final(self).wf(),
            final(self)@ == step(old(self)@, (RegistryEvent::ClientAdded { id })),
            fire_signal == (has_channel && old(self)@.clients.len() == 0),
            final(self).is_parallel == old(self).is_parallel,
            final(self).is_blocking == old(self).is_blocking,
    {
        let was_empty = self.add_client(id);
        has_channel && was_empty
    }

    /// The per-connection verdict after one write attempt: the client is kept
    /// unless the write failed with a non-transient error; a transient
    /// would-block condition counts as handled.
    pub fn send_to_one(outcome: WriteOutcome) -> (keep: bool)
        ensures
            keep == keeps(outcome),
    {
        match outcome {
            WriteOutcome::Written => true,
            WriteOutcome::WouldBlock => true,
            WriteOutcome::Failed => false,
        }
    }

    /// Records the effect of broadcasting one chunk whose per-client write
    /// outcomes are reported in registry order: clients whose writes failed
    /// are pruned, delivery records of completed writes grow by the chunk,
    /// and whether the registry is empty after pruning is returned.
    pub fn send_to_all(&mut self, chunk: &[u8], outcomes: &Vec<WriteOutcome>) -> (empty_after:
        bool)
        requires
            old(self).wf(),
            outcomes@.len() == old(self)@.clients.len(),
        ensures
            final(self).wf(),
            final(self)@ == step(
                old(self)@,
                (RegistryEvent::ChunkBroadcast { chunk: chunk@, outcomes: outcomes@ }),
            ),
            empty_after == (final(self)@.clients.len() == 0),
            final(self).is_parallel == old(self).is_parallel,
            final(self).is_blocking == old(self).is_blocking,
    {
        let ghost event = RegistryEvent::ChunkBroadcast { chunk: chunk@, outcomes: outcomes@ };
        let ghost v0 = self@;
        let mut kept: Vec<u64> = Vec::new();
        let mut i: usize = 0;
        while i < self.writers.len()
            invariant
                i <= self.writers.len(),
                self.writers@ == v0.clients,
                outcomes@.len() == self.writers@.len(),
                kept@ == pruned(self.writers@.take(i as int), outcomes@.take(i as int)),
            decreases self.writers@.len() - i,
        {
            let ghost c_pre = self.writers@.take(i as int);
            let ghost o_pre = outcomes@.take(i as int);
            if Clients::send_to_one(outcomes[i]) {
                kept.push(self.writers[i]);
            }
            proof {
                let c_now = self.writers@.take(i + 1);
                let o_now = outcomes@.take(i + 1);
                assert(c_now.drop_last() =~= c_pre);
                assert(o_now.drop_last() =~= o_pre);
                assert(c_now.last() == self.writers@[i as int]);
                assert(o_now[c_now.len() - 1] == outcomes@[i as int]);
                assert(kept@ == pruned(c_now, o_now));
            }
            i += 1;
        }
        proof {
            assert(self.writers@.take(self.writers@.len() as int) =~= self.writers@);
            assert(outcomes@.take(outcomes@.len() as int) =~= outcomes@);
            assert(kept@ == pruned(v0.clients, outcomes@));
        }
        self.writers = kept;
        proof {
            self.delivered@ = step(v0, event).delivered;
            lemma_step_wf(v0, event);
            assert(self@ =~~= step(v0, event));
        }
        self.writers.len() == 0
    }

    /// Whether no client is connected.
    pub fn is_empty(&self) -> (b: bool)
        ensures
            b == (self@.clients.len() == 0),
    {
        self.writers.len() == 0
    }

    /// How many clients are connected.
    pub fn client_count(&self) -> (n: usize)
        ensures
            n == self@.clients.len(),
    {
        self.writers.len()
    }

    /// Whether a client with the given identifier is connected.
    pub fn contains_id(&self, id: u64) -> (b: bool)
        ensures
            b == self@.clients.contains(id),
    {
        let mut i: usize = 0;
        while i < self.writers.len()
            invariant
                i <= self.writers.len(),
                forall|k: int| 0 <= k < i ==> self.writers@[k] != id,
            decreases self.writers@.len() - i,
        {
            if self.writers[i] == id {
                return true;
            }
            i += 1;
        }
        false
    }

    /// The identifiers of the connected clients, in registry order.
    pub fn ids(&self) -> (v: Vec<u64>)
        ensures
            v@ == self@.clients,
    {
        let mut v: Vec<u64> = Vec::new();
        let mut i: usize = 0;
        while i < self.writers.len()
            invariant
                i <= self.writers.len(),
                v@ == self.writers@.take(i as int),
            decreases self.writers@.len() - i,
        {
            v.push(self.writers[i]);
            proof {
                assert(v@ =~= self.writers@.take(i + 1));
            }
            i += 1;
        }
        proof {
            assert(self.writers@.take(self.writers@.len() as int) =~= self.writers@);
        }
        v
    }
}

} // verus!
