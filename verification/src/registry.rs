//! The message dispatch registry: one queue of inbound payloads per
//! registered message kind, drained by the host each poll cycle.
//!
//! The registry decouples network receipt from application consumption.
//! Within one kind, queued entries keep their arrival order; kinds never
//! affect one another.

use vstd::prelude::*;
use crate::concurrent::KindQueues;
use crate::concurrent::queue_map;
use crate::concurrent::queue_map_new;
use crate::concurrent::queue_map_contains;
use crate::concurrent::queue_map_insert_empty;
use crate::concurrent::queue_map_push;
use crate::concurrent::queue_map_take;
use crate::concurrent::queue_map_kinds;
use crate::concurrent::entries_view;
use crate::concurrent::no_queues;
use crate::concurrent::no_entries;

verus! {

/// Maps each registered message kind to its queue of pending entries:
/// pairs of the origin connection's raw id and the raw payload.
pub struct MessageRegistry {
    queues: KindQueues,
}

impl View for MessageRegistry {
    type V = Map<Seq<u8>, Seq<(u64, Seq<u8>)>>;

    closed spec fn view(&self) -> Map<Seq<u8>, Seq<(u64, Seq<u8>)>> {
        queue_map(self.queues)
    }
}

impl MessageRegistry {
    /// A registry with no kinds registered.
    pub fn new() -> (r: Self)
        ensures
            r@ == no_queues(),
    {
        MessageRegistry { queues: queue_map_new() }
    }

    /// Whether a kind has been registered.
    pub fn is_registered(&self, kind: &Vec<u8>) -> (r: bool)
        ensures
            r == self@.dom().contains(kind@),
    {
        queue_map_contains(&self.queues, kind)
    }

    /// Registers interest in a message kind, creating its empty queue.
    /// Registering the same kind twice is a programmer error: the second
    /// call reports failure and changes nothing, so an embedder can fail
    /// fast at setup time.
    pub fn register(&mut self, kind: Vec<u8>) -> (r: bool)
        ensures
            r == !old(self)@.dom().contains(kind@),
            r ==> final(self)@ == old(self)@.insert(kind@, no_entries()),
            !r ==> final(self)@ == old(self)@,
    {
        if queue_map_contains(&self.queues, &kind) {
            false
        } else {
            queue_map_insert_empty(&mut self.queues, kind);
            true
        }
    }

    /// Appends one arriving payload to the queue of its kind, keeping
    /// arrival order.  A payload whose kind is unregistered is dropped and
    /// reported, and no other queue is touched.
    pub fn dispatch(&mut self, source: u64, kind: &Vec<u8>, payload: Vec<u8>) -> (r: bool)
        ensures
            r == old(self)@.dom().contains(kind@),
            r ==> final(self)@
                == old(self)@.insert(kind@, old(self)@[kind@].push((source, payload@))),
            !r ==> final(self)@ == old(self)@,
    {
        queue_map_push(&mut self.queues, kind, (source, payload))
    }

    /// Atomically removes and returns everything queued for a kind, oldest
    /// first, leaving that queue empty and every other queue untouched.
    /// Draining an unregistered kind yields nothing.
    pub fn drain(&mut self, kind: &Vec<u8>) -> (r: Vec<(u64, Vec<u8>)>)
        ensures
            old(self)@.dom().contains(kind@) ==> entries_view(r@) == old(self)@[kind@]
                && final(self)@ == old(self)@.insert(kind@, no_entries()),
            !old(self)@.dom().contains(kind@) ==> r@.len() == 0 && final(self)@ == old(self)@,
    {
        match queue_map_take(&mut self.queues, kind) {
            Some(v) => v,
            None => Vec::new(),
        }
    }

    /// Empties every queue while keeping all registrations, as a full
    /// reset does.
    pub fn clear_queues(&mut self)
        ensures
            final(self)@.dom() == old(self)@.dom(),
            forall|k: Seq<u8>| final(self)@.dom().contains(k) ==> final(self)@[k] == no_entries(),
    {
        let kinds = queue_map_kinds(&self.queues);
        let ghost dom0 = queue_map(self.queues).dom();
        let mut i: usize = 0;
        while i < kinds.len()
            invariant
                0 <= i <= kinds@.len(),
                queue_map(self.queues).dom() == dom0,
                forall|j: int| 0 <= j < kinds@.len() ==> dom0.contains(#[trigger] kinds@[j]@),
                forall|k: Seq<u8>| dom0.contains(k)
                    ==> exists|j: int| 0 <= j < kinds@.len() && #[trigger] kinds@[j]@ == k,
                forall|j: int| 0 <= j < i ==> queue_map(self.queues)[#[trigger] kinds@[j]@] == no_entries(),
            decreases kinds@.len() - i,
        {
            let kind = kinds[i].clone();
            proof {
                assert(kind@ == kinds@[i as int]@);
                assert(queue_map(self.queues).dom().insert(kind@) =~= dom0);
            }
            queue_map_insert_empty(&mut self.queues, kind);
            i = i + 1;
        }
        proof {
            assert forall|k: Seq<u8>| queue_map(self.queues).dom().contains(k)
                implies queue_map(self.queues)[k] == no_entries() by {
                assert(dom0.contains(k));
                let j = choose|j: int| 0 <= j < kinds@.len() && #[trigger] kinds@[j]@ == k;
                assert(queue_map(self.queues)[kinds@[j]@] == no_entries());
            }
        }
    }
}

/// A registry map after a run of arrivals of one kind, one entry at a time.
pub open spec fn after_arrivals(
    m: Map<Seq<u8>, Seq<(u64, Seq<u8>)>>,
    kind: Seq<u8>,
    entries: Seq<(u64, Seq<u8>)>,
) -> Map<Seq<u8>, Seq<(u64, Seq<u8>)>>
    decreases entries.len(),
{
    if entries.len() == 0 {
        m
    } else {
        after_arrivals(m.insert(kind, m[kind].push(entries[0])), kind, entries.drop_first())
    }
}

/// Messages of one kind that arrive in some order are all appended to that
/// kind's queue in that same order, and no other kind's queue moves: a
/// single drain after the run yields them exactly as sent.
pub proof fn lemma_arrival_order(
    m: Map<Seq<u8>, Seq<(u64, Seq<u8>)>>,
    kind: Seq<u8>,
    entries: Seq<(u64, Seq<u8>)>,
)
    requires
        m.dom().contains(kind),
    ensures
        after_arrivals(m, kind, entries).dom() == m.dom(),
        after_arrivals(m, kind, entries)[kind] == m[kind] + entries,
        forall|k: Seq<u8>| k != kind && m.dom().contains(k)
            ==> after_arrivals(m, kind, entries)[k] == m[k],
    decreases entries.len(),
{
    if entries.len() == 0 {
        assert(m[kind] + entries =~= m[kind]);
    } else {
        let m1 = m.insert(kind, m[kind].push(entries[0]));
        assert(m1.dom() =~= m.dom());
        lemma_arrival_order(m1, kind, entries.drop_first());
        assert(m[kind].push(entries[0]) + entries.drop_first() =~= m[kind] + entries);
        assert forall|k: Seq<u8>| k != kind && m.dom().contains(k)
            implies after_arrivals(m, kind, entries)[k] == m[k] by {
            assert(m1.dom().contains(k));
            assert(m1[k] == m[k]);
            assert(after_arrivals(m1, kind, entries.drop_first())[k] == m1[k]);
        }
    }
}

/// Draining one kind never affects another: the drained registry keeps
/// every other kind's queue word for word.
pub proof fn lemma_drain_independence(
    m: Map<Seq<u8>, Seq<(u64, Seq<u8>)>>,
    drained: Seq<u8>,
    other: Seq<u8>,
)
    requires
        drained != other,
        m.dom().contains(other),
    ensures
        m.insert(drained, no_entries())[other] == m[other],
{
}

} // verus!
