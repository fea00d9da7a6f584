//! The concurrent primitives the cores rely on, with the contracts this
//! crate assumes of them: dashmap's sharded concurrent map, which backs the
//! dispatch registry and the server's connection table, and async-channel's
//! unbounded channel, which carries each connection's outgoing frames.

use vstd::prelude::*;

verus! {

#[verifier::external_type_specification]
#[verifier::external_body]
#[verifier::reject_recursive_types(K)]
#[verifier::reject_recursive_types(V)]
#[verifier::reject_recursive_types(S)]
pub struct ExDashMap<K, V, S>(dashmap::DashMap<K, V, S>);

#[verifier::external_type_specification]
#[verifier::external_body]
#[verifier::reject_recursive_types(T)]
pub struct ExSender<T>(async_channel::Sender<T>);

#[verifier::external_type_specification]
#[verifier::external_body]
#[verifier::reject_recursive_types(T)]
pub struct ExReceiver<T>(async_channel::Receiver<T>);

/// The concurrent map backing a dispatch registry.
pub type KindQueues = dashmap::DashMap<Vec<u8>, Vec<(u64, Vec<u8>)>>;

/// The concurrent map backing the server's connection table.
pub type ConnTable = dashmap::DashMap<u64, async_channel::Sender<Vec<u8>>>;

/// The sending endpoint of one connection's outgoing frame channel.
pub type FrameSender = async_channel::Sender<Vec<u8>>;

/// The receiving endpoint of one connection's outgoing frame channel.
pub type FrameReceiver = async_channel::Receiver<Vec<u8>>;

/// What a kind-to-queue map holds: for each registered kind, the queued
/// entries in arrival order, each an origin id with a payload.
pub uninterp spec fn queue_map(m: KindQueues) -> Map<Seq<u8>, Seq<(u64, Seq<u8>)>>;

/// What a connection table holds: the set of ids with a live outgoing
/// channel.  The channel endpoints themselves are opaque.
pub uninterp spec fn sender_ids(m: ConnTable) -> Set<u64>;

/// A registry with nothing registered.
pub open spec fn no_queues() -> Map<Seq<u8>, Seq<(u64, Seq<u8>)>> {
    Map::empty()
}

/// An empty queue.
pub open spec fn no_entries() -> Seq<(u64, Seq<u8>)> {
    Seq::empty()
}

/// The mathematical value of one queue entry.
pub open spec fn entry_view(e: (u64, Vec<u8>)) -> (u64, Seq<u8>) {
    (e.0, e.1@)
}

/// The mathematical value of a whole queue.
pub open spec fn entries_view(s: Seq<(u64, Vec<u8>)>) -> Seq<(u64, Seq<u8>)> {
    s.map_values(|e: (u64, Vec<u8>)| entry_view(e))
}

/// Relies on dashmap::DashMap::new: a freshly created map is empty.
#[verifier::external_body]
pub(crate) fn queue_map_new() -> (m: KindQueues)
    ensures
        queue_map(m) == no_queues(),
{
    dashmap::DashMap::new()
}

/// Relies on dashmap::DashMap::contains_key: tells whether a kind has an
/// entry in the map.
#[verifier::external_body]
pub(crate) fn queue_map_contains(m: &KindQueues, kind: &Vec<u8>) -> (r: bool)
    ensures
        r == queue_map(*m).dom().contains(kind@),
{
    m.contains_key(kind)
}

/// Relies on dashmap::DashMap::insert: binds a kind to an empty queue,
/// replacing any queue it had.
#[verifier::external_body]
pub(crate) fn queue_map_insert_empty(m: &mut KindQueues, kind: Vec<u8>)
    ensures
        queue_map(*final(m)) == queue_map(*old(m)).insert(kind@, no_entries()),
{
    m.insert(kind, Vec::new());
}

/// Relies on dashmap::DashMap::get_mut and Vec::push: appends one entry to
/// the queue of a registered kind, under that entry's lock; reports whether
/// the kind was registered.
#[verifier::external_body]
pub(crate) fn queue_map_push(m: &mut KindQueues, kind: &Vec<u8>, entry: (u64, Vec<u8>)) -> (r: bool)
    ensures
        r == queue_map(*old(m)).dom().contains(kind@),
        queue_map(*old(m)).dom().contains(kind@) ==> queue_map(*final(m))
            == queue_map(*old(m)).insert(kind@, queue_map(*old(m))[kind@].push(entry_view(entry))),
        !queue_map(*old(m)).dom().contains(kind@) ==> queue_map(*final(m)) == queue_map(*old(m)),
{
    match m.get_mut(kind) {
        Some(mut v) => {
            v.push(entry);
            true
        },
        None => false,
    }
}

/// Relies on dashmap::DashMap::get_mut and std::mem::take: removes and
/// returns the whole queue of a kind, leaving the kind registered with an
/// empty queue; yields nothing for an unregistered kind.
#[verifier::external_body]
pub(crate) fn queue_map_take(m: &mut KindQueues, kind: &Vec<u8>) -> (r: Option<Vec<(u64, Vec<u8>)>>)
    ensures
        match r {
            Some(v) => queue_map(*old(m)).dom().contains(kind@)
                && entries_view(v@) == queue_map(*old(m))[kind@]
                && queue_map(*final(m))
                    == queue_map(*old(m)).insert(kind@, no_entries()),
            None => !queue_map(*old(m)).dom().contains(kind@)
                && queue_map(*final(m)) == queue_map(*old(m)),
        },
{
    m.get_mut(kind).map(|mut v| std::mem::take(&mut *v))
}

/// Relies on dashmap::DashMap::iter: lists every registered kind exactly
/// once, in no particular order.
#[verifier::external_body]
pub(crate) fn queue_map_kinds(m: &KindQueues) -> (r: Vec<Vec<u8>>)
    ensures
        forall|i: int| 0 <= i < r@.len() ==> queue_map(*m).dom().contains(#[trigger] r@[i]@),
        forall|k: Seq<u8>| queue_map(*m).dom().contains(k)
            ==> exists|i: int| 0 <= i < r@.len() && #[trigger] r@[i]@ == k,
        forall|i: int, j: int| 0 <= i < j < r@.len() ==> r@[i]@ != r@[j]@,
{
    m.iter().map(|e| e.key().clone()).collect()
}

/// Relies on dashmap::DashMap::new: a freshly created table is empty.
#[verifier::external_body]
pub(crate) fn conn_map_new() -> (m: ConnTable)
    ensures
        sender_ids(m) == Set::<u64>::empty(),
{
    dashmap::DashMap::new()
}

/// Relies on dashmap::DashMap::insert: stores a sender under an id.
#[verifier::external_body]
pub(crate) fn conn_map_insert(m: &mut ConnTable, id: u64, tx: FrameSender)
    ensures
        sender_ids(*final(m)) == sender_ids(*old(m)).insert(id),
{
    m.insert(id, tx);
}

/// Relies on dashmap::DashMap::remove: drops the entry of an id and
/// reports whether there was one.
#[verifier::external_body]
pub(crate) fn conn_map_remove(m: &mut ConnTable, id: u64) -> (r: bool)
    ensures
        r == sender_ids(*old(m)).contains(id),
        sender_ids(*final(m)) == sender_ids(*old(m)).remove(id),
{
    m.remove(&id).is_some()
}

/// Relies on dashmap::DashMap::get and Sender::clone: yields a handle to
/// the outgoing channel stored under an id, exactly when the id is present.
#[verifier::external_body]
pub(crate) fn conn_map_get(m: &ConnTable, id: u64) -> (r: Option<FrameSender>)
    ensures
        r is Some <==> sender_ids(*m).contains(id),
{
    m.get(&id).map(|e| e.value().clone())
}

/// Relies on dashmap::DashMap::iter: lists every connected id exactly
/// once, in no particular order.
#[verifier::external_body]
pub(crate) fn conn_map_ids(m: &ConnTable) -> (r: Vec<u64>)
    ensures
        forall|i: int| 0 <= i < r@.len() ==> sender_ids(*m).contains(#[trigger] r@[i]),
        forall|id: u64| sender_ids(*m).contains(id)
            ==> exists|i: int| 0 <= i < r@.len() && #[trigger] r@[i] == id,
        r@.no_duplicates(),
{
    m.iter().map(|e| *e.key()).collect()
}

/// Relies on dashmap::DashMap::len: the number of entries in the table.
#[verifier::external_body]
pub(crate) fn conn_map_len(m: &ConnTable) -> (r: usize)
    ensures
        r == sender_ids(*m).len(),
{
    m.len()
}

/// Relies on async_channel::unbounded: creates the two endpoints of a
/// fresh unbounded channel.  Nothing is assumed about its contents.
#[verifier::external_body]
pub(crate) fn channel_unbounded() -> (r: (FrameSender, FrameReceiver)) {
    async_channel::unbounded()
}

/// Relies on async_channel::Sender::try_send: on an unbounded channel the
/// call fails only when the receiving side is gone.  Which outcome occurs
/// depends on the other endpoint, so only the outcome itself is reported.
#[verifier::external_body]
pub(crate) fn channel_try_send(tx: &FrameSender, frame: Vec<u8>) -> (r: bool) {
    tx.try_send(frame).is_ok()
}

} // verus!
