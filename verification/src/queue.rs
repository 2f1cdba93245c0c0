//! Per-agent in-memory message queues with a time to live.
//!
//! Messages for an agent that is not connected wait in its queue, oldest
//! first; when the agent comes back they are handed out in order until the
//! receiving side refuses one, which goes back to the front.
use vstd::prelude::*;
use vstd::string::*;
use dashmap::DashMap;
use std::collections::VecDeque;
use crate::clock::{utc_now_millis, whole_seconds, seconds_between};
use crate::message::Message;

verus! {

/// A queued message waiting for an agent to come back online. Times are
/// milliseconds since the Unix epoch.
#[derive(Debug, Clone)]
pub struct QueuedMessage {
    pub msg: Message,
    pub enqueued_at: i64,
    pub retries: u32,
}

/// Where drained messages are handed. `send` answers whether the message
/// was taken; a refused message stays queued.
pub trait MessageSink {
    /// The messages the sink has taken so far, in order (for a sink that
    /// does not say, nothing is known of them).
    closed spec fn accepted(&self) -> Seq<Message> {
        Seq::empty()
    }

    /// Whether the sink takes every message it is offered.
    closed spec fn takes_all(&self) -> bool {
        false
    }

    /// Offers `msg`: `Ok` when the sink takes it, which appends it to what
    /// the sink has taken; `Err` with the same message handed back when the
    /// sink refuses it, which changes nothing.
    fn send(&mut self, msg: Message) -> (r: Result<(), Message>)
        ensures
            r is Ok ==> final(self).accepted() == old(self).accepted().push(msg),
            r matches Err(m) ==> m == msg && final(self).accepted() == old(self).accepted(),
            old(self).takes_all() ==> r is Ok && final(self).takes_all();
}

/// A list collects every message it is offered.
impl MessageSink for Vec<Message> {
    open spec fn accepted(&self) -> Seq<Message> {
        self@
    }

    open spec fn takes_all(&self) -> bool {
        true
    }

    fn send(&mut self, msg: Message) -> (r: Result<(), Message>) {
        self.push(msg);
        Ok(())
    }
}

/// The messages held by a run of queued entries, in order.
pub open spec fn messages_of(q: Seq<QueuedMessage>) -> Seq<Message> {
    q.map_values(|qm: QueuedMessage| qm.msg)
}

/// The messages younger than `max_age_secs` at time `now`, in order.
pub open spec fn young(q: Seq<QueuedMessage>, max_age_secs: i64, now: i64) -> Seq<QueuedMessage>
    decreases q.len(),
{
    if q.len() == 0 {
        q
    } else {
        let before = young(q.drop_last(), max_age_secs, now);
        if whole_seconds(q.last().enqueued_at, now) < max_age_secs { before.push(q.last()) } else { before }
    }
}

/// The queues after pruning: old messages leave, and so do queues left
/// empty (as well as queues that already were).
pub open spec fn pruned(m: Map<Seq<char>, Seq<QueuedMessage>>, max_age_secs: i64, now: i64) -> Map<Seq<char>, Seq<QueuedMessage>> {
    Map::new(
        |k: Seq<char>| m.contains_key(k) && young(m[k], max_age_secs, now).len() > 0,
        |k: Seq<char>| young(m[k], max_age_secs, now),
    )
}

/// What the queue table holds: agent id to its queue.
pub uninterp spec fn queue_table(m: DashMap<String, VecDeque<QueuedMessage>>) -> Map<Seq<char>, VecDeque<QueuedMessage>>;

/// The contents of every queue.
pub open spec fn contents(m: Map<Seq<char>, VecDeque<QueuedMessage>>) -> Map<Seq<char>, Seq<QueuedMessage>> {
    m.map_values(|q: VecDeque<QueuedMessage>| q@)
}

/// A table with no queues.
pub open spec fn no_queues() -> Map<Seq<char>, VecDeque<QueuedMessage>> {
    Map::empty()
}

/// `DashMap::new`: an empty table.
#[verifier::external_body]
fn table_new() -> (r: DashMap<String, VecDeque<QueuedMessage>>)
    ensures
        queue_table(r) == no_queues(),
{
    DashMap::new()
}

/// `DashMap::get`, cloning the queue out: the entry for `key`, if any.
#[verifier::external_body]
fn table_get(m: &DashMap<String, VecDeque<QueuedMessage>>, key: &str) -> (r: Option<VecDeque<QueuedMessage>>)
    ensures
        r == (if queue_table(*m).contains_key(key@) { Some(queue_table(*m)[key@]) } else { None }),
{
    m.get(key).map(|e| e.clone())
}

/// `DashMap::insert`: the entry for `key` becomes `v`, the others stay.
#[verifier::external_body]
fn table_insert(m: &mut DashMap<String, VecDeque<QueuedMessage>>, key: String, v: VecDeque<QueuedMessage>)
    ensures
        queue_table(*final(m)) == queue_table(*old(m)).insert(key@, v),
{
    m.insert(key, v);
}

/// `DashMap::remove`: the entry for `key` leaves.
#[verifier::external_body]
fn table_remove(m: &mut DashMap<String, VecDeque<QueuedMessage>>, key: &str)
    ensures
        queue_table(*final(m)) == queue_table(*old(m)).remove(key@),
{
    m.remove(key);
}

/// `DashMap::iter`, cloning each entry out: every entry once, in the
/// table's own order.
#[verifier::external_body]
fn table_entries(m: &DashMap<String, VecDeque<QueuedMessage>>) -> (r: Vec<(String, VecDeque<QueuedMessage>)>)
    ensures
        r@.len() == queue_table(*m).dom().len(),
        (forall|i: int| 0 <= i < r@.len() ==> #[trigger] queue_table(*m).contains_key(r@[i].0@)
            && queue_table(*m)[r@[i].0@] == r@[i].1),
        (forall|i: int, j: int| 0 <= i < j < r@.len() ==> r@[i].0@ != r@[j].0@),
        (forall|k: Seq<char>| #[trigger] queue_table(*m).contains_key(k) ==> exists|i: int| 0 <= i < r@.len() && r@[i].0@ == k),
{
    m.iter().map(|e| (e.key().clone(), e.value().clone())).collect()
}

proof fn contents_insert(m: Map<Seq<char>, VecDeque<QueuedMessage>>, k: Seq<char>, v: VecDeque<QueuedMessage>)
    ensures
        contents(m.insert(k, v)) == contents(m).insert(k, v@),
{
    assert(contents(m.insert(k, v)) =~= contents(m).insert(k, v@));
}

proof fn contents_remove(m: Map<Seq<char>, VecDeque<QueuedMessage>>, k: Seq<char>)
    ensures
        contents(m.remove(k)) == contents(m).remove(k),
{
    assert(contents(m.remove(k)) =~= contents(m).remove(k));
}

/// Per-agent in-memory message queue with TTL.
#[derive(Debug)]
pub struct MessageQueue {
    queues: DashMap<String, VecDeque<QueuedMessage>>,
}

impl MessageQueue {
    /// The queued messages of every agent that has a queue, oldest first.
    pub closed spec fn queues(&self) -> Map<Seq<char>, Seq<QueuedMessage>> {
        contents(queue_table(self.queues))
    }

    pub fn new() -> (q: Self)
        ensures
            q.queues() == Map::<Seq<char>, Seq<QueuedMessage>>::empty(),
    {
        let q = MessageQueue { queues: table_new() };
        proof {
            assert(q.queues() =~= Map::<Seq<char>, Seq<QueuedMessage>>::empty());
        }
        q
    }

    /// Appends `msg` to the back of the agent's queue, stamped `now`, with
    /// no retries.
    pub fn enqueue_at(&mut self, agent_id: &str, msg: Message, now: i64)
        ensures
            final(self).queues() == old(self).queues().insert(
                agent_id@,
                (if old(self).queues().contains_key(agent_id@) { old(self).queues()[agent_id@] } else { Seq::empty() }).push(QueuedMessage { msg, enqueued_at: now, retries: 0 }),
            ),
    {
        let qm = QueuedMessage { msg, enqueued_at: now, retries: 0 };
        let mut q = match table_get(&self.queues, agent_id) {
            Some(q) => q,
            None => VecDeque::new(),
        };
        q.push_back(qm);
        let ghost before = queue_table(self.queues);
        table_insert(&mut self.queues, agent_id.to_string(), q);
        proof {
            contents_insert(before, agent_id@, q);
        }
    }

    /// Appends `msg` to the back of the agent's queue, stamped with the
    /// current time.
    pub fn enqueue(&mut self, agent_id: &str, msg: Message)
        ensures
            exists|now: i64| final(self).queues() == old(self).queues().insert(
                agent_id@,
                (if old(self).queues().contains_key(agent_id@) { old(self).queues()[agent_id@] } else { Seq::empty() }).push(QueuedMessage { msg, enqueued_at: now, retries: 0 }),
            ),
    {
        let now = utc_now_millis();
        self.enqueue_at(agent_id, msg, now);
    }

    /// Hands the agent's queued messages to `sink`, oldest first, until the
    /// queue is empty or the sink refuses one (which stays at the front).
    /// Returns how many were taken; the queue keeps the rest, and leaves the
    /// table when nothing is left.
    pub fn drain_to<S: MessageSink>(&mut self, agent_id: &str, sink: &mut S) -> (delivered: usize)
        ensures
            !old(self).queues().contains_key(agent_id@) ==> delivered == 0 && final(self).queues() == old(self).queues()
                && final(sink).accepted() == old(sink).accepted(),
            old(self).queues().contains_key(agent_id@) ==> {
                let q = old(self).queues()[agent_id@];
                &&& delivered <= q.len()
                &&& final(sink).accepted() == old(sink).accepted() + messages_of(q.take(delivered as int))
                &&& old(sink).takes_all() ==> delivered == q.len()
                &&& if delivered == q.len() {
                    final(self).queues() == old(self).queues().remove(agent_id@)
                } else {
                    final(self).queues() == old(self).queues().insert(agent_id@, q.skip(delivered as int))
                }
            },
    {
        let mut q = match table_get(&self.queues, agent_id) {
            Some(q) => q,
            None => {
                return 0;
            }
        };
        let ghost original = q@;
        let mut delivered: usize = 0;
        let total = q.len();
        proof {
            assert(original.skip(0) =~= original);
        }
        let ghost taken0 = sink.accepted();
        proof {
            assert(messages_of(original.take(0)) =~= Seq::<Message>::empty());
            assert(taken0 + Seq::<Message>::empty() =~= taken0);
        }
        loop
            invariant
                delivered <= original.len(),
                original.len() == total,
                q@ == original.skip(delivered as int),
                sink.accepted() == taken0 + messages_of(original.take(delivered as int)),
                taken0 == old(sink).accepted(),
                old(sink).takes_all() ==> sink.takes_all(),
            ensures
                old(sink).takes_all() ==> delivered == original.len(),
                delivered <= original.len(),
                q@ == original.skip(delivered as int),
                sink.accepted() == taken0 + messages_of(original.take(delivered as int)),
            decreases original.len() - delivered,
        {
            match q.pop_front() {
                None => {
                    break;
                }
                Some(qm) => {
                    let QueuedMessage { msg, enqueued_at, retries } = qm;
                    let ghost before = sink.accepted();
                    match sink.send(msg) {
                        Err(m) => {
                            q.push_front(QueuedMessage { msg: m, enqueued_at, retries });
                            proof {
                                assert(q@ =~= original.skip(delivered as int));
                            }
                            break;
                        }
                        Ok(()) => {}
                    }
                    proof {
                        assert(q@ =~= original.skip(delivered + 1));
                        assert(original.skip(delivered as int).len() > 0);
                        assert(original[delivered as int] == qm);
                        assert(messages_of(original.take(delivered + 1)) =~= messages_of(original.take(delivered as int)).push(qm.msg));
                        assert(sink.accepted() =~= taken0 + messages_of(original.take(delivered + 1)));
                    }
                    delivered = delivered + 1;
                }
            }
        }
        let ghost before = queue_table(self.queues);
        if q.len() == 0 {
            table_remove(&mut self.queues, agent_id);
            proof {
                contents_remove(before, agent_id@);
                assert(original.skip(delivered as int).len() == 0);
            }
        } else {
            table_insert(&mut self.queues, agent_id.to_string(), q);
            proof {
                contents_insert(before, agent_id@, q);
            }
        }
        delivered
    }

    /// Drops every message that is `max_age_secs` or more old at time `now`,
    /// and every queue left empty.
    pub fn prune_old_at(&mut self, max_age_secs: i64, now: i64)
        ensures
            final(self).queues() == pruned(old(self).queues(), max_age_secs, now),
    {
        let lengths = table_entries(&self.queues);
        let ghost m0 = self.queues();
        let mut i: usize = 0;
        while i < lengths.len()
            invariant
                i <= lengths@.len(),
                forall|j: int| 0 <= j < lengths@.len() ==> #[trigger] m0.contains_key(lengths@[j].0@),
                forall|a: int, b: int| 0 <= a < b < lengths@.len() ==> lengths@[a].0@ != lengths@[b].0@,
                forall|k: Seq<char>| #[trigger] m0.contains_key(k) ==> exists|j: int| 0 <= j < lengths@.len() && lengths@[j].0@ == k,
                forall|k: Seq<char>| (exists|j: int| 0 <= j < i && lengths@[j].0@ == k) ==> (#[trigger] self.queues().contains_key(k)) == pruned(m0, max_age_secs, now).contains_key(k),
                forall|k: Seq<char>| (exists|j: int| 0 <= j < i && lengths@[j].0@ == k) && #[trigger] self.queues().contains_key(k) ==> self.queues()[k] == pruned(m0, max_age_secs, now)[k],
                forall|k: Seq<char>| !(exists|j: int| 0 <= j < i && lengths@[j].0@ == k) ==> (#[trigger] self.queues().contains_key(k)) == m0.contains_key(k),
                forall|k: Seq<char>| !(exists|j: int| 0 <= j < i && lengths@[j].0@ == k) && #[trigger] self.queues().contains_key(k) ==> self.queues()[k] == m0[k],
            decreases lengths@.len() - i,
        {
            let key = &lengths[i].0;
            proof {
                assert(m0.contains_key(key@));
                assert(!(exists|j: int| 0 <= j < i && lengths@[j].0@ == key@)) by {
                    if exists|j: int| 0 <= j < i && lengths@[j].0@ == key@ {
                        let j = choose|j: int| 0 <= j < i && lengths@[j].0@ == key@;
                        assert(lengths@[j].0@ != lengths@[i as int].0@);
                    }
                }
            }
            proof {
                assert(self.queues().contains_key(key@));
                assert(self.queues()[key@] == m0[key@]);
            }
            let q = match table_get(&self.queues, key.as_str()) {
                Some(q) => q,
                None => VecDeque::new(),
            };
            proof {
                assert(q@ == m0[key@]);
            }
            let kept = keep_young(q, max_age_secs, now);
            let ghost before = queue_table(self.queues);
            if kept.len() == 0 {
                table_remove(&mut self.queues, key.as_str());
                proof {
                    contents_remove(before, key@);
                }
            } else {
                table_insert(&mut self.queues, key.clone(), kept);
                proof {
                    contents_insert(before, key@, kept);
                }
            }
            proof {
                assert forall|k: Seq<char>| (exists|j: int| 0 <= j < i + 1 && lengths@[j].0@ == k) implies (#[trigger] self.queues().contains_key(k)) == pruned(m0, max_age_secs, now).contains_key(k) by {
                    if k != key@ {
                        let j = choose|j: int| 0 <= j < i + 1 && lengths@[j].0@ == k;
                        assert(j != i);
                    }
                }
                assert forall|k: Seq<char>| (exists|j: int| 0 <= j < i + 1 && lengths@[j].0@ == k) && #[trigger] self.queues().contains_key(k) implies self.queues()[k] == pruned(m0, max_age_secs, now)[k] by {
                    if k != key@ {
                        let j = choose|j: int| 0 <= j < i + 1 && lengths@[j].0@ == k;
                        assert(j != i);
                    }
                }
                assert forall|k: Seq<char>| !(exists|j: int| 0 <= j < i + 1 && lengths@[j].0@ == k) implies (#[trigger] self.queues().contains_key(k)) == m0.contains_key(k) by {
                    assert(k != lengths@[i as int].0@);
                }
                assert forall|k: Seq<char>| !(exists|j: int| 0 <= j < i + 1 && lengths@[j].0@ == k) && #[trigger] self.queues().contains_key(k) implies self.queues()[k] == m0[k] by {
                    assert(k != lengths@[i as int].0@);
                }
            }
            i = i + 1;
        }
        proof {
            assert(self.queues() =~= pruned(m0, max_age_secs, now)) by {
                assert forall|k: Seq<char>| #[trigger] self.queues().contains_key(k) <==> pruned(m0, max_age_secs, now).contains_key(k) by {
                    if m0.contains_key(k) {
                        let j = choose|j: int| 0 <= j < lengths@.len() && lengths@[j].0@ == k;
                    }
                }
            }
        }
    }

    /// Drops every message that is `max_age_secs` or more old now, and every
    /// queue left empty.
    pub fn prune_old(&mut self, max_age_secs: i64)
        ensures
            exists|now: i64| final(self).queues() == pruned(old(self).queues(), max_age_secs, now),
    {
        let now = utc_now_millis();
        self.prune_old_at(max_age_secs, now);
    }

    /// Every agent with a queue once, with its queue length, in the table's
    /// own order.
    pub fn stats(&self) -> (r: Vec<(String, usize)>)
        ensures
            r@.len() == self.queues().dom().len(),
            forall|i: int| 0 <= i < r@.len() ==> #[trigger] self.queues().contains_key(r@[i].0@)
                && self.queues()[r@[i].0@].len() == r@[i].1,
            forall|i: int, j: int| 0 <= i < j < r@.len() ==> r@[i].0@ != r@[j].0@,
            forall|k: Seq<char>| #[trigger] self.queues().contains_key(k) ==> exists|i: int| 0 <= i < r@.len() && r@[i].0@ == k,
    {
        let entries = table_entries(&self.queues);
        let mut r: Vec<(String, usize)> = Vec::new();
        let mut i: usize = 0;
        while i < entries.len()
            invariant
                i <= entries@.len(),
                r@.len() == i,
                forall|j: int| 0 <= j < i ==> #[trigger] r@[j].0@ == entries@[j].0@ && r@[j].1 == entries@[j].1@.len(),
            decreases entries@.len() - i,
        {
            let key = entries[i].0.clone();
            let n = entries[i].1.len();
            r.push((key, n));
            i = i + 1;
        }
        proof {
            assert(self.queues().dom() =~= queue_table(self.queues).dom());
            assert forall|k: Seq<char>| #[trigger] self.queues().contains_key(k) implies exists|i: int| 0 <= i < r@.len() && r@[i].0@ == k by {
                let j = choose|j: int| 0 <= j < entries@.len() && entries@[j].0@ == k;
                assert(r@[j].0@ == k);
            }
            assert forall|a: int, b: int| 0 <= a < b < r@.len() implies r@[a].0@ != r@[b].0@ by {
                assert(r@[a].0@ == entries@[a].0@);
                assert(r@[b].0@ == entries@[b].0@);
            }
        }
        r
    }
}

/// Every message that `young` keeps is younger than the limit.
proof fn young_are_young(q: Seq<QueuedMessage>, max_age_secs: i64, now: i64)
    ensures
        forall|i: int| 0 <= i < young(q, max_age_secs, now).len() ==>
            whole_seconds(#[trigger] young(q, max_age_secs, now)[i].enqueued_at, now) < max_age_secs,
    decreases q.len(),
{
    if q.len() > 0 {
        young_are_young(q.drop_last(), max_age_secs, now);
    }
}

/// Pruning leaves no empty queue, and every message it keeps is younger
/// than `max_age_secs` at the time of pruning.
pub proof fn pruned_queues_hold_only_young_messages(m: Map<Seq<char>, Seq<QueuedMessage>>, max_age_secs: i64, now: i64)
    ensures
        forall|k: Seq<char>| #[trigger] pruned(m, max_age_secs, now).contains_key(k) ==> pruned(m, max_age_secs, now)[k].len() > 0,
        forall|k: Seq<char>, i: int| pruned(m, max_age_secs, now).contains_key(k) && 0 <= i < pruned(m, max_age_secs, now)[k].len() ==>
            whole_seconds(#[trigger] pruned(m, max_age_secs, now)[k][i].enqueued_at, now) < max_age_secs,
{
    assert forall|k: Seq<char>, i: int| pruned(m, max_age_secs, now).contains_key(k) && 0 <= i < pruned(m, max_age_secs, now)[k].len() implies
        whole_seconds(#[trigger] pruned(m, max_age_secs, now)[k][i].enqueued_at, now) < max_age_secs by {
        young_are_young(m[k], max_age_secs, now);
    }
}

/// Whether a queued message is younger than `max_age_secs` whole seconds at
/// time `now`.
pub open spec fn is_young(max_age_secs: i64, now: i64) -> spec_fn(QueuedMessage) -> bool {
    |q: QueuedMessage| whole_seconds(q.enqueued_at, now) < max_age_secs
}

proof fn young_is_filter(q: Seq<QueuedMessage>, max_age_secs: i64, now: i64)
    ensures
        young(q, max_age_secs, now) == q.filter(is_young(max_age_secs, now)),
    decreases q.len(),
{
    reveal(Seq::filter);
    if q.len() > 0 {
        young_is_filter(q.drop_last(), max_age_secs, now);
    }
}

/// Pruning keeps every young message and only those, in order: a queue
/// after pruning is the queue before it filtered by age; each message of a
/// queue younger than the limit is still in that agent's queue; and a queue
/// that goes away held no young message.
pub proof fn pruning_keeps_every_young_message(m: Map<Seq<char>, Seq<QueuedMessage>>, max_age_secs: i64, now: i64)
    ensures
        forall|k: Seq<char>| #[trigger] pruned(m, max_age_secs, now).contains_key(k) ==>
            m.contains_key(k) && pruned(m, max_age_secs, now)[k] == m[k].filter(is_young(max_age_secs, now)),
        forall|k: Seq<char>, i: int|
            m.contains_key(k) && 0 <= i < m[k].len() && whole_seconds(#[trigger] m[k][i].enqueued_at, now) < max_age_secs ==> {
                &&& pruned(m, max_age_secs, now).contains_key(k)
                &&& pruned(m, max_age_secs, now)[k].contains(m[k][i])
            },
        forall|k: Seq<char>| m.contains_key(k) && !#[trigger] pruned(m, max_age_secs, now).contains_key(k) ==>
            m[k].filter(is_young(max_age_secs, now)).len() == 0,
{
    assert forall|k: Seq<char>| #[trigger] pruned(m, max_age_secs, now).contains_key(k) implies
        m.contains_key(k) && pruned(m, max_age_secs, now)[k] == m[k].filter(is_young(max_age_secs, now)) by {
        young_is_filter(m[k], max_age_secs, now);
    }
    assert forall|k: Seq<char>, i: int|
        m.contains_key(k) && 0 <= i < m[k].len() && whole_seconds(#[trigger] m[k][i].enqueued_at, now) < max_age_secs implies {
            &&& pruned(m, max_age_secs, now).contains_key(k)
            &&& pruned(m, max_age_secs, now)[k].contains(m[k][i])
        } by {
        young_is_filter(m[k], max_age_secs, now);
        let f = is_young(max_age_secs, now);
        broadcast use vstd::seq_lib::group_filter_ensures;
        assert(f(m[k][i]));
        assert(m[k].filter(f).contains(m[k][i]));
        assert(young(m[k], max_age_secs, now).len() > 0);
    }
    assert forall|k: Seq<char>| m.contains_key(k) && !#[trigger] pruned(m, max_age_secs, now).contains_key(k) implies
        m[k].filter(is_young(max_age_secs, now)).len() == 0 by {
        young_is_filter(m[k], max_age_secs, now);
    }
}

/// The messages of `q` younger than `max_age_secs` at `now`, in order.
fn keep_young(q: VecDeque<QueuedMessage>, max_age_secs: i64, now: i64) -> (r: VecDeque<QueuedMessage>)
    ensures
        r@ == young(q@, max_age_secs, now),
{
    let ghost all = q@;
    let mut rest = q;
    let mut out: VecDeque<QueuedMessage> = VecDeque::new();
    let ghost mut i: int = 0;
    proof {
        assert(all.subrange(0, 0) =~= Seq::<QueuedMessage>::empty());
        assert(all.skip(0) =~= all);
    }
    while rest.len() > 0
        invariant
            0 <= i <= all.len(),
            rest@ == all.skip(i),
            out@ == young(all.subrange(0, i), max_age_secs, now),
        decreases all.len() - i,
    {
        let ghost prefix = all.subrange(0, i + 1);
        proof {
            assert(prefix.drop_last() =~= all.subrange(0, i));
            assert(prefix.last() == all[i]);
        }
        let item = rest.pop_front().unwrap();
        proof {
            assert(item == all[i]);
            assert(rest@ =~= all.skip(i + 1));
        }
        if seconds_between(item.enqueued_at, now) < max_age_secs as i128 {
            out.push_back(item);
        }
        proof {
            i = i + 1;
        }
    }
    proof {
        assert(all.skip(i).len() == 0);
        assert(all.subrange(0, all.len() as int) =~= all);
    }
    out
}

} // verus!
