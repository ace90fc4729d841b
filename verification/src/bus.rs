//! Fan-out of broadcast chunks to subscribers.
//!
//! Every subscriber owns a queue of bounded depth. A chunk that is broadcast
//! is appended to each queue that has room and dropped for each queue that is
//! full, so that what one subscriber receives never depends on another.
use std::collections::VecDeque;
use vstd::prelude::*;

verus! {

/// What a queue holds after one chunk was offered to it: the chunk is taken
/// at the back while the queue is below `depth`, and dropped otherwise.
pub open spec fn deliver(pending: Seq<Seq<u8>>, chunk: Seq<u8>, depth: nat) -> Seq<Seq<u8>> {
    if pending.len() < depth {
        pending.push(chunk)
    } else {
        pending
    }
}

/// What a queue holds after each chunk of `chunks` was offered to it in turn.
pub open spec fn deliver_all(pending: Seq<Seq<u8>>, chunks: Seq<Seq<u8>>, depth: nat) -> Seq<
    Seq<u8>,
>
    decreases chunks.len(),
{
    if chunks.len() == 0 {
        pending
    } else {
        deliver(deliver_all(pending, chunks.drop_last(), depth), chunks.last(), depth)
    }
}

/// The chunks that wait in a queue, oldest first.
spec fn chunks_of(queue: Seq<Vec<u8>>) -> Seq<Seq<u8>> {
    Seq::new(queue.len(), |i: int| queue[i]@)
}

/// The queues after one chunk was broadcast: every subscriber stays, and each
/// queue is what `deliver` makes of it.
pub open spec fn fan_out(queues: Map<u64, Seq<Seq<u8>>>, chunk: Seq<u8>, depth: nat) -> Map<
    u64,
    Seq<Seq<u8>>,
> {
    Map::new(|id: u64| queues.contains_key(id), |id: u64| deliver(queues[id], chunk, depth))
}

/// The queues after each chunk of `chunks` was broadcast in turn.
pub open spec fn fan_out_all(
    queues: Map<u64, Seq<Seq<u8>>>,
    chunks: Seq<Seq<u8>>,
    depth: nat,
) -> Map<u64, Seq<Seq<u8>>>
    decreases chunks.len(),
{
    if chunks.len() == 0 {
        queues
    } else {
        fan_out(fan_out_all(queues, chunks.drop_last(), depth), chunks.last(), depth)
    }
}

/// One receiving endpoint: its identifier and the chunks it has not yet taken.
struct Subscriber {
    id: u64,
    queue: VecDeque<Vec<u8>>,
}

/// A bounded fan-out of byte chunks.
pub struct BroadcastBus {
    depth: usize,
    limit: usize,
    next_id: u64,
    subscribers: Vec<Subscriber>,
}

impl BroadcastBus {
    /// The most chunks that may wait for one subscriber.
    pub closed spec fn depth(&self) -> nat {
        self.depth as nat
    }

    /// The most subscribers that may be registered at one time.
    pub closed spec fn limit(&self) -> nat {
        self.limit as nat
    }

    /// The identifier that the next subscriber gets.
    pub closed spec fn next_id(&self) -> nat {
        self.next_id as nat
    }

    spec fn holds(&self, id: u64, i: int) -> bool {
        0 <= i < self.subscribers@.len() && self.subscribers@[i].id == id
    }

    spec fn position(&self, id: u64) -> int {
        choose|i: int| self.holds(id, i)
    }

    /// The registered subscribers, each with the chunks that wait for it.
    pub closed spec fn queues(&self) -> Map<u64, Seq<Seq<u8>>> {
        Map::new(
            |id: u64| exists|i: int| self.holds(id, i),
            |id: u64| chunks_of(self.subscribers@[self.position(id)].queue@),
        )
    }

    /// The number of registered subscribers.
    pub closed spec fn rx_count(&self) -> nat {
        self.subscribers@.len()
    }

    /// No identifier is registered twice, none was handed out before its
    /// turn, no queue is over its depth, and the subscribers are within the
    /// limit.
    pub closed spec fn wf(&self) -> bool {
        &&& self.subscribers@.len() <= self.limit
        &&& forall|i: int, j: int|
            0 <= i < j < self.subscribers@.len() ==> self.subscribers@[i].id
                != self.subscribers@[j].id
        &&& forall|i: int|
            0 <= i < self.subscribers@.len() ==> (#[trigger] self.subscribers@[i]).id
                < self.next_id
        &&& forall|i: int|
            0 <= i < self.subscribers@.len() ==> (#[trigger] self.subscribers@[i]).queue@.len()
                <= self.depth
    }

    proof fn lemma_position(&self, i: int)
        requires
            self.wf(),
            0 <= i < self.subscribers@.len(),
        ensures
            self.queues().contains_key(self.subscribers@[i].id),
            self.position(self.subscribers@[i].id) == i,
            self.queues()[self.subscribers@[i].id] == chunks_of(self.subscribers@[i].queue@),
    {
        let id = self.subscribers@[i].id;
        assert(self.holds(id, i));
    }

    /// What well-formedness means for the registered queues.
    pub proof fn lemma_bounds(&self)
        requires
            self.wf(),
        ensures
            self.rx_count() <= self.limit(),
            self.queues().dom().finite(),
            self.queues().dom().len() == self.rx_count(),
            forall|id: u64| #[trigger]
                self.queues().contains_key(id) ==> id < self.next_id() && self.queues()[id].len()
                    <= self.depth(),
    {
        let ids = Seq::new(self.subscribers@.len(), |i: int| self.subscribers@[i].id);
        assert(ids.no_duplicates());
        assert forall|id: u64| self.queues().dom().contains(id) <==> ids.to_set().contains(
            id,
        ) by {
            if self.queues().dom().contains(id) {
                let i = self.position(id);
                assert(self.holds(id, i));
                assert(ids[i] == id);
            }
            if ids.to_set().contains(id) {
                let i = choose|i: int| 0 <= i < ids.len() && ids[i] == id;
                assert(self.holds(id, i));
            }
        }
        assert(self.queues().dom() =~= ids.to_set());
        vstd::seq_lib::seq_to_set_is_finite(ids);
        ids.unique_seq_to_set();
        assert forall|id: u64| #[trigger] self.queues().contains_key(id) implies id
            < self.next_id() && self.queues()[id].len() <= self.depth() by {
            let i = self.position(id);
            assert(self.holds(id, i));
            self.lemma_position(i);
        }
    }

    /// A bus without subscribers.
    pub fn new(depth: usize, limit: usize) -> (bus: Self)
        ensures
            bus.wf(),
            bus.depth() == depth,
            bus.limit() == limit,
            bus.next_id() == 0,
            bus.rx_count() == 0,
            bus.queues() == Map::<u64, Seq<Seq<u8>>>::empty(),
    {
        let bus = BroadcastBus { depth, limit, next_id: 0, subscribers: Vec::new() };
        assert(bus.queues() =~= Map::<u64, Seq<Seq<u8>>>::empty());
        bus
    }

    fn find(&self, id: u64) -> (at: Option<usize>)
        ensures
            match at {
                Some(i) => self.holds(id, i as int),
                None => forall|i: int| !self.holds(id, i),
            },
    {
        let mut i: usize = 0;
        while i < self.subscribers.len()
            invariant
                i <= self.subscribers@.len(),
                forall|j: int| 0 <= j < i ==> !self.holds(id, j),
            decreases self.subscribers@.len() - i,
        {
            if self.subscribers[i].id == id {
                return Some(i);
            }
            i += 1;
        }
        None
    }

    /// Registers a new subscriber and returns its identifier.
    ///
    /// The subscriber starts with an empty queue: nothing that was broadcast
    /// before is replayed to it. `None` is returned, and nothing changes,
    /// when the bus already holds as many subscribers as it admits, or when
    /// the identifiers are used up.
    pub fn subscribe(&mut self) -> (id: Option<u64>)
        requires
            old(self).wf(),
        ensures
            final(self).wf(),
            final(self).depth() == old(self).depth(),
            final(self).limit() == old(self).limit(),
            id.is_some() <==> old(self).rx_count() < old(self).limit() && old(self).next_id()
                < u64::MAX,
            match id {
                Some(id) => {
                    &&& id == old(self).next_id()
                    &&& !old(self).queues().contains_key(id)
                    &&& final(self).next_id() == old(self).next_id() + 1
                    &&& final(self).rx_count() == old(self).rx_count() + 1
                    &&& final(self).queues() == old(self).queues().insert(
                        id,
                        Seq::<Seq<u8>>::empty(),
                    )
                },
                None => {
                    &&& final(self).next_id() == old(self).next_id()
                    &&& final(self).rx_count() == old(self).rx_count()
                    &&& final(self).queues() == old(self).queues()
                },
            },
    {
        if self.subscribers.len() >= self.limit || self.next_id == u64::MAX {
            return None;
        }
        let id = self.next_id;
        proof {
            old(self).lemma_bounds();
        }
        self.subscribers.push(Subscriber { id, queue: VecDeque::new() });
        self.next_id = id + 1;
        proof {
            let n = old(self).subscribers@.len() as int;
            assert(self.subscribers@[n].queue@.len() == 0);
            assert(self.wf());
            self.lemma_position(n);
            assert(chunks_of(self.subscribers@[n].queue@) =~= Seq::<Seq<u8>>::empty());
            assert forall|other: u64| #[trigger]
                self.queues().contains_key(other) <==> old(self).queues().insert(
                    id,
                    Seq::<Seq<u8>>::empty(),
                ).contains_key(other) by {
                if self.queues().contains_key(other) {
                    let i = self.position(other);
                    assert(self.holds(other, i));
                    if i < n {
                        assert(old(self).holds(other, i));
                    }
                }
                if old(self).queues().contains_key(other) {
                    let i = old(self).position(other);
                    assert(old(self).holds(other, i));
                    assert(self.holds(other, i));
                }
                if other == id {
                    assert(self.holds(other, n));
                }
            }
            assert forall|other: u64| #[trigger]
                self.queues().contains_key(other) implies self.queues()[other] == old(
                self,
            ).queues().insert(id, Seq::<Seq<u8>>::empty())[other] by {
                let i = self.position(other);
                assert(self.holds(other, i));
                self.lemma_position(i);
                if i < n {
                    assert(old(self).holds(other, i));
                    old(self).lemma_position(i);
                }
            }
            assert(self.queues() =~= old(self).queues().insert(id, Seq::<Seq<u8>>::empty()));
        }
        Some(id)
    }

    /// Offers a chunk to every subscriber.
    ///
    /// Each queue that is below the depth takes the chunk at its back; for a
    /// queue that is full the chunk is dropped. The set of subscribers does
    /// not change.
    pub fn broadcast(&mut self, chunk: &Vec<u8>)
        requires
            old(self).wf(),
        ensures
            final(self).wf(),
            final(self).depth() == old(self).depth(),
            final(self).limit() == old(self).limit(),
            final(self).next_id() == old(self).next_id(),
            final(self).rx_count() == old(self).rx_count(),
            final(self).queues() == fan_out(old(self).queues(), chunk@, old(self).depth()),
    {
        let n = self.subscribers.len();
        let mut i: usize = 0;
        while i < n
            invariant
                i <= n,
                n == self.subscribers@.len(),
                n == old(self).subscribers@.len(),
                self.depth == old(self).depth,
                self.limit == old(self).limit,
                self.next_id == old(self).next_id,
                old(self).wf(),
                forall|j: int|
                    0 <= j < n ==> (#[trigger] self.subscribers@[j]).id == old(
                        self,
                    ).subscribers@[j].id,
                forall|j: int|
                    0 <= j < i ==> chunks_of((#[trigger] self.subscribers@[j]).queue@) == deliver(
                        chunks_of(old(self).subscribers@[j].queue@),
                        chunk@,
                        self.depth as nat,
                    ),
                forall|j: int|
                    i <= j < n ==> (#[trigger] self.subscribers@[j]).queue@ == old(
                        self,
                    ).subscribers@[j].queue@,
                forall|j: int|
                    0 <= j < n ==> (#[trigger] self.subscribers@[j]).queue@.len() <= self.depth,
            decreases n - i,
        {
            let ghost before = self.subscribers@;
            if self.subscribers[i].queue.len() < self.depth {
                let copy = chunk.clone();
                assert(copy@ =~= chunk@);
                self.subscribers[i].queue.push_back(copy);
                assert(chunks_of(self.subscribers@[i as int].queue@) =~= chunks_of(
                    before[i as int].queue@,
                ).push(chunk@));
            }
            assert(forall|j: int|
                0 <= j < n && j != i ==> (#[trigger] self.subscribers@[j]) == before[j]);
            i += 1;
        }
        proof {
            assert(self.wf());
            assert forall|id: u64| #[trigger]
                self.queues().contains_key(id) <==> old(self).queues().contains_key(id) by {
                if self.queues().contains_key(id) {
                    let k = self.position(id);
                    assert(self.holds(id, k));
                    assert(old(self).holds(id, k));
                }
                if old(self).queues().contains_key(id) {
                    let k = old(self).position(id);
                    assert(old(self).holds(id, k));
                    assert(self.holds(id, k));
                }
            }
            assert forall|id: u64| #[trigger]
                old(self).queues().contains_key(id) implies self.queues()[id] == deliver(
                old(self).queues()[id],
                chunk@,
                old(self).depth(),
            ) by {
                let k = old(self).position(id);
                assert(old(self).holds(id, k));
                old(self).lemma_position(k);
                self.lemma_position(k);
            }
            assert(self.queues() =~= fan_out(old(self).queues(), chunk@, old(self).depth()));
        }
    }

    /// Takes the oldest chunk that waits for subscriber `id`.
    ///
    /// `None` is returned, and nothing changes, when `id` is not registered
    /// or nothing waits for it.
    pub fn recv(&mut self, id: u64) -> (chunk: Option<Vec<u8>>)
        requires
            old(self).wf(),
        ensures
            final(self).wf(),
            final(self).depth() == old(self).depth(),
            final(self).limit() == old(self).limit(),
            final(self).next_id() == old(self).next_id(),
            final(self).rx_count() == old(self).rx_count(),
            chunk.is_some() <==> old(self).queues().contains_key(id) && old(self).queues()[id].len()
                > 0,
            match chunk {
                Some(c) => {
                    &&& c@ == old(self).queues()[id].first()
                    &&& final(self).queues() == old(self).queues().insert(
                        id,
                        old(self).queues()[id].drop_first(),
                    )
                },
                None => final(self).queues() == old(self).queues(),
            },
    {
        match self.find(id) {
            None => None,
            Some(i) => {
                proof {
                    old(self).lemma_position(i as int);
                }
                let taken = self.subscribers[i].queue.pop_front();
                proof {
                    let k = i as int;
                    assert(forall|j: int|
                        0 <= j < self.subscribers@.len() && j != k ==> (
                        #[trigger] self.subscribers@[j]) == old(self).subscribers@[j]);
                    assert(self.subscribers@[k].id == id);
                    assert(self.wf());
                    self.lemma_position(k);
                    if taken.is_some() {
                        assert(chunks_of(self.subscribers@[k].queue@) =~= chunks_of(
                            old(self).subscribers@[k].queue@,
                        ).drop_first());
                    }
                    let target = if taken.is_some() {
                        old(self).queues().insert(id, old(self).queues()[id].drop_first())
                    } else {
                        old(self).queues()
                    };
                    assert forall|other: u64| #[trigger]
                        self.queues().contains_key(other) <==> target.contains_key(other) by {
                        if self.queues().contains_key(other) {
                            let j = self.position(other);
                            assert(self.holds(other, j));
                            assert(old(self).holds(other, j));
                        }
                        if old(self).queues().contains_key(other) {
                            let j = old(self).position(other);
                            assert(old(self).holds(other, j));
                            assert(self.holds(other, j));
                        }
                    }
                    assert forall|other: u64| #[trigger]
                        self.queues().contains_key(other) implies self.queues()[other]
                        == target[other] by {
                        let j = self.position(other);
                        assert(self.holds(other, j));
                        self.lemma_position(j);
                        old(self).lemma_position(j);
                    }
                    assert(self.queues() =~= target);
                }
                taken
            },
        }
    }

    /// Removes subscriber `id` together with whatever still waits for it.
    ///
    /// Returns whether `id` was registered. The other subscribers keep their
    /// queues as they are.
    pub fn unsubscribe(&mut self, id: u64) -> (removed: bool)
        requires
            old(self).wf(),
        ensures
            final(self).wf(),
            final(self).depth() == old(self).depth(),
            final(self).limit() == old(self).limit(),
            final(self).next_id() == old(self).next_id(),
            removed == old(self).queues().contains_key(id),
            final(self).queues() == old(self).queues().remove(id),
            final(self).rx_count() == old(self).rx_count() - if removed {
                1int
            } else {
                0int
            },
    {
        match self.find(id) {
            None => {
                assert(self.queues() =~= old(self).queues().remove(id));
                false
            },
            Some(i) => {
                let _ = self.subscribers.remove(i);
                proof {
                    let k = i as int;
                    let before = old(self).subscribers@;
                    assert(old(self).holds(id, k));
                    assert forall|j: int| 0 <= j < self.subscribers@.len() implies (
                    #[trigger] self.subscribers@[j]) == before[if j < k {
                        j
                    } else {
                        j + 1
                    }] by {}
                    assert(self.wf());
                    assert forall|other: u64| #[trigger]
                        self.queues().contains_key(other) <==> old(self).queues().remove(
                            id,
                        ).contains_key(other) by {
                        if self.queues().contains_key(other) {
                            let j = self.position(other);
                            assert(self.holds(other, j));
                            let src = if j < k {
                                j
                            } else {
                                j + 1
                            };
                            assert(old(self).holds(other, src));
                        }
                        if old(self).queues().contains_key(other) && other != id {
                            let j = old(self).position(other);
                            assert(old(self).holds(other, j));
                            let dst = if j < k {
                                j
                            } else {
                                j - 1
                            };
                            assert(self.holds(other, dst));
                        }
                    }
                    assert forall|other: u64| #[trigger]
                        self.queues().contains_key(other) implies self.queues()[other] == old(
                        self,
                    ).queues().remove(id)[other] by {
                        let j = self.position(other);
                        assert(self.holds(other, j));
                        self.lemma_position(j);
                        let src = if j < k {
                            j
                        } else {
                            j + 1
                        };
                        old(self).lemma_position(src);
                    }
                    assert(self.queues() =~= old(self).queues().remove(id));
                }
                true
            },
        }
    }

    /// Whether `id` is registered.
    pub fn is_subscribed(&self, id: u64) -> (found: bool)
        ensures
            found == self.queues().contains_key(id),
    {
        self.find(id).is_some()
    }

    /// The number of chunks that wait for subscriber `id`; zero when `id` is
    /// not registered.
    pub fn pending(&self, id: u64) -> (count: usize)
        requires
            self.wf(),
        ensures
            count == if self.queues().contains_key(id) {
                self.queues()[id].len()
            } else {
                0
            },
    {
        match self.find(id) {
            None => 0,
            Some(i) => {
                proof {
                    self.lemma_position(i as int);
                }
                self.subscribers[i].queue.len()
            },
        }
    }

    /// The number of registered subscribers.
    pub fn subscriber_count(&self) -> (count: usize)
        ensures
            count == self.rx_count(),
    {
        self.subscribers.len()
    }
}

/// Broadcasting treats every queue on its own: after a run of broadcasts the
/// subscribers are those that were there before, and the queue of each is
/// what offering the chunks to that queue alone gives.
pub proof fn lemma_fan_out_all_pointwise(
    queues: Map<u64, Seq<Seq<u8>>>,
    chunks: Seq<Seq<u8>>,
    depth: nat,
)
    ensures
        fan_out_all(queues, chunks, depth).dom() == queues.dom(),
        forall|id: u64| #[trigger]
            queues.contains_key(id) ==> fan_out_all(queues, chunks, depth)[id] == deliver_all(
                queues[id],
                chunks,
                depth,
            ),
    decreases chunks.len(),
{
    if chunks.len() > 0 {
        lemma_fan_out_all_pointwise(queues, chunks.drop_last(), depth);
        assert(fan_out_all(queues, chunks, depth).dom() =~= queues.dom());
    }
}

/// An empty queue that is offered a run of chunks holds the first of them, in
/// their order, as far as its depth goes.
pub proof fn lemma_deliver_all_from_empty(chunks: Seq<Seq<u8>>, depth: nat)
    ensures
        deliver_all(Seq::empty(), chunks, depth) == chunks.subrange(
            0,
            if chunks.len() <= depth {
                chunks.len() as int
            } else {
                depth as int
            },
        ),
    decreases chunks.len(),
{
    let kept = if chunks.len() <= depth {
        chunks.len() as int
    } else {
        depth as int
    };
    if chunks.len() == 0 {
        assert(deliver_all(Seq::empty(), chunks, depth) =~= chunks.subrange(0, kept));
    } else {
        lemma_deliver_all_from_empty(chunks.drop_last(), depth);
        assert(deliver_all(Seq::empty(), chunks, depth) =~= chunks.subrange(0, kept));
    }
}

/// No replay: a subscriber that joins after `earlier` was broadcast, and then
/// sees `later` broadcast, holds chunks of `later` only: the first of them,
/// in their order, as far as the depth goes. Nothing of `earlier` reaches it.
pub proof fn lemma_late_subscriber_gets_no_replay(
    queues: Map<u64, Seq<Seq<u8>>>,
    earlier: Seq<Seq<u8>>,
    later: Seq<Seq<u8>>,
    id: u64,
    depth: nat,
)
    requires
        !queues.contains_key(id),
    ensures
        !fan_out_all(queues, earlier, depth).contains_key(id),
        fan_out_all(
            fan_out_all(queues, earlier, depth).insert(id, Seq::empty()),
            later,
            depth,
        )[id] == later.subrange(
            0,
            if later.len() <= depth {
                later.len() as int
            } else {
                depth as int
            },
        ),
{
    lemma_fan_out_all_pointwise(queues, earlier, depth);
    let joined = fan_out_all(queues, earlier, depth).insert(id, Seq::empty());
    lemma_fan_out_all_pointwise(joined, later, depth);
    assert(joined.contains_key(id));
    lemma_deliver_all_from_empty(later, depth);
}

/// Independence: what a subscriber receives from a run of broadcasts depends
/// on its own queue alone. Two buses that agree on the queue of `id` agree on
/// it afterwards, whoever else is registered, whether their queues are full,
/// and whether they are still there.
pub proof fn lemma_delivery_ignores_other_subscribers(
    here: Map<u64, Seq<Seq<u8>>>,
    there: Map<u64, Seq<Seq<u8>>>,
    chunks: Seq<Seq<u8>>,
    id: u64,
    depth: nat,
)
    requires
        here.contains_key(id),
        there.contains_key(id),
        here[id] == there[id],
    ensures
        fan_out_all(here, chunks, depth)[id] == fan_out_all(there, chunks, depth)[id],
        fan_out_all(here, chunks, depth)[id] == deliver_all(here[id], chunks, depth),
{
    lemma_fan_out_all_pointwise(here, chunks, depth);
    lemma_fan_out_all_pointwise(there, chunks, depth);
}

/// Order: a queue with room for a whole run of chunks holds them afterwards
/// behind what it held before, in the order in which they were broadcast.
pub proof fn lemma_deliver_all_in_order(pending: Seq<Seq<u8>>, chunks: Seq<Seq<u8>>, depth: nat)
    requires
        pending.len() + chunks.len() <= depth,
    ensures
        deliver_all(pending, chunks, depth) == pending + chunks,
    decreases chunks.len(),
{
    if chunks.len() == 0 {
        assert(pending + chunks =~= pending);
    } else {
        lemma_deliver_all_in_order(pending, chunks.drop_last(), depth);
        assert((pending + chunks.drop_last()).push(chunks.last()) =~= pending + chunks);
    }
}

} // verus!
