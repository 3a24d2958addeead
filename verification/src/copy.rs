use vstd::prelude::*;
use vstd::rwlock::{RwLock, RwLockPredicate, WriteHandle};

use std::sync::Arc;

use crate::structs::{EveError, PollResult, Producer};

verus! {

/// Fan-out buffer: one producer feeds any number of consumers, each advancing
/// at its own pace. Items are produced exactly once and broadcast, at the
/// moment of production, into the private queue of every consumer that exists
/// at that moment.
///
/// The ghost fields record the whole history against which the buffers are
/// stated: `produced` is everything the producer has emitted, `starts[i]` is
/// how many items had been produced when consumer `i` subscribed, `delivered[i]`
/// is the global index of the next item consumer `i` will receive, and
/// `handed[i]` are the values consumer `i` has already received. Since items
/// enter the queues by `clone`, a received value is tied to the produced one
/// by [`cloned`].
pub struct StreamCopy<T, P: Producer<T>> {
    pub input: P,
    pub buffers: Vec<Vec<T>>,
    pub idx: usize,
    /// Once the producer reports `Finished`, that outcome is cached here, so
    /// the producer is never polled again and every consumer that drains its
    /// queue observes `Finished` deterministically.
    pub done: bool,
    pub produced: Ghost<Seq<T>>,
    pub starts: Ghost<Seq<int>>,
    pub delivered: Ghost<Seq<int>>,
    pub handed: Ghost<Seq<Seq<T>>>,
    /// How many times the producer has been polled.
    pub polls: Ghost<int>,
}

impl<T: Clone, P: Producer<T>> StreamCopy<T, P> {
    /// Number of consumers registered so far.
    pub open spec fn num_consumers(self) -> int {
        self.idx as int
    }

    /// Consumer `i`'s queue holds exactly the produced items it has not yet
    /// received, in production order, clone for clone.
    pub open spec fn consumer_ok(self, i: int) -> bool {
        &&& 0 <= self.starts@[i] <= self.delivered@[i] <= self.produced@.len()
        &&& self.buffers@[i]@.len() == self.produced@.len() - self.delivered@[i]
        &&& forall|k: int|
            self.delivered@[i] <= k < self.produced@.len() ==> cloned::<T>(
                self.produced@[k],
                #[trigger] self.buffers@[i]@[k - self.delivered@[i]],
            )
        &&& self.handed@[i].len() == self.delivered@[i] - self.starts@[i]
        &&& forall|j: int|
            0 <= j < self.handed@[i].len() ==> cloned::<T>(
                self.produced@[self.starts@[i] + j],
                #[trigger] self.handed@[i][j],
            )
    }

    pub open spec fn wf(self) -> bool {
        &&& self.buffers@.len() == self.idx
        &&& self.starts@.len() == self.idx
        &&& self.delivered@.len() == self.idx
        &&& self.handed@.len() == self.idx
        &&& forall|i: int| 0 <= i < self.idx ==> #[trigger] self.consumer_ok(i)
    }

    /// The transition registering one consumer makes on the core: one more
    /// empty queue, subscribed at the current end of production; nothing else
    /// moves and the producer is not touched.
    pub open spec fn create_transition(pre: Self, post: Self) -> bool {
        &&& post.idx == pre.idx + 1
        &&& post.input == pre.input
        &&& post.done == pre.done
        &&& post.polls == pre.polls
        &&& post.produced == pre.produced
        &&& post.starts@ == pre.starts@.push(pre.produced@.len() as int)
        &&& post.delivered@ == pre.delivered@.push(pre.produced@.len() as int)
        &&& post.handed@ == pre.handed@.push(Seq::empty())
        &&& post.buffers@.len() == pre.buffers@.len() + 1
        &&& (forall|j: int| 0 <= j < pre.buffers@.len() ==> post.buffers@[j] == pre.buffers@[j])
        &&& post.buffers@[pre.buffers@.len() as int]@ == Seq::<T>::empty()
    }

    /// Pop the head of consumer `id`'s queue, if there is one. No producer
    /// interaction, no effect on any other consumer.
    fn buffered_poll(&mut self, id: usize) -> (r: Option<T>)
        requires
            old(self).wf(),
            id < old(self).num_consumers(),
        ensures
            final(self).wf(),
            final(self).input == old(self).input,
            final(self).idx == old(self).idx,
            final(self).done == old(self).done,
            final(self).produced == old(self).produced,
            final(self).starts == old(self).starts,
            final(self).polls == old(self).polls,
            forall|j: int|
                0 <= j < old(self).num_consumers() && j != id ==> final(self).buffers@[j]
                    == old(self).buffers@[j] && final(self).delivered@[j] == old(
                    self,
                ).delivered@[j] && final(self).handed@[j] == old(self).handed@[j],
            match r {
                Some(item) => {
                    &&& old(self).delivered@[id as int] < old(self).produced@.len()
                    &&& item == old(self).buffers@[id as int]@[0]
                    &&& final(self).buffers@[id as int]@ == old(self).buffers@[id as int]@.skip(1)
                    &&& final(self).buffers@ == old(self).buffers@.update(
                        id as int,
                        final(self).buffers@[id as int],
                    )
                    &&& cloned::<T>(old(self).produced@[old(self).delivered@[id as int]], item)
                    &&& final(self).delivered@ == old(self).delivered@.update(
                        id as int,
                        old(self).delivered@[id as int] + 1,
                    )
                    &&& final(self).handed@ == old(self).handed@.update(
                        id as int,
                        old(self).handed@[id as int].push(item),
                    )
                },
                None => {
                    &&& old(self).delivered@[id as int] == old(self).produced@.len()
                    &&& final(self).delivered == old(self).delivered
                    &&& final(self).handed == old(self).handed
                    &&& final(self).buffers == old(self).buffers
                },
            },
    {
        let ghost pre = *self;
        assert(pre.consumer_ok(id as int));
        if self.buffers[id].len() > 0 {
            let item = self.buffers[id].remove(0);
            proof {
                pre.buffers@[id as int]@.remove_ensures(0);
                let d = pre.delivered@[id as int];
                assert(pre.buffers@[id as int]@[d - d] == item);
                assert(cloned::<T>(pre.produced@[d], item));
                assert(self.buffers@[id as int]@ =~= pre.buffers@[id as int]@.skip(1));
            }
            self.delivered = Ghost(
                self.delivered@.update(id as int, self.delivered@[id as int] + 1),
            );
            self.handed = Ghost(self.handed@.update(id as int, self.handed@[id as int].push(item)));
            proof {
                assert forall|i: int| 0 <= i < self.idx implies #[trigger] self.consumer_ok(
                    i,
                ) by {
                    assert(pre.consumer_ok(i));
                    if i == id as int {
                        pre.buffers@[i]@.remove_ensures(0);
                        let d = pre.delivered@[i];
                        assert forall|k: int|
                            self.delivered@[i] <= k < self.produced@.len() implies cloned::<T>(
                            self.produced@[k],
                            #[trigger] self.buffers@[i]@[k - self.delivered@[i]],
                        ) by {
                            assert(self.buffers@[i]@[k - d - 1] == pre.buffers@[i]@[k - d]);
                            assert(cloned::<T>(pre.produced@[k], pre.buffers@[i]@[k - d]));
                        }
                        assert forall|j: int| 0 <= j < self.handed@[i].len() implies cloned::<T>(
                            self.produced@[self.starts@[i] + j],
                            #[trigger] self.handed@[i][j],
                        ) by {
                            if j < pre.handed@[i].len() {
                                assert(self.handed@[i][j] == pre.handed@[i][j]);
                                assert(cloned::<T>(pre.produced@[pre.starts@[i] + j], pre.handed@[i][j]));
                            } else {
                                assert(self.handed@[i][j] == item);
                                assert(self.starts@[i] + j == d);
                            }
                        }
                    }
                }
            }
            Some(item)
        } else {
            None
        }
    }

    /// Append a clone of a freshly produced item to every consumer's queue,
    /// the polling consumer's own queue included, and record the item as
    /// produced. Cursors do not move: nobody has received the item yet.
    fn fan_out(&mut self, event: &T)
        requires
            old(self).wf(),
        ensures
            final(self).wf(),
            final(self).input == old(self).input,
            final(self).idx == old(self).idx,
            final(self).done == old(self).done,
            final(self).starts == old(self).starts,
            final(self).delivered == old(self).delivered,
            final(self).handed == old(self).handed,
            final(self).polls == old(self).polls,
            final(self).produced@ == old(self).produced@.push(*event),
            forall|j: int|
                0 <= j < old(self).buffers@.len() ==> #[trigger] final(self).buffers@[j]@ == old(
                    self,
                ).buffers@[j]@.push(final(self).buffers@[j]@.last()) && cloned::<T>(
                    *event,
                    final(self).buffers@[j]@.last(),
                ),
    {
        let ghost pre = *self;
        let n = self.buffers.len();
        let mut i: usize = 0;
        while i < n
            invariant
                pre.wf(),
                n == pre.buffers@.len(),
                0 <= i <= n,
                self.input == pre.input,
                self.idx == pre.idx,
                self.done == pre.done,
                self.produced == pre.produced,
                self.starts == pre.starts,
                self.delivered == pre.delivered,
                self.handed == pre.handed,
                self.polls == pre.polls,
                self.buffers@.len() == n,
                forall|j: int|
                    0 <= j < i ==> (#[trigger] self.buffers@[j]@.len() == pre.buffers@[j]@.len()
                        + 1 && self.buffers@[j]@ =~= pre.buffers@[j]@.push(
                        self.buffers@[j]@.last(),
                    ) && cloned::<T>(*event, self.buffers@[j]@.last())),
                forall|j: int| i <= j < n ==> #[trigger] self.buffers@[j] == pre.buffers@[j],
            decreases n - i,
        {
            let item = event.clone();
            self.buffers[i].push(item);
            i = i + 1;
        }
        self.produced = Ghost(self.produced@.push(*event));
        proof {
            assert forall|j: int|
                0 <= j < pre.buffers@.len() implies #[trigger] self.buffers@[j]@
                    == pre.buffers@[j]@.push(self.buffers@[j]@.last()) by {
                assert(self.buffers@[j]@ =~= pre.buffers@[j]@.push(self.buffers@[j]@.last()));
            }
            assert forall|c: int| 0 <= c < self.idx implies #[trigger] self.consumer_ok(c) by {
                assert(pre.consumer_ok(c));
                let d = pre.delivered@[c];
                assert(self.buffers@[c]@.len() == pre.buffers@[c]@.len() + 1);
                assert forall|k: int|
                    self.delivered@[c] <= k < self.produced@.len() implies cloned::<T>(
                    self.produced@[k],
                    #[trigger] self.buffers@[c]@[k - self.delivered@[c]],
                ) by {
                    if k < pre.produced@.len() {
                        assert(self.buffers@[c]@[k - d] == pre.buffers@[c]@[k - d]);
                        assert(cloned::<T>(pre.produced@[k], pre.buffers@[c]@[k - d]));
                    } else {
                        assert(k == pre.produced@.len());
                        assert(self.produced@[k] == *event);
                        assert(self.buffers@[c]@[k - d] == self.buffers@[c]@.last());
                    }
                }
            }
        }
    }

    /// The transition one call of [`Self::poll`] makes on the core, for
    /// consumer `id` with outcome `r`: which parts of the state move, that
    /// the producer is polled at most once — and not at all when the queue
    /// already held an item or `Finished` had been cached — and, for each of
    /// the four outcomes, what the consumer receives and when that outcome is
    /// owed.
    pub open spec fn poll_transition(pre: Self, post: Self, id: int, r: PollResult<T>) -> bool {
        &&& 0 <= id < pre.num_consumers()
        &&& post.idx == pre.idx
        &&& post.starts == pre.starts
        &&& pre.produced@.is_prefix_of(post.produced@)
        &&& post.produced@.len() <= pre.produced@.len() + 1
        &&& (pre.done ==> post.done)
        &&& post.polls@ <= pre.polls@ + 1
        &&& (pre.delivered@[id] == pre.produced@.len() && !pre.done ==> post.polls@ == pre.polls@
            + 1)
        &&& (pre.delivered@[id] < pre.produced@.len() || pre.done ==> post.polls == pre.polls
            && post.input == pre.input && post.done == pre.done && post.produced == pre.produced)
        // no other consumer's cursor or observations move
        &&& (forall|j: int|
            0 <= j < pre.num_consumers() && j != id ==> post.delivered@[j] == pre.delivered@[j]
                && post.handed@[j] == pre.handed@[j])
        // a waiting item is always handed out
        &&& (pre.delivered@[id] < pre.produced@.len() ==> r matches PollResult::Item(_))
        // once finished and drained, `Finished`, deterministically
        &&& (pre.done && pre.delivered@[id] == pre.produced@.len() ==> r is Finished)
        &&& match r {
            PollResult::Item(item) => {
                &&& pre.delivered@[id] < post.produced@.len()
                &&& cloned::<T>(post.produced@[pre.delivered@[id]], item)
                &&& post.delivered@ == pre.delivered@.update(id, pre.delivered@[id] + 1)
                &&& post.handed@ == pre.handed@.update(id, pre.handed@[id].push(item))
                &&& post.done == pre.done
                // served from the queue: identically the old head comes out,
                // nothing else is touched
                &&& (pre.delivered@[id] < pre.produced@.len() ==> {
                    &&& item == pre.buffers@[id]@[0]
                    &&& post.buffers@[id]@ == pre.buffers@[id]@.skip(1)
                    &&& (forall|j: int|
                        0 <= j < pre.buffers@.len() && j != id ==> #[trigger] post.buffers@[j]
                            == pre.buffers@[j])
                })
                // served by draining the producer: every sibling queue is
                // exactly its old self plus the one appended clone, and the
                // polling consumer's own queue is drained again
                &&& (pre.delivered@[id] == pre.produced@.len() ==> {
                    &&& post.produced@.len() == pre.produced@.len() + 1
                    &&& post.buffers@[id]@.len() == 0
                    &&& (forall|j: int|
                        0 <= j < pre.buffers@.len() && j != id ==> #[trigger] post.buffers@[j]@
                            == pre.buffers@[j]@.push(post.buffers@[j]@.last()) && cloned::<T>(
                            post.produced@.last(),
                            post.buffers@[j]@.last(),
                        ))
                })
            },
            PollResult::Pending => {
                &&& !pre.done && !post.done
                &&& pre.delivered@[id] == pre.produced@.len()
                &&& post.produced == pre.produced
                &&& post.delivered == pre.delivered
                &&& post.handed == pre.handed
                &&& post.buffers == pre.buffers
            },
            PollResult::Finished => {
                &&& post.done
                &&& pre.delivered@[id] == pre.produced@.len()
                &&& post.produced == pre.produced
                &&& post.delivered == pre.delivered
                &&& post.handed == pre.handed
                &&& post.buffers == pre.buffers
            },
            PollResult::Failed(_) => {
                &&& !pre.done && !post.done
                &&& pre.delivered@[id] == pre.produced@.len()
                &&& post.produced == pre.produced
                &&& post.delivered == pre.delivered
                &&& post.handed == pre.handed
                &&& post.buffers == pre.buffers
            },
        }
    }

    /// Take in one outcome the producer reported, for a consumer whose queue
    /// is drained and who has not seen the end of the stream: exactly what
    /// [`Self::poll`] does after its single producer call. Each variant of
    /// the outcome pins the result and the whole effect: an item is recorded
    /// as produced, broadcast to every queue and a clone of it handed to the
    /// consumer; `Pending` and a failure pass through verbatim and touch
    /// nothing; `Finished` passes through and is cached.
    pub fn absorb(&mut self, id: usize, outcome: PollResult<T>) -> (r: PollResult<T>)
        requires
            old(self).wf(),
            id < old(self).num_consumers(),
            old(self).delivered@[id as int] == old(self).produced@.len(),
            !old(self).done,
        ensures
            final(self).wf(),
            final(self).idx == old(self).idx,
            final(self).starts == old(self).starts,
            final(self).input == old(self).input,
            final(self).polls == old(self).polls,
            forall|j: int|
                0 <= j < old(self).num_consumers() && j != id ==> final(self).delivered@[j] == old(
                    self,
                ).delivered@[j] && final(self).handed@[j] == old(self).handed@[j],
            match outcome {
                PollResult::Item(e) => {
                    &&& final(self).produced@ == old(self).produced@.push(e)
                    &&& final(self).delivered@ == old(self).delivered@.update(
                        id as int,
                        old(self).delivered@[id as int] + 1,
                    )
                    &&& (r matches PollResult::Item(t) && cloned::<T>(e, t) && final(self).handed@
                        == old(self).handed@.update(
                        id as int,
                        old(self).handed@[id as int].push(t),
                    ))
                    &&& final(self).buffers@[id as int]@.len() == 0
                    &&& (forall|j: int|
                        0 <= j < old(self).buffers@.len() && j != id
                            ==> #[trigger] final(self).buffers@[j]@ == old(self).buffers@[j]@.push(
                            final(self).buffers@[j]@.last(),
                        ) && cloned::<T>(e, final(self).buffers@[j]@.last()))
                    &&& !final(self).done
                },
                PollResult::Pending => {
                    &&& r is Pending
                    &&& !final(self).done
                    &&& final(self).produced == old(self).produced
                    &&& final(self).delivered == old(self).delivered
                    &&& final(self).handed == old(self).handed
                    &&& final(self).buffers == old(self).buffers
                },
                PollResult::Finished => {
                    &&& r is Finished
                    &&& final(self).done
                    &&& final(self).produced == old(self).produced
                    &&& final(self).delivered == old(self).delivered
                    &&& final(self).handed == old(self).handed
                    &&& final(self).buffers == old(self).buffers
                },
                PollResult::Failed(k) => {
                    &&& r == PollResult::<T>::Failed(k)
                    &&& !final(self).done
                    &&& final(self).produced == old(self).produced
                    &&& final(self).delivered == old(self).delivered
                    &&& final(self).handed == old(self).handed
                    &&& final(self).buffers == old(self).buffers
                },
            },
    {
        match outcome {
            PollResult::Item(event) => {
                self.fan_out(&event);
                let ghost after_fan = *self;
                let item = self.buffered_poll(id).unwrap();
                proof {
                    assert(old(self).consumer_ok(id as int));
                    assert(self.buffers@ == after_fan.buffers@.update(
                        id as int,
                        self.buffers@[id as int],
                    ));
                    assert forall|j: int|
                        0 <= j < old(self).buffers@.len() && j != id implies
                        #[trigger] self.buffers@[j]@ == old(self).buffers@[j]@.push(
                        self.buffers@[j]@.last(),
                    ) && cloned::<T>(event, self.buffers@[j]@.last()) by {
                        assert(self.buffers@[j] == after_fan.buffers@[j]);
                        assert(after_fan.buffers@[j]@ == old(self).buffers@[j]@.push(
                            after_fan.buffers@[j]@.last(),
                        ));
                        assert(cloned::<T>(event, after_fan.buffers@[j]@.last()));
                    }
                    assert(self.buffers@[id as int]@.len() == 0);
                }
                return PollResult::Item(item);
            },
            PollResult::Pending => {
                return PollResult::Pending;
            },
            PollResult::Finished => {
                self.done = true;
                proof {
                    lemma_wf_ignores_producer_state(*old(self), *self);
                }
                return PollResult::Finished;
            },
            PollResult::Failed(e) => {
                return PollResult::Failed(e);
            },
        }
    }

    /// One consumer's poll, under the core's exclusive lock.
    ///
    /// If consumer `id`'s queue holds an item, that item is handed out and the
    /// producer is left alone. Otherwise the producer is polled exactly once
    /// (unless it already reported `Finished`, which is cached) and its
    /// outcome is taken in by [`Self::absorb`], whose contract pins the
    /// result and the effect for each outcome.
    ///
    /// `Finished` is terminal for a consumer: it is only reported once the
    /// flag is cached and the consumer's queue is drained, a state no later
    /// call leaves, so polling the same consumer again reports `Finished`
    /// again.
    pub fn poll(&mut self, id: usize) -> (r: PollResult<T>)
        requires
            old(self).wf(),
            id < old(self).num_consumers(),
        ensures
            final(self).wf(),
            Self::poll_transition(*old(self), *final(self), id as int, r),
    {
        let buffered = self.buffered_poll(id);
        match buffered {
            Some(item) => {
                proof {
                    assert(self.buffers@ == old(self).buffers@.update(
                        id as int,
                        self.buffers@[id as int],
                    ));
                }
                return PollResult::Item(item);
            },
            None => {
                if self.done {
                    return PollResult::Finished;
                }
                let ghost at_call = *self;
                let outcome = self.input.poll();
                self.polls = Ghost(self.polls@ + 1);
                proof {
                    lemma_wf_ignores_producer_state(at_call, *self);
                }
                let r = self.absorb(id, outcome);
                return r;
            },
        }
    }
}

/// Well-formedness reads only the queues and the ghost history: it is
/// untouched when just the producer value, the poll counter or the cached
/// flag move.
proof fn lemma_wf_ignores_producer_state<T: Clone, P: Producer<T>>(
    a: StreamCopy<T, P>,
    b: StreamCopy<T, P>,
)
    requires
        a.wf(),
        b.buffers == a.buffers,
        b.idx == a.idx,
        b.produced == a.produced,
        b.starts == a.starts,
        b.delivered == a.delivered,
        b.handed == a.handed,
    ensures
        b.wf(),
{
    assert forall|i: int| 0 <= i < b.idx implies #[trigger] b.consumer_ok(i) by {
        assert(a.consumer_ok(i));
    }
}

/// What one consumer has received, measured against the full production
/// history. Its received values correspond, clone for clone and in order, to
/// the run of produced items from its subscription point up to its cursor:
/// one received value per produced index, none skipped, none repeated; and
/// together with its queue they account for every item produced since it
/// subscribed.
pub proof fn lemma_consumer_observation<T: Clone, P: Producer<T>>(c: StreamCopy<T, P>, i: int)
    requires
        c.wf(),
        0 <= i < c.num_consumers(),
    ensures
        c.handed@[i].len() == c.delivered@[i] - c.starts@[i],
        forall|j: int|
            0 <= j < c.handed@[i].len() ==> cloned::<T>(
                c.produced@[c.starts@[i] + j],
                #[trigger] c.handed@[i][j],
            ),
        c.delivered@[i] + c.buffers@[i]@.len() == c.produced@.len(),
{
    assert(c.consumer_ok(i));
}

/// A consumer subscribed before anything was produced misses nothing: what it
/// has received is, clone for clone, the prefix of the produced sequence up
/// to its cursor, in production order; and once its cursor has reached the
/// end of production it has received every produced item.
pub proof fn lemma_upfront_consumer_sees_everything<T: Clone, P: Producer<T>>(
    c: StreamCopy<T, P>,
    i: int,
)
    requires
        c.wf(),
        0 <= i < c.num_consumers(),
        c.starts@[i] == 0,
    ensures
        c.handed@[i].len() == c.delivered@[i],
        forall|j: int|
            0 <= j < c.handed@[i].len() ==> cloned::<T>(c.produced@[j], #[trigger] c.handed@[i][j]),
        c.delivered@[i] == c.produced@.len() ==> c.handed@[i].len() == c.produced@.len(),
{
    assert(c.consumer_ok(i));
}

/// A consumer subscribed after `k` items had already been produced observes
/// only what was produced after its subscription: each value it receives is a
/// clone of an item at produced index `k` or later, so the first `k` items
/// never reach it.
pub proof fn lemma_late_consumer_skips_history<T: Clone, P: Producer<T>>(
    c: StreamCopy<T, P>,
    i: int,
    k: int,
)
    requires
        c.wf(),
        0 <= i < c.num_consumers(),
        c.starts@[i] == k,
    ensures
        forall|j: int|
            0 <= j < c.handed@[i].len() ==> k + j >= k && cloned::<T>(
                c.produced@[k + j],
                #[trigger] c.handed@[i][j],
            ),
{
    assert(c.consumer_ok(i));
}

/// No produced item is ever delivered twice to the same consumer: the values
/// a consumer has received correspond one for one to consecutive produced
/// indices, so two distinct deliveries always stem from two distinct produced
/// items. Together with [`StreamCopy::poll`]'s frame conditions (a poll for
/// one consumer moves no other consumer's cursor) this holds under any
/// interleaving of polls, which the exclusive lock serializes.
pub proof fn lemma_no_duplicate_delivery<T: Clone, P: Producer<T>>(c: StreamCopy<T, P>, i: int)
    requires
        c.wf(),
        0 <= i < c.num_consumers(),
    ensures
        c.handed@[i].len() == c.delivered@[i] - c.starts@[i],
        forall|j1: int, j2: int|
            #![trigger c.handed@[i][j1], c.handed@[i][j2]]
            0 <= j1 < j2 < c.handed@[i].len() ==> cloned::<T>(c.produced@[c.starts@[i] + j1], c.handed@[i][j1])
                && cloned::<T>(c.produced@[c.starts@[i] + j2], c.handed@[i][j2])
                && c.starts@[i] + j1 != c.starts@[i] + j2,
{
    assert(c.consumer_ok(i));
}

/// The invariant every value stored in a [`StreamCopyMutex`]'s lock obeys:
/// the core is well formed. Holding it in the lock's predicate means every
/// acquisition of the lock yields a well-formed core, and every release has
/// to prove well-formedness again.
pub struct CopyPred;

impl<T: Clone, P: Producer<T>> RwLockPredicate<StreamCopy<T, P>> for CopyPred {
    open spec fn inv(self, v: StreamCopy<T, P>) -> bool {
        v.wf()
    }
}

/// Reference-counted, lock-guarded shared ownership of one [`StreamCopy`].
/// Cloning a handle shares the same core; every access to the core happens
/// inside a scoped exclusive critical section, so producer polls are
/// serialized across all consumers and the broadcast of an item into every
/// queue is atomic.
pub struct StreamCopyMutex<T: Clone, P: Producer<T>>(Arc<RwLock<StreamCopy<T, P>, CopyPred>>);

/// One consumer's handle: an id plus shared ownership of the core. It carries
/// no buffering of its own; its queue lives in the core under `id`.
pub struct StreamCopyOutPort<T: Clone, P: Producer<T>> {
    id: usize,
    source: StreamCopyMutex<T, P>,
}

impl<T: Clone, P: Producer<T>> StreamCopyOutPort<T, P> {
    /// This consumer's position in the shared core: the id under which its
    /// queue was registered.
    pub closed spec fn spec_id(self) -> int {
        self.id as int
    }

    /// The handle to the shared core this consumer reads from.
    pub closed spec fn spec_source(self) -> StreamCopyMutex<T, P> {
        self.source
    }
}

impl<T: Clone, P: Producer<T>> Clone for StreamCopyMutex<T, P> {
    /// A new handle to the same core; nothing is copied, and effects through
    /// either handle are visible through the other.
    fn clone(&self) -> (r: StreamCopyMutex<T, P>)
        ensures
            r == *self,
    {
        StreamCopyMutex(self.0.clone())
    }
}

impl<T: Clone, P: Producer<T>> StreamCopyMutex<T, P> {
    /// The handle's lock stores exactly the well-formed cores: whatever is
    /// taken out of it satisfies [`StreamCopy::wf`], and only a well-formed
    /// core can be put back.
    pub closed spec fn inv_is_wf(self) -> bool {
        forall|v: StreamCopy<T, P>| #[trigger] self.0.inv(v) == v.wf()
    }

    /// Bind a producer into a fresh multicast core with no consumers yet.
    pub fn new(input: P) -> (r: StreamCopyMutex<T, P>)
        ensures
            r.inv_is_wf(),
    {
        let core = StreamCopy {
            input,
            buffers: Vec::new(),
            idx: 0,
            done: false,
            produced: Ghost(Seq::empty()),
            starts: Ghost(Seq::empty()),
            delivered: Ghost(Seq::empty()),
            handed: Ghost(Seq::empty()),
            polls: Ghost(0),
        };
        StreamCopyMutex(Arc::new(RwLock::new(core, Ghost(CopyPred))))
    }

    /// Exclusive scoped access to the core: the well-formed value and the
    /// handle through which it must be given back.
    pub fn lock(&self) -> (r: (StreamCopy<T, P>, WriteHandle<'_, StreamCopy<T, P>, CopyPred>))
        ensures
            r.0.wf(),
            forall|v: StreamCopy<T, P>| #[trigger] r.1.rwlock().inv(v) == v.wf(),
    {
        (*self.0).acquire_write()
    }

    /// Register a new consumer: under the lock, hand out the next id and push
    /// an empty queue for it. O(1); the producer is not touched, so a late
    /// subscriber starts empty and will never see earlier items. The outcome
    /// is one serialized transition of the shared core: some well-formed
    /// state this call found and extended by one empty queue, registered
    /// under the returned port's id — the number of consumers that state
    /// already had. The port reads from this very handle's core.
    pub fn create_output_locked(&self) -> (r: StreamCopyOutPort<T, P>)
        ensures
            r.spec_source() == *self,
            exists|pre: StreamCopy<T, P>, post: StreamCopy<T, P>|
                pre.wf() && post.wf() && #[trigger] StreamCopy::create_transition(pre, post)
                    && r.spec_id() == pre.num_consumers(),
    {
        let (mut inner, handle) = self.lock();
        let val = StreamCopyOutPort { source: self.clone(), id: inner.idx };
        let ghost pre = inner;
        inner.buffers.push(Vec::new());
        inner.idx = inner.buffers.len();
        inner.starts = Ghost(inner.starts@.push(inner.produced@.len() as int));
        inner.delivered = Ghost(inner.delivered@.push(inner.produced@.len() as int));
        inner.handed = Ghost(inner.handed@.push(Seq::empty()));
        proof {
            assert forall|i: int| 0 <= i < inner.idx implies #[trigger] inner.consumer_ok(i) by {
                if i < pre.idx {
                    assert(pre.consumer_ok(i));
                    assert(inner.buffers@[i] == pre.buffers@[i]);
                } else {
                    assert(inner.buffers@[i]@.len() == 0);
                }
            }
        }
        proof {
            assert(pre.wf() && inner.wf() && StreamCopy::create_transition(pre, inner)
                && val.spec_id() == pre.num_consumers());
        }
        handle.release_write(inner);
        val
    }

    /// One consumer's poll, serialized through the lock: acquire, delegate to
    /// [`StreamCopy::poll`], release. The outcome is one serialized
    /// transition of the shared core — [`StreamCopy::poll`] applied to some
    /// well-formed state this call found — with one exception: an id this
    /// handle never issued belongs to no consumer and is answered with
    /// `Failed` without touching the core. Ids issued by
    /// [`Self::create_output_locked`] are always in range, since consumers
    /// are never removed.
    pub fn poll_locked(&self, id: usize) -> (r: PollResult<T>)
        ensures
            (exists|pre: StreamCopy<T, P>, post: StreamCopy<T, P>|
                pre.wf() && post.wf() && #[trigger] StreamCopy::poll_transition(
                    pre,
                    post,
                    id as int,
                    r,
                )) || r == PollResult::<T>::Failed(EveError),
    {
        let (mut inner, handle) = self.lock();
        if id < inner.buffers.len() {
            let ghost pre = inner;
            let r = inner.poll(id);
            proof {
                assert(pre.wf() && inner.wf() && StreamCopy::poll_transition(
                    pre,
                    inner,
                    id as int,
                    r,
                ));
            }
            handle.release_write(inner);
            r
        } else {
            handle.release_write(inner);
            PollResult::Failed(EveError)
        }
    }
}

impl<T: Clone, P: Producer<T>> StreamCopyOutPort<T, P> {
    /// Poll this consumer's lazy sequence: delegates into the shared core's
    /// locked critical section. The outcome is one serialized poll
    /// transition of the shared core at this port's own position (or a
    /// producer failure, reported as `Failed`); the port itself carries no
    /// state and is left exactly as it was.
    pub fn poll(&mut self) -> (r: PollResult<T>)
        ensures
            *final(self) == *old(self),
            (exists|pre: StreamCopy<T, P>, post: StreamCopy<T, P>|
                pre.wf() && post.wf() && #[trigger] StreamCopy::poll_transition(
                    pre,
                    post,
                    old(self).spec_id(),
                    r,
                )) || r == PollResult::<T>::Failed(EveError),
    {
        let ghost me = *self;
        let r = self.source.poll_locked(self.id);
        proof {
            assert(me == *old(self));
            if r != PollResult::<T>::Failed(EveError) {
                let (pre, post) = choose|pre: StreamCopy<T, P>, post: StreamCopy<T, P>|
                    pre.wf() && post.wf() && #[trigger] StreamCopy::poll_transition(
                        pre,
                        post,
                        me.spec_id(),
                        r,
                    );
                assert(StreamCopy::poll_transition(pre, post, me.spec_id(), r));
            }
        }
        r
    }
}

} // verus!
