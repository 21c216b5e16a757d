//! The broadcast layer: one bounded outbound queue per connected peer.
//!
//! A delta is enqueued for every peer except its originator. Delivery per
//! peer is ordered; a queue that has reached the backpressure threshold
//! accepts nothing more, and its peer is reported for disconnection rather
//! than buffered unboundedly — on reconnect such a peer resynchronizes
//! from a snapshot instead of replaying a gap. Deltas carry the per-map
//! sequence number, so a receiving peer can detect gaps.

use vstd::prelude::*;

use crate::errors::{AppError, AppResult};
use crate::map_state::{Delta, DeltaView};

verus! {

/// The backpressure threshold: a queue never holds more deltas than this.
pub const MAX_QUEUE: usize = 64;

/// The pending deltas for one peer, oldest first.
#[derive(Debug)]
pub struct Outbox {
    pub peer_id: String,
    pub queue: Vec<Delta>,
}

pub open spec fn queue_view(q: Seq<Delta>) -> Seq<DeltaView> {
    q.map_values(|d: Delta| d@)
}

pub open spec fn outbox_ids_unique(s: Seq<Outbox>) -> bool {
    forall|i: int, j: int| 0 <= i < j < s.len() ==> s[i].peer_id@ != s[j].peer_id@
}

pub open spec fn has_outbox(s: Seq<Outbox>, id: Seq<char>) -> bool {
    exists|i: int| 0 <= i < s.len() && s[i].peer_id@ == id
}

/// The view of an optional excluded peer.
pub open spec fn exclude_view(e: Option<&String>) -> Option<Seq<char>> {
    match e {
        Option::Some(s) => Option::Some(s@),
        Option::None => Option::None,
    }
}

/// What one broadcast does to one queue: the originator's queue and a
/// full queue are left alone, every other queue takes the delta at its
/// end.
pub open spec fn delivered_queue(ob: Outbox, d: DeltaView, exclude: Option<Seq<char>>) -> Seq<
    DeltaView,
> {
    if exclude == Option::Some(ob.peer_id@) || ob.queue@.len() >= MAX_QUEUE {
        queue_view(ob.queue@)
    } else {
        queue_view(ob.queue@).push(d)
    }
}

/// The peers whose queues were full when a broadcast reached them, in
/// outbox order: the layer reports them for disconnection.
pub open spec fn overflow_ids(s: Seq<Outbox>, exclude: Option<Seq<char>>) -> Seq<Seq<char>>
    decreases s.len(),
{
    if s.len() == 0 {
        Seq::empty()
    } else {
        let rest = overflow_ids(s.drop_last(), exclude);
        if exclude != Option::Some(s.last().peer_id@) && s.last().queue@.len() >= MAX_QUEUE {
            rest.push(s.last().peer_id@)
        } else {
            rest
        }
    }
}

/// The outboxes that survive dropping one peer, in order.
pub open spec fn outboxes_without(s: Seq<Outbox>, id: Seq<char>) -> Seq<Outbox>
    decreases s.len(),
{
    if s.len() == 0 {
        Seq::empty()
    } else {
        let rest = outboxes_without(s.drop_last(), id);
        if s.last().peer_id@ != id {
            rest.push(s.last())
        } else {
            rest
        }
    }
}

/// Dropping one peer keeps every other outbox, untouched and in order.
pub proof fn lemma_outboxes_without_props(s: Seq<Outbox>, id: Seq<char>)
    ensures
        forall|i: int|
            0 <= i < outboxes_without(s, id).len() ==> s.contains(
                #[trigger] outboxes_without(s, id)[i],
            ) && outboxes_without(s, id)[i].peer_id@ != id,
        forall|i: int|
            0 <= i < s.len() && (#[trigger] s[i]).peer_id@ != id ==> outboxes_without(
                s,
                id,
            ).contains(s[i]),
    decreases s.len(),
{
    if s.len() == 0 {
    } else {
        lemma_outboxes_without_props(s.drop_last(), id);
        let res = outboxes_without(s, id);
        let rest = outboxes_without(s.drop_last(), id);
        assert forall|i: int|
            0 <= i < res.len() implies s.contains(res[i]) && res[i].peer_id@ != id by {
            if s.last().peer_id@ != id && i == res.len() - 1 {
                assert(res[i] == s.last());
                assert(s[s.len() - 1] == s.last());
            } else {
                assert(res[i] == rest[i]);
                assert(s.drop_last().contains(rest[i]));
                let w = choose|w: int|
                    0 <= w < s.drop_last().len() && s.drop_last()[w] == rest[i];
                assert(s[w] == rest[i]);
            }
        }
        assert forall|i: int|
            0 <= i < s.len() && (#[trigger] s[i]).peer_id@ != id implies res.contains(s[i]) by {
            if i == s.len() - 1 {
                assert(res[res.len() - 1] == s.last());
            } else {
                assert(s.drop_last()[i] == s[i]);
                assert(rest.contains(s[i]));
                let w = choose|w: int| 0 <= w < rest.len() && rest[w] == s[i];
                if s.last().peer_id@ != id {
                    assert(res[w] == rest[w]);
                } else {
                    assert(res == rest);
                }
            }
        }
    }
}

fn outbox_index(v: &Vec<Outbox>, id: &String) -> (r: Option<usize>)
    ensures
        match r {
            Option::Some(i) => i < v.len() && v@[i as int].peer_id@ == id@,
            Option::None => !has_outbox(v@, id@),
        },
{
    let mut i: usize = 0;
    while i < v.len()
        invariant
            i <= v.len(),
            forall|j: int| 0 <= j < i ==> v@[j].peer_id@ != id@,
        decreases v.len() - i,
    {
        if v[i].peer_id == *id {
            return Option::Some(i);
        }
        i = i + 1;
    }
    Option::None
}

/// The fan-out side of the session: one bounded queue per peer.
pub struct Broadcaster {
    pub outboxes: Vec<Outbox>,
}

impl Broadcaster {
    /// Well-formedness: one outbox per peer, none over the threshold.
    pub open spec fn wf(&self) -> bool {
        &&& outbox_ids_unique(self.outboxes@)
        &&& forall|i: int|
            0 <= i < self.outboxes@.len() ==> (#[trigger] self.outboxes@[i]).queue@.len()
                <= MAX_QUEUE
    }

    pub fn new() -> (s: Self)
        ensures
            s.wf(),
            s.outboxes@ =~= Seq::<Outbox>::empty(),
    {
        Broadcaster { outboxes: Vec::new() }
    }

    /// Opens an empty queue for a peer. Fails with `Conflict` when the
    /// peer already has one.
    pub fn add_peer(&mut self, peer_id: String) -> (r: AppResult<()>)
        requires
            old(self).wf(),
        ensures
            final(self).wf(),
            has_outbox(old(self).outboxes@, peer_id@) ==> r == AppResult::<()>::Err(
                AppError::Conflict,
            ) && final(self).outboxes@ == old(self).outboxes@,
            !has_outbox(old(self).outboxes@, peer_id@) ==> {
                &&& r == AppResult::<()>::Ok(())
                &&& final(self).outboxes@ == old(self).outboxes@.push(
                    final(self).outboxes@.last(),
                )
                &&& final(self).outboxes@.last().peer_id@ == peer_id@
                &&& final(self).outboxes@.last().queue@.len() == 0
            },
    {
        if let Option::Some(_i) = outbox_index(&self.outboxes, &peer_id) {
            return Result::Err(AppError::Conflict);
        }
        self.outboxes.push(Outbox { peer_id, queue: Vec::new() });
        Result::Ok(())
    }

    /// Drops a peer's queue, pending deltas included: the peer is gone and
    /// will resynchronize from a snapshot, not from a replay.
    pub fn remove_peer(&mut self, peer_id: &String) -> (r: AppResult<()>)
        requires
            old(self).wf(),
        ensures
            final(self).wf(),
            !has_outbox(old(self).outboxes@, peer_id@) ==> r == AppResult::<()>::Err(
                AppError::NotFound,
            ) && final(self).outboxes@ == old(self).outboxes@,
            has_outbox(old(self).outboxes@, peer_id@) ==> r == AppResult::<()>::Ok(()) && final(self).outboxes@ == outboxes_without(old(self).outboxes@, peer_id@),
    {
        match outbox_index(&self.outboxes, peer_id) {
            Option::None => Result::Err(AppError::NotFound),
            Option::Some(_i) => {
                let v = &mut self.outboxes;
                let ghost g = v@;
                let mut i: usize = 0;
                let ghost mut k: int = 0;
                while i < v.len()
                    invariant
                        0 <= k <= g.len(),
                        i <= v.len(),
                        i as int == outboxes_without(g.subrange(0, k), peer_id@).len(),
                        v@ =~= outboxes_without(g.subrange(0, k), peer_id@) + g.subrange(
                            k,
                            g.len() as int,
                        ),
                        outbox_ids_unique(v@),
                        forall|j: int|
                            0 <= j < v@.len() ==> (#[trigger] v@[j]).queue@.len() <= MAX_QUEUE,
                    decreases g.len() - k,
                {
                    proof {
                        assert(v@[i as int] == g.subrange(k, g.len() as int)[0]);
                        assert(g.subrange(0, k + 1).drop_last() =~= g.subrange(0, k));
                        assert(g.subrange(0, k + 1).last() == g[k]);
                    }
                    if v[i].peer_id == *peer_id {
                        let ghost pre = v@;
                        let _ = v.remove(i);
                        proof {
                            assert(outboxes_without(g.subrange(0, k + 1), peer_id@)
                                =~= outboxes_without(g.subrange(0, k), peer_id@));
                            assert(v@ =~= outboxes_without(g.subrange(0, k + 1), peer_id@)
                                + g.subrange(k + 1, g.len() as int));
                            assert forall|a: int, b: int|
                                0 <= a < b < v@.len() implies v@[a].peer_id@ != v@[b].peer_id@ by {
                                if i <= a {
                                    assert(v@[a] == pre[a + 1]);
                                }
                                if i <= b {
                                    assert(v@[b] == pre[b + 1]);
                                }
                            }
                            assert forall|j: int|
                                0 <= j < v@.len() implies (#[trigger] v@[j]).queue@.len()
                                <= MAX_QUEUE by {
                                if i <= j {
                                    assert(v@[j] == pre[j + 1]);
                                }
                            }
                            k = k + 1;
                        }
                    } else {
                        i = i + 1;
                        proof {
                            assert(outboxes_without(g.subrange(0, k + 1), peer_id@)
                                =~= outboxes_without(g.subrange(0, k), peer_id@).push(g[k]));
                            assert(v@ =~= outboxes_without(g.subrange(0, k + 1), peer_id@)
                                + g.subrange(k + 1, g.len() as int));
                            k = k + 1;
                        }
                    }
                }
                proof {
                    assert(g.subrange(0, k) =~= g);
                    assert(v@ =~= outboxes_without(g, peer_id@));
                }
                Result::Ok(())
            },
        }
    }

    /// Hands the transport everything queued for a peer, oldest first,
    /// leaving the queue empty.
    pub fn take_outbox(&mut self, peer_id: &String) -> (r: AppResult<Vec<Delta>>)
        requires
            old(self).wf(),
        ensures
            final(self).wf(),
            final(self).outboxes@.len() == old(self).outboxes@.len(),
            !has_outbox(old(self).outboxes@, peer_id@) ==> r == AppResult::<Vec<Delta>>::Err(
                AppError::NotFound,
            ) && final(self).outboxes@ == old(self).outboxes@,
            forall|j: int|
                0 <= j < old(self).outboxes@.len() && (#[trigger] old(self).outboxes@[j]).peer_id@ != peer_id@ ==> final(self).outboxes@[j] == old(self).outboxes@[j],
            forall|j: int|
                0 <= j < old(self).outboxes@.len() && (#[trigger] old(self).outboxes@[j]).peer_id@ == peer_id@ ==> {
                    &&& final(self).outboxes@[j].peer_id == old(self).outboxes@[j].peer_id
                    &&& final(self).outboxes@[j].queue@.len() == 0
                    &&& r matches Result::Ok(q) && queue_view(q@) == queue_view(
                        old(self).outboxes@[j].queue@,
                    )
                },
    {
        match outbox_index(&self.outboxes, peer_id) {
            Option::None => Result::Err(AppError::NotFound),
            Option::Some(i) => {
                let mut ob = self.outboxes.remove(i);
                let out = ob.queue;
                ob.queue = Vec::new();
                self.outboxes.insert(i, ob);
                proof {
                    assert(final(self).outboxes@ =~= old(self).outboxes@.update(
                        i as int,
                        final(self).outboxes@[i as int],
                    ));
                    assert forall|j: int|
                        0 <= j < old(self).outboxes@.len() && (#[trigger] old(self).outboxes@[j]).peer_id@ == peer_id@ implies j == i by {
                        if j < i {
                            assert(old(self).outboxes@[j].peer_id@ != old(self).outboxes@[i as int].peer_id@);
                        }
                        if i < j {
                            assert(old(self).outboxes@[i as int].peer_id@ != old(self).outboxes@[j].peer_id@);
                        }
                    }
                }
                Result::Ok(out)
            },
        }
    }

    /// Enqueues a delta for every peer but its originator. A queue at the
    /// threshold is left alone and its peer is handed back: the session
    /// coordinator disconnects such a peer rather than let it block or
    /// buffer without bound.
    pub fn broadcast(&mut self, delta: &Delta, exclude: Option<&String>) -> (overflowed: Vec<
        String,
    >)
        requires
            old(self).wf(),
        ensures
            final(self).wf(),
            final(self).outboxes@.len() == old(self).outboxes@.len(),
            forall|j: int|
                0 <= j < old(self).outboxes@.len() ==> (#[trigger] final(self).outboxes@[j]).peer_id == old(self).outboxes@[j].peer_id,
            forall|j: int|
                0 <= j < old(self).outboxes@.len() ==> queue_view(
                    (#[trigger] final(self).outboxes@[j]).queue@,
                ) == delivered_queue(old(self).outboxes@[j], delta@, exclude_view(exclude)),
            overflowed@.map_values(|s: String| s@) == overflow_ids(
                old(self).outboxes@,
                exclude_view(exclude),
            ),
    {
        let ghost g = self.outboxes@;
        let ghost ex = exclude_view(exclude);
        let mut overflowed: Vec<String> = Vec::new();
        let mut i: usize = 0;
        while i < self.outboxes.len()
            invariant
                i <= g.len(),
                self.outboxes@.len() == g.len(),
                ex == exclude_view(exclude),
                forall|j: int|
                    0 <= j < g.len() ==> (#[trigger] self.outboxes@[j]).peer_id == g[j].peer_id,
                forall|j: int|
                    0 <= j < i ==> queue_view((#[trigger] self.outboxes@[j]).queue@)
                        == delivered_queue(g[j], delta@, ex),
                forall|j: int| i <= j < g.len() ==> #[trigger] self.outboxes@[j] == g[j],
                overflowed@.map_values(|s: String| s@) =~= overflow_ids(
                    g.subrange(0, i as int),
                    ex,
                ),
                outbox_ids_unique(self.outboxes@),
                forall|j: int|
                    0 <= j < self.outboxes@.len() ==> (#[trigger] self.outboxes@[j]).queue@.len()
                        <= MAX_QUEUE,
            decreases g.len() - i,
        {
            proof {
                assert(g.subrange(0, i + 1).drop_last() =~= g.subrange(0, i as int));
                assert(g.subrange(0, i + 1).last() == g[i as int]);
            }
            let skip = match exclude {
                Option::Some(e) => self.outboxes[i].peer_id == *e,
                Option::None => false,
            };
            if skip {
                i = i + 1;
                proof {
                    assert(overflowed@.map_values(|s: String| s@) =~= overflow_ids(
                        g.subrange(0, i as int),
                        ex,
                    ));
                }
            } else if self.outboxes[i].queue.len() >= MAX_QUEUE {
                overflowed.push(self.outboxes[i].peer_id.clone());
                i = i + 1;
                proof {
                    assert(overflowed@.map_values(|s: String| s@) =~= overflow_ids(
                        g.subrange(0, i as int),
                        ex,
                    ));
                }
            } else {
                let mut ob = self.outboxes.remove(i);
                ob.queue.push(delta.clone());
                let ghost mid = self.outboxes@;
                self.outboxes.insert(i, ob);
                i = i + 1;
                proof {
                    assert(self.outboxes@ =~= mid.insert(i - 1, self.outboxes@[i - 1]));
                    assert(overflowed@.map_values(|s: String| s@) =~= overflow_ids(
                        g.subrange(0, i as int),
                        ex,
                    ));
                    assert(queue_view(self.outboxes@[i - 1].queue@) =~= delivered_queue(
                        g[i - 1],
                        delta@,
                        ex,
                    ));
                }
            }
        }
        proof {
            assert(g.subrange(0, g.len() as int) =~= g);
        }
        overflowed
    }
}

} // verus!
