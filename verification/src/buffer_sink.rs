//! Bounded, ordered retention of tick snapshots: ticks are kept oldest-first
//! up to a capacity derived from a retention window, evicting the oldest once
//! the bound is reached; a single consumer drains them in arrival order.

use vstd::prelude::*;
use std::collections::VecDeque;
use crate::events::{EventHandler, EventKind, SinkBase, VoiceEvent};
use crate::key::VoiceKey;
use crate::resolver::{insert_transition, SsrcManager};
use crate::tick::{clone_pcm, snapshot_matches, VoiceTick};
use crate::TICKS_PER_SECOND;

verus! {

/// What accepting one snapshot does to the queue: within the bound it is
/// appended; at the bound the oldest entries are discarded first; with a
/// zero bound nothing is retained. An unbounded queue always appends.
pub open spec fn enqueue_transition(q: Seq<VoiceTick>, cap: Option<usize>, t: VoiceTick) -> Seq<
    VoiceTick,
> {
    match cap {
        None => q.push(t),
        Some(c) => if c == 0 {
            q
        } else if q.len() >= c {
            q.skip(q.len() - (c - 1)).push(t)
        } else {
            q.push(t)
        },
    }
}

/// How one delivered event changes a buffering sink: a stopped sink ignores
/// everything; a speaking update with a known participant updates the
/// resolver; a tick is folded into a snapshot under the current resolver and
/// enqueued with eviction; all other events are ignored.
pub open spec fn buffer_act_spec(pre: BufferSink, ctx: VoiceEvent, post: BufferSink) -> bool {
    &&& post.capacity() == pre.capacity()
    &&& post.stopped() == pre.stopped()
    &&& if pre.stopped() {
        &&& post.buffered() == pre.buffered()
        &&& post.resolver_map() == pre.resolver_map()
        &&& post.user_map() == pre.user_map()
    } else {
        match ctx {
            VoiceEvent::SpeakingStateUpdate { ssrc, user_id } => {
                &&& post.buffered() == pre.buffered()
                &&& match user_id {
                    Some(uid) => (post.user_map(), post.resolver_map()) == insert_transition(
                        pre.user_map(),
                        pre.resolver_map(),
                        uid,
                        ssrc,
                    ),
                    None => post.user_map() == pre.user_map() && post.resolver_map()
                        == pre.resolver_map(),
                }
            },
            VoiceEvent::Tick(raw_tick) => {
                &&& post.resolver_map() == pre.resolver_map()
                &&& post.user_map() == pre.user_map()
                &&& exists|t: VoiceTick|
                    #[trigger] snapshot_matches(t, raw_tick, pre.resolver_map())
                        && post.buffered() == enqueue_transition(
                        pre.buffered(),
                        pre.capacity(),
                        t,
                    )
            },
            _ => {
                &&& post.buffered() == pre.buffered()
                &&& post.resolver_map() == pre.resolver_map()
                &&& post.user_map() == pre.user_map()
            },
        }
    }
}

/// Buffering sink for received voice data: collects snapshots per tick and
/// hands them out oldest-first.
pub struct BufferSink {
    resolver: SsrcManager,
    ticks: VecDeque<VoiceTick>,
    max_ticks: Option<usize>,
    is_stopped: bool,
}

impl BufferSink {
    /// The queue never outgrows the bound, and the resolver stays consistent.
    #[verifier::type_invariant]
    spec fn inv(self) -> bool {
        &&& self.resolver.wf()
        &&& match self.max_ticks {
            Some(c) => self.ticks@.len() <= c,
            None => true,
        }
    }

    /// The buffered snapshots, oldest first.
    pub closed spec fn buffered(self) -> Seq<VoiceTick> {
        self.ticks@
    }

    /// The retention bound in ticks; `None` means unbounded.
    pub closed spec fn capacity(self) -> Option<usize> {
        self.max_ticks
    }

    /// Whether `stop` has been called.
    pub closed spec fn stopped(self) -> bool {
        self.is_stopped
    }

    /// The resolver's SSRC-to-participant direction.
    pub closed spec fn resolver_map(self) -> Map<u32, u64> {
        self.resolver.ssrc_to_user()
    }

    /// The resolver's participant-to-SSRC direction.
    pub closed spec fn user_map(self) -> Map<u64, u32> {
        self.resolver.user_to_ssrc()
    }

    /// Create a sink buffering up to `max_in_seconds` seconds of ticks
    /// (`None`: unbounded), together with its registration descriptor. The
    /// sink asks for ticks and speaking updates.
    pub fn new(max_in_seconds: Option<usize>) -> (r: (BufferSink, SinkBase))
        requires
            max_in_seconds matches Some(s) ==> s * TICKS_PER_SECOND <= usize::MAX,
        ensures
            r.0.buffered() == Seq::<VoiceTick>::empty(),
            !r.0.stopped(),
            r.0.resolver_map() == Map::<u32, u64>::empty(),
            r.0.user_map() == Map::<u64, u32>::empty(),
            r.0.capacity() == match max_in_seconds {
                Some(s) => Some((s * TICKS_PER_SECOND) as usize),
                None => None::<usize>,
            },
            r.1.receive_events@ == seq![EventKind::VoiceTick, EventKind::SpeakingStateUpdate],
    {
        let max_ticks: Option<usize> = match max_in_seconds {
            Some(secs) => Some(secs * TICKS_PER_SECOND),
            None => None,
        };
        let ticks: VecDeque<VoiceTick> = match max_ticks {
            Some(c) => VecDeque::with_capacity(c),
            None => VecDeque::new(),
        };
        let mut events: Vec<EventKind> = Vec::new();
        events.push(EventKind::VoiceTick);
        events.push(EventKind::SpeakingStateUpdate);
        proof {
            assert(events@ =~= seq![EventKind::VoiceTick, EventKind::SpeakingStateUpdate]);
        }
        (
            BufferSink { resolver: SsrcManager::new(), ticks, max_ticks, is_stopped: false },
            SinkBase { receive_events: events },
        )
    }

    /// Stop buffering: later incoming ticks are silently discarded, already
    /// buffered ticks remain consumable. Irreversible.
    pub fn stop(&mut self)
        ensures
            final(self).stopped(),
            final(self).buffered() == old(self).buffered(),
            final(self).capacity() == old(self).capacity(),
            final(self).resolver_map() == old(self).resolver_map(),
            final(self).user_map() == old(self).user_map(),
    {
        proof {
            use_type_invariant(&*self);
        }
        self.is_stopped = true;
    }

    /// Whether the sink has been stopped.
    pub fn is_stopped(&self) -> (r: bool)
        ensures
            r == self.stopped(),
    {
        self.is_stopped
    }

    /// How many snapshots are currently buffered.
    pub fn buffered_len(&self) -> (r: usize)
        ensures
            r == self.buffered().len(),
    {
        self.ticks.len()
    }

    /// Resolve a participant id for `ssrc` from the sink's resolver.
    pub fn get_user_id(&self, ssrc: u32) -> (r: Option<u64>)
        ensures
            match r {
                Some(u) => self.resolver_map().contains_key(ssrc) && u == self.resolver_map()[
                    ssrc
                ],
                None => !self.resolver_map().contains_key(ssrc),
            },
    {
        match self.resolver.get_user(&ssrc) {
            Some(u) => Some(*u),
            None => None,
        }
    }

    /// Take the oldest buffered snapshot, if any.
    pub fn pop_tick(&mut self) -> (r: Option<VoiceTick>)
        ensures
            final(self).capacity() == old(self).capacity(),
            final(self).stopped() == old(self).stopped(),
            final(self).resolver_map() == old(self).resolver_map(),
            final(self).user_map() == old(self).user_map(),
            match r {
                Some(t) => old(self).buffered().len() > 0 && t == old(self).buffered()[0]
                    && final(self).buffered() == old(self).buffered().skip(1),
                None => old(self).buffered().len() == 0
                    && final(self).buffered() == old(self).buffered(),
            },
    {
        proof {
            use_type_invariant(&*self);
        }
        let mut ticks: VecDeque<VoiceTick> = VecDeque::new();
        std::mem::swap(&mut ticks, &mut self.ticks);
        let ghost q0 = ticks@;
        let r = ticks.pop_front();
        self.ticks = ticks;
        proof {
            if q0.len() > 0 {
                assert(q0.subrange(1, q0.len() as int) =~= q0.skip(1));
            }
        }
        r
    }

    /// Take the oldest buffered snapshot and project it to `key`: the decoded
    /// samples when the key speaks in that tick, `None` when it is silent or
    /// absent. The full snapshot is discarded after projection.
    pub fn pop_for_key(&mut self, key: &VoiceKey) -> (r: Option<Option<Vec<i16>>>)
        ensures
            final(self).capacity() == old(self).capacity(),
            final(self).stopped() == old(self).stopped(),
            final(self).resolver_map() == old(self).resolver_map(),
            final(self).user_map() == old(self).user_map(),
            match r {
                Some(proj) => {
                    &&& old(self).buffered().len() > 0
                    &&& final(self).buffered() == old(self).buffered().skip(1)
                    &&& match proj {
                        Some(pcm) => old(self).buffered()[0].speaking_map().contains_key(*key)
                            && pcm@ == old(self).buffered()[0].speaking_map()[*key],
                        None => !old(self).buffered()[0].speaking_map().contains_key(*key),
                    }
                },
                None => old(self).buffered().len() == 0
                    && final(self).buffered() == old(self).buffered(),
            },
    {
        match self.pop_tick() {
            None => None,
            Some(t) => match t.get(key) {
                Some(pcm) => Some(Some(clone_pcm(pcm))),
                None => Some(None),
            },
        }
    }
}

impl EventHandler for BufferSink {
    open spec fn act_spec(pre: Self, ctx: VoiceEvent, post: Self) -> bool {
        buffer_act_spec(pre, ctx, post)
    }

    fn act(&mut self, ctx: &VoiceEvent) -> (r: Option<VoiceEvent>) {
        proof {
            use_type_invariant(&*self);
        }
        let ghost pre = *self;
        if self.is_stopped {
            return None;
        }
        match ctx {
            VoiceEvent::SpeakingStateUpdate { ssrc, user_id } => {
                if let Some(uid) = user_id {
                    let mut resolver = SsrcManager::new();
                    std::mem::swap(&mut resolver, &mut self.resolver);
                    resolver.insert(*uid, *ssrc);
                    self.resolver = resolver;
                }
                None
            },
            VoiceEvent::Tick(raw_tick) => {
                let t = VoiceTick::from_parts(raw_tick, &self.resolver);
                let ghost witness = t;
                let mut ticks: VecDeque<VoiceTick> = VecDeque::new();
                std::mem::swap(&mut ticks, &mut self.ticks);
                let ghost q0 = ticks@;
                match self.max_ticks {
                    Some(c) => {
                        if c == 0 {
                            self.ticks = ticks;
                            proof {
                                assert(snapshot_matches(witness, *raw_tick, pre.resolver_map()));
                                assert(exists|t: VoiceTick|
                                    #[trigger] snapshot_matches(t, *raw_tick, pre.resolver_map())
                                        && self.buffered() == enqueue_transition(
                                        pre.buffered(),
                                        pre.capacity(),
                                        t,
                                    ));
                            }
                            return None;
                        }
                        proof {
                            assert(q0.skip(0) =~= q0);
                        }
                        while ticks.len() >= c
                            invariant
                                c >= 1,
                                ticks@.len() <= q0.len(),
                                ticks@ == q0.skip(q0.len() - ticks@.len()),
                                q0.len() >= c ==> ticks@.len() >= c - 1,
                                q0.len() < c ==> ticks@.len() == q0.len(),
                            decreases ticks@.len(),
                        {
                            let ghost before = ticks@;
                            ticks.pop_front();
                            proof {
                                assert(ticks@ == before.subrange(1, before.len() as int));
                                assert(ticks@ =~= q0.skip(q0.len() - ticks@.len()));
                            }
                        }
                        ticks.push_back(t);
                    },
                    None => {
                        ticks.push_back(t);
                    },
                }
                self.ticks = ticks;
                proof {
                    if self.max_ticks matches Some(c) && q0.len() < c {
                        assert(q0.skip(0) =~= q0);
                    }
                    assert(self.ticks@ == enqueue_transition(q0, self.max_ticks, witness));
                    assert(snapshot_matches(witness, *raw_tick, pre.resolver_map()));
                    assert(exists|t: VoiceTick|
                        #[trigger] snapshot_matches(t, *raw_tick, pre.resolver_map())
                            && self.buffered() == enqueue_transition(
                            pre.buffered(),
                            pre.capacity(),
                            t,
                        ));
                }
                None
            },
            _ => None,
        }
    }
}

/// The queue contents after feeding the snapshots `ts`, in order, into a sink
/// whose queue starts as `q` — with no pops in between.
pub open spec fn enqueue_all(q: Seq<VoiceTick>, cap: Option<usize>, ts: Seq<VoiceTick>) -> Seq<
    VoiceTick,
>
    decreases ts.len(),
{
    if ts.len() == 0 {
        q
    } else {
        enqueue_transition(enqueue_all(q, cap, ts.drop_last()), cap, ts.last())
    }
}

/// With bound `c`, the queue after any sequence of accepted ticks holds the
/// most recent `c` elements of everything ever queued, in arrival order.
proof fn lemma_enqueue_all_bounded(q: Seq<VoiceTick>, c: usize, ts: Seq<VoiceTick>)
    requires
        q.len() <= c,
    ensures
        enqueue_all(q, Some(c), ts) == if q.len() + ts.len() > c {
            (q + ts).skip(q.len() + ts.len() - c)
        } else {
            q + ts
        },
    decreases ts.len(),
{
    if ts.len() == 0 {
        assert(q + ts =~= q);
    } else {
        lemma_enqueue_all_bounded(q, c, ts.drop_last());
        let prev = enqueue_all(q, Some(c as usize), ts.drop_last());
        let r = enqueue_transition(prev, Some(c as usize), ts.last());
        if c == 0 {
            assert(r =~= (q + ts).skip(q.len() + ts.len() - c));
        } else if prev.len() >= c {
            assert(r =~= (q + ts).skip(q.len() + ts.len() - c));
        } else {
            if q.len() + ts.len() > c {
                assert(r =~= (q + ts).skip(q.len() + ts.len() - c));
            } else {
                assert(r =~= q + ts);
            }
        }
    }
}

/// Buffering eviction bound: feeding at least `c` ticks into a sink bounded
/// at `c` leaves exactly `c` buffered, and they are precisely the most recent
/// `c` fed ticks, in arrival order.
pub proof fn lemma_eviction_bound(q: Seq<VoiceTick>, c: usize, ts: Seq<VoiceTick>)
    requires
        q.len() <= c,
        ts.len() >= c,
    ensures
        enqueue_all(q, Some(c), ts).len() == c,
        enqueue_all(q, Some(c), ts) == ts.skip(ts.len() - c),
{
    lemma_enqueue_all_bounded(q, c, ts);
    if q.len() + ts.len() > c {
        assert((q + ts).skip(q.len() + ts.len() - c) =~= ts.skip(ts.len() - c));
    } else {
        assert(q + ts =~= ts.skip(ts.len() - c));
    }
}

/// FIFO order: while the bound is not reached (or the queue is unbounded),
/// fed ticks are retained exactly in arrival order behind what was already
/// queued; the consumer's pops then yield them front-first in that order.
pub proof fn lemma_fifo_order(q: Seq<VoiceTick>, cap: Option<usize>, ts: Seq<VoiceTick>)
    requires
        cap matches Some(c) ==> q.len() + ts.len() <= c,
    ensures
        enqueue_all(q, cap, ts) == q + ts,
    decreases ts.len(),
{
    if ts.len() == 0 {
        assert(q + ts =~= q);
    } else {
        lemma_fifo_order(q, cap, ts.drop_last());
        assert(enqueue_all(q, cap, ts) =~= q + ts);
    }
}

} // verus!
