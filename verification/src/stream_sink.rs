//! Fan-out broadcasting of tick snapshots to independently paced consumers,
//! gated by a fixed concurrency ceiling of permits, with a policy toggle for
//! retaining ticks while nobody listens.

use vstd::prelude::*;
use std::collections::VecDeque;
use crate::events::{EventHandler, EventKind, SinkBase, VoiceEvent};
use crate::key::VoiceKey;
use crate::resolver::{insert_transition, remove_transition, SsrcManager};
use crate::tick::{clone_pcm, kv_keys, snapshot_matches, VoiceTick};
use crate::TICKS_PER_SECOND;

verus! {

/// Failures of the streaming side. Admission denial is recoverable by trying
/// again later; a closed handle or sink is terminal for that handle.
#[derive(Debug, Clone, Copy, PartialEq, Eq, Structural)]
pub enum StreamError {
    /// The handle already holds a permit and was entered again.
    AlreadyEntered,
    /// The concurrency ceiling is reached; no permit is free right now.
    AdmissionDenied,
    /// The handle holds no permit, or the sink's send side is gone.
    Closed,
}

/// Admission rule: a handle may enter when it holds no permit yet and at
/// least one permit is free under the ceiling.
pub open spec fn admission_granted(entered: bool, outstanding: int, limit: int) -> bool {
    !entered && outstanding < limit
}

/// Publish rule: an incoming tick is broadcast as a real snapshot when at
/// least one permit is held (somebody is listening) or retention is on;
/// otherwise only a dropped-marker is published.
pub open spec fn publishes_tick(outstanding: int, retain: bool) -> bool {
    outstanding > 0 || retain
}

/// Appending one message to the channel buffer: the oldest entry falls out
/// once the fixed retention depth is exceeded.
pub open spec fn broadcast_push(
    entries: Seq<Option<VoiceTick>>,
    cap: usize,
    m: Option<VoiceTick>,
) -> Seq<Option<VoiceTick>> {
    let e = entries.push(m);
    if e.len() > cap {
        e.skip(e.len() - cap)
    } else {
        e
    }
}

/// Streaming sink for received voice data: owns the send side of a broadcast
/// buffer of fixed depth and a counting permit pool bounding concurrent
/// consumers.
pub struct StreamSink {
    resolver: SsrcManager,
    entries: VecDeque<Option<VoiceTick>>,
    sent: u64,
    capacity: usize,
    max_concurrent: usize,
    outstanding: usize,
    retain: bool,
    closed: bool,
}

/// Everything about a sink except its permit count is unchanged.
pub open spec fn channel_unchanged(pre: StreamSink, post: StreamSink) -> bool {
    &&& post.retained() == pre.retained()
    &&& post.sent_count() == pre.sent_count()
    &&& post.channel_capacity() == pre.channel_capacity()
    &&& post.concurrency_limit() == pre.concurrency_limit()
    &&& post.retains_when_idle() == pre.retains_when_idle()
    &&& post.is_closed() == pre.is_closed()
    &&& post.resolver_map() == pre.resolver_map()
    &&& post.user_map() == pre.user_map()
}

/// How one delivered event changes a streaming sink: speaking updates and
/// disconnects maintain the resolver; a tick, unless the sink is closed or
/// the send counter is exhausted, publishes either the real snapshot or a
/// dropped-marker, decided by the publish rule; permits never change here.
pub open spec fn stream_act_spec(pre: StreamSink, ctx: VoiceEvent, post: StreamSink) -> bool {
    &&& post.channel_capacity() == pre.channel_capacity()
    &&& post.concurrency_limit() == pre.concurrency_limit()
    &&& post.outstanding_permits() == pre.outstanding_permits()
    &&& post.retains_when_idle() == pre.retains_when_idle()
    &&& post.is_closed() == pre.is_closed()
    &&& match ctx {
        VoiceEvent::SpeakingStateUpdate { ssrc, user_id } => {
            &&& post.retained() == pre.retained()
            &&& post.sent_count() == pre.sent_count()
            &&& match user_id {
                Some(uid) => (post.user_map(), post.resolver_map()) == insert_transition(
                    pre.user_map(),
                    pre.resolver_map(),
                    uid,
                    ssrc,
                ),
                None => post.user_map() == pre.user_map() && post.resolver_map()
                    == pre.resolver_map(),
            }
        },
        VoiceEvent::ClientDisconnect { user_id } => {
            &&& post.retained() == pre.retained()
            &&& post.sent_count() == pre.sent_count()
            &&& (post.user_map(), post.resolver_map()) == remove_transition(
                pre.user_map(),
                pre.resolver_map(),
                user_id,
            )
        },
        VoiceEvent::Tick(raw_tick) => {
            &&& post.resolver_map() == pre.resolver_map()
            &&& post.user_map() == pre.user_map()
            &&& if pre.is_closed() || pre.sent_count() == u64::MAX {
                post.retained() == pre.retained() && post.sent_count() == pre.sent_count()
            } else {
                &&& post.sent_count() == pre.sent_count() + 1
                &&& if publishes_tick(
                    pre.outstanding_permits() as int,
                    pre.retains_when_idle(),
                ) {
                    exists|t: VoiceTick|
                        #[trigger] snapshot_matches(t, raw_tick, pre.resolver_map())
                            && post.retained() == broadcast_push(
                            pre.retained(),
                            pre.channel_capacity(),
                            Some(t),
                        )
                } else {
                    post.retained() == broadcast_push(
                        pre.retained(),
                        pre.channel_capacity(),
                        None::<VoiceTick>,
                    )
                }
            }
        },
        _ => {
            &&& post.retained() == pre.retained()
            &&& post.sent_count() == pre.sent_count()
            &&& post.resolver_map() == pre.resolver_map()
            &&& post.user_map() == pre.user_map()
        },
    }
}

impl StreamSink {
    /// The permit count respects the ceiling, the buffer respects its depth,
    /// and the resolver stays consistent.
    #[verifier::type_invariant]
    spec fn inv(self) -> bool {
        &&& self.resolver.wf()
        &&& self.capacity >= 1
        &&& self.entries@.len() <= self.capacity
        &&& self.entries@.len() <= self.sent
        &&& self.outstanding <= self.max_concurrent
    }

    /// The messages the channel still holds, oldest first: a real snapshot or
    /// a dropped-marker each.
    pub closed spec fn retained(self) -> Seq<Option<VoiceTick>> {
        self.entries@
    }

    /// How many messages were ever published on this channel.
    pub closed spec fn sent_count(self) -> u64 {
        self.sent
    }

    /// The absolute index of the oldest retained message.
    pub open spec fn first_index(self) -> int {
        self.sent_count() - self.retained().len()
    }

    /// The fixed retention depth of the channel buffer.
    pub closed spec fn channel_capacity(self) -> usize {
        self.capacity
    }

    /// The concurrency ceiling of the permit pool.
    pub closed spec fn concurrency_limit(self) -> usize {
        self.max_concurrent
    }

    /// How many permits are currently held by handles.
    pub closed spec fn outstanding_permits(self) -> usize {
        self.outstanding
    }

    /// Whether ticks are retained even when no consumer holds a permit.
    pub closed spec fn retains_when_idle(self) -> bool {
        self.retain
    }

    /// Whether the send side has been dropped.
    pub closed spec fn is_closed(self) -> bool {
        self.closed
    }

    /// The resolver's SSRC-to-participant direction.
    pub closed spec fn resolver_map(self) -> Map<u32, u64> {
        self.resolver.ssrc_to_user()
    }

    /// The resolver's participant-to-SSRC direction.
    pub closed spec fn user_map(self) -> Map<u64, u32> {
        self.resolver.user_to_ssrc()
    }

    /// Create a streaming sink: a broadcast buffer holding `retain_secs`
    /// seconds of ticks and a permit pool of `max_concurrent` permits,
    /// together with its registration descriptor. The sink asks for ticks,
    /// speaking updates and disconnects.
    pub fn new(retain: bool, retain_secs: usize, max_concurrent: usize) -> (r: (
        StreamSink,
        SinkBase,
    ))
        requires
            1 <= retain_secs,
            retain_secs * TICKS_PER_SECOND <= usize::MAX,
        ensures
            r.0.retained() == Seq::<Option<VoiceTick>>::empty(),
            r.0.sent_count() == 0,
            r.0.channel_capacity() == retain_secs * TICKS_PER_SECOND,
            r.0.concurrency_limit() == max_concurrent,
            r.0.outstanding_permits() == 0,
            r.0.retains_when_idle() == retain,
            !r.0.is_closed(),
            r.0.resolver_map() == Map::<u32, u64>::empty(),
            r.0.user_map() == Map::<u64, u32>::empty(),
            r.1.receive_events@ == seq![
                EventKind::VoiceTick,
                EventKind::SpeakingStateUpdate,
                EventKind::ClientDisconnect,
            ],
    {
        let capacity: usize = retain_secs * TICKS_PER_SECOND;
        let mut events: Vec<EventKind> = Vec::new();
        events.push(EventKind::VoiceTick);
        events.push(EventKind::SpeakingStateUpdate);
        events.push(EventKind::ClientDisconnect);
        proof {
            assert(events@ =~= seq![
                EventKind::VoiceTick,
                EventKind::SpeakingStateUpdate,
                EventKind::ClientDisconnect,
            ]);
        }
        (
            StreamSink {
                resolver: SsrcManager::new(),
                entries: VecDeque::with_capacity(capacity),
                sent: 0,
                capacity,
                max_concurrent,
                outstanding: 0,
                retain,
                closed: false,
            },
            SinkBase { receive_events: events },
        )
    }

    /// Create a stream handle; it holds no permit until it is entered.
    pub fn stream(&self) -> (h: PyStream)
        ensures
            !h.entered(),
    {
        PyStream { holds_permit: false }
    }

    /// How many permits are currently free under the ceiling.
    pub fn available_permits(&self) -> (r: usize)
        ensures
            r == self.concurrency_limit() - self.outstanding_permits(),
    {
        proof {
            use_type_invariant(&*self);
        }
        self.max_concurrent - self.outstanding
    }

    /// Resolve a participant id for `ssrc` from the sink's resolver.
    pub fn get_user_id(&self, ssrc: u32) -> (r: Option<u64>)
        ensures
            match r {
                Some(u) => self.resolver_map().contains_key(ssrc) && u == self.resolver_map()[
                    ssrc
                ],
                None => !self.resolver_map().contains_key(ssrc),
            },
    {
        match self.resolver.get_user(&ssrc) {
            Some(u) => Some(*u),
            None => None,
        }
    }

    /// Drop the send side: nothing further is published, handles and fresh
    /// subscriptions fail with `Closed`; consumers may still drain what the
    /// buffer holds.
    pub fn close(&mut self)
        ensures
            final(self).is_closed(),
            final(self).retained() == old(self).retained(),
            final(self).sent_count() == old(self).sent_count(),
            final(self).channel_capacity() == old(self).channel_capacity(),
            final(self).concurrency_limit() == old(self).concurrency_limit(),
            final(self).outstanding_permits() == old(self).outstanding_permits(),
            final(self).retains_when_idle() == old(self).retains_when_idle(),
            final(self).resolver_map() == old(self).resolver_map(),
            final(self).user_map() == old(self).user_map(),
    {
        proof {
            use_type_invariant(&*self);
        }
        self.closed = true;
    }

    /// Receive the next message for `sub`: the next retained message in
    /// publish order, `Lagged` with the cursor moved forward when the buffer
    /// already evicted it, `Pending` when nothing new has been published, and
    /// `Closed` when the channel is drained and its send side is gone.
    pub fn recv(&self, sub: &mut StreamSubscription) -> (r: RecvPoll)
        ensures
            old(sub).cursor() < self.first_index() ==> r == RecvPoll::Lagged && final(sub).cursor() == self.first_index(),
            old(sub).cursor() >= self.sent_count() ==> *final(sub) == *old(sub) && r == (
            if self.is_closed() {
                RecvPoll::Closed
            } else {
                RecvPoll::Pending
            }),
            self.first_index() <= old(sub).cursor() < self.sent_count() ==> {
                &&& final(sub).cursor() == old(sub).cursor() + 1
                &&& match self.retained()[old(sub).cursor() - self.first_index()] {
                    None => r == RecvPoll::Dropped,
                    Some(t) => r matches RecvPoll::Tick(out) && out.speaking_map()
                        == t.speaking_map() && out.silent_seq() == t.silent_seq() && kv_keys(
                        out.speaking_seq(),
                    ) == kv_keys(t.speaking_seq()),
                }
            },
    {
        proof {
            use_type_invariant(&*self);
        }
        let first: u64 = self.sent - (self.entries.len() as u64);
        if sub.next < first {
            sub.next = first;
            return RecvPoll::Lagged;
        }
        if sub.next >= self.sent {
            if self.closed {
                return RecvPoll::Closed;
            } else {
                return RecvPoll::Pending;
            }
        }
        let idx: usize = (sub.next - first) as usize;
        let msg: &Option<VoiceTick> = &self.entries[idx];
        sub.next = sub.next + 1;
        match msg {
            None => RecvPoll::Dropped,
            Some(t) => RecvPoll::Tick(t.clone()),
        }
    }

    /// Receive the next message for `sub` projected to one key: the decoded
    /// samples when the key speaks in that tick, `Silent` when the snapshot
    /// carries no samples for it, and `Dropped` when the message is a
    /// backpressure marker — so data loss stays distinguishable from silence.
    pub fn recv_key(&self, sub: &mut StreamSubscription, key: &VoiceKey) -> (r: KeyedPoll)
        ensures
            old(sub).cursor() < self.first_index() ==> r == KeyedPoll::Lagged && final(sub).cursor() == self.first_index(),
            old(sub).cursor() >= self.sent_count() ==> *final(sub) == *old(sub) && r == (
            if self.is_closed() {
                KeyedPoll::Closed
            } else {
                KeyedPoll::Pending
            }),
            self.first_index() <= old(sub).cursor() < self.sent_count() ==> {
                &&& final(sub).cursor() == old(sub).cursor() + 1
                &&& match self.retained()[old(sub).cursor() - self.first_index()] {
                    None => r == KeyedPoll::Dropped,
                    Some(t) => if t.speaking_map().contains_key(*key) {
                        r matches KeyedPoll::Speaking(pcm) && pcm@ == t.speaking_map()[*key]
                    } else {
                        r == KeyedPoll::Silent
                    },
                }
            },
    {
        proof {
            use_type_invariant(&*self);
        }
        let first: u64 = self.sent - (self.entries.len() as u64);
        if sub.next < first {
            sub.next = first;
            return KeyedPoll::Lagged;
        }
        if sub.next >= self.sent {
            if self.closed {
                return KeyedPoll::Closed;
            } else {
                return KeyedPoll::Pending;
            }
        }
        let idx: usize = (sub.next - first) as usize;
        let msg: &Option<VoiceTick> = &self.entries[idx];
        sub.next = sub.next + 1;
        match msg {
            None => KeyedPoll::Dropped,
            Some(t) => match t.get(key) {
                Some(pcm) => KeyedPoll::Speaking(clone_pcm(pcm)),
                None => KeyedPoll::Silent,
            },
        }
    }
}

impl EventHandler for StreamSink {
    open spec fn act_spec(pre: Self, ctx: VoiceEvent, post: Self) -> bool {
        stream_act_spec(pre, ctx, post)
    }

    fn act(&mut self, ctx: &VoiceEvent) -> (r: Option<VoiceEvent>) {
        proof {
            use_type_invariant(&*self);
        }
        let ghost pre = *self;
        match ctx {
            VoiceEvent::SpeakingStateUpdate { ssrc, user_id } => {
                if let Some(uid) = user_id {
                    let mut resolver = SsrcManager::new();
                    std::mem::swap(&mut resolver, &mut self.resolver);
                    resolver.insert(*uid, *ssrc);
                    self.resolver = resolver;
                }
                None
            },
            VoiceEvent::ClientDisconnect { user_id } => {
                let mut resolver = SsrcManager::new();
                std::mem::swap(&mut resolver, &mut self.resolver);
                resolver.remove_by_user(user_id);
                self.resolver = resolver;
                None
            },
            VoiceEvent::Tick(raw_tick) => {
                if self.closed {
                    return None;
                }
                if self.sent == u64::MAX {
                    return None;
                }
                let publish: bool = self.outstanding > 0 || self.retain;
                let msg: Option<VoiceTick> = if publish {
                    Some(VoiceTick::from_parts(raw_tick, &self.resolver))
                } else {
                    None
                };
                let ghost witness = msg;
                self.sent = self.sent + 1;
                let mut entries: VecDeque<Option<VoiceTick>> = VecDeque::new();
                std::mem::swap(&mut entries, &mut self.entries);
                let ghost e0 = entries@;
                entries.push_back(msg);
                if entries.len() > self.capacity {
                    let ghost before = entries@;
                    entries.pop_front();
                    proof {
                        assert(entries@ == before.subrange(1, before.len() as int));
                        assert(entries@ =~= broadcast_push(e0, pre.channel_capacity(), witness));
                    }
                }
                self.entries = entries;
                proof {
                    assert(self.entries@ =~= broadcast_push(
                        e0,
                        pre.channel_capacity(),
                        witness,
                    ));
                    if publish {
                        assert(snapshot_matches(witness->0, *raw_tick, pre.resolver_map()));
                        assert(exists|t: VoiceTick|
                            #[trigger] snapshot_matches(t, *raw_tick, pre.resolver_map())
                                && self.retained() == broadcast_push(
                                pre.retained(),
                                pre.channel_capacity(),
                                Some(t),
                            ));
                    }
                }
                None
            },
            _ => None,
        }
    }
}

/// Async stream handle for a streaming sink: a scoped resource that acquires
/// one permit on entry and must release it exactly once via `close`, however
/// its scope ends.
pub struct PyStream {
    holds_permit: bool,
}

/// A consumer's position on the broadcast: the absolute index of the next
/// message it will receive.
#[derive(Debug, Clone, Copy, PartialEq, Eq, Structural)]
pub struct StreamSubscription {
    next: u64,
}

impl StreamSubscription {
    /// The absolute index of the next message this subscription receives.
    pub closed spec fn cursor(self) -> u64 {
        self.next
    }
}

/// What one receive attempt yields on the full-tick stream.
#[derive(Debug)]
pub enum RecvPoll {
    /// Nothing new published yet; the consumer would suspend here.
    Pending,
    /// The consumer fell behind the retention depth; its cursor was moved to
    /// the oldest retained message.
    Lagged,
    /// The channel is drained and its send side is gone.
    Closed,
    /// A backpressure marker: a tick arrived while nothing was retained.
    Dropped,
    /// The next broadcast snapshot.
    Tick(VoiceTick),
}

/// What one receive attempt yields on a keyed stream.
#[derive(Debug)]
pub enum KeyedPoll {
    /// Nothing new published yet; the consumer would suspend here.
    Pending,
    /// The consumer fell behind the retention depth; its cursor was moved to
    /// the oldest retained message.
    Lagged,
    /// The channel is drained and its send side is gone.
    Closed,
    /// A backpressure marker: the tick itself was dropped.
    Dropped,
    /// The snapshot carries no samples for the key this tick: marked silent,
    /// unresolved, or simply absent.
    Silent,
    /// The decoded samples for the key this tick.
    Speaking(Vec<i16>),
}

impl PyStream {
    /// Whether this handle currently holds a permit.
    pub closed spec fn entered(self) -> bool {
        self.holds_permit
    }

    /// Enter the handle's scope: acquire one permit, failing fast — never
    /// queueing — when the ceiling is reached or the handle already holds
    /// one.
    pub fn enter(&mut self, sink: &mut StreamSink) -> (r: Result<(), StreamError>)
        ensures
            channel_unchanged(*old(sink), *final(sink)),
            r is Ok <==> admission_granted(
                old(self).entered(),
                old(sink).outstanding_permits() as int,
                old(sink).concurrency_limit() as int,
            ),
            r is Ok ==> final(self).entered() && final(sink).outstanding_permits() == old(sink).outstanding_permits() + 1,
            !(r is Ok) ==> *final(self) == *old(self) && final(sink).outstanding_permits() == old(sink).outstanding_permits(),
            r == Err::<(), StreamError>(StreamError::AlreadyEntered) <==> old(self).entered(),
            r == Err::<(), StreamError>(StreamError::AdmissionDenied) <==> !old(self).entered()
                && old(sink).outstanding_permits() >= old(sink).concurrency_limit(),
    {
        proof {
            use_type_invariant(&*sink);
        }
        if self.holds_permit {
            return Err(StreamError::AlreadyEntered);
        }
        if sink.outstanding >= sink.max_concurrent {
            return Err(StreamError::AdmissionDenied);
        }
        sink.outstanding = sink.outstanding + 1;
        self.holds_permit = true;
        Ok(())
    }

    /// Leave the handle's scope: release the permit if one is held. Releasing
    /// happens at most once per entered scope; closing again is a no-op.
    pub fn close(&mut self, sink: &mut StreamSink)
        ensures
            channel_unchanged(*old(sink), *final(sink)),
            !final(self).entered(),
            final(sink).outstanding_permits() as int == if old(self).entered() && old(sink).outstanding_permits() > 0 {
                old(sink).outstanding_permits() - 1
            } else {
                old(sink).outstanding_permits() as int
            },
    {
        proof {
            use_type_invariant(&*sink);
        }
        if self.holds_permit {
            self.holds_permit = false;
            if sink.outstanding > 0 {
                sink.outstanding = sink.outstanding - 1;
            }
        }
    }

    /// Subscribe to the broadcast: the subscription starts at the channel's
    /// current end, so it observes only messages published after this call.
    /// Fails with `Closed` on a handle without a permit or a sink whose send
    /// side is gone — the liveness check of the non-owning back-reference.
    pub fn subscribe(&self, sink: &StreamSink) -> (r: Result<StreamSubscription, StreamError>)
        ensures
            r is Ok <==> self.entered() && !sink.is_closed(),
            r matches Ok(sub) ==> sub.cursor() == sink.sent_count(),
            r matches Err(e) ==> e == StreamError::Closed,
    {
        if !self.holds_permit {
            return Err(StreamError::Closed);
        }
        if sink.closed {
            return Err(StreamError::Closed);
        }
        Ok(StreamSubscription { next: sink.sent })
    }
}

/// Permit ceiling: with `max_concurrent = n` and all `n` permits held, a
/// fresh handle's admission is denied; after exactly one release the next
/// admission is granted; the one after that is denied again.
pub proof fn lemma_permit_ceiling(n: usize)
    requires
        n >= 1,
    ensures
        !admission_granted(false, n as int, n as int),
        admission_granted(false, n as int - 1, n as int),
        !admission_granted(false, (n - 1) as int + 1, n as int),
{
}

/// Drop-when-idle: with retention off and no permit held, the publish rule
/// withholds the snapshot, so a delivered tick adds only a bare marker and
/// the channel takes on no voice data while nobody listens. Together with
/// `subscribe` starting at the channel's end, a newly opened handle observes
/// only what is published after it subscribed.
pub proof fn lemma_drop_when_idle(entries: Seq<Option<VoiceTick>>, cap: usize)
    requires
        cap >= 1,
    ensures
        !publishes_tick(0, false),
        broadcast_push(entries, cap, None::<VoiceTick>).last() is None,
        forall|i: int|
            0 <= i < broadcast_push(entries, cap, None::<VoiceTick>).len() - 1
                ==> entries.contains(
                #[trigger] broadcast_push(entries, cap, None::<VoiceTick>)[i],
            ),
{
    let post = broadcast_push(entries, cap, None::<VoiceTick>);
    let e = entries.push(None::<VoiceTick>);
    assert forall|i: int| 0 <= i < post.len() - 1 implies entries.contains(
        #[trigger] post[i],
    ) by {
        if e.len() > cap {
            assert(post[i] == entries[i + (e.len() - cap)]);
        } else {
            assert(post[i] == entries[i]);
        }
    }
}

} // verus!
