//! The event-delivery contract consumed from the external media engine, and
//! the handler capability a sink exposes to it.

use vstd::prelude::*;
use crate::raw;
use crate::resolver::{insert_transition, remove_transition, SsrcManager};

verus! {

/// The kinds of engine events a sink can declare interest in.
#[derive(Debug, Clone, Copy, PartialEq, Eq, Structural)]
pub enum EventKind {
    VoiceTick,
    SpeakingStateUpdate,
    ClientDisconnect,
}

/// One event delivered by the external engine. `Other` stands for every event
/// kind this library does not consume.
#[derive(Debug, Clone)]
pub enum VoiceEvent {
    Tick(raw::VoiceTick),
    SpeakingStateUpdate { ssrc: u32, user_id: Option<u64> },
    ClientDisconnect { user_id: u64 },
    Other,
}

/// The resolver-affecting subset of the engine's events, as carried by the
/// sinks' system-event path.
#[derive(Debug, Clone, Copy, PartialEq, Eq, Structural)]
pub enum SystemEvent {
    SpeakingStateUpdate { ssrc: u32, user_id: Option<u64> },
    ClientDisconnect { user_id: u64 },
}

/// Apply one system event to a resolver: a speaking update with a known
/// participant enters the pair, one without leaves the table unchanged, and a
/// disconnect purges the participant.
pub fn apply_system_event(resolver: &mut SsrcManager, ev: &SystemEvent)
    requires
        old(resolver).wf(),
    ensures
        final(resolver).wf(),
        (final(resolver).user_to_ssrc(), final(resolver).ssrc_to_user()) == match *ev {
            SystemEvent::SpeakingStateUpdate { ssrc, user_id: Some(uid) } => insert_transition(
                old(resolver).user_to_ssrc(),
                old(resolver).ssrc_to_user(),
                uid,
                ssrc,
            ),
            SystemEvent::SpeakingStateUpdate { ssrc: _, user_id: None } => (
                old(resolver).user_to_ssrc(),
                old(resolver).ssrc_to_user(),
            ),
            SystemEvent::ClientDisconnect { user_id } => remove_transition(
                old(resolver).user_to_ssrc(),
                old(resolver).ssrc_to_user(),
                user_id,
            ),
        },
{
    match ev {
        SystemEvent::SpeakingStateUpdate { ssrc, user_id } => {
            if let Some(uid) = user_id {
                resolver.insert(*uid, *ssrc);
            }
        },
        SystemEvent::ClientDisconnect { user_id } => {
            resolver.remove_by_user(user_id);
        },
    }
}

/// The capability a sink hands to the engine: react to each delivered event.
/// The return channel is reserved by the engine's contract and unused here,
/// so a handler always answers `None`.
pub trait EventHandler: Sized {
    /// How one `act` call relates the handler state before and after the
    /// event; each handler states its own reaction here.
    spec fn act_spec(pre: Self, ctx: VoiceEvent, post: Self) -> bool;

    /// React to one delivered engine event.
    fn act(&mut self, ctx: &VoiceEvent) -> (r: Option<VoiceEvent>)
        ensures
            r is None,
            Self::act_spec(*old(self), *ctx, *final(self)),
    ;
}

/// The registration half of a sink: the event kinds it asks the engine to
/// deliver.
pub struct SinkBase {
    pub receive_events: Vec<EventKind>,
}

impl SinkBase {
    /// Whether the sink asked for events of kind `kind`.
    pub fn wants(&self, kind: EventKind) -> (r: bool)
        ensures
            r == self.receive_events@.contains(kind),
    {
        let mut i: usize = 0;
        while i < self.receive_events.len()
            invariant
                i <= self.receive_events@.len(),
                forall|j: int| 0 <= j < i ==> self.receive_events@[j] != kind,
            decreases self.receive_events@.len() - i,
        {
            if self.receive_events[i] == kind {
                return true;
            }
            i = i + 1;
        }
        false
    }
}

} // verus!
