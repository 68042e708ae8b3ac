//! Bidirectional resolution between stable participant identities and the
//! transient per-session source identifiers (SSRCs) the engine reports.

use vstd::prelude::*;
use std::collections::HashMap;

verus! {

broadcast use vstd::std_specs::hash::group_hash_axioms;

/// The two directions of the table agree pointwise: a participant owns an SSRC
/// exactly when that SSRC resolves back to the participant.
pub open spec fn consistent(u2s: Map<u64, u32>, s2u: Map<u32, u64>) -> bool {
    &&& forall|u: u64|
        #[trigger] u2s.contains_key(u) ==> s2u.contains_key(u2s[u]) && s2u[u2s[u]] == u
    &&& forall|s: u32|
        #[trigger] s2u.contains_key(s) ==> u2s.contains_key(s2u[s]) && u2s[s2u[s]] == s
}

/// What `SsrcManager::insert` does to the two directions: the participant's
/// stale SSRC and the SSRC's stale owner are dropped, then the new pair is
/// entered on both sides.
pub open spec fn insert_transition(
    u2s: Map<u64, u32>,
    s2u: Map<u32, u64>,
    user: u64,
    ssrc: u32,
) -> (Map<u64, u32>, Map<u32, u64>) {
    let s2u_cleared = if u2s.contains_key(user) {
        s2u.remove(u2s[user])
    } else {
        s2u
    };
    let u2s_cleared = if s2u_cleared.contains_key(ssrc) {
        u2s.remove(s2u_cleared[ssrc])
    } else {
        u2s
    };
    (u2s_cleared.insert(user, ssrc), s2u_cleared.insert(ssrc, user))
}

/// What `SsrcManager::remove_by_user` does to the two directions.
pub open spec fn remove_transition(u2s: Map<u64, u32>, s2u: Map<u32, u64>, user: u64) -> (
    Map<u64, u32>,
    Map<u32, u64>,
) {
    if u2s.contains_key(user) {
        (u2s.remove(user), s2u.remove(u2s[user]))
    } else {
        (u2s, s2u)
    }
}

/// Resolution table between participant ids and SSRCs, kept mutually
/// consistent in both directions.
pub struct SsrcManager {
    to_ssrc: HashMap<u64, u32>,
    to_user: HashMap<u32, u64>,
}

impl SsrcManager {
    /// The participant-to-SSRC direction.
    pub closed spec fn user_to_ssrc(self) -> Map<u64, u32> {
        self.to_ssrc@
    }

    /// The SSRC-to-participant direction.
    pub closed spec fn ssrc_to_user(self) -> Map<u32, u64> {
        self.to_user@
    }

    /// Well-formedness: both directions agree.
    pub open spec fn wf(self) -> bool {
        consistent(self.user_to_ssrc(), self.ssrc_to_user())
    }

    /// An empty table.
    pub fn new() -> (r: Self)
        ensures
            r.wf(),
            r.user_to_ssrc() == Map::<u64, u32>::empty(),
            r.ssrc_to_user() == Map::<u32, u64>::empty(),
    {
        Self { to_ssrc: HashMap::new(), to_user: HashMap::new() }
    }

    /// Associate `user` with `ssrc`, overwriting any prior SSRC owned by
    /// `user` and any prior owner of `ssrc`.
    pub fn insert(&mut self, user: u64, ssrc: u32)
        requires
            old(self).wf(),
        ensures
            final(self).wf(),
            (final(self).user_to_ssrc(), final(self).ssrc_to_user()) == insert_transition(
                old(self).user_to_ssrc(),
                old(self).ssrc_to_user(),
                user,
                ssrc,
            ),
            final(self).user_to_ssrc().contains_key(user) && final(self).user_to_ssrc()[user]
                == ssrc,
            final(self).ssrc_to_user().contains_key(ssrc) && final(self).ssrc_to_user()[ssrc]
                == user,
    {
        let stale_ssrc: Option<u32> = match self.to_ssrc.get(&user) {
            Some(s) => Some(*s),
            None => None,
        };
        if let Some(s) = stale_ssrc {
            self.to_user.remove(&s);
        }
        let stale_user: Option<u64> = match self.to_user.get(&ssrc) {
            Some(u) => Some(*u),
            None => None,
        };
        if let Some(u) = stale_user {
            self.to_ssrc.remove(&u);
        }
        self.to_ssrc.insert(user, ssrc);
        self.to_user.insert(ssrc, user);
        proof {
            lemma_insert_consistent(
                old(self).user_to_ssrc(),
                old(self).ssrc_to_user(),
                user,
                ssrc,
            );
        }
    }

    /// Remove both directions for `user`; no-op when the participant is not
    /// in the table.
    pub fn remove_by_user(&mut self, user: &u64)
        requires
            old(self).wf(),
        ensures
            final(self).wf(),
            (final(self).user_to_ssrc(), final(self).ssrc_to_user()) == remove_transition(
                old(self).user_to_ssrc(),
                old(self).ssrc_to_user(),
                *user,
            ),
            !final(self).user_to_ssrc().contains_key(*user),
    {
        if let Some(s) = self.to_ssrc.remove(user) {
            self.to_user.remove(&s);
        }
    }

    /// Pure lookup of the SSRC currently owned by `user`.
    pub fn get_ssrc(&self, user: &u64) -> (r: Option<&u32>)
        ensures
            match r {
                Some(s) => self.user_to_ssrc().contains_key(*user) && *s == self.user_to_ssrc()[
                    *user
                ],
                None => !self.user_to_ssrc().contains_key(*user),
            },
    {
        self.to_ssrc.get(user)
    }

    /// Pure lookup of the participant currently owning `ssrc`.
    pub fn get_user(&self, ssrc: &u32) -> (r: Option<&u64>)
        ensures
            match r {
                Some(u) => self.ssrc_to_user().contains_key(*ssrc) && *u == self.ssrc_to_user()[
                    *ssrc
                ],
                None => !self.ssrc_to_user().contains_key(*ssrc),
            },
    {
        self.to_user.get(ssrc)
    }
}

/// `insert_transition` preserves consistency of the two directions.
pub proof fn lemma_insert_consistent(u2s: Map<u64, u32>, s2u: Map<u32, u64>, user: u64, ssrc: u32)
    requires
        consistent(u2s, s2u),
    ensures
        consistent(insert_transition(u2s, s2u, user, ssrc).0, insert_transition(u2s, s2u, user, ssrc).1),
{
}

/// `remove_transition` preserves consistency of the two directions.
pub proof fn lemma_remove_consistent(u2s: Map<u64, u32>, s2u: Map<u32, u64>, user: u64)
    requires
        consistent(u2s, s2u),
    ensures
        consistent(remove_transition(u2s, s2u, user).0, remove_transition(u2s, s2u, user).1),
{
}

/// One recorded resolver mutation, for stating laws over whole call sequences.
#[derive(Debug, Clone, Copy, PartialEq, Eq, Structural)]
pub enum ResolverOp {
    Insert { user: u64, ssrc: u32 },
    RemoveByUser { user: u64 },
}

/// The table reached by applying `ops` in order, starting from empty.
pub open spec fn apply_ops(ops: Seq<ResolverOp>) -> (Map<u64, u32>, Map<u32, u64>)
    decreases ops.len(),
{
    if ops.len() == 0 {
        (Map::<u64, u32>::empty(), Map::<u32, u64>::empty())
    } else {
        let prev = apply_ops(ops.drop_last());
        match ops.last() {
            ResolverOp::Insert { user, ssrc } => insert_transition(prev.0, prev.1, user, ssrc),
            ResolverOp::RemoveByUser { user } => remove_transition(prev.0, prev.1, user),
        }
    }
}

/// Resolver consistency: after any sequence of `insert` and `remove_by_user`
/// calls starting from the empty table, an SSRC resolves to a participant
/// exactly when the reverse direction maps that participant to the SSRC.
pub proof fn lemma_resolver_consistency(ops: Seq<ResolverOp>)
    ensures
        consistent(apply_ops(ops).0, apply_ops(ops).1),
        forall|p: u64, s: u32|
            (#[trigger] apply_ops(ops).1.contains_key(s) && apply_ops(ops).1[s] == p) <==> (
            #[trigger] apply_ops(ops).0.contains_key(p) && apply_ops(ops).0[p] == s),
    decreases ops.len(),
{
    if ops.len() == 0 {
    } else {
        lemma_resolver_consistency(ops.drop_last());
        match ops.last() {
            ResolverOp::Insert { user, ssrc } => {
                lemma_insert_consistent(
                    apply_ops(ops.drop_last()).0,
                    apply_ops(ops.drop_last()).1,
                    user,
                    ssrc,
                );
            },
            ResolverOp::RemoveByUser { user } => {
                lemma_remove_consistent(
                    apply_ops(ops.drop_last()).0,
                    apply_ops(ops.drop_last()).1,
                    user,
                );
            },
        }
    }
}

} // verus!
