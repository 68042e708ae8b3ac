//! Immutable per-interval snapshot of voice activity, keyed by resolved
//! identity.

use vstd::prelude::*;
use crate::key::VoiceKey;
use crate::raw;
use crate::resolver::SsrcManager;

verus! {

/// Whether some entry of `s` carries key `k`.
pub open spec fn kv_has_key(s: Seq<(VoiceKey, Vec<i16>)>, k: VoiceKey) -> bool {
    exists|i: int| 0 <= i < s.len() && s[i].0 == k
}

/// All entry keys of `s` are pairwise distinct.
pub open spec fn kv_distinct(s: Seq<(VoiceKey, Vec<i16>)>) -> bool {
    forall|i: int, j: int| 0 <= i < j < s.len() ==> s[i].0 != s[j].0
}

/// The entry keys of `s`, in entry order.
pub open spec fn kv_keys(s: Seq<(VoiceKey, Vec<i16>)>) -> Seq<VoiceKey> {
    Seq::new(s.len(), |i: int| s[i].0)
}

/// The association of `s` read as a map; a later entry overrides an earlier
/// one with the same key.
pub open spec fn kv_map(s: Seq<(VoiceKey, Vec<i16>)>) -> Map<VoiceKey, Seq<i16>>
    decreases s.len(),
{
    if s.len() == 0 {
        Map::<VoiceKey, Seq<i16>>::empty()
    } else {
        kv_map(s.drop_last()).insert(s.last().0, s.last().1@)
    }
}

/// `kv_map` has exactly the entry keys in its domain.
pub proof fn lemma_kv_map_dom(s: Seq<(VoiceKey, Vec<i16>)>)
    ensures
        forall|k: VoiceKey| #[trigger] kv_map(s).contains_key(k) <==> kv_has_key(s, k),
    decreases s.len(),
{
    if s.len() > 0 {
        lemma_kv_map_dom(s.drop_last());
        assert forall|k: VoiceKey| kv_has_key(s, k) implies #[trigger] kv_map(s).contains_key(
            k,
        ) by {
            let i = choose|i: int| 0 <= i < s.len() && s[i].0 == k;
            if i < s.len() - 1 {
                assert(s.drop_last()[i].0 == k);
                assert(kv_has_key(s.drop_last(), k));
                assert(kv_map(s.drop_last()).contains_key(k));
            } else {
                assert(k == s.last().0);
            }
        }
        assert forall|k: VoiceKey| #[trigger] kv_map(s).contains_key(k) implies kv_has_key(
            s,
            k,
        ) by {
            if k == s.last().0 {
                assert(s[s.len() - 1].0 == k);
            } else {
                assert(kv_map(s.drop_last()).contains_key(k));
                assert(kv_has_key(s.drop_last(), k));
                let i = choose|i: int| 0 <= i < s.drop_last().len() && s.drop_last()[i].0 == k;
                assert(s[i].0 == k);
            }
        }
    }
}

/// With distinct keys, `kv_map` maps each entry key to that entry's payload.
pub proof fn lemma_kv_map_index(s: Seq<(VoiceKey, Vec<i16>)>, i: int)
    requires
        kv_distinct(s),
        0 <= i < s.len(),
    ensures
        kv_map(s).contains_key(s[i].0),
        kv_map(s)[s[i].0] == s[i].1@,
    decreases s.len(),
{
    lemma_kv_map_dom(s);
    if i < s.len() - 1 {
        assert(s.drop_last()[i] == s[i]);
        lemma_kv_map_index(s.drop_last(), i);
    }
}

/// Replacing the payload of entry `i` updates the map at that entry's key.
proof fn lemma_kv_map_update(s: Seq<(VoiceKey, Vec<i16>)>, i: int, v: Vec<i16>)
    requires
        kv_distinct(s),
        0 <= i < s.len(),
    ensures
        kv_map(s.update(i, (s[i].0, v))) == kv_map(s).insert(s[i].0, v@),
    decreases s.len(),
{
    let t = s.update(i, (s[i].0, v));
    if i == s.len() - 1 {
        assert(t.drop_last() =~= s.drop_last());
        assert(kv_map(t) =~= kv_map(s).insert(s[i].0, v@));
    } else {
        assert(t.drop_last() =~= s.drop_last().update(i, (s[i].0, v)));
        assert(s.drop_last()[i] == s[i]);
        lemma_kv_map_update(s.drop_last(), i, v);
        assert(s[i].0 != s.last().0);
        assert(kv_map(t) =~= kv_map(s).insert(s[i].0, v@));
    }
}

/// The key an SSRC resolves to under the table `s2u`: the owning participant
/// when one is known, otherwise the SSRC itself.
pub open spec fn resolved_key(s2u: Map<u32, u64>, ssrc: u32) -> VoiceKey {
    if s2u.contains_key(ssrc) {
        VoiceKey::User(s2u[ssrc])
    } else {
        VoiceKey::Unknown(ssrc)
    }
}

/// The speaking side of a snapshot built from the raw per-source entries:
/// every decodable frame lands under its resolved key, later entries
/// overriding earlier ones that resolve to the same key.
pub open spec fn speaking_fold(entries: Seq<(u32, raw::VoiceData)>, s2u: Map<u32, u64>) -> Map<
    VoiceKey,
    Seq<i16>,
>
    decreases entries.len(),
{
    if entries.len() == 0 {
        Map::<VoiceKey, Seq<i16>>::empty()
    } else {
        let prev = speaking_fold(entries.drop_last(), s2u);
        match entries.last().1.decoded_voice {
            Some(pcm) => prev.insert(resolved_key(s2u, entries.last().0), pcm@),
            None => prev,
        }
    }
}

/// The silent side of a snapshot: resolved keys of sources the engine marked
/// silent, plus resolved keys of sources whose frame could not be decoded —
/// minus every key that carries audio this tick (speaking wins).
pub open spec fn silent_keys_of(
    entries: Seq<(u32, raw::VoiceData)>,
    silent_ssrcs: Seq<u32>,
    s2u: Map<u32, u64>,
) -> Set<VoiceKey> {
    Set::new(
        |k: VoiceKey|
            {
                &&& {
                    ||| exists|i: int|
                        0 <= i < silent_ssrcs.len() && resolved_key(s2u, silent_ssrcs[i]) == k
                    ||| exists|i: int|
                        0 <= i < entries.len() && entries[i].1.decoded_voice is None
                            && resolved_key(s2u, entries[i].0) == k
                }
                &&& !speaking_fold(entries, s2u).contains_key(k)
            },
    )
}

/// `t` is the snapshot that construction from raw tick `raw` yields under the
/// resolver table `s2u`.
pub open spec fn snapshot_matches(t: VoiceTick, raw: raw::VoiceTick, s2u: Map<u32, u64>) -> bool {
    &&& t.speaking_map() == speaking_fold(raw.speaking@, s2u)
    &&& t.silent_set() == silent_keys_of(raw.speaking@, raw.silent@, s2u)
}

/// Snapshot of received voice data for a single tick: decoded samples per
/// speaking key, and the set of keys reported silent. A key never appears on
/// both sides; a key with any decodable audio this tick is never silent.
#[derive(Debug)]
pub struct VoiceTick {
    speaking: Vec<(VoiceKey, Vec<i16>)>,
    silent: Vec<VoiceKey>,
}

impl VoiceTick {
    /// The speaking entries, in construction order.
    pub closed spec fn speaking_seq(self) -> Seq<(VoiceKey, Vec<i16>)> {
        self.speaking@
    }

    /// The silent keys, in construction order.
    pub closed spec fn silent_seq(self) -> Seq<VoiceKey> {
        self.silent@
    }

    /// The speaking side read as a map.
    pub open spec fn speaking_map(self) -> Map<VoiceKey, Seq<i16>> {
        kv_map(self.speaking_seq())
    }

    /// The silent side read as a set.
    pub open spec fn silent_set(self) -> Set<VoiceKey> {
        self.silent_seq().to_set()
    }

    /// Well-formedness: no key repeats on either side, and no key is both
    /// speaking and silent. Every snapshot the library builds satisfies this.
    #[verifier::type_invariant]
    pub open spec fn wf(self) -> bool {
        &&& kv_distinct(self.speaking_seq())
        &&& self.silent_seq().no_duplicates()
        &&& forall|i: int|
            0 <= i < self.silent_seq().len() ==> !kv_has_key(
                self.speaking_seq(),
                #[trigger] self.silent_seq()[i],
            )
    }

    /// Get the decoded samples for `key` if it is speaking in this tick.
    pub fn get(&self, key: &VoiceKey) -> (r: Option<&Vec<i16>>)
        ensures
            match r {
                Some(pcm) => self.speaking_map().contains_key(*key) && pcm@ == self.speaking_map()[
                    *key
                ],
                None => !self.speaking_map().contains_key(*key),
            },
    {
        proof {
            use_type_invariant(&*self);
            lemma_kv_map_dom(self.speaking_seq());
        }
        let mut i: usize = 0;
        while i < self.speaking.len()
            invariant
                self.wf(),
                i <= self.speaking@.len(),
                forall|j: int| 0 <= j < i ==> self.speaking@[j].0 != *key,
            decreases self.speaking@.len() - i,
        {
            if self.speaking[i].0 == *key {
                proof {
                    lemma_kv_map_index(self.speaking_seq(), i as int);
                }
                return Some(&self.speaking[i].1);
            }
            i = i + 1;
        }
        proof {
            lemma_kv_map_dom(self.speaking_seq());
        }
        None
    }

    /// Check whether `key` is marked silent in this tick.
    pub fn is_silent(&self, key: &VoiceKey) -> (r: bool)
        ensures
            r == self.silent_set().contains(*key),
    {
        let mut i: usize = 0;
        while i < self.silent.len()
            invariant
                i <= self.silent@.len(),
                forall|j: int| 0 <= j < i ==> self.silent@[j] != *key,
            decreases self.silent@.len() - i,
        {
            if self.silent[i] == *key {
                return true;
            }
            i = i + 1;
        }
        false
    }

    /// All keys present in this tick, speaking keys first, then silent keys.
    pub fn all_keys(&self) -> (r: Vec<VoiceKey>)
        ensures
            r@ == kv_keys(self.speaking_seq()) + self.silent_seq(),
    {
        let mut keys: Vec<VoiceKey> = Vec::new();
        let mut i: usize = 0;
        while i < self.speaking.len()
            invariant
                i <= self.speaking@.len(),
                keys@ == kv_keys(self.speaking@).take(i as int),
            decreases self.speaking@.len() - i,
        {
            keys.push(self.speaking[i].0);
            i = i + 1;
            proof {
                assert(keys@ =~= kv_keys(self.speaking@).take(i as int));
            }
        }
        let mut j: usize = 0;
        while j < self.silent.len()
            invariant
                j <= self.silent@.len(),
                keys@ == kv_keys(self.speaking@) + self.silent@.take(j as int),
            decreases self.silent@.len() - j,
        {
            keys.push(self.silent[j]);
            j = j + 1;
            proof {
                assert(keys@ =~= kv_keys(self.speaking@) + self.silent@.take(j as int));
            }
        }
        proof {
            assert(kv_keys(self.speaking@).take(self.speaking@.len() as int) =~= kv_keys(
                self.speaking@,
            ));
            assert(self.silent@.take(self.silent@.len() as int) =~= self.silent@);
        }
        keys
    }

    /// The keys that carry decoded samples this tick, in entry order.
    pub fn speaking_keys(&self) -> (r: Vec<VoiceKey>)
        ensures
            r@ == kv_keys(self.speaking_seq()),
    {
        let mut keys: Vec<VoiceKey> = Vec::new();
        let mut i: usize = 0;
        while i < self.speaking.len()
            invariant
                i <= self.speaking@.len(),
                keys@ == kv_keys(self.speaking@).take(i as int),
            decreases self.speaking@.len() - i,
        {
            keys.push(self.speaking[i].0);
            i = i + 1;
            proof {
                assert(keys@ =~= kv_keys(self.speaking@).take(i as int));
            }
        }
        proof {
            assert(kv_keys(self.speaking@).take(self.speaking@.len() as int) =~= kv_keys(
                self.speaking@,
            ));
        }
        keys
    }

    /// The keys marked silent this tick, in entry order.
    pub fn silent_keys(&self) -> (r: Vec<VoiceKey>)
        ensures
            r@ == self.silent_seq(),
    {
        let mut keys: Vec<VoiceKey> = Vec::new();
        let mut i: usize = 0;
        while i < self.silent.len()
            invariant
                i <= self.silent@.len(),
                keys@ == self.silent@.take(i as int),
            decreases self.silent@.len() - i,
        {
            keys.push(self.silent[i]);
            i = i + 1;
            proof {
                assert(keys@ =~= self.silent@.take(i as int));
            }
        }
        proof {
            assert(self.silent@.take(self.silent@.len() as int) =~= self.silent@);
        }
        keys
    }

    /// Build the snapshot for one raw tick under the resolver state at
    /// construction time. Every source resolves to its participant when known,
    /// else to `Unknown(ssrc)`; undecodable frames count as silence; a key
    /// that carries audio is never also silent.
    pub fn from_parts(tick: &raw::VoiceTick, resolver: &SsrcManager) -> (r: VoiceTick)
        ensures
            r.wf(),
            r.speaking_map() == speaking_fold(tick.speaking@, resolver.ssrc_to_user()),
            r.silent_set() == silent_keys_of(
                tick.speaking@,
                tick.silent@,
                resolver.ssrc_to_user(),
            ),
    {
        let ghost s2u = resolver.ssrc_to_user();
        let ghost entries = tick.speaking@;
        let mut speaking: Vec<(VoiceKey, Vec<i16>)> = Vec::new();
        let mut i: usize = 0;
        while i < tick.speaking.len()
            invariant
                i <= entries.len(),
                entries == tick.speaking@,
                s2u == resolver.ssrc_to_user(),
                kv_distinct(speaking@),
                kv_map(speaking@) == speaking_fold(entries.take(i as int), s2u),
            decreases entries.len() - i,
        {
            let ssrc: u32 = tick.speaking[i].0;
            let has_pcm: bool = tick.speaking[i].1.decoded_voice.is_some();
            if has_pcm {
                let key = resolve_key(resolver, ssrc);
                let pcm: Vec<i16> = match &tick.speaking[i].1.decoded_voice {
                    Some(p) => p.clone(),
                    None => Vec::new(),
                };
                upsert(&mut speaking, key, pcm);
            }
            i = i + 1;
            proof {
                assert(entries.take(i as int).drop_last() =~= entries.take(i - 1));
                assert(entries.take(i as int).last() == entries[i - 1]);
            }
        }
        proof {
            assert(entries.take(entries.len() as int) =~= entries);
            lemma_kv_map_dom(speaking@);
        }
        let ghost spk = speaking_fold(entries, s2u);
        let mut silent: Vec<VoiceKey> = Vec::new();
        let mut j: usize = 0;
        while j < tick.speaking.len()
            invariant
                j <= entries.len(),
                entries == tick.speaking@,
                s2u == resolver.ssrc_to_user(),
                kv_distinct(speaking@),
                kv_map(speaking@) == spk,
                forall|k: VoiceKey| kv_has_key(speaking@, k) <==> spk.contains_key(k),
                silent@.no_duplicates(),
                forall|jj: int|
                    0 <= jj < silent@.len() ==> !kv_has_key(speaking@, #[trigger] silent@[jj]),
                forall|k: VoiceKey|
                    #[trigger] silent@.contains(k) <==> ((exists|m: int|
                        0 <= m < j && entries[m].1.decoded_voice is None && resolved_key(
                            s2u,
                            entries[m].0,
                        ) == k) && !spk.contains_key(k)),
            decreases entries.len() - j,
        {
            let entry = &tick.speaking[j];
            let no_pcm: bool = entry.1.decoded_voice.is_none();
            let ghost pre = silent@;
            if no_pcm {
                let key = resolve_key(resolver, entry.0);
                push_if_new(&mut silent, &speaking, key);
                proof {
                    lemma_silent_step_none(pre, silent@, speaking@, spk, s2u, entries, j as int, key);
                }
            } else {
                proof {
                    assert forall|k: VoiceKey| #[trigger] silent@.contains(k) <==> ((exists|m: int|
                        0 <= m < j + 1 && entries[m].1.decoded_voice is None && resolved_key(
                            s2u,
                            entries[m].0,
                        ) == k) && !spk.contains_key(k)) by {
                        if exists|m: int|
                            0 <= m < j + 1 && entries[m].1.decoded_voice is None && resolved_key(
                                s2u,
                                entries[m].0,
                            ) == k {
                            let m = choose|m: int|
                                0 <= m < j + 1 && entries[m].1.decoded_voice is None
                                    && resolved_key(s2u, entries[m].0) == k;
                            assert(m < j);
                        }
                    }
                }
            }
            j = j + 1;
        }
        let mut m: usize = 0;
        while m < tick.silent.len()
            invariant
                m <= tick.silent@.len(),
                entries == tick.speaking@,
                s2u == resolver.ssrc_to_user(),
                kv_distinct(speaking@),
                kv_map(speaking@) == spk,
                forall|k: VoiceKey| kv_has_key(speaking@, k) <==> spk.contains_key(k),
                silent@.no_duplicates(),
                forall|jj: int|
                    0 <= jj < silent@.len() ==> !kv_has_key(speaking@, #[trigger] silent@[jj]),
                forall|k: VoiceKey|
                    #[trigger] silent@.contains(k) <==> (((exists|mm: int|
                        0 <= mm < entries.len() && entries[mm].1.decoded_voice is None
                            && resolved_key(s2u, entries[mm].0) == k) || (exists|mm: int|
                        0 <= mm < m && resolved_key(s2u, tick.silent@[mm]) == k))
                        && !spk.contains_key(k)),
            decreases tick.silent@.len() - m,
        {
            let key = resolve_key(resolver, tick.silent[m]);
            let ghost pre = silent@;
            push_if_new(&mut silent, &speaking, key);
            proof {
                lemma_silent_step_marked(
                    pre,
                    silent@,
                    speaking@,
                    spk,
                    s2u,
                    entries,
                    tick.silent@,
                    m as int,
                    key,
                );
            }
            m = m + 1;
        }
        let r = VoiceTick { speaking, silent };
        proof {
            assert(r.silent_set() =~= silent_keys_of(entries, tick.silent@, s2u));
        }
        r
    }
}

/// Copy a PCM buffer sample by sample.
pub(crate) fn clone_pcm(v: &Vec<i16>) -> (r: Vec<i16>)
    ensures
        r@ == v@,
{
    let mut r: Vec<i16> = Vec::new();
    let mut i: usize = 0;
    while i < v.len()
        invariant
            i <= v@.len(),
            r@ == v@.take(i as int),
        decreases v@.len() - i,
    {
        r.push(v[i]);
        i = i + 1;
        proof {
            assert(r@ =~= v@.take(i as int));
        }
    }
    proof {
        assert(v@.take(v@.len() as int) =~= v@);
    }
    r
}

/// Two associations with pointwise-equal keys and sample views read as the
/// same map.
pub proof fn lemma_kv_map_congruent(a: Seq<(VoiceKey, Vec<i16>)>, b: Seq<(VoiceKey, Vec<i16>)>)
    requires
        a.len() == b.len(),
        forall|i: int|
            0 <= i < a.len() ==> (#[trigger] a[i]).0 == b[i].0 && a[i].1@ == b[i].1@,
    ensures
        kv_map(a) == kv_map(b),
        kv_keys(a) == kv_keys(b),
    decreases a.len(),
{
    assert(kv_keys(a) =~= kv_keys(b));
    if a.len() > 0 {
        assert forall|i: int|
            0 <= i < a.drop_last().len() implies (#[trigger] a.drop_last()[i]).0
            == b.drop_last()[i].0 && a.drop_last()[i].1@ == b.drop_last()[i].1@ by {
            assert(a.drop_last()[i] == a[i]);
            assert(b.drop_last()[i] == b[i]);
        }
        lemma_kv_map_congruent(a.drop_last(), b.drop_last());
        assert(a.last().0 == b.last().0 && a.last().1@ == b.last().1@);
        assert(kv_map(a) =~= kv_map(b));
    }
}

impl Clone for VoiceTick {
    /// Duplicates the snapshot; the copy carries the same keys, the same
    /// samples and the same silent set.
    fn clone(&self) -> (r: Self)
        ensures
            r.speaking_map() == self.speaking_map(),
            kv_keys(r.speaking_seq()) == kv_keys(self.speaking_seq()),
            r.silent_seq() == self.silent_seq(),
    {
        proof {
            use_type_invariant(&*self);
        }
        let mut speaking: Vec<(VoiceKey, Vec<i16>)> = Vec::new();
        let mut i: usize = 0;
        while i < self.speaking.len()
            invariant
                i <= self.speaking@.len(),
                speaking@.len() == i,
                forall|j: int|
                    0 <= j < i ==> (#[trigger] speaking@[j]).0 == self.speaking@[j].0
                        && speaking@[j].1@ == self.speaking@[j].1@,
            decreases self.speaking@.len() - i,
        {
            let pcm = clone_pcm(&self.speaking[i].1);
            speaking.push((self.speaking[i].0, pcm));
            i = i + 1;
        }
        let mut silent: Vec<VoiceKey> = Vec::new();
        let mut j: usize = 0;
        while j < self.silent.len()
            invariant
                j <= self.silent@.len(),
                silent@ == self.silent@.take(j as int),
            decreases self.silent@.len() - j,
        {
            silent.push(self.silent[j]);
            j = j + 1;
            proof {
                assert(silent@ =~= self.silent@.take(j as int));
            }
        }
        proof {
            assert(self.silent@.take(self.silent@.len() as int) =~= self.silent@);
            lemma_kv_map_congruent(speaking@, self.speaking@);
            lemma_kv_map_dom(speaking@);
            lemma_kv_map_dom(self.speaking@);
            assert(kv_distinct(speaking@));
        }
        VoiceTick { speaking, silent }
    }
}

/// Resolve one SSRC against the table, falling back to `Unknown`.
fn resolve_key(resolver: &SsrcManager, ssrc: u32) -> (k: VoiceKey)
    ensures
        k == resolved_key(resolver.ssrc_to_user(), ssrc),
{
    match resolver.get_user(&ssrc) {
        Some(user) => VoiceKey::User(*user),
        None => VoiceKey::Unknown(ssrc),
    }
}

/// Insert `(key, pcm)` into the association, replacing the payload when the
/// key is already present.
fn upsert(v: &mut Vec<(VoiceKey, Vec<i16>)>, key: VoiceKey, pcm: Vec<i16>)
    requires
        kv_distinct(old(v)@),
    ensures
        kv_distinct(final(v)@),
        kv_map(final(v)@) == kv_map(old(v)@).insert(key, pcm@),
{
    let mut i: usize = 0;
    while i < v.len()
        invariant
            i <= v@.len(),
            v@ == old(v)@,
            kv_distinct(v@),
            forall|j: int| 0 <= j < i ==> v@[j].0 != key,
        decreases v@.len() - i,
    {
        if v[i].0 == key {
            proof {
                lemma_kv_map_update(v@, i as int, pcm);
            }
            v.set(i, (key, pcm));
            return ;
        }
        i = i + 1;
    }
    v.push((key, pcm));
    proof {
        assert(final(v)@.drop_last() =~= old(v)@);
    }
}

/// Append `key` to `silent` unless it already occurs there or carries audio.
fn push_if_new(silent: &mut Vec<VoiceKey>, speaking: &Vec<(VoiceKey, Vec<i16>)>, key: VoiceKey)
    ensures
        final(silent)@ == if old(silent)@.contains(key) || kv_has_key(speaking@, key) {
            old(silent)@
        } else {
            old(silent)@.push(key)
        },
{
    let mut i: usize = 0;
    while i < silent.len()
        invariant
            i <= silent@.len(),
            silent@ == old(silent)@,
            forall|j: int| 0 <= j < i ==> silent@[j] != key,
        decreases silent@.len() - i,
    {
        if silent[i] == key {
            return ;
        }
        i = i + 1;
    }
    let mut j: usize = 0;
    while j < speaking.len()
        invariant
            j <= speaking@.len(),
            silent@ == old(silent)@,
            forall|m: int| 0 <= m < j ==> speaking@[m].0 != key,
        decreases speaking@.len() - j,
    {
        if speaking[j].0 == key {
            return ;
        }
        j = j + 1;
    }
    silent.push(key);
}

/// One step of building the silent side from an undecodable speaking entry:
/// the prefix characterisation of the silent keys extends by one entry.
proof fn lemma_silent_step_none(
    pre: Seq<VoiceKey>,
    post: Seq<VoiceKey>,
    speaking: Seq<(VoiceKey, Vec<i16>)>,
    spk: Map<VoiceKey, Seq<i16>>,
    s2u: Map<u32, u64>,
    entries: Seq<(u32, raw::VoiceData)>,
    j: int,
    key: VoiceKey,
)
    requires
        0 <= j < entries.len(),
        entries[j].1.decoded_voice is None,
        key == resolved_key(s2u, entries[j].0),
        forall|k: VoiceKey| kv_has_key(speaking, k) <==> spk.contains_key(k),
        post == if pre.contains(key) || kv_has_key(speaking, key) {
            pre
        } else {
            pre.push(key)
        },
        pre.no_duplicates(),
        forall|jj: int| 0 <= jj < pre.len() ==> !kv_has_key(speaking, #[trigger] pre[jj]),
        forall|k: VoiceKey|
            #[trigger] pre.contains(k) <==> ((exists|m: int|
                0 <= m < j && entries[m].1.decoded_voice is None && resolved_key(s2u, entries[m].0)
                    == k) && !spk.contains_key(k)),
    ensures
        post.no_duplicates(),
        forall|jj: int| 0 <= jj < post.len() ==> !kv_has_key(speaking, #[trigger] post[jj]),
        forall|k: VoiceKey|
            #[trigger] post.contains(k) <==> ((exists|m: int|
                0 <= m < j + 1 && entries[m].1.decoded_voice is None && resolved_key(
                    s2u,
                    entries[m].0,
                ) == k) && !spk.contains_key(k)),
{
    assert forall|k: VoiceKey| #[trigger] post.contains(k) <==> ((exists|m: int|
        0 <= m < j + 1 && entries[m].1.decoded_voice is None && resolved_key(s2u, entries[m].0)
            == k) && !spk.contains_key(k)) by {
        if post != pre {
            vstd::seq_lib::lemma_seq_contains_after_push(pre, key, k);
        }
        if k == key {
            assert(entries[j].1.decoded_voice is None && resolved_key(s2u, entries[j].0) == k);
        } else {
            if exists|m: int|
                0 <= m < j + 1 && entries[m].1.decoded_voice is None && resolved_key(
                    s2u,
                    entries[m].0,
                ) == k {
                let m = choose|m: int|
                    0 <= m < j + 1 && entries[m].1.decoded_voice is None && resolved_key(
                        s2u,
                        entries[m].0,
                    ) == k;
                assert(m < j);
            }
        }
    }
}

/// One step of building the silent side from an engine-marked silent source.
proof fn lemma_silent_step_marked(
    pre: Seq<VoiceKey>,
    post: Seq<VoiceKey>,
    speaking: Seq<(VoiceKey, Vec<i16>)>,
    spk: Map<VoiceKey, Seq<i16>>,
    s2u: Map<u32, u64>,
    entries: Seq<(u32, raw::VoiceData)>,
    silent_ssrcs: Seq<u32>,
    m: int,
    key: VoiceKey,
)
    requires
        0 <= m < silent_ssrcs.len(),
        key == resolved_key(s2u, silent_ssrcs[m]),
        forall|k: VoiceKey| kv_has_key(speaking, k) <==> spk.contains_key(k),
        post == if pre.contains(key) || kv_has_key(speaking, key) {
            pre
        } else {
            pre.push(key)
        },
        pre.no_duplicates(),
        forall|jj: int| 0 <= jj < pre.len() ==> !kv_has_key(speaking, #[trigger] pre[jj]),
        forall|k: VoiceKey|
            #[trigger] pre.contains(k) <==> (((exists|mm: int|
                0 <= mm < entries.len() && entries[mm].1.decoded_voice is None && resolved_key(
                    s2u,
                    entries[mm].0,
                ) == k) || (exists|mm: int|
                0 <= mm < m && resolved_key(s2u, silent_ssrcs[mm]) == k)) && !spk.contains_key(k)),
    ensures
        post.no_duplicates(),
        forall|jj: int| 0 <= jj < post.len() ==> !kv_has_key(speaking, #[trigger] post[jj]),
        forall|k: VoiceKey|
            #[trigger] post.contains(k) <==> (((exists|mm: int|
                0 <= mm < entries.len() && entries[mm].1.decoded_voice is None && resolved_key(
                    s2u,
                    entries[mm].0,
                ) == k) || (exists|mm: int|
                0 <= mm < m + 1 && resolved_key(s2u, silent_ssrcs[mm]) == k)) && !spk.contains_key(
                k,
            )),
{
    assert forall|k: VoiceKey| #[trigger] post.contains(k) <==> (((exists|mm: int|
        0 <= mm < entries.len() && entries[mm].1.decoded_voice is None && resolved_key(
            s2u,
            entries[mm].0,
        ) == k) || (exists|mm: int|
        0 <= mm < m + 1 && resolved_key(s2u, silent_ssrcs[mm]) == k)) && !spk.contains_key(
        k,
    )) by {
        if post != pre {
            vstd::seq_lib::lemma_seq_contains_after_push(pre, key, k);
        }
        if k == key {
            assert(resolved_key(s2u, silent_ssrcs[m]) == k);
        } else {
            if exists|mm: int| 0 <= mm < m + 1 && resolved_key(s2u, silent_ssrcs[mm]) == k {
                let mm = choose|mm: int|
                    0 <= mm < m + 1 && resolved_key(s2u, silent_ssrcs[mm]) == k;
                assert(mm < m);
            }
        }
    }
}

/// Speaking/silent exclusivity: in a well-formed snapshot no key is both in
/// the speaking map and in the silent set.
pub proof fn lemma_speaking_silent_exclusive(t: VoiceTick)
    requires
        t.wf(),
    ensures
        forall|k: VoiceKey|
            !(#[trigger] t.speaking_map().contains_key(k) && t.silent_set().contains(k)),
{
    lemma_kv_map_dom(t.speaking_seq());
}

} // verus!
