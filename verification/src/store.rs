use vstd::prelude::*;
use vstd::std_specs::vec::vec_index_mut;

use crate::attestation::{AGENT_LEN, ATTESTATION_ID_LEN};

verus! {

/// One persisted reputation record, keyed by (source chain, agent).
///
/// `timestamp` is the local receipt time recorded at the moment of
/// acceptance, not the attestation's self-reported timestamp.
pub struct BridgedReputation {
    /// Distinguishes "never written" from "written with score 0".
    pub is_initialized: bool,
    /// Source-chain address of the agent, exactly 20 bytes.
    pub source_agent: Vec<u8>,
    /// Score copied from the latest accepted attestation.
    pub score: u64,
    /// The transport-verified origin domain of that attestation.
    pub source_chain: u32,
    /// Local receipt time of the latest accepted attestation, in seconds.
    pub timestamp: i64,
    /// Nonce of the latest accepted attestation; strictly increases per key.
    pub nonce: u64,
    /// Content hash copied from that attestation, exactly 32 bytes.
    pub attestation_id: Vec<u8>,
}

/// The mathematical value of a [`BridgedReputation`] record.
#[verifier::ext_equal]
pub ghost struct ReputationView {
    pub source_agent: Seq<u8>,
    pub score: u64,
    pub source_chain: u32,
    pub timestamp: i64,
    pub nonce: u64,
    pub attestation_id: Seq<u8>,
}

impl View for BridgedReputation {
    type V = ReputationView;

    open spec fn view(&self) -> ReputationView {
        ReputationView {
            source_agent: self.source_agent@,
            score: self.score,
            source_chain: self.source_chain,
            timestamp: self.timestamp,
            nonce: self.nonce,
            attestation_id: self.attestation_id@,
        }
    }
}

impl BridgedReputation {
    /// A stored record is marked written and its byte fields have their
    /// declared arity.
    pub open spec fn wf(&self) -> bool {
        &&& self.is_initialized
        &&& self.source_agent@.len() == AGENT_LEN
        &&& self.attestation_id@.len() == ATTESTATION_ID_LEN
    }
}

/// The key a record is stored under: its transport-verified origin domain
/// paired with the agent address. Replay state is deliberately scoped per
/// (chain, agent), so the same agent address on two chains has independent
/// nonce streams.
pub open spec fn record_key(r: ReputationView) -> (u32, Seq<u8>) {
    (r.source_chain, r.source_agent)
}

/// The keyed, upsert-only store of bridged reputation records.
///
/// Abstractly it is the finite map from (source chain, agent) to the latest
/// accepted record for that key (its `view`). Records are created on first
/// acceptance and only ever overwritten in place, never deleted.
pub struct ReputationStore {
    entries: Vec<BridgedReputation>,
}

spec fn seq_wf(s: Seq<BridgedReputation>) -> bool {
    &&& forall|i: int| 0 <= i < s.len() ==> (#[trigger] s[i]).wf()
    &&& forall|i: int, j: int|
        #![trigger record_key(s[i]@), record_key(s[j]@)]
        0 <= i < j < s.len() ==> record_key(s[i]@) != record_key(s[j]@)
}

spec fn has_key(s: Seq<BridgedReputation>, k: (u32, Seq<u8>)) -> bool {
    exists|i: int| 0 <= i < s.len() && record_key(#[trigger] s[i]@) == k
}

spec fn index_of(s: Seq<BridgedReputation>, k: (u32, Seq<u8>)) -> int {
    choose|i: int| 0 <= i < s.len() && record_key(#[trigger] s[i]@) == k
}

spec fn map_of(s: Seq<BridgedReputation>) -> Map<(u32, Seq<u8>), ReputationView> {
    Map::new(|k: (u32, Seq<u8>)| has_key(s, k), |k: (u32, Seq<u8>)| s[index_of(s, k)]@)
}

proof fn lemma_index_of(s: Seq<BridgedReputation>, k: (u32, Seq<u8>))
    requires
        has_key(s, k),
    ensures
        0 <= index_of(s, k) < s.len(),
        record_key(s[index_of(s, k)]@) == k,
{
}

proof fn lemma_unique_index(s: Seq<BridgedReputation>, i: int, j: int)
    requires
        seq_wf(s),
        0 <= i < s.len(),
        0 <= j < s.len(),
        record_key(s[i]@) == record_key(s[j]@),
    ensures
        i == j,
{
    if i < j {
        assert(record_key(s[i]@) != record_key(s[j]@));
    } else if j < i {
        assert(record_key(s[j]@) != record_key(s[i]@));
    }
}

/// After replacing the sole record with key `record_key(post[i]@)` in place,
/// the abstract map is the old map with that key re-bound.
proof fn lemma_map_update(s: Seq<BridgedReputation>, post: Seq<BridgedReputation>, i: int)
    requires
        seq_wf(s),
        0 <= i < s.len(),
        post.len() == s.len(),
        forall|j: int| 0 <= j < s.len() && j != i ==> post[j] == s[j],
        post[i].wf(),
        record_key(post[i]@) == record_key(s[i]@),
    ensures
        seq_wf(post),
        map_of(post) == map_of(s).insert(record_key(post[i]@), post[i]@),
{
    let k = record_key(s[i]@);
    assert forall|i2: int, j2: int|
        #![trigger record_key(post[i2]@), record_key(post[j2]@)]
        0 <= i2 < j2 < post.len() implies record_key(post[i2]@) != record_key(post[j2]@) by {
        assert(record_key(post[i2]@) == record_key(s[i2]@));
        assert(record_key(post[j2]@) == record_key(s[j2]@));
    }
    assert(seq_wf(post));
    let m1 = map_of(post);
    let m2 = map_of(s).insert(k, post[i]@);
    assert forall|k2: (u32, Seq<u8>)| m1.contains_key(k2) implies m2.contains_key(k2) by {
        let wi = choose|wi: int| 0 <= wi < post.len() && record_key(#[trigger] post[wi]@) == k2;
        if wi != i {
            assert(record_key(s[wi]@) == k2);
        }
    }
    assert forall|k2: (u32, Seq<u8>)| m2.contains_key(k2) implies m1.contains_key(k2) by {
        if k2 == k {
            assert(record_key(post[i]@) == k2);
        } else {
            let wi = index_of(s, k2);
            lemma_index_of(s, k2);
            assert(wi != i);
            assert(record_key(post[wi]@) == k2);
        }
    }
    assert forall|k2: (u32, Seq<u8>)| m1.contains_key(k2) implies m1[k2] == m2[k2] by {
        let idx = index_of(post, k2);
        lemma_index_of(post, k2);
        if k2 == k {
            lemma_unique_index(post, idx, i);
            assert(m1[k2] == post[i]@);
        } else {
            assert(record_key(s[idx]@) == k2);
            let idx2 = index_of(s, k2);
            lemma_index_of(s, k2);
            lemma_unique_index(s, idx, idx2);
            assert(m1[k2] == s[idx2]@);
            assert(m2[k2] == map_of(s)[k2]);
        }
    }
    assert(m1 =~= m2);
}

/// Appending a record whose key is absent adds exactly that binding.
proof fn lemma_map_push(s: Seq<BridgedReputation>, rec: BridgedReputation)
    requires
        seq_wf(s),
        rec.wf(),
        !has_key(s, record_key(rec@)),
    ensures
        seq_wf(s.push(rec)),
        map_of(s.push(rec)) == map_of(s).insert(record_key(rec@), rec@),
{
    let k = record_key(rec@);
    let post = s.push(rec);
    assert forall|i2: int, j2: int|
        #![trigger record_key(post[i2]@), record_key(post[j2]@)]
        0 <= i2 < j2 < post.len() implies record_key(post[i2]@) != record_key(post[j2]@) by {
        if j2 < s.len() {
            assert(record_key(s[i2]@) != record_key(s[j2]@));
        } else {
            assert(post[j2] == rec);
            assert(record_key(post[i2]@) == record_key(s[i2]@));
        }
    }
    assert(seq_wf(post));
    let m1 = map_of(post);
    let m2 = map_of(s).insert(k, rec@);
    assert forall|k2: (u32, Seq<u8>)| m1.contains_key(k2) implies m2.contains_key(k2) by {
        let wi = choose|wi: int| 0 <= wi < post.len() && record_key(#[trigger] post[wi]@) == k2;
        if wi < s.len() {
            assert(record_key(s[wi]@) == k2);
        } else {
            assert(post[wi] == rec);
        }
    }
    assert forall|k2: (u32, Seq<u8>)| m2.contains_key(k2) implies m1.contains_key(k2) by {
        if k2 == k {
            assert(record_key(post[s.len() as int]@) == k2);
        } else {
            let wi = index_of(s, k2);
            lemma_index_of(s, k2);
            assert(record_key(post[wi]@) == k2);
        }
    }
    assert forall|k2: (u32, Seq<u8>)| m1.contains_key(k2) implies m1[k2] == m2[k2] by {
        let idx = index_of(post, k2);
        lemma_index_of(post, k2);
        if k2 == k {
            lemma_unique_index(post, idx, s.len() as int);
            assert(m1[k2] == rec@);
        } else {
            assert(idx != s.len());
            assert(record_key(s[idx]@) == k2);
            let idx2 = index_of(s, k2);
            lemma_index_of(s, k2);
            lemma_unique_index(s, idx, idx2);
            assert(m1[k2] == s[idx2]@);
            assert(m2[k2] == map_of(s)[k2]);
        }
    }
    assert(m1 =~= m2);
}

/// Byte-string equality, decided element by element.
fn bytes_eq(a: &Vec<u8>, b: &Vec<u8>) -> (r: bool)
    ensures
        r == (a@ == b@),
{
    if a.len() != b.len() {
        return false;
    }
    let mut i: usize = 0;
    while i < a.len()
        invariant
            i <= a.len(),
            a.len() == b.len(),
            forall|j: int| 0 <= j < i ==> a@[j] == b@[j],
        decreases a.len() - i,
    {
        if a[i] != b[i] {
            return false;
        }
        i += 1;
    }
    proof {
        assert(a@ =~= b@);
    }
    true
}

impl ReputationStore {
    /// The abstract contents: latest accepted record per (chain, agent) key.
    pub closed spec fn view(&self) -> Map<(u32, Seq<u8>), ReputationView> {
        map_of(self.entries@)
    }

    /// Every stored record is well formed and no key is stored twice.
    pub closed spec fn wf(&self) -> bool {
        seq_wf(self.entries@)
    }

    /// An empty store, holding no record for any key.
    pub fn new() -> (s: Self)
        ensures
            s.wf(),
            s@ == Map::<(u32, Seq<u8>), ReputationView>::empty(),
    {
        let s = ReputationStore { entries: Vec::new() };
        proof {
            assert forall|k: (u32, Seq<u8>)| !s@.contains_key(k) by {}
            assert(s@ =~= Map::<(u32, Seq<u8>), ReputationView>::empty());
        }
        s
    }

    /// Pure lookup of the record stored under (source_chain, agent), if any.
    pub fn get(&self, source_chain: u32, agent: &Vec<u8>) -> (r: Option<&BridgedReputation>)
        requires
            self.wf(),
        ensures
            match r {
                Some(rec) => {
                    &&& self@.contains_key((source_chain, agent@))
                    &&& rec@ == self@[(source_chain, agent@)]
                    &&& rec.wf()
                },
                None => !self@.contains_key((source_chain, agent@)),
            },
    {
        let ghost k = (source_chain, agent@);
        let n = self.entries.len();
        let mut i: usize = 0;
        while i < n
            invariant
                self.wf(),
                n == self.entries@.len(),
                i <= n,
                k == (source_chain, agent@),
                forall|j: int| 0 <= j < i ==> record_key(#[trigger] self.entries@[j]@) != k,
            decreases n - i,
        {
            let e = &self.entries[i];
            if e.source_chain == source_chain && bytes_eq(&e.source_agent, agent) {
                proof {
                    assert(record_key(self.entries@[i as int]@) == k);
                    assert(has_key(self.entries@, k));
                    lemma_index_of(self.entries@, k);
                    lemma_unique_index(self.entries@, index_of(self.entries@, k), i as int);
                }
                return Some(e);
            }
            i += 1;
        }
        proof {
            if has_key(self.entries@, k) {
                let wi = choose|wi: int|
                    0 <= wi < self.entries@.len() && record_key(#[trigger] self.entries@[wi]@) == k;
                assert(record_key(self.entries@[wi]@) != k);
            }
        }
        None
    }

    /// Creates the record under its own key if absent, otherwise overwrites
    /// the stored record in place: the abstract map gains or re-binds exactly
    /// that one key.
    pub fn upsert(&mut self, rec: BridgedReputation)
        requires
            old(self).wf(),
            rec.wf(),
        ensures
            final(self).wf(),
            final(self)@ == old(self)@.insert((rec.source_chain, rec.source_agent@), rec@),
    {
        let ghost k = (rec.source_chain, rec.source_agent@);
        let ghost pre = old(self).entries@;
        let n = self.entries.len();
        let mut i: usize = 0;
        while i < n
            invariant
                pre == old(self).entries@,
                self.entries@ == pre,
                seq_wf(pre),
                rec.wf(),
                k == (rec.source_chain, rec.source_agent@),
                n == pre.len(),
                i <= n,
                forall|j: int| 0 <= j < i ==> record_key(#[trigger] pre[j]@) != k,
            decreases n - i,
        {
            let found: bool = {
                let e = &self.entries[i];
                e.source_chain == rec.source_chain && bytes_eq(&e.source_agent, &rec.source_agent)
            };
            if found {
                proof {
                    assert(record_key(pre[i as int]@) == k);
                }
                let slot = vec_index_mut(&mut self.entries, i);
                *slot = rec;
                proof {
                    assert(self.entries@ == pre.update(i as int, rec));
                    assert(record_key(self.entries@[i as int]@) == k);
                    lemma_map_update(pre, self.entries@, i as int);
                }
                return;
            }
            i += 1;
        }
        proof {
            if has_key(pre, k) {
                let wi = choose|wi: int|
                    0 <= wi < pre.len() && record_key(#[trigger] pre[wi]@) == k;
                assert(record_key(pre[wi]@) != k);
            }
            lemma_map_push(pre, rec);
        }
        self.entries.push(rec);
    }
}

} // verus!
