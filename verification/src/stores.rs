//! Associative stores of the engine's persisted state, each a vector of
//! entries with pairwise distinct keys, read and written through functions
//! whose contracts speak of a mathematical lookup.

use vstd::prelude::*;
use crate::types::AccountId;
use crate::types::BlockNumber;
use crate::types::CeremonyIndexType;
use crate::types::CommunityIdentifier;
use crate::types::NominalIncomeType;
use crate::types::ProposalActionIdentifier;
use crate::types::ProposalIdType;
use crate::types::Reputation;

verus! {

/// One live enactment slot: the action class points at the proposal that
/// waits for enactment.
#[derive(Clone, Copy, Debug, PartialEq, Eq, Structural)]
pub struct QueueEntry {
    pub id: ProposalActionIdentifier,
    pub proposal_id: ProposalIdType,
}

/// The keys of the enactment queue are pairwise distinct: at most one live
/// entry per action class.
pub open spec fn queue_unique(s: Seq<QueueEntry>) -> bool {
    forall|i: int, j: int|
        0 <= i < j < s.len() ==> (#[trigger] s[i]).id != (#[trigger] s[j]).id
}

/// The proposal id the queue holds for an action class, if any.
pub open spec fn queue_lookup(s: Seq<QueueEntry>, id: ProposalActionIdentifier) -> Option<
    ProposalIdType,
> {
    if exists|i: int| 0 <= i < s.len() && (#[trigger] s[i]).id == id {
        let i = choose|i: int| 0 <= i < s.len() && (#[trigger] s[i]).id == id;
        Some(s[i].proposal_id)
    } else {
        None
    }
}

pub fn queue_get(q: &Vec<QueueEntry>, id: ProposalActionIdentifier) -> (r: Option<ProposalIdType>)
    requires
        queue_unique(q@),
    ensures
        r == queue_lookup(q@, id),
{
    let mut k: usize = 0;
    while k < q.len()
        invariant
            queue_unique(q@),
            0 <= k <= q@.len(),
            forall|j: int| 0 <= j < k ==> (#[trigger] q@[j]).id != id,
        decreases q@.len() - k,
    {
        if q[k].id == id {
            proof {
                let w = choose|i: int| 0 <= i < q@.len() && (#[trigger] q@[i]).id == id;
                if w != k {
                    assert(q@[w].id != q@[k as int].id);
                }
            }
            return Some(q[k].proposal_id);
        }
        k += 1;
    }
    None
}

fn queue_find(q: &Vec<QueueEntry>, id: ProposalActionIdentifier) -> (r: Option<usize>)
    ensures
        match r {
            Some(k) => k < q@.len() && q@[k as int].id == id,
            None => forall|i: int| 0 <= i < q@.len() ==> (#[trigger] q@[i]).id != id,
        },
{
    let mut k: usize = 0;
    while k < q.len()
        invariant
            0 <= k <= q@.len(),
            forall|j: int| 0 <= j < k ==> (#[trigger] q@[j]).id != id,
        decreases q@.len() - k,
    {
        if q[k].id == id {
            return Some(k);
        }
        k += 1;
    }
    None
}

/// Sets the queue's entry for an action class, replacing any previous one.
pub fn queue_set(q: &mut Vec<QueueEntry>, id: ProposalActionIdentifier, proposal_id: ProposalIdType)
    requires
        queue_unique(old(q)@),
    ensures
        queue_unique(final(q)@),
        queue_lookup(final(q)@, id) == Some(proposal_id),
        forall|id2: ProposalActionIdentifier|
            id2 != id ==> #[trigger] queue_lookup(final(q)@, id2) == queue_lookup(old(q)@, id2),
{
    let ghost s0 = q@;
    let found = queue_find(q, id);
    let ghost mut kf: int = 0;
    match found {
        Some(k) => {
            proof {
                kf = k as int;
            }
            q.remove(k);
        },
        None => {},
    }
    let ghost s1 = q@;
    q.push(QueueEntry { id, proposal_id });
    proof {
        assert forall|j: int| 0 <= j < s1.len() implies (#[trigger] s1[j]).id != id by {
            if found is Some {
                if j < kf {
                } else {
                    assert(s1[j] == s0[j + 1]);
                    assert(s0[kf].id == id && kf < j + 1);
                }
            }
        }
        assert(queue_unique(q@));
        assert(q@[q@.len() - 1].id == id);
        assert(queue_lookup(q@, id) == Some(proposal_id)) by {
            let w = choose|i: int| 0 <= i < q@.len() && (#[trigger] q@[i]).id == id;
            if w != q@.len() - 1 {
                assert(s1[w].id == id);
            }
        }
        assert forall|id2: ProposalActionIdentifier| id2 != id implies #[trigger] queue_lookup(
            q@,
            id2,
        ) == queue_lookup(s0, id2) by {
            lemma_queue_frame(s0, s1, q@, id, id2);
        }
    }
}

/// Entries with keys other than the replaced one look up the same before and
/// after a replacement.
proof fn lemma_queue_frame(
    s0: Seq<QueueEntry>,
    s1: Seq<QueueEntry>,
    s2: Seq<QueueEntry>,
    id: ProposalActionIdentifier,
    id2: ProposalActionIdentifier,
)
    requires
        queue_unique(s0),
        id2 != id,
        s2.len() == s1.len() + 1,
        s2 == s1.push(s2[s2.len() - 1]),
        s2[s2.len() - 1].id == id,
        s1 == s0 || (exists|k: int|
            0 <= k < s0.len() && (#[trigger] s0[k]).id == id && s1 == s0.remove(k)),
    ensures
        queue_lookup(s2, id2) == queue_lookup(s0, id2),
{
    if s1 == s0 {
        assert(queue_lookup(s2, id2) == queue_lookup(s0, id2)) by {
            if exists|i: int| 0 <= i < s0.len() && (#[trigger] s0[i]).id == id2 {
                let w = choose|i: int| 0 <= i < s0.len() && (#[trigger] s0[i]).id == id2;
                assert(s2[w].id == id2);
                let w2 = choose|i: int| 0 <= i < s2.len() && (#[trigger] s2[i]).id == id2;
                if w2 != w {
                    if w2 < s1.len() {
                        assert(s0[w2].id == id2);
                    }
                }
            } else {
                assert forall|i: int| 0 <= i < s2.len() implies (#[trigger] s2[i]).id != id2 by {
                    if i < s1.len() {
                        assert(s0[i].id != id2);
                    }
                }
            }
        }
    } else {
        let k = choose|k: int| 0 <= k < s0.len() && (#[trigger] s0[k]).id == id && s1 == s0.remove(
            k,
        );
        assert forall|j: int| 0 <= j < s1.len() implies #[trigger] s1[j] == if j < k {
            s0[j]
        } else {
            s0[j + 1]
        } by {}
        if exists|i: int| 0 <= i < s0.len() && (#[trigger] s0[i]).id == id2 {
            let w = choose|i: int| 0 <= i < s0.len() && (#[trigger] s0[i]).id == id2;
            let w1: int = if w < k {
                w
            } else {
                w - 1
            };
            assert(w != k);
            assert(s1[w1].id == id2 && s1[w1].proposal_id == s0[w].proposal_id);
            assert(s2[w1].id == id2);
            let w2 = choose|i: int| 0 <= i < s2.len() && (#[trigger] s2[i]).id == id2;
            if w2 != w1 {
                if w2 < s1.len() {
                    let worig: int = if w2 < k {
                        w2
                    } else {
                        w2 + 1
                    };
                    assert(s0[worig].id == id2);
                }
            }
        } else {
            assert forall|i: int| 0 <= i < s2.len() implies (#[trigger] s2[i]).id != id2 by {
                if i < s1.len() {
                    let worig: int = if i < k {
                        i
                    } else {
                        i + 1
                    };
                    assert(s0[worig].id == s1[i].id);
                }
            }
        }
    }
}

/// Administrative override: any still-open proposal of this action class
/// submitted at or before the recorded block is force-cancelled.
#[derive(Clone, Copy, Debug, PartialEq, Eq, Structural)]
pub struct CancelEntry {
    pub id: ProposalActionIdentifier,
    pub block: BlockNumber,
}

pub open spec fn cancel_unique(s: Seq<CancelEntry>) -> bool {
    forall|i: int, j: int|
        0 <= i < j < s.len() ==> (#[trigger] s[i]).id != (#[trigger] s[j]).id
}

/// The block recorded for an action class, if any.
pub open spec fn cancel_lookup(s: Seq<CancelEntry>, id: ProposalActionIdentifier) -> Option<
    BlockNumber,
> {
    if exists|i: int| 0 <= i < s.len() && (#[trigger] s[i]).id == id {
        let i = choose|i: int| 0 <= i < s.len() && (#[trigger] s[i]).id == id;
        Some(s[i].block)
    } else {
        None
    }
}

pub fn cancel_get(q: &Vec<CancelEntry>, id: ProposalActionIdentifier) -> (r: Option<BlockNumber>)
    requires
        cancel_unique(q@),
    ensures
        r == cancel_lookup(q@, id),
{
    let mut k: usize = 0;
    while k < q.len()
        invariant
            cancel_unique(q@),
            0 <= k <= q@.len(),
            forall|j: int| 0 <= j < k ==> (#[trigger] q@[j]).id != id,
        decreases q@.len() - k,
    {
        if q[k].id == id {
            proof {
                let w = choose|i: int| 0 <= i < q@.len() && (#[trigger] q@[i]).id == id;
                if w != k {
                    assert(q@[w].id != q@[k as int].id);
                }
            }
            return Some(q[k].block);
        }
        k += 1;
    }
    None
}

fn cancel_find(q: &Vec<CancelEntry>, id: ProposalActionIdentifier) -> (r: Option<usize>)
    ensures
        match r {
            Some(k) => k < q@.len() && q@[k as int].id == id,
            None => forall|i: int| 0 <= i < q@.len() ==> (#[trigger] q@[i]).id != id,
        },
{
    let mut k: usize = 0;
    while k < q.len()
        invariant
            0 <= k <= q@.len(),
            forall|j: int| 0 <= j < k ==> (#[trigger] q@[j]).id != id,
        decreases q@.len() - k,
    {
        if q[k].id == id {
            return Some(k);
        }
        k += 1;
    }
    None
}

/// Records the override block for an action class, replacing any previous one.
pub fn cancel_set(q: &mut Vec<CancelEntry>, id: ProposalActionIdentifier, block: BlockNumber)
    requires
        cancel_unique(old(q)@),
    ensures
        cancel_unique(final(q)@),
        cancel_lookup(final(q)@, id) == Some(block),
        forall|id2: ProposalActionIdentifier|
            id2 != id ==> #[trigger] cancel_lookup(final(q)@, id2) == cancel_lookup(old(q)@, id2),
{
    let ghost s0 = q@;
    let found = cancel_find(q, id);
    let ghost mut kf: int = 0;
    match found {
        Some(k) => {
            proof {
                kf = k as int;
            }
            q.remove(k);
        },
        None => {},
    }
    let ghost s1 = q@;
    q.push(CancelEntry { id, block });
    proof {
        assert forall|j: int| 0 <= j < s1.len() implies (#[trigger] s1[j]).id != id by {
            if found is Some {
                if j < kf {
                } else {
                    assert(s1[j] == s0[j + 1]);
                    assert(s0[kf].id == id && kf < j + 1);
                }
            }
        }
        assert(cancel_unique(q@));
        assert(q@[q@.len() - 1].id == id);
        assert(cancel_lookup(q@, id) == Some(block)) by {
            let w = choose|i: int| 0 <= i < q@.len() && (#[trigger] q@[i]).id == id;
            if w != q@.len() - 1 {
                assert(s1[w].id == id);
            }
        }
        assert forall|id2: ProposalActionIdentifier| id2 != id implies #[trigger] cancel_lookup(
            q@,
            id2,
        ) == cancel_lookup(s0, id2) by {
            lemma_cancel_frame(s0, s1, q@, id, id2);
        }
    }
}

proof fn lemma_cancel_frame(
    s0: Seq<CancelEntry>,
    s1: Seq<CancelEntry>,
    s2: Seq<CancelEntry>,
    id: ProposalActionIdentifier,
    id2: ProposalActionIdentifier,
)
    requires
        cancel_unique(s0),
        id2 != id,
        s2.len() == s1.len() + 1,
        s2 == s1.push(s2[s2.len() - 1]),
        s2[s2.len() - 1].id == id,
        s1 == s0 || (exists|k: int|
            0 <= k < s0.len() && (#[trigger] s0[k]).id == id && s1 == s0.remove(k)),
    ensures
        cancel_lookup(s2, id2) == cancel_lookup(s0, id2),
{
    if s1 == s0 {
        if exists|i: int| 0 <= i < s0.len() && (#[trigger] s0[i]).id == id2 {
            let w = choose|i: int| 0 <= i < s0.len() && (#[trigger] s0[i]).id == id2;
            assert(s2[w].id == id2);
            let w2 = choose|i: int| 0 <= i < s2.len() && (#[trigger] s2[i]).id == id2;
            if w2 != w {
                if w2 < s1.len() {
                    assert(s0[w2].id == id2);
                }
            }
        } else {
            assert forall|i: int| 0 <= i < s2.len() implies (#[trigger] s2[i]).id != id2 by {
                if i < s1.len() {
                    assert(s0[i].id != id2);
                }
            }
        }
    } else {
        let k = choose|k: int|
            0 <= k < s0.len() && (#[trigger] s0[k]).id == id && s1 == s0.remove(k);
        assert forall|j: int| 0 <= j < s1.len() implies #[trigger] s1[j] == if j < k {
            s0[j]
        } else {
            s0[j + 1]
        } by {}
        if exists|i: int| 0 <= i < s0.len() && (#[trigger] s0[i]).id == id2 {
            let w = choose|i: int| 0 <= i < s0.len() && (#[trigger] s0[i]).id == id2;
            let w1: int = if w < k {
                w
            } else {
                w - 1
            };
            assert(w != k);
            assert(s1[w1].id == id2 && s1[w1].block == s0[w].block);
            assert(s2[w1].id == id2);
            let w2 = choose|i: int| 0 <= i < s2.len() && (#[trigger] s2[i]).id == id2;
            if w2 != w1 {
                if w2 < s1.len() {
                    let worig: int = if w2 < k {
                        w2
                    } else {
                        w2 + 1
                    };
                    assert(s0[worig].id == id2);
                }
            }
        } else {
            assert forall|i: int| 0 <= i < s2.len() implies (#[trigger] s2[i]).id != id2 by {
                if i < s1.len() {
                    let worig: int = if i < k {
                        i
                    } else {
                        i + 1
                    };
                    assert(s0[worig].id == s1[i].id);
                }
            }
        }
    }
}

/// Count of verified reputation entries of one community and ceremony cycle,
/// the precomputed summand of the electorate.
#[derive(Clone, Copy, Debug, PartialEq, Eq, Structural)]
pub struct CountEntry {
    pub community: CommunityIdentifier,
    pub cindex: CeremonyIndexType,
    pub count: u64,
}

pub open spec fn count_key(e: CountEntry) -> (CommunityIdentifier, CeremonyIndexType) {
    (e.community, e.cindex)
}

pub open spec fn count_unique(s: Seq<CountEntry>) -> bool {
    forall|i: int, j: int|
        0 <= i < j < s.len() ==> count_key(#[trigger] s[i]) != count_key(#[trigger] s[j])
}

/// The verified count recorded for one community and cycle; zero where no
/// entry exists.
pub open spec fn count_lookup(
    s: Seq<CountEntry>,
    key: (CommunityIdentifier, CeremonyIndexType),
) -> u64 {
    if exists|i: int| 0 <= i < s.len() && count_key(#[trigger] s[i]) == key {
        let i = choose|i: int| 0 <= i < s.len() && count_key(#[trigger] s[i]) == key;
        s[i].count
    } else {
        0
    }
}

pub fn count_get(
    q: &Vec<CountEntry>,
    community: CommunityIdentifier,
    cindex: CeremonyIndexType,
) -> (r: u64)
    requires
        count_unique(q@),
    ensures
        r == count_lookup(q@, (community, cindex)),
{
    let ghost key = (community, cindex);
    let mut k: usize = 0;
    while k < q.len()
        invariant
            count_unique(q@),
            key == (community, cindex),
            0 <= k <= q@.len(),
            forall|j: int| 0 <= j < k ==> count_key(#[trigger] q@[j]) != key,
        decreases q@.len() - k,
    {
        if q[k].community == community && q[k].cindex == cindex {
            proof {
                let w = choose|i: int| 0 <= i < q@.len() && count_key(#[trigger] q@[i]) == key;
                if w != k {
                    assert(count_key(q@[w]) != count_key(q@[k as int]));
                }
            }
            return q[k].count;
        }
        k += 1;
    }
    0
}

fn count_find(q: &Vec<CountEntry>, community: CommunityIdentifier, cindex: CeremonyIndexType) -> (r:
    Option<usize>)
    ensures
        match r {
            Some(k) => k < q@.len() && count_key(q@[k as int]) == (community, cindex),
            None => forall|i: int|
                0 <= i < q@.len() ==> count_key(#[trigger] q@[i]) != (community, cindex),
        },
{
    let ghost key = (community, cindex);
    let mut k: usize = 0;
    while k < q.len()
        invariant
            key == (community, cindex),
            0 <= k <= q@.len(),
            forall|j: int| 0 <= j < k ==> count_key(#[trigger] q@[j]) != key,
        decreases q@.len() - k,
    {
        if q[k].community == community && q[k].cindex == cindex {
            return Some(k);
        }
        k += 1;
    }
    None
}

/// Records the verified count of one community and cycle, replacing any
/// previous entry.
pub fn count_set(
    q: &mut Vec<CountEntry>,
    community: CommunityIdentifier,
    cindex: CeremonyIndexType,
    count: u64,
)
    requires
        count_unique(old(q)@),
    ensures
        count_unique(final(q)@),
        count_lookup(final(q)@, (community, cindex)) == count,
        forall|key2: (CommunityIdentifier, CeremonyIndexType)|
            key2 != (community, cindex) ==> #[trigger] count_lookup(final(q)@, key2)
                == count_lookup(old(q)@, key2),
{
    let ghost key = (community, cindex);
    let ghost s0 = q@;
    let found = count_find(q, community, cindex);
    let ghost mut kf: int = 0;
    match found {
        Some(k) => {
            proof {
                kf = k as int;
            }
            q.remove(k);
        },
        None => {},
    }
    let ghost s1 = q@;
    q.push(CountEntry { community, cindex, count });
    proof {
        assert forall|j: int| 0 <= j < s1.len() implies count_key(#[trigger] s1[j]) != key by {
            if found is Some {
                if j < kf {
                } else {
                    assert(s1[j] == s0[j + 1]);
                    assert(count_key(s0[kf]) == key && kf < j + 1);
                }
            }
        }
        assert(count_unique(q@));
        assert(count_key(q@[q@.len() - 1]) == key);
        assert(count_lookup(q@, key) == count) by {
            let w = choose|i: int| 0 <= i < q@.len() && count_key(#[trigger] q@[i]) == key;
            if w != q@.len() - 1 {
                assert(count_key(s1[w]) == key);
            }
        }
        assert forall|key2: (CommunityIdentifier, CeremonyIndexType)|
            key2 != key implies #[trigger] count_lookup(q@, key2) == count_lookup(s0, key2) by {
            lemma_count_frame(s0, s1, q@, key, key2);
        }
    }
}

proof fn lemma_count_frame(
    s0: Seq<CountEntry>,
    s1: Seq<CountEntry>,
    s2: Seq<CountEntry>,
    key: (CommunityIdentifier, CeremonyIndexType),
    key2: (CommunityIdentifier, CeremonyIndexType),
)
    requires
        count_unique(s0),
        key2 != key,
        s2.len() == s1.len() + 1,
        s2 == s1.push(s2[s2.len() - 1]),
        count_key(s2[s2.len() - 1]) == key,
        s1 == s0 || (exists|k: int|
            0 <= k < s0.len() && count_key(#[trigger] s0[k]) == key && s1 == s0.remove(k)),
    ensures
        count_lookup(s2, key2) == count_lookup(s0, key2),
{
    if s1 == s0 {
        if exists|i: int| 0 <= i < s0.len() && count_key(#[trigger] s0[i]) == key2 {
            let w = choose|i: int| 0 <= i < s0.len() && count_key(#[trigger] s0[i]) == key2;
            assert(count_key(s2[w]) == key2);
            let w2 = choose|i: int| 0 <= i < s2.len() && count_key(#[trigger] s2[i]) == key2;
            if w2 != w {
                if w2 < s1.len() {
                    assert(count_key(s0[w2]) == key2);
                }
            }
        } else {
            assert forall|i: int| 0 <= i < s2.len() implies count_key(#[trigger] s2[i])
                != key2 by {
                if i < s1.len() {
                    assert(count_key(s0[i]) != key2);
                }
            }
        }
    } else {
        let k = choose|k: int|
            0 <= k < s0.len() && count_key(#[trigger] s0[k]) == key && s1 == s0.remove(k);
        assert forall|j: int| 0 <= j < s1.len() implies #[trigger] s1[j] == if j < k {
            s0[j]
        } else {
            s0[j + 1]
        } by {}
        if exists|i: int| 0 <= i < s0.len() && count_key(#[trigger] s0[i]) == key2 {
            let w = choose|i: int| 0 <= i < s0.len() && count_key(#[trigger] s0[i]) == key2;
            let w1: int = if w < k {
                w
            } else {
                w - 1
            };
            assert(w != k);
            assert(count_key(s1[w1]) == key2 && s1[w1].count == s0[w].count);
            assert(count_key(s2[w1]) == key2);
            let w2 = choose|i: int| 0 <= i < s2.len() && count_key(#[trigger] s2[i]) == key2;
            if w2 != w1 {
                if w2 < s1.len() {
                    let worig: int = if w2 < k {
                        w2
                    } else {
                        w2 + 1
                    };
                    assert(count_key(s0[worig]) == key2);
                }
            }
        } else {
            assert forall|i: int| 0 <= i < s2.len() implies count_key(#[trigger] s2[i])
                != key2 by {
                if i < s1.len() {
                    let worig: int = if i < k {
                        i
                    } else {
                        i + 1
                    };
                    assert(count_key(s0[worig]) == count_key(s1[i]));
                }
            }
        }
    }
}

/// Per (community, cycle, account) reputation record of the registry.
#[derive(Clone, Copy, Debug, PartialEq, Eq, Structural)]
pub struct RepEntry {
    pub community: CommunityIdentifier,
    pub cindex: CeremonyIndexType,
    pub account: AccountId,
    pub rep: Reputation,
}

pub open spec fn rep_key(e: RepEntry) -> (CommunityIdentifier, CeremonyIndexType, AccountId) {
    (e.community, e.cindex, e.account)
}

pub open spec fn rep_unique(s: Seq<RepEntry>) -> bool {
    forall|i: int, j: int|
        0 <= i < j < s.len() ==> rep_key(#[trigger] s[i]) != rep_key(#[trigger] s[j])
}

/// The reputation recorded for an account in one community and cycle;
/// `Unverified` where no entry exists.
pub open spec fn rep_lookup(
    s: Seq<RepEntry>,
    key: (CommunityIdentifier, CeremonyIndexType, AccountId),
) -> Reputation {
    if exists|i: int| 0 <= i < s.len() && rep_key(#[trigger] s[i]) == key {
        let i = choose|i: int| 0 <= i < s.len() && rep_key(#[trigger] s[i]) == key;
        s[i].rep
    } else {
        Reputation::Unverified
    }
}

pub fn rep_get(
    q: &Vec<RepEntry>,
    community: CommunityIdentifier,
    cindex: CeremonyIndexType,
    account: AccountId,
) -> (r: Reputation)
    requires
        rep_unique(q@),
    ensures
        r == rep_lookup(q@, (community, cindex, account)),
{
    let ghost key = (community, cindex, account);
    let mut k: usize = 0;
    while k < q.len()
        invariant
            rep_unique(q@),
            key == (community, cindex, account),
            0 <= k <= q@.len(),
            forall|j: int| 0 <= j < k ==> rep_key(#[trigger] q@[j]) != key,
        decreases q@.len() - k,
    {
        if q[k].community == community && q[k].cindex == cindex && q[k].account == account {
            proof {
                let w = choose|i: int| 0 <= i < q@.len() && rep_key(#[trigger] q@[i]) == key;
                if w != k {
                    assert(rep_key(q@[w]) != rep_key(q@[k as int]));
                }
            }
            return q[k].rep;
        }
        k += 1;
    }
    Reputation::Unverified
}

fn rep_find(
    q: &Vec<RepEntry>,
    community: CommunityIdentifier,
    cindex: CeremonyIndexType,
    account: AccountId,
) -> (r: Option<usize>)
    ensures
        match r {
            Some(k) => k < q@.len() && rep_key(q@[k as int]) == (community, cindex, account),
            None => forall|i: int|
                0 <= i < q@.len() ==> rep_key(#[trigger] q@[i]) != (community, cindex, account),
        },
{
    let ghost key = (community, cindex, account);
    let mut k: usize = 0;
    while k < q.len()
        invariant
            key == (community, cindex, account),
            0 <= k <= q@.len(),
            forall|j: int| 0 <= j < k ==> rep_key(#[trigger] q@[j]) != key,
        decreases q@.len() - k,
    {
        if q[k].community == community && q[k].cindex == cindex && q[k].account == account {
            return Some(k);
        }
        k += 1;
    }
    None
}

/// Records an account's reputation for one community and cycle, replacing any
/// previous record.
pub fn rep_set(
    q: &mut Vec<RepEntry>,
    community: CommunityIdentifier,
    cindex: CeremonyIndexType,
    account: AccountId,
    rep: Reputation,
)
    requires
        rep_unique(old(q)@),
    ensures
        rep_unique(final(q)@),
        rep_lookup(final(q)@, (community, cindex, account)) == rep,
        forall|key2: (CommunityIdentifier, CeremonyIndexType, AccountId)|
            key2 != (community, cindex, account) ==> #[trigger] rep_lookup(final(q)@, key2)
                == rep_lookup(old(q)@, key2),
{
    let ghost key = (community, cindex, account);
    let ghost s0 = q@;
    let found = rep_find(q, community, cindex, account);
    let ghost mut kf: int = 0;
    match found {
        Some(k) => {
            proof {
                kf = k as int;
            }
            q.remove(k);
        },
        None => {},
    }
    let ghost s1 = q@;
    q.push(RepEntry { community, cindex, account, rep });
    proof {
        assert forall|j: int| 0 <= j < s1.len() implies rep_key(#[trigger] s1[j]) != key by {
            if found is Some {
                if j < kf {
                } else {
                    assert(s1[j] == s0[j + 1]);
                    assert(rep_key(s0[kf]) == key && kf < j + 1);
                }
            }
        }
        assert(rep_unique(q@));
        assert(rep_key(q@[q@.len() - 1]) == key);
        assert(rep_lookup(q@, key) == rep) by {
            let w = choose|i: int| 0 <= i < q@.len() && rep_key(#[trigger] q@[i]) == key;
            if w != q@.len() - 1 {
                assert(rep_key(s1[w]) == key);
            }
        }
        assert forall|key2: (CommunityIdentifier, CeremonyIndexType, AccountId)|
            key2 != key implies #[trigger] rep_lookup(q@, key2) == rep_lookup(s0, key2) by {
            lemma_rep_frame(s0, s1, q@, key, key2);
        }
    }
}

proof fn lemma_rep_frame(
    s0: Seq<RepEntry>,
    s1: Seq<RepEntry>,
    s2: Seq<RepEntry>,
    key: (CommunityIdentifier, CeremonyIndexType, AccountId),
    key2: (CommunityIdentifier, CeremonyIndexType, AccountId),
)
    requires
        rep_unique(s0),
        key2 != key,
        s2.len() == s1.len() + 1,
        s2 == s1.push(s2[s2.len() - 1]),
        rep_key(s2[s2.len() - 1]) == key,
        s1 == s0 || (exists|k: int|
            0 <= k < s0.len() && rep_key(#[trigger] s0[k]) == key && s1 == s0.remove(k)),
    ensures
        rep_lookup(s2, key2) == rep_lookup(s0, key2),
{
    if s1 == s0 {
        if exists|i: int| 0 <= i < s0.len() && rep_key(#[trigger] s0[i]) == key2 {
            let w = choose|i: int| 0 <= i < s0.len() && rep_key(#[trigger] s0[i]) == key2;
            assert(rep_key(s2[w]) == key2);
            let w2 = choose|i: int| 0 <= i < s2.len() && rep_key(#[trigger] s2[i]) == key2;
            if w2 != w {
                if w2 < s1.len() {
                    assert(rep_key(s0[w2]) == key2);
                }
            }
        } else {
            assert forall|i: int| 0 <= i < s2.len() implies rep_key(#[trigger] s2[i]) != key2 by {
                if i < s1.len() {
                    assert(rep_key(s0[i]) != key2);
                }
            }
        }
    } else {
        let k = choose|k: int|
            0 <= k < s0.len() && rep_key(#[trigger] s0[k]) == key && s1 == s0.remove(k);
        assert forall|j: int| 0 <= j < s1.len() implies #[trigger] s1[j] == if j < k {
            s0[j]
        } else {
            s0[j + 1]
        } by {}
        if exists|i: int| 0 <= i < s0.len() && rep_key(#[trigger] s0[i]) == key2 {
            let w = choose|i: int| 0 <= i < s0.len() && rep_key(#[trigger] s0[i]) == key2;
            let w1: int = if w < k {
                w
            } else {
                w - 1
            };
            assert(w != k);
            assert(rep_key(s1[w1]) == key2 && s1[w1].rep == s0[w].rep);
            assert(rep_key(s2[w1]) == key2);
            let w2 = choose|i: int| 0 <= i < s2.len() && rep_key(#[trigger] s2[i]) == key2;
            if w2 != w1 {
                if w2 < s1.len() {
                    let worig: int = if w2 < k {
                        w2
                    } else {
                        w2 + 1
                    };
                    assert(rep_key(s0[worig]) == key2);
                }
            }
        } else {
            assert forall|i: int| 0 <= i < s2.len() implies rep_key(#[trigger] s2[i]) != key2 by {
                if i < s1.len() {
                    let worig: int = if i < k {
                        i
                    } else {
                        i + 1
                    };
                    assert(rep_key(s0[worig]) == rep_key(s1[i]));
                }
            }
        }
    }
}

/// Nominal income of one community, a target parameter of enactment.
#[derive(Clone, Copy, Debug, PartialEq, Eq, Structural)]
pub struct IncomeEntry {
    pub community: CommunityIdentifier,
    pub income: NominalIncomeType,
}

pub open spec fn income_unique(s: Seq<IncomeEntry>) -> bool {
    forall|i: int, j: int|
        0 <= i < j < s.len() ==> (#[trigger] s[i]).community != (#[trigger] s[j]).community
}

/// The nominal income recorded for a community; zero where no entry exists.
pub open spec fn income_lookup(s: Seq<IncomeEntry>, community: CommunityIdentifier) -> NominalIncomeType {
    if exists|i: int| 0 <= i < s.len() && (#[trigger] s[i]).community == community {
        let i = choose|i: int| 0 <= i < s.len() && (#[trigger] s[i]).community == community;
        s[i].income
    } else {
        0
    }
}

pub fn income_get(q: &Vec<IncomeEntry>, community: CommunityIdentifier) -> (r: NominalIncomeType)
    requires
        income_unique(q@),
    ensures
        r == income_lookup(q@, community),
{
    let mut k: usize = 0;
    while k < q.len()
        invariant
            income_unique(q@),
            0 <= k <= q@.len(),
            forall|j: int| 0 <= j < k ==> (#[trigger] q@[j]).community != community,
        decreases q@.len() - k,
    {
        if q[k].community == community {
            proof {
                let w = choose|i: int|
                    0 <= i < q@.len() && (#[trigger] q@[i]).community == community;
                if w != k {
                    assert(q@[w].community != q@[k as int].community);
                }
            }
            return q[k].income;
        }
        k += 1;
    }
    0
}

fn income_find(q: &Vec<IncomeEntry>, community: CommunityIdentifier) -> (r: Option<usize>)
    ensures
        match r {
            Some(k) => k < q@.len() && q@[k as int].community == community,
            None => forall|i: int| 0 <= i < q@.len() ==> (#[trigger] q@[i]).community != community,
        },
{
    let mut k: usize = 0;
    while k < q.len()
        invariant
            0 <= k <= q@.len(),
            forall|j: int| 0 <= j < k ==> (#[trigger] q@[j]).community != community,
        decreases q@.len() - k,
    {
        if q[k].community == community {
            return Some(k);
        }
        k += 1;
    }
    None
}

/// Sets a community's nominal income, replacing any previous entry.
pub fn income_set(q: &mut Vec<IncomeEntry>, community: CommunityIdentifier, income: NominalIncomeType)
    requires
        income_unique(old(q)@),
    ensures
        income_unique(final(q)@),
        income_lookup(final(q)@, community) == income,
        forall|c2: CommunityIdentifier|
            c2 != community ==> #[trigger] income_lookup(final(q)@, c2) == income_lookup(old(q)@, c2),
{
    let ghost s0 = q@;
    let found = income_find(q, community);
    let ghost mut kf: int = 0;
    match found {
        Some(k) => {
            proof {
                kf = k as int;
            }
            q.remove(k);
        },
        None => {},
    }
    let ghost s1 = q@;
    q.push(IncomeEntry { community, income });
    proof {
        assert forall|j: int| 0 <= j < s1.len() implies (#[trigger] s1[j]).community
            != community by {
            if found is Some {
                if j < kf {
                } else {
                    assert(s1[j] == s0[j + 1]);
                    assert(s0[kf].community == community && kf < j + 1);
                }
            }
        }
        assert(income_unique(q@));
        assert(q@[q@.len() - 1].community == community);
        assert(income_lookup(q@, community) == income) by {
            let w = choose|i: int| 0 <= i < q@.len() && (#[trigger] q@[i]).community == community;
            if w != q@.len() - 1 {
                assert(s1[w].community == community);
            }
        }
        assert forall|c2: CommunityIdentifier| c2 != community implies #[trigger] income_lookup(
            q@,
            c2,
        ) == income_lookup(s0, c2) by {
            lemma_income_frame(s0, s1, q@, community, c2);
        }
    }
}

proof fn lemma_income_frame(
    s0: Seq<IncomeEntry>,
    s1: Seq<IncomeEntry>,
    s2: Seq<IncomeEntry>,
    community: CommunityIdentifier,
    c2: CommunityIdentifier,
)
    requires
        income_unique(s0),
        c2 != community,
        s2.len() == s1.len() + 1,
        s2 == s1.push(s2[s2.len() - 1]),
        s2[s2.len() - 1].community == community,
        s1 == s0 || (exists|k: int|
            0 <= k < s0.len() && (#[trigger] s0[k]).community == community && s1 == s0.remove(k)),
    ensures
        income_lookup(s2, c2) == income_lookup(s0, c2),
{
    if s1 == s0 {
        if exists|i: int| 0 <= i < s0.len() && (#[trigger] s0[i]).community == c2 {
            let w = choose|i: int| 0 <= i < s0.len() && (#[trigger] s0[i]).community == c2;
            assert(s2[w].community == c2);
            let w2 = choose|i: int| 0 <= i < s2.len() && (#[trigger] s2[i]).community == c2;
            if w2 != w {
                if w2 < s1.len() {
                    assert(s0[w2].community == c2);
                }
            }
        } else {
            assert forall|i: int| 0 <= i < s2.len() implies (#[trigger] s2[i]).community != c2 by {
                if i < s1.len() {
                    assert(s0[i].community != c2);
                }
            }
        }
    } else {
        let k = choose|k: int|
            0 <= k < s0.len() && (#[trigger] s0[k]).community == community && s1 == s0.remove(k);
        assert forall|j: int| 0 <= j < s1.len() implies #[trigger] s1[j] == if j < k {
            s0[j]
        } else {
            s0[j + 1]
        } by {}
        if exists|i: int| 0 <= i < s0.len() && (#[trigger] s0[i]).community == c2 {
            let w = choose|i: int| 0 <= i < s0.len() && (#[trigger] s0[i]).community == c2;
            let w1: int = if w < k {
                w
            } else {
                w - 1
            };
            assert(w != k);
            assert(s1[w1].community == c2 && s1[w1].income == s0[w].income);
            assert(s2[w1].community == c2);
            let w2 = choose|i: int| 0 <= i < s2.len() && (#[trigger] s2[i]).community == c2;
            if w2 != w1 {
                if w2 < s1.len() {
                    let worig: int = if w2 < k {
                        w2
                    } else {
                        w2 + 1
                    };
                    assert(s0[worig].community == c2);
                }
            }
        } else {
            assert forall|i: int| 0 <= i < s2.len() implies (#[trigger] s2[i]).community != c2 by {
                if i < s1.len() {
                    let worig: int = if i < k {
                        i
                    } else {
                        i + 1
                    };
                    assert(s0[worig].community == s1[i].community);
                }
            }
        }
    }
}

/// One spent reputation unit: the anti-replay guard records that the account
/// used the handle (community, cindex) to vote on the proposal.
#[derive(Clone, Copy, Debug, PartialEq, Eq, Structural)]
pub struct VoteEntry {
    pub proposal_id: ProposalIdType,
    pub account: AccountId,
    pub community: CommunityIdentifier,
    pub cindex: CeremonyIndexType,
}

/// Whether a spent-handle record is present.
pub open spec fn vote_recorded(s: Seq<VoteEntry>, e: VoteEntry) -> bool {
    exists|i: int| 0 <= i < s.len() && #[trigger] s[i] == e
}

pub fn vote_contains(v: &Vec<VoteEntry>, e: VoteEntry) -> (r: bool)
    ensures
        r == vote_recorded(v@, e),
{
    let mut k: usize = 0;
    while k < v.len()
        invariant
            0 <= k <= v@.len(),
            forall|j: int| 0 <= j < k ==> #[trigger] v@[j] != e,
        decreases v@.len() - k,
    {
        if v[k].proposal_id == e.proposal_id && v[k].account == e.account
            && v[k].community == e.community && v[k].cindex == e.cindex {
            proof {
                assert(v@[k as int] == e);
            }
            return true;
        }
        k += 1;
    }
    false
}

} // verus!
