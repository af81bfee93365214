//! The democracy engine: one owning context holds every piece of persisted
//! state — proposals, tallies, the anti-replay vote record, the enactment
//! queue, administrative cancellations, the reputation registry it consults,
//! the scheduler clock, and the target parameters that enactment sets — and
//! every operation is a method with an exact contract.

use vstd::prelude::*;
use crate::curve::curve_passing;
use crate::curve::passing;
use crate::stores::CancelEntry;
use crate::stores::CountEntry;
use crate::stores::IncomeEntry;
use crate::stores::QueueEntry;
use crate::stores::RepEntry;
use crate::stores::VoteEntry;
use crate::stores::cancel_get;
use crate::stores::cancel_lookup;
use crate::stores::cancel_set;
use crate::stores::cancel_unique;
use crate::stores::count_get;
use crate::stores::count_lookup;
use crate::stores::count_set;
use crate::stores::count_unique;
use crate::stores::income_get;
use crate::stores::income_lookup;
use crate::stores::income_set;
use crate::stores::income_unique;
use crate::stores::queue_get;
use crate::stores::queue_lookup;
use crate::stores::queue_set;
use crate::stores::queue_unique;
use crate::stores::rep_get;
use crate::stores::rep_lookup;
use crate::stores::rep_set;
use crate::stores::rep_unique;
use crate::stores::vote_contains;
use crate::stores::vote_recorded;
use crate::types::AccountId;
use crate::types::BlockNumber;
use crate::types::CeremonyIndexType;
use crate::types::CeremonyPhaseType;
use crate::types::CommunityCeremony;
use crate::types::CommunityIdentifier;
use crate::types::Config;
use crate::types::Error;
use crate::types::InactivityTimeoutType;
use crate::types::NominalIncomeType;
use crate::types::Proposal;
use crate::types::ProposalAction;
use crate::types::ProposalIdType;
use crate::types::ProposalState;
use crate::types::Reputation;
use crate::types::Tally;
use crate::types::Vote;

verus! {

/// The engine. Proposal ids are 1-based: proposal `i` lives at index
/// `i - 1` of `proposals`, its tally at the same index of `tallies`.
pub struct Democracy {
    /// Configuration constants.
    pub config: Config,
    /// Current block height, maintained by the host.
    pub block_number: BlockNumber,
    /// Current phase of the ceremony scheduler.
    pub current_phase: CeremonyPhaseType,
    /// Current ceremony cycle; advances when a new cycle enters Registering.
    pub current_cindex: CeremonyIndexType,
    /// Every proposal ever submitted, in submission order, never deleted.
    pub proposals: Vec<Proposal>,
    /// The running tally of each proposal, parallel to `proposals`.
    pub tallies: Vec<Tally>,
    /// Anti-replay guard: every reputation unit ever spent on a proposal.
    pub vote_entries: Vec<VoteEntry>,
    /// At most one proposal per action class waiting for enactment.
    pub enactment_queue: Vec<QueueEntry>,
    /// Administrative retroactive cancellation marks, per action class.
    pub cancelled_at: Vec<CancelEntry>,
    /// The reputation registry's records.
    pub reputations: Vec<RepEntry>,
    /// The registry's precomputed verified counts per (community, cycle).
    pub reputation_counts: Vec<CountEntry>,
    /// Enactment target: nominal income per community.
    pub nominal_incomes: Vec<IncomeEntry>,
    /// Enactment target: the global inactivity timeout.
    pub inactivity_timeout: InactivityTimeoutType,
}

impl Democracy {
    /// Well-formedness: each associative store has pairwise distinct keys,
    /// no spent handle is recorded twice, every proposal has its tally, and
    /// the minimum turnout is a genuine fraction.
    pub open spec fn wf(self) -> bool {
        &&& queue_unique(self.enactment_queue@)
        &&& cancel_unique(self.cancelled_at@)
        &&& rep_unique(self.reputations@)
        &&& count_unique(self.reputation_counts@)
        &&& income_unique(self.nominal_incomes@)
        &&& forall|i: int, j: int|
            0 <= i < j < self.vote_entries@.len() ==> #[trigger] self.vote_entries@[i]
                != #[trigger] self.vote_entries@[j]
        &&& self.proposals@.len() == self.tallies@.len()
        &&& self.config.min_turnout_permill <= 1000
    }

    /// Whether a proposal with this id exists.
    pub open spec fn has_proposal(self, pid: ProposalIdType) -> bool {
        1 <= pid <= self.proposals@.len()
    }

    pub open spec fn proposal_of(self, pid: ProposalIdType) -> Proposal {
        self.proposals@[pid - 1]
    }

    pub open spec fn tally_of(self, pid: ProposalIdType) -> Tally {
        self.tallies@[pid - 1]
    }

    pub open spec fn registry_unchanged(self, other: Democracy) -> bool {
        &&& other.reputations@ == self.reputations@
        &&& other.reputation_counts@ == self.reputation_counts@
    }

    pub open spec fn targets_unchanged(self, other: Democracy) -> bool {
        &&& other.nominal_incomes@ == self.nominal_incomes@
        &&& other.inactivity_timeout == self.inactivity_timeout
    }

    pub open spec fn clock_unchanged(self, other: Democracy) -> bool {
        &&& other.config == self.config
        &&& other.block_number == self.block_number
        &&& other.current_phase == self.current_phase
        &&& other.current_cindex == self.current_cindex
    }

    pub open spec fn proposals_unchanged(self, other: Democracy) -> bool {
        &&& other.proposals@ == self.proposals@
        &&& other.tallies@ == self.tallies@
    }

    pub open spec fn votes_unchanged(self, other: Democracy) -> bool {
        other.vote_entries@ == self.vote_entries@
    }

    pub open spec fn queue_unchanged(self, other: Democracy) -> bool {
        other.enactment_queue@ == self.enactment_queue@
    }

    pub open spec fn cancels_unchanged(self, other: Democracy) -> bool {
        other.cancelled_at@ == self.cancelled_at@
    }

    /// Everything is unchanged.
    pub open spec fn unchanged(self, other: Democracy) -> bool {
        &&& self.registry_unchanged(other)
        &&& self.targets_unchanged(other)
        &&& self.clock_unchanged(other)
        &&& self.proposals_unchanged(other)
        &&& self.votes_unchanged(other)
        &&& self.queue_unchanged(other)
        &&& self.cancels_unchanged(other)
    }

    /// A fresh engine at the given cycle: no proposals, no votes, an empty
    /// registry, an empty queue, and zeroed target parameters.
    pub fn new(config: Config, current_cindex: CeremonyIndexType) -> (r: Democracy)
        requires
            config.min_turnout_permill <= 1000,
        ensures
            r.wf(),
            r.config == config,
            r.block_number == 0,
            r.current_phase == CeremonyPhaseType::Registering,
            r.current_cindex == current_cindex,
            r.proposals@ =~= Seq::<Proposal>::empty(),
            r.tallies@ =~= Seq::<Tally>::empty(),
            r.vote_entries@ =~= Seq::<VoteEntry>::empty(),
            r.enactment_queue@ =~= Seq::<QueueEntry>::empty(),
            r.cancelled_at@ =~= Seq::<CancelEntry>::empty(),
            r.reputations@ =~= Seq::<RepEntry>::empty(),
            r.reputation_counts@ =~= Seq::<CountEntry>::empty(),
            r.nominal_incomes@ =~= Seq::<IncomeEntry>::empty(),
            r.inactivity_timeout == 0,
    {
        Democracy {
            config,
            block_number: 0,
            current_phase: CeremonyPhaseType::Registering,
            current_cindex,
            proposals: Vec::new(),
            tallies: Vec::new(),
            vote_entries: Vec::new(),
            enactment_queue: Vec::new(),
            cancelled_at: Vec::new(),
            reputations: Vec::new(),
            reputation_counts: Vec::new(),
            nominal_incomes: Vec::new(),
            inactivity_timeout: 0,
        }
    }

    /// Number of proposals ever submitted; also the highest live id.
    pub fn proposal_count(&self) -> (r: ProposalIdType)
        ensures
            r == self.proposals@.len(),
    {
        self.proposals.len() as u128
    }

    /// The proposal with this id, if it exists.
    pub fn proposals(&self, pid: ProposalIdType) -> (r: Option<Proposal>)
        ensures
            r == if self.has_proposal(pid) {
                Some(self.proposal_of(pid))
            } else {
                Option::<Proposal>::None
            },
    {
        if pid >= 1 && pid <= self.proposals.len() as u128 {
            Some(self.proposals[(pid - 1) as usize])
        } else {
            None
        }
    }

    /// The tally of this proposal, if it exists.
    pub fn tallies(&self, pid: ProposalIdType) -> (r: Option<Tally>)
        requires
            self.wf(),
        ensures
            r == if self.has_proposal(pid) {
                Some(self.tally_of(pid))
            } else {
                Option::<Tally>::None
            },
    {
        if pid >= 1 && pid <= self.tallies.len() as u128 {
            Some(self.tallies[(pid - 1) as usize])
        } else {
            None
        }
    }

    /// The proposal currently waiting for enactment in this action class.
    pub fn enactment_queue(&self, id: crate::types::ProposalActionIdentifier) -> (r: Option<
        ProposalIdType,
    >)
        requires
            self.wf(),
        ensures
            r == queue_lookup(self.enactment_queue@, id),
    {
        queue_get(&self.enactment_queue, id)
    }

    /// The nominal income of a community, as enactment last set it.
    pub fn nominal_income(&self, community: CommunityIdentifier) -> (r: NominalIncomeType)
        requires
            self.wf(),
        ensures
            r == income_lookup(self.nominal_incomes@, community),
    {
        income_get(&self.nominal_incomes, community)
    }

    /// The global inactivity timeout, as enactment last set it.
    pub fn inactivity_timeout(&self) -> (r: InactivityTimeoutType)
        ensures
            r == self.inactivity_timeout,
    {
        self.inactivity_timeout
    }

    pub fn block_number(&self) -> (r: BlockNumber)
        ensures
            r == self.block_number,
    {
        self.block_number
    }

    pub fn current_ceremony_index(&self) -> (r: CeremonyIndexType)
        ensures
            r == self.current_cindex,
    {
        self.current_cindex
    }

    pub fn current_phase(&self) -> (r: CeremonyPhaseType)
        ensures
            r == self.current_phase,
    {
        self.current_phase
    }

    /// Host clock: sets the current block height.
    pub fn set_block_number(&mut self, block: BlockNumber)
        requires
            old(self).wf(),
        ensures
            final(self).wf(),
            final(self).block_number == block,
            final(self).config == old(self).config,
            final(self).current_phase == old(self).current_phase,
            final(self).current_cindex == old(self).current_cindex,
            old(self).registry_unchanged(*final(self)),
            old(self).targets_unchanged(*final(self)),
            old(self).proposals_unchanged(*final(self)),
            old(self).votes_unchanged(*final(self)),
            old(self).queue_unchanged(*final(self)),
            old(self).cancels_unchanged(*final(self)),
    {
        self.block_number = block;
    }

    /// Registry maintenance: records an account's reputation for one
    /// community and cycle, and keeps the verified counts in step — the
    /// count of the (community, cycle) key rises by one when an unverified
    /// record turns verified and falls by one in the opposite case,
    /// saturating at the ends of the `u64` range.
    pub fn fake_reputation(
        &mut self,
        community: CommunityIdentifier,
        cindex: CeremonyIndexType,
        account: AccountId,
        rep: Reputation,
    )
        requires
            old(self).wf(),
        ensures
            final(self).wf(),
            rep_lookup(final(self).reputations@, (community, cindex, account)) == rep,
            forall|key2: (CommunityIdentifier, CeremonyIndexType, AccountId)|
                key2 != (community, cindex, account) ==> #[trigger] rep_lookup(
                    final(self).reputations@,
                    key2,
                ) == rep_lookup(old(self).reputations@, key2),
            count_lookup(final(self).reputation_counts@, (community, cindex)) == {
                let before = count_lookup(old(self).reputation_counts@, (community, cindex));
                let was = rep_lookup(
                    old(self).reputations@,
                    (community, cindex, account),
                ).spec_is_verified();
                if was == rep.spec_is_verified() {
                    before
                } else if rep.spec_is_verified() {
                    if before < u64::MAX {
                        (before + 1) as u64
                    } else {
                        before
                    }
                } else {
                    if before > 0 {
                        (before - 1) as u64
                    } else {
                        0
                    }
                }
            },
            forall|key2: (CommunityIdentifier, CeremonyIndexType)|
                key2 != (community, cindex) ==> #[trigger] count_lookup(
                    final(self).reputation_counts@,
                    key2,
                ) == count_lookup(old(self).reputation_counts@, key2),
            old(self).targets_unchanged(*final(self)),
            old(self).clock_unchanged(*final(self)),
            old(self).proposals_unchanged(*final(self)),
            old(self).votes_unchanged(*final(self)),
            old(self).queue_unchanged(*final(self)),
            old(self).cancels_unchanged(*final(self)),
    {
        let was = rep_get(&self.reputations, community, cindex, account).is_verified();
        let now = rep.is_verified();
        rep_set(&mut self.reputations, community, cindex, account, rep);
        if was != now {
            let before = count_get(&self.reputation_counts, community, cindex);
            let after: u64 = if now {
                if before < u64::MAX {
                    before + 1
                } else {
                    before
                }
            } else {
                if before > 0 {
                    before - 1
                } else {
                    0
                }
            };
            count_set(&mut self.reputation_counts, community, cindex, after);
        }
    }

    /// Storage override: replaces the tally of an existing proposal; ids
    /// without a proposal are left untouched.
    pub fn set_tally(&mut self, pid: ProposalIdType, tally: Tally)
        requires
            old(self).wf(),
        ensures
            final(self).wf(),
            final(self).tallies@ == if old(self).has_proposal(pid) {
                old(self).tallies@.update(pid - 1, tally)
            } else {
                old(self).tallies@
            },
            final(self).proposals@ == old(self).proposals@,
            old(self).registry_unchanged(*final(self)),
            old(self).targets_unchanged(*final(self)),
            old(self).clock_unchanged(*final(self)),
            old(self).votes_unchanged(*final(self)),
            old(self).queue_unchanged(*final(self)),
            old(self).cancels_unchanged(*final(self)),
    {
        if pid >= 1 && pid <= self.tallies.len() as u128 {
            let i = (pid - 1) as usize;
            self.tallies.remove(i);
            self.tallies.insert(i, tally);
            proof {
                assert(self.tallies@ =~= old(self).tallies@.update(pid - 1, tally));
            }
        }
    }

    /// Storage override: writes a proposal at an id. An existing id is
    /// replaced; the next fresh id is appended together with a zero tally;
    /// any other id is left untouched.
    pub fn insert_proposal(&mut self, pid: ProposalIdType, proposal: Proposal)
        requires
            old(self).wf(),
        ensures
            final(self).wf(),
            final(self).proposals@ == if old(self).has_proposal(pid) {
                old(self).proposals@.update(pid - 1, proposal)
            } else if pid == old(self).proposals@.len() + 1 {
                old(self).proposals@.push(proposal)
            } else {
                old(self).proposals@
            },
            final(self).tallies@ == if !old(self).has_proposal(pid) && pid == old(
                self,
            ).proposals@.len() + 1 {
                old(self).tallies@.push(Tally { turnout: 0, ayes: 0 })
            } else {
                old(self).tallies@
            },
            old(self).registry_unchanged(*final(self)),
            old(self).targets_unchanged(*final(self)),
            old(self).clock_unchanged(*final(self)),
            old(self).votes_unchanged(*final(self)),
            old(self).queue_unchanged(*final(self)),
            old(self).cancels_unchanged(*final(self)),
    {
        if pid >= 1 && pid <= self.proposals.len() as u128 {
            let i = (pid - 1) as usize;
            self.proposals.remove(i);
            self.proposals.insert(i, proposal);
            proof {
                assert(self.proposals@ =~= old(self).proposals@.update(pid - 1, proposal));
            }
        } else if pid == (self.proposals.len() as u128) + 1 {
            self.proposals.push(proposal);
            self.tallies.push(Tally { turnout: 0, ayes: 0 });
        }
    }

    /// Storage override: points an action class's enactment slot at a
    /// proposal id.
    pub fn insert_enactment_queue(
        &mut self,
        id: crate::types::ProposalActionIdentifier,
        pid: ProposalIdType,
    )
        requires
            old(self).wf(),
        ensures
            final(self).wf(),
            queue_lookup(final(self).enactment_queue@, id) == Some(pid),
            forall|id2: crate::types::ProposalActionIdentifier|
                id2 != id ==> #[trigger] queue_lookup(final(self).enactment_queue@, id2)
                    == queue_lookup(old(self).enactment_queue@, id2),
            old(self).registry_unchanged(*final(self)),
            old(self).targets_unchanged(*final(self)),
            old(self).clock_unchanged(*final(self)),
            old(self).proposals_unchanged(*final(self)),
            old(self).votes_unchanged(*final(self)),
            old(self).cancels_unchanged(*final(self)),
    {
        queue_set(&mut self.enactment_queue, id, pid);
    }

    /// Administrative override: every still-open proposal of this action
    /// class submitted at or before `block` is cancelled on its next state
    /// update.
    pub fn set_cancelled_at(
        &mut self,
        id: crate::types::ProposalActionIdentifier,
        block: BlockNumber,
    )
        requires
            old(self).wf(),
        ensures
            final(self).wf(),
            cancel_lookup(final(self).cancelled_at@, id) == Some(block),
            forall|id2: crate::types::ProposalActionIdentifier|
                id2 != id ==> #[trigger] cancel_lookup(final(self).cancelled_at@, id2)
                    == cancel_lookup(old(self).cancelled_at@, id2),
            old(self).registry_unchanged(*final(self)),
            old(self).targets_unchanged(*final(self)),
            old(self).clock_unchanged(*final(self)),
            old(self).proposals_unchanged(*final(self)),
            old(self).votes_unchanged(*final(self)),
            old(self).queue_unchanged(*final(self)),
    {
        cancel_set(&mut self.cancelled_at, id, block);
    }

    /// Storage override: records a spent reputation handle directly.
    pub fn insert_vote_entry(
        &mut self,
        pid: ProposalIdType,
        account: AccountId,
        community: CommunityIdentifier,
        cindex: CeremonyIndexType,
    )
        requires
            old(self).wf(),
        ensures
            final(self).wf(),
            ({
                let e = VoteEntry { proposal_id: pid, account, community, cindex };
                final(self).vote_entries@ == if vote_recorded(old(self).vote_entries@, e) {
                    old(self).vote_entries@
                } else {
                    old(self).vote_entries@.push(e)
                }
            }),
            old(self).registry_unchanged(*final(self)),
            old(self).targets_unchanged(*final(self)),
            old(self).clock_unchanged(*final(self)),
            old(self).proposals_unchanged(*final(self)),
            old(self).queue_unchanged(*final(self)),
            old(self).cancels_unchanged(*final(self)),
    {
        let e = VoteEntry { proposal_id: pid, account, community, cindex };
        if !vote_contains(&self.vote_entries, e) {
            self.vote_entries.push(e);
        }
    }
}

/// The freshness window: a handle of cycle `cindex` may vote on a proposal
/// submitted at cycle `start_cindex` iff
/// `start_cindex - reputation_lifetime <= cindex < start_cindex`. Handles
/// from the proposal's own or a future cycle, and handles older than the
/// lifetime window, are rejected.
pub open spec fn cindex_in_window(
    config: Config,
    start_cindex: CeremonyIndexType,
    cindex: CeremonyIndexType,
) -> bool {
    start_cindex - config.reputation_lifetime <= cindex < start_cindex
}

/// Spendability of one claimed reputation handle `h = (community, cycle)`
/// for a proposal: in scope, inside the freshness window, verified in the
/// registry, and not already spent on this proposal by this account.
pub open spec fn spendable(
    reps: Seq<RepEntry>,
    votes: Seq<VoteEntry>,
    config: Config,
    proposal: Proposal,
    pid: ProposalIdType,
    account: AccountId,
    h: CommunityCeremony,
) -> bool {
    &&& match proposal.action.spec_scope() {
        Some(c) => h.0 == c,
        None => true,
    }
    &&& cindex_in_window(config, proposal.start_cindex, h.1)
    &&& rep_lookup(reps, (h.0, h.1, account)).spec_is_verified()
    &&& !vote_recorded(
        votes,
        VoteEntry { proposal_id: pid, account, community: h.0, cindex: h.1 },
    )
}

/// The order-preserving sub-sequence of spendable handles.
pub open spec fn eligible_seq(
    reps: Seq<RepEntry>,
    votes: Seq<VoteEntry>,
    config: Config,
    proposal: Proposal,
    pid: ProposalIdType,
    account: AccountId,
    hs: Seq<CommunityCeremony>,
) -> Seq<CommunityCeremony>
    decreases hs.len(),
{
    if hs.len() == 0 {
        Seq::empty()
    } else {
        let prefix = eligible_seq(reps, votes, config, proposal, pid, account, hs.drop_last());
        if spendable(reps, votes, config, proposal, pid, account, hs.last()) {
            prefix.push(hs.last())
        } else {
            prefix
        }
    }
}

/// Whether a count entry of the registry belongs to a proposal's electorate:
/// its community matches the proposal's scope and its cycle lies in the
/// freshness window.
pub open spec fn count_in_scope(config: Config, proposal: Proposal, e: CountEntry) -> bool {
    &&& match proposal.action.spec_scope() {
        Some(c) => e.community == c,
        None => true,
    }
    &&& cindex_in_window(config, proposal.start_cindex, e.cindex)
}

/// The electorate: the sum of the registry's verified counts over every
/// (community, cycle) pair matching the proposal's scope and window.
pub open spec fn electorate_sum(counts: Seq<CountEntry>, config: Config, proposal: Proposal) -> int
    decreases counts.len(),
{
    if counts.len() == 0 {
        0
    } else {
        electorate_sum(counts.drop_last(), config, proposal) + if count_in_scope(
            config,
            proposal,
            counts.last(),
        ) {
            counts.last().count as int
        } else {
            0
        }
    }
}

/// The electorate is nonnegative and at most one `u64` per count entry.
pub proof fn lemma_electorate_sum_bounds(counts: Seq<CountEntry>, config: Config, proposal: Proposal)
    ensures
        0 <= electorate_sum(counts, config, proposal) <= counts.len() * (u64::MAX as int),
    decreases counts.len(),
{
    if counts.len() > 0 {
        lemma_electorate_sum_bounds(counts.drop_last(), config, proposal);
        assert((counts.len() - 1) * (u64::MAX as int) + (u64::MAX as int) == counts.len() * (
        u64::MAX as int)) by (nonlinear_arith);
    }
}

impl Democracy {
    fn cindex_in_window_exec(&self, start_cindex: CeremonyIndexType, cindex: CeremonyIndexType) -> (r:
        bool)
        ensures
            r == cindex_in_window(self.config, start_cindex, cindex),
    {
        let lower_ok = (cindex as u64) + (self.config.reputation_lifetime as u64)
            >= (start_cindex as u64);
        lower_ok && cindex < start_cindex
    }

    fn is_spendable(
        &self,
        proposal: &Proposal,
        pid: ProposalIdType,
        account: AccountId,
        h: CommunityCeremony,
    ) -> (r: bool)
        requires
            self.wf(),
        ensures
            r == spendable(
                self.reputations@,
                self.vote_entries@,
                self.config,
                *proposal,
                pid,
                account,
                h,
            ),
    {
        let scope_ok = match proposal.action.scope() {
            Some(c) => h.0 == c,
            None => true,
        };
        if !scope_ok {
            return false;
        }
        if !self.cindex_in_window_exec(proposal.start_cindex, h.1) {
            return false;
        }
        if !rep_get(&self.reputations, h.0, h.1, account).is_verified() {
            return false;
        }
        !vote_contains(
            &self.vote_entries,
            VoteEntry { proposal_id: pid, account, community: h.0, cindex: h.1 },
        )
    }

    /// The eligibility filter: of the claimed handles, the order-preserving
    /// sub-sequence that is spendable on this proposal. Read-only; fails
    /// only on an unknown proposal id.
    pub fn eligible_reputations(
        &self,
        proposal_id: ProposalIdType,
        account: AccountId,
        reputations: &Vec<CommunityCeremony>,
    ) -> (r: Result<Vec<CommunityCeremony>, Error>)
        requires
            self.wf(),
        ensures
            match r {
                Ok(out) => self.has_proposal(proposal_id) && out@ == eligible_seq(
                    self.reputations@,
                    self.vote_entries@,
                    self.config,
                    self.proposal_of(proposal_id),
                    proposal_id,
                    account,
                    reputations@,
                ),
                Err(e) => e == Error::InexistentProposal && !self.has_proposal(proposal_id),
            },
    {
        let p = match self.proposals(proposal_id) {
            Some(p) => p,
            None => {
                return Err(Error::InexistentProposal);
            },
        };
        let mut out: Vec<CommunityCeremony> = Vec::new();
        let mut i: usize = 0;
        while i < reputations.len()
            invariant
                self.wf(),
                0 <= i <= reputations@.len(),
                self.has_proposal(proposal_id),
                p == self.proposal_of(proposal_id),
                out@ == eligible_seq(
                    self.reputations@,
                    self.vote_entries@,
                    self.config,
                    p,
                    proposal_id,
                    account,
                    reputations@.subrange(0, i as int),
                ),
            decreases reputations@.len() - i,
        {
            let h = reputations[i];
            proof {
                assert(reputations@.subrange(0, i + 1).drop_last() =~= reputations@.subrange(
                    0,
                    i as int,
                ));
                assert(reputations@.subrange(0, i + 1).last() == reputations@[i as int]);
            }
            if self.is_spendable(&p, proposal_id, account, h) {
                out.push(h);
            }
            i += 1;
        }
        proof {
            assert(reputations@.subrange(0, reputations@.len() as int) =~= reputations@);
        }
        Ok(out)
    }

    /// The electorate of this proposal, summed from the registry's
    /// precomputed per-(community, cycle) verified counts.
    pub fn get_electorate(&self, proposal_id: ProposalIdType) -> (r: Result<u128, Error>)
        requires
            self.wf(),
        ensures
            match r {
                Ok(e) => self.has_proposal(proposal_id) && e == electorate_sum(
                    self.reputation_counts@,
                    self.config,
                    self.proposal_of(proposal_id),
                ),
                Err(e) => e == Error::InexistentProposal && !self.has_proposal(proposal_id),
            },
    {
        let p = match self.proposals(proposal_id) {
            Some(p) => p,
            None => {
                return Err(Error::InexistentProposal);
            },
        };
        let mut acc: u128 = 0;
        let mut i: usize = 0;
        while i < self.reputation_counts.len()
            invariant
                self.wf(),
                0 <= i <= self.reputation_counts@.len(),
                acc == electorate_sum(self.reputation_counts@.subrange(0, i as int), self.config, p),
                acc <= i * (u64::MAX as int),
            decreases self.reputation_counts@.len() - i,
        {
            let e = self.reputation_counts[i];
            proof {
                assert(self.reputation_counts@.subrange(0, i + 1).drop_last()
                    =~= self.reputation_counts@.subrange(0, i as int));
                assert(self.reputation_counts@.subrange(0, i + 1).last()
                    == self.reputation_counts@[i as int]);
                assert(i * (u64::MAX as int) + (u64::MAX as int) == (i + 1) * (u64::MAX as int))
                    by (nonlinear_arith);
                assert((i + 1) * (u64::MAX as int) <= (usize::MAX as int) * (u64::MAX as int))
                    by (nonlinear_arith)
                    requires
                        0 <= i + 1 <= usize::MAX as int,
                ;
            }
            let in_scope = match p.action.scope() {
                Some(c) => e.community == c,
                None => true,
            };
            if in_scope && self.cindex_in_window_exec(p.start_cindex, e.cindex) {
                acc = acc + e.count as u128;
            }
            i += 1;
        }
        proof {
            assert(self.reputation_counts@.subrange(0, self.reputation_counts@.len() as int)
                =~= self.reputation_counts@);
        }
        Ok(acc)
    }

    /// Whether this proposal's current tally passes the quorum/approval
    /// curve against its current electorate.
    pub open spec fn spec_is_passing(self, pid: ProposalIdType) -> bool {
        curve_passing(
            self.tally_of(pid).turnout,
            self.tally_of(pid).ayes,
            electorate_sum(self.reputation_counts@, self.config, self.proposal_of(pid)) as u128,
            self.config.min_turnout_permill,
        )
    }

    /// Evaluates the quorum/approval curve for this proposal.
    pub fn is_passing(&self, proposal_id: ProposalIdType) -> (r: Result<bool, Error>)
        requires
            self.wf(),
        ensures
            match r {
                Ok(b) => self.has_proposal(proposal_id) && b == self.spec_is_passing(proposal_id),
                Err(e) => e == Error::InexistentProposal && !self.has_proposal(proposal_id),
            },
    {
        let t = match self.tallies(proposal_id) {
            Some(t) => t,
            None => {
                return Err(Error::InexistentProposal);
            },
        };
        let electorate = match self.get_electorate(proposal_id) {
            Ok(e) => e,
            Err(e) => {
                return Err(e);
            },
        };
        Ok(passing(t.turnout, t.ayes, electorate, self.config.min_turnout_permill))
    }
}

/// Retroactive cancellation applies to a proposal iff its class carries an
/// override mark recorded at or after the proposal's start block.
pub open spec fn spec_proposal_cancelled(cancels: Seq<CancelEntry>, p: Proposal) -> bool {
    match cancel_lookup(cancels, p.action.spec_identifier()) {
        Some(b) => p.start <= b,
        None => false,
    }
}

/// A proposal expires once its age exceeds the configured lifetime.
pub open spec fn spec_proposal_too_old(config: Config, now: BlockNumber, p: Proposal) -> bool {
    now - p.start > config.proposal_lifetime * config.proposal_lifetime_cycles
}

/// The lifecycle transition function for one state update of proposal `p`
/// at block `now`, given the current curve outcome:
/// - `Ongoing` is cancelled by a retroactive override or by expiry; else it
///   moves to `Confirming` when the curve passes, and stays otherwise.
/// - `Confirming` falls back to `Ongoing` when the curve no longer passes;
///   it becomes `Approved` once the curve has held for the whole
///   confirmation period; else it stays, keeping its timer.
/// - The terminal states are never handed to this function.
pub open spec fn spec_next_state(
    config: Config,
    cancels: Seq<CancelEntry>,
    is_passing: bool,
    now: BlockNumber,
    p: Proposal,
) -> ProposalState {
    match p.state {
        ProposalState::Ongoing => {
            if spec_proposal_cancelled(cancels, p) || spec_proposal_too_old(config, now, p) {
                ProposalState::Cancelled
            } else if is_passing {
                ProposalState::Confirming { since: now }
            } else {
                ProposalState::Ongoing
            }
        },
        ProposalState::Confirming { since } => {
            if !is_passing {
                ProposalState::Ongoing
            } else if now - since >= config.confirmation_period {
                ProposalState::Approved
            } else {
                p.state
            }
        },
        _ => p.state,
    }
}

impl Democracy {
    /// Submits a proposal for the given action. Fails with
    /// `ProposalWaitingForEnactment` iff the action's class already has a
    /// queued enactment; otherwise allocates the next id and stores the
    /// proposal as `Ongoing` with an all-zero tally.
    pub fn submit_proposal(&mut self, action: ProposalAction) -> (r: Result<(), Error>)
        requires
            old(self).wf(),
        ensures
            final(self).wf(),
            old(self).clock_unchanged(*final(self)),
            old(self).registry_unchanged(*final(self)),
            old(self).targets_unchanged(*final(self)),
            old(self).votes_unchanged(*final(self)),
            old(self).queue_unchanged(*final(self)),
            old(self).cancels_unchanged(*final(self)),
            match r {
                Ok(()) => {
                    &&& queue_lookup(old(self).enactment_queue@, action.spec_identifier())
                        is None
                    &&& final(self).proposals@ == old(self).proposals@.push(
                        Proposal {
                            start: old(self).block_number,
                            start_cindex: old(self).current_cindex,
                            action,
                            state: ProposalState::Ongoing,
                        },
                    )
                    &&& final(self).tallies@ == old(self).tallies@.push(
                        Tally { turnout: 0, ayes: 0 },
                    )
                },
                Err(e) => {
                    &&& e == Error::ProposalWaitingForEnactment
                    &&& queue_lookup(old(self).enactment_queue@, action.spec_identifier())
                        is Some
                    &&& old(self).proposals_unchanged(*final(self))
                },
            },
    {
        let id = action.get_identifier();
        match queue_get(&self.enactment_queue, id) {
            Some(_) => Err(Error::ProposalWaitingForEnactment),
            None => {
                self.proposals.push(
                    Proposal {
                        start: self.block_number,
                        start_cindex: self.current_cindex,
                        action,
                        state: ProposalState::Ongoing,
                    },
                );
                self.tallies.push(Tally { turnout: 0, ayes: 0 });
                Ok(())
            },
        }
    }

    /// One state update of a proposal: applies the lifecycle transition
    /// function to its current state, tally and electorate; on approval the
    /// action's class is queued for enactment. The returned flag says
    /// whether enactment happened synchronously during this call; enactment
    /// runs only in the scheduler's once-per-cycle hook, so the flag is
    /// false for every transition this function performs. Fails with
    /// `InexistentProposal` on an unknown id and `ProposalCannotBeUpdated`
    /// on a terminal state, changing nothing.
    pub fn do_update_proposal_state(&mut self, proposal_id: ProposalIdType) -> (r: Result<
        bool,
        Error,
    >)
        requires
            old(self).wf(),
        ensures
            final(self).wf(),
            old(self).clock_unchanged(*final(self)),
            old(self).registry_unchanged(*final(self)),
            old(self).targets_unchanged(*final(self)),
            old(self).votes_unchanged(*final(self)),
            old(self).cancels_unchanged(*final(self)),
            final(self).tallies@ == old(self).tallies@,
            match r {
                Ok(approved) => {
                    let p0 = old(self).proposal_of(proposal_id);
                    let ns = spec_next_state(
                        old(self).config,
                        old(self).cancelled_at@,
                        old(self).spec_is_passing(proposal_id),
                        old(self).block_number,
                        p0,
                    );
                    &&& old(self).has_proposal(proposal_id)
                    &&& p0.state.spec_can_update()
                    &&& final(self).proposals@ == old(self).proposals@.update(
                        proposal_id - 1,
                        Proposal {
                            start: p0.start,
                            start_cindex: p0.start_cindex,
                            action: p0.action,
                            state: ns,
                        },
                    )
                    &&& approved == false
                    &&& if ns is Approved {
                        &&& queue_lookup(
                            final(self).enactment_queue@,
                            p0.action.spec_identifier(),
                        ) == Some(proposal_id)
                        &&& forall|id2: crate::types::ProposalActionIdentifier|
                            id2 != p0.action.spec_identifier() ==> #[trigger] queue_lookup(
                                final(self).enactment_queue@,
                                id2,
                            ) == queue_lookup(old(self).enactment_queue@, id2)
                    } else {
                        old(self).queue_unchanged(*final(self))
                    }
                },
                Err(e) => {
                    &&& old(self).unchanged(*final(self))
                    &&& e == if !old(self).has_proposal(proposal_id) {
                        Error::InexistentProposal
                    } else {
                        Error::ProposalCannotBeUpdated
                    }
                    &&& !old(self).has_proposal(proposal_id) || !old(self).proposal_of(
                        proposal_id,
                    ).state.spec_can_update()
                },
            },
    {
        let p = match self.proposals(proposal_id) {
            Some(p) => p,
            None => {
                return Err(Error::InexistentProposal);
            },
        };
        if !p.state.can_update() {
            return Err(Error::ProposalCannotBeUpdated);
        }
        let passing_now = match self.is_passing(proposal_id) {
            Ok(b) => b,
            Err(_) => {
                proof {
                    assert(false);
                }
                return Err(Error::InexistentProposal);
            },
        };
        let now = self.block_number;
        let mut new_state = p.state;
        let mut newly_approved = false;
        match p.state {
            ProposalState::Ongoing => {
                let cancelled = match cancel_get(&self.cancelled_at, p.action.get_identifier()) {
                    Some(b) => p.start <= b,
                    None => false,
                };
                let lifetime = self.config.proposal_lifetime as u128;
                let cycles = self.config.proposal_lifetime_cycles as u128;
                proof {
                    assert(lifetime * cycles <= (u64::MAX as int) * (u32::MAX as int))
                        by (nonlinear_arith)
                        requires
                            0 <= lifetime <= u64::MAX as int,
                            0 <= cycles <= u32::MAX as int,
                    ;
                }
                let too_old = now > p.start && ((now - p.start) as u128) > lifetime * cycles;
                if cancelled || too_old {
                    new_state = ProposalState::Cancelled;
                } else if passing_now {
                    new_state = ProposalState::Confirming { since: now };
                }
            },
            ProposalState::Confirming { since } => {
                if !passing_now {
                    new_state = ProposalState::Ongoing;
                } else if (now as u128) >= (since as u128) + (self.config.confirmation_period
                    as u128) {
                    new_state = ProposalState::Approved;
                    newly_approved = true;
                }
            },
            _ => {},
        }
        let n = self.proposals.len();
        proof {
            assert(self.proposals@.len() == n);
            assert(proposal_id - 1 < n);
        }
        let idx = (proposal_id - 1) as usize;
        self.proposals.remove(idx);
        self.proposals.insert(
            idx,
            Proposal {
                start: p.start,
                start_cindex: p.start_cindex,
                action: p.action,
                state: new_state,
            },
        );
        proof {
            assert(self.proposals@ =~= old(self).proposals@.update(
                proposal_id - 1,
                Proposal {
                    start: p.start,
                    start_cindex: p.start_cindex,
                    action: p.action,
                    state: new_state,
                },
            ));
        }
        if newly_approved {
            queue_set(&mut self.enactment_queue, p.action.get_identifier(), proposal_id);
        }
        Ok(false)
    }

    /// The user-facing state update call: one application of the lifecycle
    /// transition function, surfacing whether enactment happened
    /// synchronously — which it never does here, enactment being the
    /// scheduler hook's work, so the surfaced flag is false.
    pub fn update_proposal_state(&mut self, proposal_id: ProposalIdType) -> (r: Result<
        bool,
        Error,
    >)
        requires
            old(self).wf(),
        ensures
            final(self).wf(),
            old(self).clock_unchanged(*final(self)),
            old(self).registry_unchanged(*final(self)),
            old(self).targets_unchanged(*final(self)),
            old(self).votes_unchanged(*final(self)),
            old(self).cancels_unchanged(*final(self)),
            final(self).tallies@ == old(self).tallies@,
            match r {
                Ok(approved) => {
                    let p0 = old(self).proposal_of(proposal_id);
                    let ns = spec_next_state(
                        old(self).config,
                        old(self).cancelled_at@,
                        old(self).spec_is_passing(proposal_id),
                        old(self).block_number,
                        p0,
                    );
                    &&& old(self).has_proposal(proposal_id)
                    &&& p0.state.spec_can_update()
                    &&& final(self).proposals@ == old(self).proposals@.update(
                        proposal_id - 1,
                        Proposal {
                            start: p0.start,
                            start_cindex: p0.start_cindex,
                            action: p0.action,
                            state: ns,
                        },
                    )
                    &&& approved == false
                    &&& if ns is Approved {
                        &&& queue_lookup(
                            final(self).enactment_queue@,
                            p0.action.spec_identifier(),
                        ) == Some(proposal_id)
                        &&& forall|id2: crate::types::ProposalActionIdentifier|
                            id2 != p0.action.spec_identifier() ==> #[trigger] queue_lookup(
                                final(self).enactment_queue@,
                                id2,
                            ) == queue_lookup(old(self).enactment_queue@, id2)
                    } else {
                        old(self).queue_unchanged(*final(self))
                    }
                },
                Err(e) => {
                    &&& old(self).unchanged(*final(self))
                    &&& e == if !old(self).has_proposal(proposal_id) {
                        Error::InexistentProposal
                    } else {
                        Error::ProposalCannotBeUpdated
                    }
                    &&& !old(self).has_proposal(proposal_id) || !old(self).proposal_of(
                        proposal_id,
                    ).state.spec_can_update()
                },
            },
    {
        self.do_update_proposal_state(proposal_id)
    }
}

/// The effect of one vote call on the spent-handle record: the claimed
/// handles are examined in order, and each one spendable at its turn —
/// in particular not yet spent, neither before the call nor by an earlier
/// handle of the same call — is recorded. Every unit of reputation is
/// therefore counted at most once per proposal.
pub open spec fn vote_fold(
    reps: Seq<RepEntry>,
    config: Config,
    proposal: Proposal,
    pid: ProposalIdType,
    account: AccountId,
    votes0: Seq<VoteEntry>,
    hs: Seq<CommunityCeremony>,
) -> Seq<VoteEntry>
    decreases hs.len(),
{
    if hs.len() == 0 {
        votes0
    } else {
        let prev = vote_fold(reps, config, proposal, pid, account, votes0, hs.drop_last());
        let h = hs.last();
        if spendable(reps, prev, config, proposal, pid, account, h) {
            prev.push(VoteEntry { proposal_id: pid, account, community: h.0, cindex: h.1 })
        } else {
            prev
        }
    }
}

/// Saturating `u128` addition of a spent-handle count.
pub open spec fn sat_add_u128(a: u128, n: int) -> u128 {
    if a + n <= u128::MAX {
        (a + n) as u128
    } else {
        u128::MAX
    }
}

impl Democracy {
    /// Casts a vote: spends every claimed handle that the eligibility rules
    /// admit at its turn, adds their number to the proposal's turnout — and
    /// to its ayes iff the direction is Aye — and then applies one lifecycle
    /// state update with the new tally. Zero eligible handles is a success
    /// with zero effect. Fails only on an unknown id or a terminal state,
    /// changing nothing.
    pub fn vote(
        &mut self,
        account: AccountId,
        proposal_id: ProposalIdType,
        vote: Vote,
        reputations: &Vec<CommunityCeremony>,
    ) -> (r: Result<(), Error>)
        requires
            old(self).wf(),
            reputations@.len() <= old(self).config.max_reputation_vec_length,
        ensures
            final(self).wf(),
            old(self).clock_unchanged(*final(self)),
            old(self).registry_unchanged(*final(self)),
            old(self).targets_unchanged(*final(self)),
            old(self).cancels_unchanged(*final(self)),
            match r {
                Ok(()) => {
                    let p0 = old(self).proposal_of(proposal_id);
                    let votes1 = vote_fold(
                        old(self).reputations@,
                        old(self).config,
                        p0,
                        proposal_id,
                        account,
                        old(self).vote_entries@,
                        reputations@,
                    );
                    let n = votes1.len() - old(self).vote_entries@.len();
                    let t0 = old(self).tally_of(proposal_id);
                    let t1 = Tally {
                        turnout: sat_add_u128(t0.turnout, n),
                        ayes: if vote is Aye {
                            sat_add_u128(t0.ayes, n)
                        } else {
                            t0.ayes
                        },
                    };
                    let passing1 = curve_passing(
                        t1.turnout,
                        t1.ayes,
                        electorate_sum(old(self).reputation_counts@, old(self).config, p0) as u128,
                        old(self).config.min_turnout_permill,
                    );
                    let ns = spec_next_state(
                        old(self).config,
                        old(self).cancelled_at@,
                        passing1,
                        old(self).block_number,
                        p0,
                    );
                    &&& old(self).has_proposal(proposal_id)
                    &&& p0.state.spec_can_update()
                    &&& final(self).vote_entries@ == votes1
                    &&& final(self).tallies@ == old(self).tallies@.update(proposal_id - 1, t1)
                    &&& final(self).proposals@ == old(self).proposals@.update(
                        proposal_id - 1,
                        Proposal {
                            start: p0.start,
                            start_cindex: p0.start_cindex,
                            action: p0.action,
                            state: ns,
                        },
                    )
                    &&& if ns is Approved {
                        &&& queue_lookup(
                            final(self).enactment_queue@,
                            p0.action.spec_identifier(),
                        ) == Some(proposal_id)
                        &&& forall|id2: crate::types::ProposalActionIdentifier|
                            id2 != p0.action.spec_identifier() ==> #[trigger] queue_lookup(
                                final(self).enactment_queue@,
                                id2,
                            ) == queue_lookup(old(self).enactment_queue@, id2)
                    } else {
                        old(self).queue_unchanged(*final(self))
                    }
                },
                Err(e) => {
                    &&& old(self).unchanged(*final(self))
                    &&& e == if !old(self).has_proposal(proposal_id) {
                        Error::InexistentProposal
                    } else {
                        Error::ProposalCannotBeUpdated
                    }
                    &&& !old(self).has_proposal(proposal_id) || !old(self).proposal_of(
                        proposal_id,
                    ).state.spec_can_update()
                },
            },
    {
        let p = match self.proposals(proposal_id) {
            Some(p) => p,
            None => {
                return Err(Error::InexistentProposal);
            },
        };
        if !p.state.can_update() {
            return Err(Error::ProposalCannotBeUpdated);
        }
        let ghost votes_at_start = self.vote_entries@;
        let n_handles = reputations.len();
        let mut added: usize = 0;
        let mut i: usize = 0;
        while i < n_handles
            invariant
                self.wf(),
                0 <= i <= n_handles == reputations@.len(),
                self.has_proposal(proposal_id),
                p == self.proposal_of(proposal_id),
                p.state.spec_can_update(),
                self.vote_entries@ == vote_fold(
                    self.reputations@,
                    self.config,
                    p,
                    proposal_id,
                    account,
                    votes_at_start,
                    reputations@.subrange(0, i as int),
                ),
                added == self.vote_entries@.len() - votes_at_start.len(),
                added <= i,
                old(self).clock_unchanged(*self),
                old(self).registry_unchanged(*self),
                old(self).targets_unchanged(*self),
                old(self).cancels_unchanged(*self),
                old(self).proposals_unchanged(*self),
                old(self).queue_unchanged(*self),
                votes_at_start == old(self).vote_entries@,
            decreases n_handles - i,
        {
            let h = reputations[i];
            proof {
                assert(reputations@.subrange(0, i + 1).drop_last() =~= reputations@.subrange(
                    0,
                    i as int,
                ));
                assert(reputations@.subrange(0, i + 1).last() == reputations@[i as int]);
            }
            if self.is_spendable(&p, proposal_id, account, h) {
                self.vote_entries.push(
                    VoteEntry { proposal_id, account, community: h.0, cindex: h.1 },
                );
                added += 1;
            }
            i += 1;
        }
        proof {
            assert(reputations@.subrange(0, reputations@.len() as int) =~= reputations@);
        }
        let n = self.tallies.len();
        proof {
            assert(self.tallies@.len() == n);
            assert(proposal_id - 1 < n);
        }
        let idx = (proposal_id - 1) as usize;
        let t0 = self.tallies[idx];
        let t1 = Tally {
            turnout: t0.turnout.saturating_add(added as u128),
            ayes: match vote {
                Vote::Aye => t0.ayes.saturating_add(added as u128),
                Vote::Nay => t0.ayes,
            },
        };
        self.tallies.remove(idx);
        self.tallies.insert(idx, t1);
        proof {
            assert(self.tallies@ =~= old(self).tallies@.update(proposal_id - 1, t1));
        }
        match self.do_update_proposal_state(proposal_id) {
            Ok(_) => Ok(()),
            Err(_) => {
                proof {
                    assert(false);
                }
                Err(Error::InexistentProposal)
            },
        }
    }
}

/// Whether some enactment slot points at this proposal id.
pub open spec fn pid_queued(queue: Seq<QueueEntry>, pid: int) -> bool {
    exists|i: int| 0 <= i < queue.len() && (#[trigger] queue[i]).proposal_id == pid
}

/// A community's nominal income after the queue is drained in order: the
/// last queued proposal that sets this community's income wins; without one
/// the old value stays.
pub open spec fn drained_income(
    queue: Seq<QueueEntry>,
    proposals: Seq<Proposal>,
    incomes0: Seq<IncomeEntry>,
    c: CommunityIdentifier,
) -> NominalIncomeType
    decreases queue.len(),
{
    if queue.len() == 0 {
        income_lookup(incomes0, c)
    } else {
        let rest = drained_income(queue.drop_last(), proposals, incomes0, c);
        let e = queue.last();
        if 1 <= e.proposal_id <= proposals.len() {
            match proposals[e.proposal_id - 1].action {
                ProposalAction::UpdateNominalIncome(c2, v) => if c2 == c {
                    v
                } else {
                    rest
                },
                _ => rest,
            }
        } else {
            rest
        }
    }
}

/// The inactivity timeout after the queue is drained in order.
pub open spec fn drained_timeout(
    queue: Seq<QueueEntry>,
    proposals: Seq<Proposal>,
    t0: InactivityTimeoutType,
) -> InactivityTimeoutType
    decreases queue.len(),
{
    if queue.len() == 0 {
        t0
    } else {
        let rest = drained_timeout(queue.drop_last(), proposals, t0);
        let e = queue.last();
        if 1 <= e.proposal_id <= proposals.len() {
            match proposals[e.proposal_id - 1].action {
                ProposalAction::SetInactivityTimeout(t) => t,
                _ => rest,
            }
        } else {
            rest
        }
    }
}

/// The enactment queue drain: every queued proposal that exists has its
/// action's effect executed against its target parameter and its state set
/// to `Enacted`; the queue is empty afterwards; nothing else changes.
pub open spec fn drain_effects(pre: Democracy, post: Democracy) -> bool {
    &&& post.enactment_queue@.len() == 0
    &&& post.proposals@.len() == pre.proposals@.len()
    &&& forall|j: int|
        0 <= j < pre.proposals@.len() ==> #[trigger] post.proposals@[j] == (if pid_queued(
            pre.enactment_queue@,
            j + 1,
        ) {
            Proposal {
                start: pre.proposals@[j].start,
                start_cindex: pre.proposals@[j].start_cindex,
                action: pre.proposals@[j].action,
                state: ProposalState::Enacted,
            }
        } else {
            pre.proposals@[j]
        })
    &&& forall|c: CommunityIdentifier| #[trigger]
        income_lookup(post.nominal_incomes@, c) == drained_income(
            pre.enactment_queue@,
            pre.proposals@,
            pre.nominal_incomes@,
            c,
        )
    &&& post.inactivity_timeout == drained_timeout(
        pre.enactment_queue@,
        pre.proposals@,
        pre.inactivity_timeout,
    )
    &&& post.tallies@ == pre.tallies@
    &&& pre.registry_unchanged(post)
    &&& pre.votes_unchanged(post)
    &&& pre.cancels_unchanged(post)
}

/// The phase after one scheduler transition.
pub open spec fn spec_next_phase(p: CeremonyPhaseType) -> CeremonyPhaseType {
    match p {
        CeremonyPhaseType::Registering => CeremonyPhaseType::Assigning,
        CeremonyPhaseType::Assigning => CeremonyPhaseType::Attesting,
        CeremonyPhaseType::Attesting => CeremonyPhaseType::Registering,
    }
}

impl Democracy {
    fn enact_queued_proposals(&mut self)
        requires
            old(self).wf(),
        ensures
            final(self).wf(),
            drain_effects(*old(self), *final(self)),
            old(self).clock_unchanged(*final(self)),
    {
        let ghost q0 = self.enactment_queue@;
        let ghost props0 = self.proposals@;
        let ghost incomes0 = self.nominal_incomes@;
        let ghost t0 = self.inactivity_timeout;
        let qlen = self.enactment_queue.len();
        let mut i: usize = 0;
        while i < qlen
            invariant
                self.wf(),
                0 <= i <= qlen == q0.len(),
                self.enactment_queue@ == q0,
                q0 == old(self).enactment_queue@,
                props0 == old(self).proposals@,
                incomes0 == old(self).nominal_incomes@,
                t0 == old(self).inactivity_timeout,
                self.proposals@.len() == props0.len(),
                self.tallies@ == old(self).tallies@,
                old(self).clock_unchanged(*self),
                old(self).registry_unchanged(*self),
                old(self).votes_unchanged(*self),
                old(self).cancels_unchanged(*self),
                forall|j: int|
                    0 <= j < props0.len() ==> #[trigger] self.proposals@[j] == (if pid_queued(
                        q0.subrange(0, i as int),
                        j + 1,
                    ) {
                        Proposal {
                            start: props0[j].start,
                            start_cindex: props0[j].start_cindex,
                            action: props0[j].action,
                            state: ProposalState::Enacted,
                        }
                    } else {
                        props0[j]
                    }),
                forall|c: CommunityIdentifier| #[trigger]
                    income_lookup(self.nominal_incomes@, c) == drained_income(
                        q0.subrange(0, i as int),
                        props0,
                        incomes0,
                        c,
                    ),
                self.inactivity_timeout == drained_timeout(q0.subrange(0, i as int), props0, t0),
            decreases qlen - i,
        {
            let e = self.enactment_queue[i];
            proof {
                assert(q0.subrange(0, i + 1).drop_last() =~= q0.subrange(0, i as int));
                assert(q0.subrange(0, i + 1).last() == q0[i as int]);
            }
            let pid = e.proposal_id;
            let nprops = self.proposals.len();
            if pid >= 1 && pid <= nprops as u128 {
                proof {
                    assert(self.proposals@.len() == nprops);
                    assert(pid - 1 < nprops);
                }
                let idx = (pid - 1) as usize;
                let p = self.proposals[idx];
                proof {
                    assert(p.action == props0[pid - 1].action);
                }
                match p.action {
                    ProposalAction::SetInactivityTimeout(t) => {
                        self.inactivity_timeout = t;
                    },
                    ProposalAction::UpdateNominalIncome(c, v) => {
                        income_set(&mut self.nominal_incomes, c, v);
                    },
                }
                let ghost props_before = self.proposals@;
                self.proposals.remove(idx);
                self.proposals.insert(
                    idx,
                    Proposal {
                        start: p.start,
                        start_cindex: p.start_cindex,
                        action: p.action,
                        state: ProposalState::Enacted,
                    },
                );
                proof {
                    assert(self.proposals@ =~= props_before.update(
                        pid - 1,
                        Proposal {
                            start: p.start,
                            start_cindex: p.start_cindex,
                            action: p.action,
                            state: ProposalState::Enacted,
                        },
                    ));
                    assert forall|j: int| 0 <= j < props0.len() implies #[trigger] self.proposals@[j]
                        == (if pid_queued(q0.subrange(0, i + 1), j + 1) {
                        Proposal {
                            start: props0[j].start,
                            start_cindex: props0[j].start_cindex,
                            action: props0[j].action,
                            state: ProposalState::Enacted,
                        }
                    } else {
                        props0[j]
                    }) by {
                        if j == pid - 1 {
                            assert(q0.subrange(0, i + 1)[i as int] == q0[i as int]);
                            assert(pid_queued(q0.subrange(0, i + 1), j + 1));
                        } else {
                            if pid_queued(q0.subrange(0, i + 1), j + 1) {
                                let w = choose|w: int|
                                    0 <= w < q0.subrange(0, i + 1).len() && (#[trigger] q0.subrange(
                                        0,
                                        i + 1,
                                    )[w]).proposal_id == j + 1;
                                if w < i {
                                    assert(q0.subrange(0, i as int)[w] == q0[w]);
                                    assert(pid_queued(q0.subrange(0, i as int), j + 1));
                                }
                            }
                            if pid_queued(q0.subrange(0, i as int), j + 1) {
                                let w = choose|w: int|
                                    0 <= w < q0.subrange(0, i as int).len() && (
                                    #[trigger] q0.subrange(0, i as int)[w]).proposal_id == j + 1;
                                assert(q0.subrange(0, i + 1)[w] == q0[w]);
                                assert(pid_queued(q0.subrange(0, i + 1), j + 1));
                            }
                        }
                    }
                }
            } else {
                proof {
                    assert forall|j: int| 0 <= j < props0.len() implies #[trigger] pid_queued(
                        q0.subrange(0, i + 1),
                        j + 1,
                    ) == pid_queued(q0.subrange(0, i as int), j + 1) by {
                        if pid_queued(q0.subrange(0, i + 1), j + 1) {
                            let w = choose|w: int|
                                0 <= w < q0.subrange(0, i + 1).len() && (#[trigger] q0.subrange(
                                    0,
                                    i + 1,
                                )[w]).proposal_id == j + 1;
                            if w < i {
                                assert(q0.subrange(0, i as int)[w] == q0[w]);
                            } else {
                                assert(q0[i as int].proposal_id == j + 1);
                            }
                        }
                        if pid_queued(q0.subrange(0, i as int), j + 1) {
                            let w = choose|w: int|
                                0 <= w < q0.subrange(0, i as int).len() && (#[trigger] q0.subrange(
                                    0,
                                    i as int,
                                )[w]).proposal_id == j + 1;
                            assert(q0.subrange(0, i + 1)[w] == q0[w]);
                        }
                    }
                }
            }
            i += 1;
        }
        proof {
            assert(q0.subrange(0, q0.len() as int) =~= q0);
        }
        self.enactment_queue.clear();
    }

    /// The scheduler's transition: advances the phase; entering Registering
    /// starts the next ceremony cycle and fires the once-per-cycle hook that
    /// drains the enactment queue.
    pub fn next_ceremony_phase(&mut self)
        requires
            old(self).wf(),
        ensures
            final(self).wf(),
            final(self).current_phase == spec_next_phase(old(self).current_phase),
            final(self).config == old(self).config,
            final(self).block_number == old(self).block_number,
            if old(self).current_phase is Attesting {
                &&& final(self).current_cindex == (if old(self).current_cindex < u32::MAX {
                    (old(self).current_cindex + 1) as u32
                } else {
                    u32::MAX
                })
                &&& drain_effects(*old(self), *final(self))
            } else {
                &&& final(self).current_cindex == old(self).current_cindex
                &&& old(self).registry_unchanged(*final(self))
                &&& old(self).targets_unchanged(*final(self))
                &&& old(self).proposals_unchanged(*final(self))
                &&& old(self).votes_unchanged(*final(self))
                &&& old(self).queue_unchanged(*final(self))
                &&& old(self).cancels_unchanged(*final(self))
            },
    {
        match self.current_phase {
            CeremonyPhaseType::Registering => {
                self.current_phase = CeremonyPhaseType::Assigning;
            },
            CeremonyPhaseType::Assigning => {
                self.current_phase = CeremonyPhaseType::Attesting;
            },
            CeremonyPhaseType::Attesting => {
                self.current_phase = CeremonyPhaseType::Registering;
                self.current_cindex = self.current_cindex.saturating_add(1);
                self.enact_queued_proposals();
            },
        }
    }
}

} // verus!
