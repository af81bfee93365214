//! Laws of the engine, stated and proved over the same spec functions that
//! the operations' contracts use.

use vstd::prelude::*;
use crate::democracy::drain_effects;
use crate::democracy::eligible_seq;
use crate::democracy::pid_queued;
use crate::democracy::spec_next_state;
use crate::democracy::spec_proposal_cancelled;
use crate::democracy::spec_proposal_too_old;
use crate::democracy::spendable;
use crate::democracy::vote_fold;
use crate::democracy::Democracy;
use crate::stores::CancelEntry;
use crate::stores::RepEntry;
use crate::stores::VoteEntry;
use crate::stores::queue_lookup;
use crate::stores::vote_recorded;
use crate::types::AccountId;
use crate::types::BlockNumber;
use crate::types::CommunityCeremony;
use crate::types::Config;
use crate::types::Proposal;
use crate::types::ProposalActionIdentifier;
use crate::types::ProposalIdType;
use crate::types::ProposalState;

verus! {

/// Anti-replay: a vote call only appends to the spent-handle record, every
/// record it appends was absent before the call, and no two appended records
/// are equal. A handle counted toward a proposal's tally is recorded, so it
/// can never be counted a second time for that proposal, across any sequence
/// of vote calls.
pub proof fn lemma_vote_fold_no_replay(
    reps: Seq<RepEntry>,
    config: Config,
    proposal: Proposal,
    pid: ProposalIdType,
    account: AccountId,
    votes0: Seq<VoteEntry>,
    hs: Seq<CommunityCeremony>,
)
    ensures
        ({
            let votes1 = vote_fold(reps, config, proposal, pid, account, votes0, hs);
            &&& votes1.len() >= votes0.len()
            &&& votes1.subrange(0, votes0.len() as int) == votes0
            &&& forall|i: int|
                votes0.len() <= i < votes1.len() ==> !vote_recorded(votes0, #[trigger] votes1[i])
            &&& forall|i: int, j: int|
                votes0.len() <= i < j < votes1.len() ==> #[trigger] votes1[i]
                    != #[trigger] votes1[j]
        }),
    decreases hs.len(),
{
    if hs.len() > 0 {
        lemma_vote_fold_no_replay(reps, config, proposal, pid, account, votes0, hs.drop_last());
        let prev = vote_fold(reps, config, proposal, pid, account, votes0, hs.drop_last());
        let votes1 = vote_fold(reps, config, proposal, pid, account, votes0, hs);
        let h = hs.last();
        if spendable(reps, prev, config, proposal, pid, account, h) {
            let e = VoteEntry { proposal_id: pid, account, community: h.0, cindex: h.1 };
            assert(votes1 == prev.push(e));
            assert(votes1.subrange(0, votes0.len() as int) =~= prev.subrange(
                0,
                votes0.len() as int,
            ));
            assert forall|i: int|
                votes0.len() <= i < votes1.len() implies !vote_recorded(
                votes0,
                #[trigger] votes1[i],
            ) by {
                if i < prev.len() {
                    assert(votes1[i] == prev[i]);
                } else {
                    assert(votes1[i] == e);
                    if vote_recorded(votes0, e) {
                        let w = choose|w: int| 0 <= w < votes0.len() && #[trigger] votes0[w] == e;
                        assert(prev[w] == votes0[w]);
                        assert(vote_recorded(prev, e));
                    }
                }
            }
            assert forall|i: int, j: int|
                votes0.len() <= i < j < votes1.len() implies #[trigger] votes1[i]
                    != #[trigger] votes1[j] by {
                if j < prev.len() {
                } else {
                    assert(votes1[j] == e);
                    assert(votes1[i] == prev[i]);
                    if prev[i] == e {
                        assert(vote_recorded(prev, e));
                    }
                }
            }
        }
    }
}

/// A handle already recorded as spent on a proposal is not spendable there,
/// and a vote call never records it again.
pub proof fn lemma_no_double_count(
    reps: Seq<RepEntry>,
    config: Config,
    proposal: Proposal,
    pid: ProposalIdType,
    account: AccountId,
    votes0: Seq<VoteEntry>,
    hs: Seq<CommunityCeremony>,
    h: CommunityCeremony,
)
    requires
        vote_recorded(
            votes0,
            VoteEntry { proposal_id: pid, account, community: h.0, cindex: h.1 },
        ),
    ensures
        !spendable(reps, votes0, config, proposal, pid, account, h),
        ({
            let votes1 = vote_fold(reps, config, proposal, pid, account, votes0, hs);
            forall|i: int|
                votes0.len() <= i < votes1.len() ==> #[trigger] votes1[i] != VoteEntry {
                    proposal_id: pid,
                    account,
                    community: h.0,
                    cindex: h.1,
                }
        }),
{
    lemma_vote_fold_no_replay(reps, config, proposal, pid, account, votes0, hs);
}

/// The eligibility filter's decision on each handle is exactly the
/// conjunction of the four rules — scope, freshness window, verification,
/// no replay — so each rejection reason alone already excludes a handle:
/// every returned handle occurs in the input and is spendable, and every
/// spendable input handle is returned.
pub proof fn lemma_eligible_exact(
    reps: Seq<RepEntry>,
    votes: Seq<VoteEntry>,
    config: Config,
    proposal: Proposal,
    pid: ProposalIdType,
    account: AccountId,
    hs: Seq<CommunityCeremony>,
)
    ensures
        ({
            let out = eligible_seq(reps, votes, config, proposal, pid, account, hs);
            &&& out.len() <= hs.len()
            &&& forall|i: int|
                0 <= i < out.len() ==> spendable(
                    reps,
                    votes,
                    config,
                    proposal,
                    pid,
                    account,
                    #[trigger] out[i],
                ) && exists|j: int| 0 <= j < hs.len() && hs[j] == out[i]
            &&& forall|j: int|
                0 <= j < hs.len() && spendable(
                    reps,
                    votes,
                    config,
                    proposal,
                    pid,
                    account,
                    #[trigger] hs[j],
                ) ==> exists|i: int| 0 <= i < out.len() && out[i] == hs[j]
        }),
    decreases hs.len(),
{
    if hs.len() > 0 {
        lemma_eligible_exact(reps, votes, config, proposal, pid, account, hs.drop_last());
        let prefix = eligible_seq(reps, votes, config, proposal, pid, account, hs.drop_last());
        let out = eligible_seq(reps, votes, config, proposal, pid, account, hs);
        assert forall|i: int|
            0 <= i < out.len() implies spendable(
            reps,
            votes,
            config,
            proposal,
            pid,
            account,
            #[trigger] out[i],
        ) && exists|j: int| 0 <= j < hs.len() && hs[j] == out[i] by {
            if i < prefix.len() {
                assert(out[i] == prefix[i]);
                let j = choose|j: int| 0 <= j < hs.drop_last().len() && hs.drop_last()[j]
                    == prefix[i];
                assert(hs[j] == out[i]);
            } else {
                assert(out[i] == hs.last());
                assert(hs[hs.len() - 1] == out[i]);
            }
        }
        assert forall|j: int|
            0 <= j < hs.len() && spendable(
                reps,
                votes,
                config,
                proposal,
                pid,
                account,
                #[trigger] hs[j],
            ) implies exists|i: int| 0 <= i < out.len() && out[i] == hs[j] by {
            if j < hs.len() - 1 {
                assert(hs.drop_last()[j] == hs[j]);
                let i = choose|i: int| 0 <= i < prefix.len() && prefix[i] == hs.drop_last()[j];
                assert(out[i] == hs[j]);
            } else {
                assert(out[out.len() - 1] == hs.last());
            }
        }
    }
}

/// The eligibility filter preserves the input's order: the output is a
/// sub-sequence of the input.
pub open spec fn subsequence_of(a: Seq<CommunityCeremony>, b: Seq<CommunityCeremony>) -> bool
    decreases a.len() + b.len(),
{
    if a.len() == 0 {
        true
    } else if b.len() == 0 {
        false
    } else if a.last() == b.last() {
        subsequence_of(a.drop_last(), b.drop_last())
    } else {
        subsequence_of(a, b.drop_last())
    }
}

/// Dropping a sub-sequence's last element keeps it a sub-sequence.
proof fn lemma_subsequence_drop_last(a: Seq<CommunityCeremony>, b: Seq<CommunityCeremony>)
    requires
        subsequence_of(a, b),
        a.len() > 0,
    ensures
        subsequence_of(a.drop_last(), b),
    decreases a.len() + b.len(),
{
    if b.len() > 0 {
        if a.last() == b.last() {
            lemma_subsequence_extend_right(a.drop_last(), b.drop_last(), b.last());
            assert(b.drop_last().push(b.last()) =~= b);
        } else {
            lemma_subsequence_drop_last(a, b.drop_last());
            lemma_subsequence_extend_right(a.drop_last(), b.drop_last(), b.last());
            assert(b.drop_last().push(b.last()) =~= b);
        }
    }
}

/// A sub-sequence of `b` is a sub-sequence of `b` extended on the right.
proof fn lemma_subsequence_extend_right(
    a: Seq<CommunityCeremony>,
    b: Seq<CommunityCeremony>,
    x: CommunityCeremony,
)
    requires
        subsequence_of(a, b),
    ensures
        subsequence_of(a, b.push(x)),
    decreases a.len() + b.len() + 1,
{
    if a.len() > 0 {
        assert(b.push(x).last() == x);
        assert(b.push(x).drop_last() =~= b);
        if a.last() == x {
            lemma_subsequence_drop_last(a, b);
        }
    }
}

/// The eligibility filter's output is an order-preserving sub-sequence of
/// the claimed handles.
pub proof fn lemma_eligible_subsequence(
    reps: Seq<RepEntry>,
    votes: Seq<VoteEntry>,
    config: Config,
    proposal: Proposal,
    pid: ProposalIdType,
    account: AccountId,
    hs: Seq<CommunityCeremony>,
)
    ensures
        subsequence_of(eligible_seq(reps, votes, config, proposal, pid, account, hs), hs),
    decreases hs.len(),
{
    if hs.len() > 0 {
        lemma_eligible_subsequence(reps, votes, config, proposal, pid, account, hs.drop_last());
        let prefix = eligible_seq(reps, votes, config, proposal, pid, account, hs.drop_last());
        let out = eligible_seq(reps, votes, config, proposal, pid, account, hs);
        if spendable(reps, votes, config, proposal, pid, account, hs.last()) {
            assert(out == prefix.push(hs.last()));
            assert(out.last() == hs.last());
            assert(out.drop_last() =~= prefix);
        } else {
            assert(out == prefix);
            lemma_subsequence_extend_right(prefix, hs.drop_last(), hs.last());
            assert(hs.drop_last().push(hs.last()) =~= hs);
        }
    }
}

/// Retroactive cancellation wins over everything: an open proposal whose
/// class carries an override mark at or after its start block moves to
/// `Cancelled` on its next state update, whatever its tally says.
pub proof fn lemma_retroactive_cancellation(
    config: Config,
    cancels: Seq<CancelEntry>,
    is_passing: bool,
    now: BlockNumber,
    p: Proposal,
)
    requires
        p.state is Ongoing,
        spec_proposal_cancelled(cancels, p),
    ensures
        spec_next_state(config, cancels, is_passing, now, p) == ProposalState::Cancelled,
{
}

/// Expiry: an open proposal older than its lifetime moves to `Cancelled` on
/// its next state update, whatever its tally says.
pub proof fn lemma_expiry(
    config: Config,
    cancels: Seq<CancelEntry>,
    is_passing: bool,
    now: BlockNumber,
    p: Proposal,
)
    requires
        p.state is Ongoing,
        spec_proposal_too_old(config, now, p),
    ensures
        spec_next_state(config, cancels, is_passing, now, p) == ProposalState::Cancelled,
{
}

/// Lifecycle, upward: an open, unexpired, uncancelled proposal whose tally
/// passes the curve starts confirming at the current block.
pub proof fn lemma_confirming_on_pass(
    config: Config,
    cancels: Seq<CancelEntry>,
    now: BlockNumber,
    p: Proposal,
)
    requires
        p.state is Ongoing,
        !spec_proposal_cancelled(cancels, p),
        !spec_proposal_too_old(config, now, p),
    ensures
        spec_next_state(config, cancels, true, now, p) == (ProposalState::Confirming {
            since: now,
        }),
{
}

/// Lifecycle, downward: a confirming proposal whose tally no longer passes
/// the curve reverts to `Ongoing`; a later confirmation restarts its timer.
pub proof fn lemma_revert_on_fail(
    config: Config,
    cancels: Seq<CancelEntry>,
    now: BlockNumber,
    p: Proposal,
)
    requires
        p.state is Confirming,
    ensures
        spec_next_state(config, cancels, false, now, p) == ProposalState::Ongoing,
{
}

/// Lifecycle, approval: a proposal that has been confirming for the whole
/// confirmation period, and still passes, is approved.
pub proof fn lemma_approved_after_confirmation(
    config: Config,
    cancels: Seq<CancelEntry>,
    now: BlockNumber,
    p: Proposal,
    since: BlockNumber,
)
    requires
        p.state == (ProposalState::Confirming { since }),
        now - since >= config.confirmation_period,
    ensures
        spec_next_state(config, cancels, true, now, p) == ProposalState::Approved,
{
}

/// Enactment finalizes: when the scheduler's once-per-cycle hook drains the
/// queue, a proposal that was waiting in some class's slot reads back as
/// `Enacted` with its action intact, and the slot is free again.
pub proof fn lemma_enactment_finalizes(
    pre: Democracy,
    post: Democracy,
    id: ProposalActionIdentifier,
    pid: ProposalIdType,
)
    requires
        drain_effects(pre, post),
        queue_lookup(pre.enactment_queue@, id) == Some(pid),
        pre.has_proposal(pid),
    ensures
        post.proposal_of(pid).state is Enacted,
        post.proposal_of(pid).action == pre.proposal_of(pid).action,
        queue_lookup(post.enactment_queue@, id) is None,
{
    let s = pre.enactment_queue@;
    let w = choose|i: int| 0 <= i < s.len() && (#[trigger] s[i]).id == id;
    assert(s[w].proposal_id == pid);
    assert(pid_queued(s, pid as int));
    assert(post.proposals@[pid - 1] == Proposal {
        start: pre.proposals@[pid - 1].start,
        start_cindex: pre.proposals@[pid - 1].start_cindex,
        action: pre.proposals@[pid - 1].action,
        state: ProposalState::Enacted,
    });
}

} // verus!
