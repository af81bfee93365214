use encointer_democracy::curve::passing;
use encointer_democracy::curve::prod_ge;
use encointer_democracy::Config;
use encointer_democracy::Democracy;
use encointer_democracy::Error;
use encointer_democracy::ProposalAction;
use encointer_democracy::ProposalActionIdentifier;
use encointer_democracy::ProposalState;
use encointer_democracy::Reputation;
use encointer_democracy::Tally;
use encointer_democracy::Vote;

fn small_config() -> Config {
    Config {
        max_reputation_vec_length: 10,
        confirmation_period: 10,
        proposal_lifetime: 40,
        proposal_lifetime_cycles: 1,
        min_turnout_permill: 20,
        reputation_lifetime: 5,
    }
}

fn ctx() -> Democracy {
    Democracy::new(small_config(), 7)
}

#[test]
fn curve_exact_values() {
    // the five reference points of the quorum/approval curve, electorate 100,
    // minimum turnout 2%
    assert_eq!(passing(1, 1, 100, 20), false);
    assert_eq!(passing(10, 6, 100, 20), false);
    assert_eq!(passing(10, 9, 100, 20), true);
    assert_eq!(passing(100, 60, 100, 20), true);
    assert_eq!(passing(100, 90, 100, 20), true);
}

#[test]
fn curve_edge_values() {
    // zero turnout fails the quorum whatever the electorate
    assert_eq!(passing(0, 0, 0, 20), false);
    assert_eq!(passing(0, 0, 100, 20), false);
    // at full turnout the required approval fraction has fallen to zero:
    // the curve's inequalities hold even without a single aye
    assert_eq!(passing(100, 0, 100, 20), true);
    // below full turnout, an all-nay tally fails the approval inequality
    assert_eq!(passing(99, 0, 100, 20), false);
    // quorum boundary: 2% of 100 is 2
    assert_eq!(passing(2, 2, 100, 20), true);
    assert_eq!(passing(1, 1, 50, 20), true);
    // the approval boundary holds with equality: 9 * 100 == 10 * (100 - 10)
    assert_eq!(passing(10, 9, 100, 20), true);
    assert_eq!(passing(10, 8, 100, 20), false);
}

#[test]
fn curve_is_exact_on_huge_values() {
    let big = u128::MAX;
    // 1000 * MAX >= 20 * MAX and MAX * MAX >= MAX * 0
    assert_eq!(passing(big, big, big, 20), true);
    // full electorate of u128::MAX with a single aye at minimal quorum share:
    // quorum needs 1000 * turnout >= 20 * MAX, one voter is far below it
    assert_eq!(passing(1, 1, big, 20), false);
    // product comparison across the 128-bit boundary
    assert_eq!(prod_ge(big, big, big, big - 1), true);
    assert_eq!(prod_ge(big, big - 1, big, big), false);
    assert_eq!(prod_ge(1 << 127, 2, 1 << 126, 4), true);
    assert_eq!(prod_ge(1 << 100, 1 << 27, (1 << 126) + 1, 2), false);
}

#[test]
fn submission_blocked_until_drained() {
    // once a class is queued for enactment, every submission of that class
    // fails until the queue is drained; other classes stay open
    let mut d = ctx();
    let action = ProposalAction::SetInactivityTimeout(8);
    assert!(d.submit_proposal(action).is_ok());
    d.insert_enactment_queue(action.get_identifier(), 1);

    assert_eq!(d.submit_proposal(ProposalAction::SetInactivityTimeout(9)),
        Err(Error::ProposalWaitingForEnactment));
    assert!(d.submit_proposal(ProposalAction::UpdateNominalIncome(1, 5)).is_ok());

    // a full phase cycle drains the queue
    d.next_ceremony_phase();
    d.next_ceremony_phase();
    d.next_ceremony_phase();
    assert_eq!(d.enactment_queue(action.get_identifier()), None);
    assert!(d.submit_proposal(ProposalAction::SetInactivityTimeout(9)).is_ok());
}

#[test]
fn handle_is_never_counted_twice() {
    // the same handle, claimed again and again, adds exactly one unit
    let mut d = ctx();
    let alice = 1u64;
    assert!(d.submit_proposal(ProposalAction::SetInactivityTimeout(8)).is_ok());
    d.fake_reputation(1, 4, alice, Reputation::VerifiedLinked);

    assert!(d.vote(alice, 1, Vote::Aye, &vec![(1, 4), (1, 4), (1, 4)]).is_ok());
    assert_eq!(d.tallies(1).unwrap(), Tally { turnout: 1, ayes: 1 });

    assert!(d.vote(alice, 1, Vote::Aye, &vec![(1, 4)]).is_ok());
    assert_eq!(d.tallies(1).unwrap(), Tally { turnout: 1, ayes: 1 });

    // a fresh handle still counts, and nay votes leave the ayes alone
    d.fake_reputation(1, 5, alice, Reputation::VerifiedLinked);
    assert!(d.vote(alice, 1, Vote::Nay, &vec![(1, 5), (1, 4)]).is_ok());
    assert_eq!(d.tallies(1).unwrap(), Tally { turnout: 2, ayes: 1 });
}

#[test]
fn filter_rejects_each_reason_alone() {
    let mut d = ctx();
    let alice = 1u64;
    let cid = 1u64;
    // community-scoped proposal, start cycle 7, lifetime 5: window of
    // cycles 2 to 6
    assert!(d.submit_proposal(ProposalAction::UpdateNominalIncome(cid, 5)).is_ok());
    d.fake_reputation(cid, 4, alice, Reputation::VerifiedLinked);

    // all four rules hold
    assert_eq!(d.eligible_reputations(1, alice, &vec![(cid, 4)]).unwrap(), vec![(cid, 4)]);
    // wrong scope
    d.fake_reputation(2, 4, alice, Reputation::VerifiedLinked);
    assert!(d.eligible_reputations(1, alice, &vec![(2, 4)]).unwrap().is_empty());
    // outside the window: older than the lifetime, or the proposal's own cycle
    d.fake_reputation(cid, 1, alice, Reputation::VerifiedLinked);
    d.fake_reputation(cid, 7, alice, Reputation::VerifiedLinked);
    assert!(d.eligible_reputations(1, alice, &vec![(cid, 1)]).unwrap().is_empty());
    assert!(d.eligible_reputations(1, alice, &vec![(cid, 7)]).unwrap().is_empty());
    // both window edges are inside
    d.fake_reputation(cid, 2, alice, Reputation::VerifiedLinked);
    d.fake_reputation(cid, 6, alice, Reputation::VerifiedLinked);
    assert_eq!(d.eligible_reputations(1, alice, &vec![(cid, 2)]).unwrap().len(), 1);
    assert_eq!(d.eligible_reputations(1, alice, &vec![(cid, 6)]).unwrap().len(), 1);
    // not verified
    d.fake_reputation(cid, 5, alice, Reputation::UnverifiedReputable);
    assert!(d.eligible_reputations(1, alice, &vec![(cid, 5)]).unwrap().is_empty());
    // already spent
    d.insert_vote_entry(1, alice, cid, 4);
    assert!(d.eligible_reputations(1, alice, &vec![(cid, 4)]).unwrap().is_empty());
    // another account's identical handle is independent
    assert_eq!(d.eligible_reputations(1, alice, &vec![(cid, 4)]).unwrap().len(), 0);
    let bob = 2u64;
    d.fake_reputation(cid, 4, bob, Reputation::VerifiedLinked);
    assert_eq!(d.eligible_reputations(1, bob, &vec![(cid, 4)]).unwrap().len(), 1);
    // the filter itself errs only on an unknown proposal
    assert_eq!(d.eligible_reputations(9, alice, &vec![(cid, 4)]), Err(Error::InexistentProposal));
}

#[test]
fn confirming_reverts_and_restarts_timer() {
    let mut d = ctx();
    for p in 0..10u64 {
        d.fake_reputation(1, 5, 1000 + p, Reputation::VerifiedLinked);
    }
    assert!(d.submit_proposal(ProposalAction::SetInactivityTimeout(8)).is_ok());

    d.set_tally(1, Tally { turnout: 10, ayes: 10 });
    assert_eq!(d.do_update_proposal_state(1).unwrap(), false);
    assert_eq!(d.proposals(1).unwrap().state, ProposalState::Confirming { since: 0 });

    // curve fails: back to Ongoing
    d.set_tally(1, Tally { turnout: 5, ayes: 1 });
    assert_eq!(d.do_update_proposal_state(1).unwrap(), false);
    assert_eq!(d.proposals(1).unwrap().state, ProposalState::Ongoing);

    // re-confirmation restarts the timer from a fresh block
    d.set_block_number(7);
    d.set_tally(1, Tally { turnout: 10, ayes: 10 });
    assert_eq!(d.do_update_proposal_state(1).unwrap(), false);
    assert_eq!(d.proposals(1).unwrap().state, ProposalState::Confirming { since: 7 });

    // one block short of the confirmation period: still confirming
    d.set_block_number(16);
    assert_eq!(d.do_update_proposal_state(1).unwrap(), false);
    assert_eq!(d.proposals(1).unwrap().state, ProposalState::Confirming { since: 7 });

    // the full period has elapsed: approved and queued; the flag stays
    // false, enactment itself being the scheduler hook's work
    d.set_block_number(17);
    assert_eq!(d.do_update_proposal_state(1).unwrap(), false);
    assert_eq!(d.proposals(1).unwrap().state, ProposalState::Approved);
    assert_eq!(d.enactment_queue(ProposalActionIdentifier::SetInactivityTimeout), Some(1));
}

#[test]
fn retroactive_cancellation_boundaries() {
    let mut d = ctx();
    d.set_block_number(5);
    assert!(d.submit_proposal(ProposalAction::SetInactivityTimeout(8)).is_ok());

    // a mark before the proposal's start does not cancel it
    d.set_cancelled_at(ProposalActionIdentifier::SetInactivityTimeout, 4);
    assert!(d.do_update_proposal_state(1).is_ok());
    assert_eq!(d.proposals(1).unwrap().state, ProposalState::Ongoing);

    // a mark at the start block does, whatever the tally
    d.set_cancelled_at(ProposalActionIdentifier::SetInactivityTimeout, 5);
    assert!(d.do_update_proposal_state(1).is_ok());
    assert_eq!(d.proposals(1).unwrap().state, ProposalState::Cancelled);

    // a cancelled proposal is terminal
    assert_eq!(d.do_update_proposal_state(1), Err(Error::ProposalCannotBeUpdated));
}

#[test]
fn expiry_boundary_is_exclusive() {
    // lifetime 40 blocks times 1 cycle: alive through block start + 40,
    // cancelled from block start + 41
    let mut d = ctx();
    d.set_block_number(3);
    assert!(d.submit_proposal(ProposalAction::UpdateNominalIncome(1, 2)).is_ok());
    d.set_block_number(43);
    assert!(d.do_update_proposal_state(1).is_ok());
    assert_eq!(d.proposals(1).unwrap().state, ProposalState::Ongoing);
    d.set_block_number(44);
    assert!(d.do_update_proposal_state(1).is_ok());
    assert_eq!(d.proposals(1).unwrap().state, ProposalState::Cancelled);
}

#[test]
fn electorate_follows_scope_and_window() {
    let mut d = ctx();
    let alice = 1u64;
    // cycles 2..=6 count for a proposal started at cycle 7 with lifetime 5;
    // cycle 1 is too old and cycle 7 is the proposal's own
    d.fake_reputation(1, 1, alice, Reputation::VerifiedLinked);
    d.fake_reputation(1, 2, alice, Reputation::VerifiedLinked);
    d.fake_reputation(1, 6, alice, Reputation::VerifiedLinked);
    d.fake_reputation(1, 7, alice, Reputation::VerifiedLinked);
    d.fake_reputation(2, 4, alice, Reputation::VerifiedLinked);
    // unverified records never count
    d.fake_reputation(2, 5, alice, Reputation::Unverified);

    assert!(d.submit_proposal(ProposalAction::SetInactivityTimeout(8)).is_ok());
    assert!(d.submit_proposal(ProposalAction::UpdateNominalIncome(1, 5)).is_ok());
    assert_eq!(d.get_electorate(1).unwrap(), 3); // network-wide
    assert_eq!(d.get_electorate(2).unwrap(), 2); // community 1 only
    assert_eq!(d.get_electorate(3), Err(Error::InexistentProposal));

    // overwriting a verified record as unverified shrinks the count again
    d.fake_reputation(1, 2, alice, Reputation::Unverified);
    assert_eq!(d.get_electorate(1).unwrap(), 2);
    // and setting the same record twice counts once
    d.fake_reputation(1, 6, alice, Reputation::VerifiedUnlinked);
    assert_eq!(d.get_electorate(1).unwrap(), 2);
}

#[test]
fn vote_on_terminal_proposal_fails() {
    let mut d = ctx();
    assert!(d.submit_proposal(ProposalAction::SetInactivityTimeout(8)).is_ok());
    d.set_cancelled_at(ProposalActionIdentifier::SetInactivityTimeout, 0);
    assert!(d.do_update_proposal_state(1).is_ok());
    assert_eq!(d.proposals(1).unwrap().state, ProposalState::Cancelled);

    d.fake_reputation(1, 4, 1, Reputation::VerifiedLinked);
    assert_eq!(d.vote(1, 1, Vote::Aye, &vec![(1, 4)]), Err(Error::ProposalCannotBeUpdated));
    // nothing was spent by the failed call
    assert_eq!(d.eligible_reputations(1, 1, &vec![(1, 4)]).unwrap().len(), 1);
}

#[test]
fn vote_with_zero_eligible_handles_succeeds() {
    let mut d = ctx();
    assert!(d.submit_proposal(ProposalAction::SetInactivityTimeout(8)).is_ok());
    assert!(d.vote(1, 1, Vote::Aye, &vec![(1, 4)]).is_ok());
    assert_eq!(d.tallies(1).unwrap(), Tally { turnout: 0, ayes: 0 });
}

#[test]
fn end_to_end_network_scoped_action() {
    // submit a network-scoped action, cast enough aye-weighted verified
    // reputation, wait out the confirmation period, advance one full phase
    // cycle: the target parameter holds the action's value and the proposal
    // reads back as Enacted
    let mut d = ctx();
    let alice = 1u64;
    d.fake_reputation(1, 3, alice, Reputation::VerifiedLinked);
    d.fake_reputation(1, 4, alice, Reputation::VerifiedLinked);
    d.fake_reputation(1, 5, alice, Reputation::VerifiedLinked);

    assert!(d.submit_proposal(ProposalAction::SetInactivityTimeout(23)).is_ok());
    assert!(d.vote(alice, 1, Vote::Aye, &vec![(1, 3), (1, 4), (1, 5)]).is_ok());
    assert_eq!(d.proposals(1).unwrap().state, ProposalState::Confirming { since: 0 });

    d.set_block_number(10);
    assert_eq!(d.update_proposal_state(1).unwrap(), false);
    assert_eq!(d.proposals(1).unwrap().state, ProposalState::Approved);

    d.next_ceremony_phase();
    d.next_ceremony_phase();
    assert_eq!(d.proposals(1).unwrap().state, ProposalState::Approved);
    d.next_ceremony_phase();

    assert_eq!(d.proposals(1).unwrap().state, ProposalState::Enacted);
    assert_eq!(d.enactment_queue(ProposalActionIdentifier::SetInactivityTimeout), None);
    assert_eq!(d.inactivity_timeout(), 23);
    assert_eq!(d.current_ceremony_index(), 8);
}

#[test]
fn drain_skips_unknown_proposal_ids() {
    let mut d = ctx();
    d.insert_enactment_queue(ProposalActionIdentifier::SetInactivityTimeout, 100);
    d.next_ceremony_phase();
    d.next_ceremony_phase();
    d.next_ceremony_phase();
    assert_eq!(d.enactment_queue(ProposalActionIdentifier::SetInactivityTimeout), None);
    assert_eq!(d.inactivity_timeout(), 0);
}

#[test]
fn error_values_are_distinct() {
    let mut d = ctx();
    assert_eq!(d.do_update_proposal_state(1), Err(Error::InexistentProposal));
    assert_eq!(d.update_proposal_state(1), Err(Error::InexistentProposal));
    let no_handles: Vec<(u64, u32)> = vec![];
    assert_eq!(d.vote(1, 1, Vote::Aye, &no_handles), Err(Error::InexistentProposal));
    assert_eq!(d.is_passing(1), Err(Error::InexistentProposal));
    assert_eq!(d.get_electorate(1), Err(Error::InexistentProposal));
    assert!(d.proposals(1).is_none());
    assert!(d.tallies(1).is_none());
    assert_ne!(Error::InexistentProposal, Error::ProposalCannotBeUpdated);
    assert_ne!(Error::InexistentProposal, Error::ProposalWaitingForEnactment);
    assert_ne!(Error::ProposalCannotBeUpdated, Error::ProposalWaitingForEnactment);
}
