use encointer_democracy::Config;
use encointer_democracy::Democracy;
use encointer_democracy::Error;
use encointer_democracy::Proposal;
use encointer_democracy::ProposalAction;
use encointer_democracy::ProposalActionIdentifier;
use encointer_democracy::ProposalState;
use encointer_democracy::Reputation;
use encointer_democracy::Tally;
use encointer_democracy::Vote;

fn new_test_ext() -> Democracy {
    Democracy::new(
        Config {
            max_reputation_vec_length: 10,
            confirmation_period: 10,
            proposal_lifetime: 40,
            proposal_lifetime_cycles: 1,
            min_turnout_permill: 20, // 2%
            reputation_lifetime: 5,
        },
        7,
    )
}

fn create_cid() -> u64 {
    1
}

fn second_cid() -> u64 {
    2
}

fn alice() -> u64 {
    100
}

fn bob() -> u64 {
    101
}

fn advance_n_blocks(d: &mut Democracy, n: u64) {
    let b = d.block_number();
    d.set_block_number(b + n);
}

fn run_to_next_phase(d: &mut Democracy) {
    d.next_ceremony_phase();
}

#[test]
fn proposal_submission_works() {
    let mut d = new_test_ext();
    let cid = create_cid();
    let block = d.block_number();
    let proposal_action = ProposalAction::UpdateNominalIncome(cid, 100);

    assert!(d.submit_proposal(proposal_action).is_ok());
    assert_eq!(d.proposal_count(), 1);
    let proposal = d.proposals(1).unwrap();
    assert_eq!(proposal.state, ProposalState::Ongoing);
    assert_eq!(proposal.action, proposal_action);
    assert_eq!(proposal.start, block);
    assert!(d.tallies(1).is_some());
}

#[test]
fn proposal_submission_fails_if_proposal_in_enactment_queue() {
    let mut d = new_test_ext();
    let cid = create_cid();
    let proposal_action = ProposalAction::UpdateNominalIncome(cid, 100);

    d.insert_enactment_queue(proposal_action.get_identifier(), 100);

    assert_eq!(
        d.submit_proposal(proposal_action),
        Err(Error::ProposalWaitingForEnactment)
    );
}

#[test]
fn eligible_reputations_works_with_different_reputations() {
    let mut d = new_test_ext();
    let cid = create_cid();
    let cid2 = second_cid();
    let alice = alice();

    let proposal_action = ProposalAction::SetInactivityTimeout(8);
    assert!(d.submit_proposal(proposal_action).is_ok());

    d.fake_reputation(cid, 4, alice, Reputation::Unverified);
    assert!(d
        .eligible_reputations(1, alice, &vec![(cid, 4)])
        .unwrap()
        .is_empty());

    d.fake_reputation(cid, 5, alice, Reputation::UnverifiedReputable);
    assert!(d
        .eligible_reputations(1, alice, &vec![(cid, 5)])
        .unwrap()
        .is_empty());

    d.fake_reputation(cid2, 4, alice, Reputation::VerifiedUnlinked);
    assert_eq!(
        d.eligible_reputations(1, alice, &vec![(cid2, 4)]).unwrap().len(),
        1
    );

    d.fake_reputation(cid2, 3, alice, Reputation::VerifiedLinked);
    assert_eq!(
        d.eligible_reputations(1, alice, &vec![(cid2, 3)]).unwrap().len(),
        1
    );

    let eligible_reputations = d
        .eligible_reputations(1, alice, &vec![(cid, 5), (cid, 4), (cid2, 4), (cid2, 3)])
        .unwrap();
    assert_eq!(eligible_reputations.len(), 2);

    assert_eq!(eligible_reputations.first().unwrap(), &(cid2, 4u32));

    assert_eq!(eligible_reputations.last().unwrap(), &(cid2, 3u32));
}

#[test]
fn eligible_reputations_works_with_used_reputations() {
    let mut d = new_test_ext();
    let cid = create_cid();
    let alice = alice();

    let proposal_action = ProposalAction::SetInactivityTimeout(8);
    assert!(d.submit_proposal(proposal_action).is_ok());

    d.fake_reputation(cid, 5, alice, Reputation::VerifiedLinked);
    // use this reputation for a vote
    d.insert_vote_entry(1, alice, cid, 5);

    d.fake_reputation(cid, 4, alice, Reputation::VerifiedLinked);

    let eligible_reputations = d
        .eligible_reputations(1, alice, &vec![(cid, 5), (cid, 4)])
        .unwrap();
    assert_eq!(eligible_reputations.len(), 1);
    assert_eq!(eligible_reputations.first().unwrap().1, 4);
}

#[test]
fn eligible_reputations_works_with_inexistent_reputations() {
    let mut d = new_test_ext();
    let cid = create_cid();
    let alice = alice();

    let proposal_action = ProposalAction::SetInactivityTimeout(8);
    assert!(d.submit_proposal(proposal_action).is_ok());

    d.fake_reputation(cid, 4, alice, Reputation::VerifiedLinked);

    let eligible_reputations = d
        .eligible_reputations(1, alice, &vec![(cid, 4), (cid, 5)])
        .unwrap();
    assert_eq!(eligible_reputations.len(), 1);
    assert_eq!(eligible_reputations.first().unwrap().1, 4);
}

#[test]
fn eligible_reputations_works_with_cids() {
    let mut d = new_test_ext();
    let cid = create_cid();
    let cid2 = second_cid();
    let alice = alice();

    let proposal_action = ProposalAction::UpdateNominalIncome(cid, 100);
    assert!(d.submit_proposal(proposal_action).is_ok());

    d.fake_reputation(cid, 5, alice, Reputation::VerifiedLinked);
    d.fake_reputation(cid2, 5, alice, Reputation::VerifiedLinked);

    let eligible_reputations = d
        .eligible_reputations(1, alice, &vec![(cid, 5), (cid2, 5)])
        .unwrap();
    assert_eq!(eligible_reputations.len(), 1);
    assert_eq!(eligible_reputations.first().unwrap(), &(cid, 5u32));
}

#[test]
fn eligible_reputations_fails_with_invalid_cindex() {
    let mut d = new_test_ext();
    let cid = create_cid();
    let alice = alice();

    let proposal_action = ProposalAction::SetInactivityTimeout(8);
    assert!(d.submit_proposal(proposal_action).is_ok());

    d.fake_reputation(cid, 1, alice, Reputation::VerifiedLinked);
    d.fake_reputation(cid, 4, alice, Reputation::VerifiedLinked);
    d.fake_reputation(cid, 6, alice, Reputation::VerifiedLinked);

    let eligible_reputations = d
        .eligible_reputations(1, alice, &vec![(cid, 1), (cid, 4), (cid, 6)])
        .unwrap();
    assert_eq!(eligible_reputations.len(), 2);
    assert_eq!(eligible_reputations.first().unwrap(), &(cid, 4u32));
    assert_eq!(eligible_reputations.last().unwrap(), &(cid, 6u32));
}

#[test]
fn voting_works() {
    let mut d = new_test_ext();
    let cid = create_cid();
    let alice = alice();
    let cid2 = second_cid();

    let proposal_action = ProposalAction::SetInactivityTimeout(100);

    d.fake_reputation(cid, 3, alice, Reputation::Unverified);
    d.fake_reputation(cid, 4, alice, Reputation::VerifiedLinked);
    d.fake_reputation(cid, 5, alice, Reputation::VerifiedLinked);

    assert_eq!(
        d.vote(alice, 1, Vote::Aye, &vec![(cid, 3), (cid, 4), (cid, 5)]),
        Err(Error::InexistentProposal)
    );

    assert!(d.submit_proposal(proposal_action).is_ok());

    assert!(d
        .vote(alice, 1, Vote::Aye, &vec![(cid, 3), (cid, 4), (cid, 5)])
        .is_ok());

    let mut tally = d.tallies(1).unwrap();
    assert_eq!(tally.turnout, 2);
    assert_eq!(tally.ayes, 2);

    d.fake_reputation(cid2, 4, alice, Reputation::Unverified);
    d.fake_reputation(cid2, 5, alice, Reputation::VerifiedLinked);
    d.fake_reputation(cid, 2, alice, Reputation::VerifiedLinked);
    d.fake_reputation(cid2, 6, alice, Reputation::VerifiedLinked);

    assert!(d
        .vote(
            alice,
            1,
            Vote::Nay,
            &vec![
                (cid, 2),  // valid: the window reaches back to start - lifetime
                (cid, 3),  // invalid because unverified
                (cid2, 4), // invalid because unverified
                (cid2, 5), // valid
                (cid2, 6), // valid: one cycle before the proposal's start
                (cid2, 3), // invalid non-existent
            ]
        )
        .is_ok());

    tally = d.tallies(1).unwrap();
    assert_eq!(tally.turnout, 5);
    assert_eq!(tally.ayes, 2);
}

#[test]
fn do_update_proposal_state_fails_with_inexistent_proposal() {
    let mut d = new_test_ext();
    assert_eq!(d.do_update_proposal_state(1), Err(Error::InexistentProposal));
}

#[test]
fn do_update_proposal_state_fails_with_wrong_state() {
    let mut d = new_test_ext();
    let cid = create_cid();
    let proposal = Proposal {
        start: 1,
        start_cindex: 1,
        action: ProposalAction::UpdateNominalIncome(cid, 100),
        state: ProposalState::Cancelled,
    };
    d.insert_proposal(1, proposal);

    let proposal2 = Proposal {
        start: 1,
        start_cindex: 1,
        action: ProposalAction::UpdateNominalIncome(cid, 100),
        state: ProposalState::Approved,
    };
    d.insert_proposal(2, proposal2);

    assert_eq!(d.do_update_proposal_state(1), Err(Error::ProposalCannotBeUpdated));

    assert_eq!(d.do_update_proposal_state(2), Err(Error::ProposalCannotBeUpdated));
}

#[test]
fn do_update_proposal_state_works_with_cancelled_proposal() {
    let mut d = new_test_ext();
    let proposal_action = ProposalAction::SetInactivityTimeout(8);

    assert!(d.submit_proposal(proposal_action).is_ok());

    d.set_cancelled_at(ProposalActionIdentifier::SetInactivityTimeout, 3);

    assert_eq!(d.proposals(1).unwrap().state, ProposalState::Ongoing);

    advance_n_blocks(&mut d, 5);

    assert!(d.do_update_proposal_state(1).is_ok());

    assert_eq!(d.proposals(1).unwrap().state, ProposalState::Cancelled);
}

#[test]
fn do_update_proposal_state_works_with_too_old_proposal() {
    let mut d = new_test_ext();
    let proposal_action = ProposalAction::SetInactivityTimeout(8);

    assert!(d.submit_proposal(proposal_action).is_ok());

    assert_eq!(d.proposals(1).unwrap().state, ProposalState::Ongoing);

    advance_n_blocks(&mut d, 40);

    assert!(d.do_update_proposal_state(1).is_ok());
    assert_eq!(d.proposals(1).unwrap().state, ProposalState::Ongoing);

    advance_n_blocks(&mut d, 1);

    assert!(d.do_update_proposal_state(1).is_ok());
    assert_eq!(d.proposals(1).unwrap().state, ProposalState::Cancelled);
}

#[test]
fn do_update_proposal_state_works() {
    let mut d = new_test_ext();
    let proposal_action = ProposalAction::SetInactivityTimeout(8);

    let cid = second_cid();

    // make sure electorate is 100
    for p in 0..100u64 {
        d.fake_reputation(cid, 5, 1000 + p, Reputation::VerifiedLinked);
    }

    assert!(d.submit_proposal(proposal_action).is_ok());

    assert!(d.do_update_proposal_state(1).is_ok());
    assert_eq!(d.proposals(1).unwrap().state, ProposalState::Ongoing);

    // proposal is passing
    d.set_tally(1, Tally { turnout: 100, ayes: 100 });

    assert_eq!(d.do_update_proposal_state(1).unwrap(), false);
    assert_eq!(
        d.proposals(1).unwrap().state,
        ProposalState::Confirming { since: 0 }
    );

    // not passing anymore: 10 of 50 ayes is below the required fraction
    d.set_tally(1, Tally { turnout: 50, ayes: 10 });

    assert_eq!(d.do_update_proposal_state(1).unwrap(), false);
    assert_eq!(d.proposals(1).unwrap().state, ProposalState::Ongoing);

    // nothing changes if repeated
    assert_eq!(d.do_update_proposal_state(1).unwrap(), false);
    assert_eq!(d.proposals(1).unwrap().state, ProposalState::Ongoing);

    // passing
    d.set_tally(1, Tally { turnout: 100, ayes: 100 });

    assert_eq!(d.do_update_proposal_state(1).unwrap(), false);
    assert_eq!(
        d.proposals(1).unwrap().state,
        ProposalState::Confirming { since: 0 }
    );

    assert_eq!(d.enactment_queue(proposal_action.get_identifier()), None);
    advance_n_blocks(&mut d, 11);
    // proposal is approved and queued; enactment itself waits for the hook
    assert_eq!(d.do_update_proposal_state(1).unwrap(), false);
    assert_eq!(d.proposals(1).unwrap().state, ProposalState::Approved);
    assert_eq!(
        d.enactment_queue(proposal_action.get_identifier()).unwrap(),
        1
    );
}

#[test]
fn update_proposal_state_extrinsic_works() {
    let mut d = new_test_ext();
    let proposal_action = ProposalAction::SetInactivityTimeout(8);

    let alice = alice();
    let cid = second_cid();

    assert!(d.submit_proposal(proposal_action).is_ok());

    d.fake_reputation(cid, 3, alice, Reputation::VerifiedLinked);
    d.fake_reputation(cid, 4, alice, Reputation::VerifiedLinked);
    d.fake_reputation(cid, 5, alice, Reputation::VerifiedLinked);

    assert_eq!(d.proposals(1).unwrap().state, ProposalState::Ongoing);
    // proposal is passing
    d.set_tally(1, Tally { turnout: 3, ayes: 3 });
    d.update_proposal_state(1).unwrap();
    assert_eq!(
        d.proposals(1).unwrap().state,
        ProposalState::Confirming { since: 0 }
    );
}

#[test]
fn test_get_electorate_works() {
    let mut d = new_test_ext();
    let cid = create_cid();
    let cid2 = second_cid();
    let alice = alice();
    let bob = bob();

    d.fake_reputation(cid, 4, alice, Reputation::VerifiedLinked);
    d.fake_reputation(cid, 5, alice, Reputation::VerifiedLinked);
    d.fake_reputation(cid2, 3, bob, Reputation::VerifiedLinked);
    d.fake_reputation(cid2, 4, bob, Reputation::VerifiedLinked);
    d.fake_reputation(cid2, 5, bob, Reputation::VerifiedLinked);

    let proposal_action = ProposalAction::SetInactivityTimeout(8);
    assert!(d.submit_proposal(proposal_action).is_ok());

    let proposal_action = ProposalAction::UpdateNominalIncome(cid, 100);
    assert!(d.submit_proposal(proposal_action).is_ok());

    assert_eq!(d.get_electorate(1).unwrap(), 5);
    assert_eq!(d.get_electorate(2).unwrap(), 2);
}

#[test]
fn is_passing_works() {
    let mut d = new_test_ext();
    let cid = second_cid();

    // electorate is 100
    for p in 0..100u64 {
        d.fake_reputation(cid, 5, 1000 + p, Reputation::VerifiedLinked);
    }

    let proposal_action = ProposalAction::SetInactivityTimeout(8);
    assert!(d.submit_proposal(proposal_action).is_ok());

    // turnout below threshold
    d.set_tally(1, Tally { turnout: 1, ayes: 1 });
    assert_eq!(d.is_passing(1).unwrap(), false);

    // low turnout, 60 % approval
    d.set_tally(1, Tally { turnout: 10, ayes: 6 });
    assert_eq!(d.is_passing(1).unwrap(), false);

    // low turnout 90 % approval
    d.set_tally(1, Tally { turnout: 10, ayes: 9 });
    assert_eq!(d.is_passing(1).unwrap(), true);

    // high turnout, 60 % approval
    d.set_tally(1, Tally { turnout: 100, ayes: 60 });
    assert_eq!(d.is_passing(1).unwrap(), true);

    // high turnout 90 % approval
    d.set_tally(1, Tally { turnout: 100, ayes: 90 });
    assert_eq!(d.is_passing(1).unwrap(), true);
}

#[test]
fn enactment_updates_proposal_metadata_and_enactment_queue() {
    let mut d = new_test_ext();
    let cid = create_cid();

    let proposal_action = ProposalAction::SetInactivityTimeout(8);
    assert!(d.submit_proposal(proposal_action).is_ok());

    let proposal_action2 = ProposalAction::UpdateNominalIncome(cid, 100);
    assert!(d.submit_proposal(proposal_action2).is_ok());

    d.insert_enactment_queue(proposal_action.get_identifier(), 1);
    d.insert_enactment_queue(proposal_action2.get_identifier(), 2);

    run_to_next_phase(&mut d);
    run_to_next_phase(&mut d);
    run_to_next_phase(&mut d);

    assert_eq!(d.proposals(1).unwrap().state, ProposalState::Enacted);

    assert_eq!(d.proposals(2).unwrap().state, ProposalState::Enacted);

    assert_eq!(d.enactment_queue(proposal_action.get_identifier()), None);

    assert_eq!(d.enactment_queue(proposal_action2.get_identifier()), None);
}

#[test]
fn proposal_happy_flow() {
    let mut d = new_test_ext();
    let cid = create_cid();
    let cid2 = second_cid();
    let alice = alice();
    let proposal_action = ProposalAction::UpdateNominalIncome(cid, 13037);
    assert!(d.submit_proposal(proposal_action).is_ok());

    d.fake_reputation(cid, 3, alice, Reputation::VerifiedLinked);
    d.fake_reputation(cid, 4, alice, Reputation::VerifiedLinked);
    d.fake_reputation(cid, 5, alice, Reputation::VerifiedLinked);
    d.fake_reputation(cid2, 3, alice, Reputation::VerifiedLinked);

    assert!(d
        .vote(alice, 1, Vote::Aye, &vec![(cid, 3), (cid, 4), (cid, 5)])
        .is_ok());

    advance_n_blocks(&mut d, 40);
    assert!(d.vote(alice, 1, Vote::Aye, &vec![(cid2, 3)]).is_ok());

    run_to_next_phase(&mut d);
    run_to_next_phase(&mut d);
    run_to_next_phase(&mut d);

    assert_eq!(d.proposals(1).unwrap().state, ProposalState::Enacted);
    assert_eq!(d.enactment_queue(proposal_action.get_identifier()), None);
    assert_eq!(d.nominal_income(cid), 13037);
}

#[test]
fn enact_update_nominal_income_works() {
    let mut d = new_test_ext();
    let cid = create_cid();
    let proposal_action = ProposalAction::UpdateNominalIncome(cid, 13037);
    assert!(d.submit_proposal(proposal_action).is_ok());

    d.insert_enactment_queue(proposal_action.get_identifier(), 1);

    run_to_next_phase(&mut d);
    run_to_next_phase(&mut d);
    run_to_next_phase(&mut d);

    assert_eq!(d.proposals(1).unwrap().state, ProposalState::Enacted);
    assert_eq!(d.enactment_queue(proposal_action.get_identifier()), None);
    assert_eq!(d.nominal_income(cid), 13037);
}

#[test]
fn enact_set_inactivity_timeout_works() {
    let mut d = new_test_ext();
    let proposal_action = ProposalAction::SetInactivityTimeout(13037);
    assert!(d.submit_proposal(proposal_action).is_ok());

    d.insert_enactment_queue(proposal_action.get_identifier(), 1);

    run_to_next_phase(&mut d);
    run_to_next_phase(&mut d);
    run_to_next_phase(&mut d);

    assert_eq!(d.proposals(1).unwrap().state, ProposalState::Enacted);
    assert_eq!(d.enactment_queue(proposal_action.get_identifier()), None);
    assert_eq!(d.inactivity_timeout(), 13037);
}
