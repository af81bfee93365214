//! Core data model: identifiers, reputation, proposals, tallies, errors and
//! the engine's configuration constants.

use vstd::prelude::*;

verus! {

/// Identifies a community of the federation.
pub type CommunityIdentifier = u64;

/// Identifies successive rounds of the proof-of-personhood ceremony.
pub type CeremonyIndexType = u32;

/// Block height of the surrounding chain.
pub type BlockNumber = u64;

/// Identifies an account.
pub type AccountId = u64;

/// Identifies a proposal; allocated 1-based and monotonically increasing.
pub type ProposalIdType = u128;

/// Nominal income parameter of a community.
pub type NominalIncomeType = u64;

/// Global inactivity timeout parameter, in ceremony cycles.
pub type InactivityTimeoutType = u32;

/// A claimed reputation handle: one unit of reputation earned in a community
/// at a ceremony cycle.
pub type CommunityCeremony = (CommunityIdentifier, CeremonyIndexType);

/// Per (community, cycle, account) record of ceremony attendance.
#[derive(Clone, Copy, Debug, PartialEq, Eq, Structural)]
pub enum Reputation {
    /// Attendance not verified.
    Unverified,
    /// Attendance not verified, but the account is reputable.
    UnverifiedReputable,
    /// Attendance verified, reputation not yet linked to a registration.
    VerifiedUnlinked,
    /// Attendance verified and linked to a registration.
    VerifiedLinked,
}

impl Reputation {
    /// Whether the record counts as verified for voting purposes.
    pub open spec fn spec_is_verified(self) -> bool {
        self is VerifiedUnlinked || self is VerifiedLinked
    }

    pub fn is_verified(&self) -> (r: bool)
        ensures
            r == self.spec_is_verified(),
    {
        match self {
            Reputation::VerifiedUnlinked => true,
            Reputation::VerifiedLinked => true,
            _ => false,
        }
    }
}

/// Direction of a vote.
#[derive(Clone, Copy, Debug, PartialEq, Eq, Structural)]
pub enum Vote {
    Aye,
    Nay,
}

/// The change a proposal performs, with its parameters.
#[derive(Clone, Copy, Debug, PartialEq, Eq, Structural)]
pub enum ProposalAction {
    /// Set the global inactivity timeout, in cycles. Network-scoped.
    SetInactivityTimeout(InactivityTimeoutType),
    /// Set a community's nominal income. Scoped to that community.
    UpdateNominalIncome(CommunityIdentifier, NominalIncomeType),
}

/// The class of a proposal's action: the variant without its parameters,
/// except for the target community of a community-scoped action. At most one
/// proposal per class may wait for enactment at any time.
#[derive(Clone, Copy, Debug, PartialEq, Eq, Structural)]
pub enum ProposalActionIdentifier {
    SetInactivityTimeout,
    UpdateNominalIncome(CommunityIdentifier),
}

impl ProposalAction {
    /// The class of this action.
    pub open spec fn spec_identifier(self) -> ProposalActionIdentifier {
        match self {
            ProposalAction::SetInactivityTimeout(_) => {
                ProposalActionIdentifier::SetInactivityTimeout
            },
            ProposalAction::UpdateNominalIncome(cid, _) => {
                ProposalActionIdentifier::UpdateNominalIncome(cid)
            },
        }
    }

    pub fn get_identifier(&self) -> (r: ProposalActionIdentifier)
        ensures
            r == self.spec_identifier(),
    {
        match self {
            ProposalAction::SetInactivityTimeout(_) => {
                ProposalActionIdentifier::SetInactivityTimeout
            },
            ProposalAction::UpdateNominalIncome(cid, _) => {
                ProposalActionIdentifier::UpdateNominalIncome(*cid)
            },
        }
    }

    /// The target community of a community-scoped action; `None` for a
    /// network-scoped action, which accepts reputation of any community.
    pub open spec fn spec_scope(self) -> Option<CommunityIdentifier> {
        match self {
            ProposalAction::SetInactivityTimeout(_) => None,
            ProposalAction::UpdateNominalIncome(cid, _) => Some(cid),
        }
    }

    pub fn scope(&self) -> (r: Option<CommunityIdentifier>)
        ensures
            r == self.spec_scope(),
    {
        match self {
            ProposalAction::SetInactivityTimeout(_) => None,
            ProposalAction::UpdateNominalIncome(cid, _) => Some(*cid),
        }
    }
}

/// Lifecycle state of a proposal. `Ongoing` is initial; `Cancelled`,
/// `Approved` and `Enacted` are terminal for the state-update operation.
#[derive(Clone, Copy, Debug, PartialEq, Eq, Structural)]
pub enum ProposalState {
    /// Open for voting, curve not currently passing.
    Ongoing,
    /// Curve passing since the recorded block; reverts to `Ongoing` if the
    /// curve fails again before the confirmation period has elapsed.
    Confirming { since: BlockNumber },
    /// Confirmed and queued for enactment.
    Approved,
    /// Cancelled by expiry or administrative override.
    Cancelled,
    /// The action's effect has been executed.
    Enacted,
}

impl ProposalState {
    /// Whether the state-update operation may still act on this state.
    pub open spec fn spec_can_update(self) -> bool {
        self is Ongoing || self is Confirming
    }

    pub fn can_update(&self) -> (r: bool)
        ensures
            r == self.spec_can_update(),
    {
        match self {
            ProposalState::Ongoing => true,
            ProposalState::Confirming { .. } => true,
            _ => false,
        }
    }
}

/// A governance proposal. Created by submission, mutated only by the
/// lifecycle state machine, never deleted.
#[derive(Clone, Copy, Debug, PartialEq, Eq, Structural)]
pub struct Proposal {
    /// Block at which the proposal was submitted.
    pub start: BlockNumber,
    /// Ceremony cycle at which the proposal was submitted.
    pub start_cindex: CeremonyIndexType,
    /// The change the proposal performs.
    pub action: ProposalAction,
    /// Current lifecycle state.
    pub state: ProposalState,
}

/// Running vote count of one proposal. `turnout` counts every spent
/// reputation unit, `ayes` those spent in favour.
#[derive(Clone, Copy, Debug, PartialEq, Eq, Structural)]
pub struct Tally {
    pub turnout: u128,
    pub ayes: u128,
}

/// Caller-recoverable failures of the user-facing operations.
#[derive(Clone, Copy, Debug, PartialEq, Eq, Structural)]
pub enum Error {
    /// Submission blocked while the same action class has a queued enactment.
    ProposalWaitingForEnactment,
    /// Reference to an unknown proposal id.
    InexistentProposal,
    /// State update attempted against a terminal state.
    ProposalCannotBeUpdated,
}

/// Phase of the ceremony scheduler. A full cycle runs Registering,
/// Assigning, Attesting; entering Registering starts the next cycle.
#[derive(Clone, Copy, Debug, PartialEq, Eq, Structural)]
pub enum CeremonyPhaseType {
    Registering,
    Assigning,
    Attesting,
}

/// Configuration constants of the engine.
#[derive(Clone, Copy, Debug, PartialEq, Eq, Structural)]
pub struct Config {
    /// Upper bound on the number of reputation handles per vote call.
    pub max_reputation_vec_length: u32,
    /// Blocks the curve must pass without interruption before approval.
    pub confirmation_period: BlockNumber,
    /// Blocks a proposal stays open, per lifetime cycle.
    pub proposal_lifetime: BlockNumber,
    /// Number of ceremony cycles a proposal's lifetime spans.
    pub proposal_lifetime_cycles: u32,
    /// Minimum turnout as a fraction of the electorate, in permill.
    pub min_turnout_permill: u128,
    /// Number of cycles a reputation stays valid after it was earned.
    pub reputation_lifetime: u32,
}

} // verus!
