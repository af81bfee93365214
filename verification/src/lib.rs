//! Reputation-weighted direct democracy engine for a federation of local
//! communities in a proof-of-personhood network.
//!
//! Members spend previously earned, non-transferable reputation (proof of
//! having attended a periodic verification ceremony) to submit and vote on
//! governance proposals. The engine owns the proposal lifecycle: submission,
//! eligibility filtering of claimed reputation handles, reputation-weighted
//! tallying with an anti-replay guard, an adaptive quorum/approval curve,
//! a multi-state lifecycle with a confirmation delay, a single-slot-per-class
//! enactment queue drained once per ceremony phase cycle, and administrative
//! retroactive cancellation.

pub mod curve;
pub mod democracy;
pub mod laws;
pub mod rpc;
pub mod stores;
pub mod types;

pub use democracy::Democracy;
pub use rpc::BazaarRpc;
pub use types::AccountId;
pub use types::BlockNumber;
pub use types::CeremonyIndexType;
pub use types::CeremonyPhaseType;
pub use types::CommunityCeremony;
pub use types::CommunityIdentifier;
pub use types::Config;
pub use types::Error;
pub use types::InactivityTimeoutType;
pub use types::NominalIncomeType;
pub use types::Proposal;
pub use types::ProposalAction;
pub use types::ProposalActionIdentifier;
pub use types::ProposalIdType;
pub use types::ProposalState;
pub use types::Reputation;
pub use types::Tally;
pub use types::Vote;
