//! A per-citizen TIME value ledger with a staking and allocation engine.
//!
//! Verified humans claim a time-proportional balance once per identity
//! nullifier, earn more through attested work, stake balance for quadratic
//! voting power, and direct balance or voting weight toward governance
//! choices and local funding opportunities.  The state machine lives in
//! [`protocol::TimeProtocol`]; every entry point validates its inputs first
//! and either commits all of its updates or returns an error leaving the
//! state untouched.
//!
//! Host concerns (account addressing, clocks, persistent storage and
//! serialization) stay outside: callers pass the acting account and the
//! current nanosecond timestamp into each operation as plain values.

pub mod arith;
pub mod errors;
pub mod protocol;
pub mod sums;
pub mod table;
pub mod types;

pub use arith::floor_sqrt_u128;
pub use arith::is_floor_sqrt;
pub use arith::lemma_floor_sqrt_unique;
pub use errors::TimeError;
pub use protocol::TimeProtocol;
pub use types::ActionDetail;
pub use types::ActionKind;
pub use types::AgentAction;
pub use types::AgentPermissions;
pub use types::Allocation;
pub use types::ChoiceKind;
pub use types::Citizen;
pub use types::Contribution;
pub use types::GovLevel;
pub use types::GovernanceProfile;
pub use types::LocalOpportunity;
pub use types::OpportunityStatus;
pub use types::StakingPosition;
pub use types::VerificationLevel;
pub use types::VotingAllocation;
pub use types::WorkReceiptNFT;
pub use types::NANOSECONDS_PER_DAY;
pub use types::ONE_TIME;
pub use types::UNSTAKE_COOLDOWN_NS;
