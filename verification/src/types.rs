use vstd::prelude::*;

use crate::arith::is_floor_sqrt;
use crate::sums::sum_by;

verus! {

/// Nanoseconds in one day; one TIME is granted per day lived.
pub const NANOSECONDS_PER_DAY: u64 = 24 * 60 * 60 * 1_000_000_000;

/// One TIME in its smallest indivisible unit.
pub const ONE_TIME: u128 = 1_000_000_000_000_000_000_000_000;

/// The mandatory wait between requesting and completing an unstake.
pub const UNSTAKE_COOLDOWN_NS: u64 = 24 * 60 * 60 * 1_000_000_000;

/// How an identity proof was verified.
#[derive(Clone, Copy, Debug, PartialEq, Eq, Structural)]
pub enum VerificationLevel {
    Orb,
    Device,
}

/// Whether a governance choice names an official or a law.
#[derive(Clone, Copy, Debug, PartialEq, Eq, Structural)]
pub enum ChoiceKind {
    Official,
    Law,
}

/// The level of government a choice belongs to.
#[derive(Clone, Copy, Debug, PartialEq, Eq, Structural)]
pub enum GovLevel {
    Local,
    County,
    State,
    Federal,
    Unknown,
}

/// The lifecycle of a local funding opportunity.  `Active` accepts funds;
/// once `raised` reaches the goal the opportunity becomes `Funded`, a
/// terminal state for this engine.  `Closed` exists as a state but no entry
/// point reaches it here.
#[derive(Clone, Copy, Debug, PartialEq, Eq, Structural)]
pub enum OpportunityStatus {
    Active,
    Funded,
    Closed,
}

/// The kind of a state-changing action, recorded in the audit log.
#[derive(Clone, Copy, Debug, PartialEq, Eq, Structural)]
pub enum ActionKind {
    BirthrightClaimed,
    GovernanceDiscovered,
    StatusQuoAllocated,
    Reallocated,
    Staked,
    UnstakeRequested,
    UnstakeCompleted,
    VotingPowerAllocated,
    WorkMinted,
    OpportunityCreated,
    Allocated,
}

/// A verified human with a TIME balance.
#[derive(Debug)]
pub struct Citizen {
    pub account_id: String,
    /// Unix timestamp of birth, in nanoseconds.
    pub birthdate_timestamp: u64,
    /// Spendable TIME.
    pub time_balance: u128,
    /// Cumulative TIME earned from attested work; never decreases.
    pub total_earned: u128,
    pub claimed_birthright: bool,
    /// Identity-proof nullifier; immutable once set, globally unique.
    pub world_id_nullifier: String,
    pub verification_level: VerificationLevel,
    /// Mutable jurisdiction tag, set by discovery.
    pub jurisdiction: String,
    pub created_at: u64,
}

/// What discovery found out about a citizen's jurisdiction.
#[derive(Debug)]
pub struct GovernanceProfile {
    pub jurisdiction: String,
    pub officials_count: u32,
    pub laws_count: u32,
    pub last_updated: u64,
}

/// One entry of a citizen's absolute-amount allocation ledger.
#[derive(Debug)]
pub struct Allocation {
    pub choice_id: String,
    pub choice_type: ChoiceKind,
    pub level: GovLevel,
    /// TIME tracked on this choice.
    pub amount: u128,
    /// Percentage of total TIME, 0 to 100.
    pub percentage: u8,
    pub updated_at: u64,
}

/// A percentage of voting power directed at one governance choice.
#[derive(Debug)]
pub struct VotingAllocation {
    pub choice_id: String,
    pub percentage: u8,
}

/// A citizen's staking position; at most one per citizen.
#[derive(Debug)]
pub struct StakingPosition {
    /// Cumulative staked TIME.
    pub staked_amount: u128,
    /// The integer square root of `staked_amount`.
    pub voting_power: u128,
    /// Reset to the current time on every top-up.
    pub staked_at: u64,
    /// Set while an unstake cooldown is pending.
    pub unstake_requested_at: Option<u64>,
    pub allocations: Vec<VotingAllocation>,
}

/// A soulbound receipt for attested work; immutable once minted and bound
/// permanently to its owner.
#[derive(Debug)]
pub struct WorkReceiptNFT {
    /// Position of this receipt in its owner's list.
    pub token_id: usize,
    pub owner_id: String,
    pub hours_worked: u64,
    /// `hours_worked` times [`ONE_TIME`].
    pub time_earned: u128,
    pub work_type: String,
    pub description: String,
    pub verified_by: String,
    pub created_at: u64,
}

/// A local funding opportunity.
#[derive(Debug)]
pub struct LocalOpportunity {
    pub creator: String,
    pub jurisdiction: String,
    /// The funding goal; once `raised` reaches it the status flips to
    /// `Funded`.
    pub goal: u128,
    /// Cumulative funds directed here, bonus included; never decreases.
    pub raised: u128,
    /// The creator's anti-spam stake, escrowed from the creator's balance.
    pub anti_spam_stake: u128,
    pub status: OpportunityStatus,
    pub created_at: u64,
}

/// One contribution of TIME to a local opportunity.
#[derive(Clone, Copy, Debug, PartialEq, Eq, Structural)]
pub struct Contribution {
    pub opportunity_id: usize,
    pub amount: u128,
    /// The protocol-minted jurisdiction-match bonus that accompanied it.
    pub bonus: u128,
    pub timestamp: u64,
}

/// The structured payload of an audit-log entry.
#[derive(Debug)]
pub enum ActionDetail {
    Birthright { days_lived: u64, time_claimed: u128 },
    Discovery { officials: u32, laws: u32 },
    StatusQuo { choices: usize },
    Reallocation { from_choice: String, to_choice: String, amount: u128 },
    Staked { amount: u128, voting_power: u128 },
    UnstakeRequested,
    UnstakeCompleted { amount: u128 },
    VotingPower { choice_id: String, percentage: u8 },
    WorkMinted { hours: u64, time_earned: u128 },
    OpportunityCreated { opportunity_id: usize, goal: u128, anti_spam_stake: u128 },
    Allocated { opportunity_id: usize, amount: u128, bonus: u128 },
}

/// One audit-log entry: what happened, when, and its structured detail.
#[derive(Debug)]
pub struct AgentAction {
    pub action_type: ActionKind,
    pub description: String,
    pub timestamp: u64,
    pub details: ActionDetail,
}

/// Bounds on what an automated agent may allocate on a citizen's behalf.
#[derive(Clone, Copy, Debug, PartialEq, Eq, Structural)]
pub struct AgentPermissions {
    pub can_auto_allocate: bool,
    /// Largest percentage the agent may direct at a single choice.
    pub max_single_allocation_pct: u8,
    pub max_daily_reallocation: u128,
    pub require_approval_above: u128,
    pub notify_on_rebalance: bool,
    pub notify_on_new_laws: bool,
}

/// A citizen's spendable balance, as a mathematical integer.
pub open spec fn balance_fn() -> spec_fn(Citizen) -> int {
    |c: Citizen| c.time_balance as int
}

/// The staked amount of a keyed staking position.
pub open spec fn staked_fn() -> spec_fn((String, StakingPosition)) -> int {
    |e: (String, StakingPosition)| e.1.staked_amount as int
}

/// The percentage of a voting-power allocation.
pub open spec fn pct_fn() -> spec_fn(VotingAllocation) -> int {
    |v: VotingAllocation| v.percentage as int
}

/// The tracked amount of a ledger entry.
pub open spec fn amount_fn() -> spec_fn(Allocation) -> int {
    |a: Allocation| a.amount as int
}

/// The percentage of a ledger entry.
pub open spec fn apct_fn() -> spec_fn(Allocation) -> int {
    |a: Allocation| a.percentage as int
}

/// Matches the citizen of account `k`.
pub open spec fn citizen_key(k: Seq<char>) -> spec_fn(Citizen) -> bool {
    |c: Citizen| c.account_id@ == k
}

/// Matches the ledger entry of choice `id`.
pub open spec fn alloc_choice(id: Seq<char>) -> spec_fn(Allocation) -> bool {
    |a: Allocation| a.choice_id@ == id
}

/// Matches the voting-power allocation of choice `id`.
pub open spec fn vote_choice(id: Seq<char>) -> spec_fn(VotingAllocation) -> bool {
    |v: VotingAllocation| v.choice_id@ == id
}

impl StakingPosition {
    /// The internal invariant of a staking position: its percentage
    /// allocations never sum past 100, and its voting power is exactly the
    /// integer square root of the cumulative staked amount.
    pub open spec fn wf(self) -> bool {
        &&& sum_by(self.allocations@, pct_fn()) <= 100
        &&& is_floor_sqrt(self.staked_amount as int, self.voting_power as int)
    }
}

impl VotingAllocation {
    pub fn cloned(&self) -> (r: VotingAllocation)
        ensures
            r == *self,
    {
        VotingAllocation { choice_id: self.choice_id.clone(), percentage: self.percentage }
    }
}

impl Citizen {
    pub fn cloned(&self) -> (r: Citizen)
        ensures
            r == *self,
    {
        Citizen {
            account_id: self.account_id.clone(),
            birthdate_timestamp: self.birthdate_timestamp,
            time_balance: self.time_balance,
            total_earned: self.total_earned,
            claimed_birthright: self.claimed_birthright,
            world_id_nullifier: self.world_id_nullifier.clone(),
            verification_level: self.verification_level,
            jurisdiction: self.jurisdiction.clone(),
            created_at: self.created_at,
        }
    }
}

impl GovernanceProfile {
    pub fn cloned(&self) -> (r: GovernanceProfile)
        ensures
            r == *self,
    {
        GovernanceProfile {
            jurisdiction: self.jurisdiction.clone(),
            officials_count: self.officials_count,
            laws_count: self.laws_count,
            last_updated: self.last_updated,
        }
    }
}

impl Allocation {
    pub fn cloned(&self) -> (r: Allocation)
        ensures
            r == *self,
    {
        Allocation {
            choice_id: self.choice_id.clone(),
            choice_type: self.choice_type,
            level: self.level,
            amount: self.amount,
            percentage: self.percentage,
            updated_at: self.updated_at,
        }
    }
}

impl WorkReceiptNFT {
    pub fn cloned(&self) -> (r: WorkReceiptNFT)
        ensures
            r == *self,
    {
        WorkReceiptNFT {
            token_id: self.token_id,
            owner_id: self.owner_id.clone(),
            hours_worked: self.hours_worked,
            time_earned: self.time_earned,
            work_type: self.work_type.clone(),
            description: self.description.clone(),
            verified_by: self.verified_by.clone(),
            created_at: self.created_at,
        }
    }
}

impl LocalOpportunity {
    pub fn cloned(&self) -> (r: LocalOpportunity)
        ensures
            r == *self,
    {
        LocalOpportunity {
            creator: self.creator.clone(),
            jurisdiction: self.jurisdiction.clone(),
            goal: self.goal,
            raised: self.raised,
            anti_spam_stake: self.anti_spam_stake,
            status: self.status,
            created_at: self.created_at,
        }
    }
}

impl ActionDetail {
    pub fn cloned(&self) -> (r: ActionDetail)
        ensures
            r == *self,
    {
        match self {
            ActionDetail::Birthright { days_lived, time_claimed } => ActionDetail::Birthright {
                days_lived: *days_lived,
                time_claimed: *time_claimed,
            },
            ActionDetail::Discovery { officials, laws } => ActionDetail::Discovery {
                officials: *officials,
                laws: *laws,
            },
            ActionDetail::StatusQuo { choices } => ActionDetail::StatusQuo { choices: *choices },
            ActionDetail::Reallocation { from_choice, to_choice, amount } => {
                ActionDetail::Reallocation {
                    from_choice: from_choice.clone(),
                    to_choice: to_choice.clone(),
                    amount: *amount,
                }
            },
            ActionDetail::Staked { amount, voting_power } => ActionDetail::Staked {
                amount: *amount,
                voting_power: *voting_power,
            },
            ActionDetail::UnstakeRequested => ActionDetail::UnstakeRequested,
            ActionDetail::UnstakeCompleted { amount } => ActionDetail::UnstakeCompleted {
                amount: *amount,
            },
            ActionDetail::VotingPower { choice_id, percentage } => ActionDetail::VotingPower {
                choice_id: choice_id.clone(),
                percentage: *percentage,
            },
            ActionDetail::WorkMinted { hours, time_earned } => ActionDetail::WorkMinted {
                hours: *hours,
                time_earned: *time_earned,
            },
            ActionDetail::OpportunityCreated { opportunity_id, goal, anti_spam_stake } => {
                ActionDetail::OpportunityCreated {
                    opportunity_id: *opportunity_id,
                    goal: *goal,
                    anti_spam_stake: *anti_spam_stake,
                }
            },
            ActionDetail::Allocated { opportunity_id, amount, bonus } => ActionDetail::Allocated {
                opportunity_id: *opportunity_id,
                amount: *amount,
                bonus: *bonus,
            },
        }
    }
}

impl AgentAction {
    pub fn cloned(&self) -> (r: AgentAction)
        ensures
            r == *self,
    {
        AgentAction {
            action_type: self.action_type,
            description: self.description.clone(),
            timestamp: self.timestamp,
            details: self.details.cloned(),
        }
    }
}

impl StakingPosition {
    /// The two positions agree in every observable field.
    pub open spec fn same_as(self, other: StakingPosition) -> bool {
        &&& self.staked_amount == other.staked_amount
        &&& self.voting_power == other.voting_power
        &&& self.staked_at == other.staked_at
        &&& self.unstake_requested_at == other.unstake_requested_at
        &&& self.allocations@ == other.allocations@
    }

    pub fn cloned(&self) -> (r: StakingPosition)
        ensures
            r.same_as(*self),
    {
        StakingPosition {
            staked_amount: self.staked_amount,
            voting_power: self.voting_power,
            staked_at: self.staked_at,
            unstake_requested_at: self.unstake_requested_at,
            allocations: clone_voting_allocations(&self.allocations),
        }
    }
}

/// Copies a list of voting-power allocations element by element.
pub fn clone_voting_allocations(v: &Vec<VotingAllocation>) -> (r: Vec<VotingAllocation>)
    ensures
        r@ == v@,
{
    let n: usize = v.len();
    let mut r: Vec<VotingAllocation> = Vec::new();
    let mut i: usize = 0;
    while i < n
        invariant
            i <= n,
            n == v@.len(),
            r@ == v@.take(i as int),
        decreases n - i,
    {
        r.push(v[i].cloned());
        proof {
            assert(v@.take(i + 1 as int) =~= v@.take(i as int).push(v@[i as int]));
        }
        i += 1;
    }
    proof {
        assert(v@.take(n as int) =~= v@);
    }
    r
}

/// Copies a citizen's allocation ledger element by element.
pub fn clone_allocations(v: &Vec<Allocation>) -> (r: Vec<Allocation>)
    ensures
        r@ == v@,
{
    let n: usize = v.len();
    let mut r: Vec<Allocation> = Vec::new();
    let mut i: usize = 0;
    while i < n
        invariant
            i <= n,
            n == v@.len(),
            r@ == v@.take(i as int),
        decreases n - i,
    {
        r.push(v[i].cloned());
        proof {
            assert(v@.take(i + 1 as int) =~= v@.take(i as int).push(v@[i as int]));
        }
        i += 1;
    }
    proof {
        assert(v@.take(n as int) =~= v@);
    }
    r
}

/// Copies a list of work receipts element by element.
pub fn clone_work_receipts(v: &Vec<WorkReceiptNFT>) -> (r: Vec<WorkReceiptNFT>)
    ensures
        r@ == v@,
{
    let n: usize = v.len();
    let mut r: Vec<WorkReceiptNFT> = Vec::new();
    let mut i: usize = 0;
    while i < n
        invariant
            i <= n,
            n == v@.len(),
            r@ == v@.take(i as int),
        decreases n - i,
    {
        r.push(v[i].cloned());
        proof {
            assert(v@.take(i + 1 as int) =~= v@.take(i as int).push(v@[i as int]));
        }
        i += 1;
    }
    proof {
        assert(v@.take(n as int) =~= v@);
    }
    r
}

/// Copies a contribution history element by element.
pub fn clone_contributions(v: &Vec<Contribution>) -> (r: Vec<Contribution>)
    ensures
        r@ == v@,
{
    let n: usize = v.len();
    let mut r: Vec<Contribution> = Vec::new();
    let mut i: usize = 0;
    while i < n
        invariant
            i <= n,
            n == v@.len(),
            r@ == v@.take(i as int),
        decreases n - i,
    {
        r.push(v[i]);
        proof {
            assert(v@.take(i + 1 as int) =~= v@.take(i as int).push(v@[i as int]));
        }
        i += 1;
    }
    proof {
        assert(v@.take(n as int) =~= v@);
    }
    r
}

/// Copies an audit trail element by element.
pub fn clone_agent_actions(v: &Vec<AgentAction>) -> (r: Vec<AgentAction>)
    ensures
        r@ == v@,
{
    let n: usize = v.len();
    let mut r: Vec<AgentAction> = Vec::new();
    let mut i: usize = 0;
    while i < n
        invariant
            i <= n,
            n == v@.len(),
            r@ == v@.take(i as int),
        decreases n - i,
    {
        r.push(v[i].cloned());
        proof {
            assert(v@.take(i + 1 as int) =~= v@.take(i as int).push(v@[i as int]));
        }
        i += 1;
    }
    proof {
        assert(v@.take(n as int) =~= v@);
    }
    r
}

} // verus!
