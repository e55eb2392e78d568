use vstd::prelude::*;

use crate::arith::floor_sqrt_u128;
use crate::arith::is_floor_sqrt;
use crate::errors::TimeError;
use crate::sums::sum_by;
use crate::table::contains_str;
use crate::table::find_string;
use crate::table::first_match;
use crate::table::key_is;
use crate::table::keyed_find;
use crate::table::keyed_get;
use crate::table::keyed_has;
use crate::table::keyed_idx;
use crate::table::lemma_first_match_is;
use crate::table::lemma_first_match_props;
use crate::table::lemma_first_match_push;
use crate::table::lemma_keyed_remove;
use crate::table::lemma_first_match_same;
use crate::table::lemma_keyed_idx_is;
use crate::table::lemma_unique_keys_push;
use crate::table::lemma_unique_keys_update;
use crate::table::unique_keys;
use crate::types::alloc_choice;
use crate::types::amount_fn;
use crate::types::apct_fn;
use crate::types::balance_fn;
use crate::types::citizen_key;
use crate::types::pct_fn;
use crate::types::staked_fn;
use crate::types::clone_voting_allocations;
use crate::types::vote_choice;
use crate::types::AgentAction;
use crate::types::AgentPermissions;
use crate::types::ChoiceKind;
use crate::types::GovLevel;
use crate::types::Allocation;
use crate::types::Citizen;
use crate::types::Contribution;
use crate::types::GovernanceProfile;
use crate::types::LocalOpportunity;
use crate::types::OpportunityStatus;
use crate::types::StakingPosition;
use crate::types::VotingAllocation;
use crate::types::WorkReceiptNFT;

use crate::table::keyed_append;
use crate::table::keyed_put;
use crate::table::keyed_seq;
use crate::types::ActionDetail;
use crate::types::ActionKind;
use crate::types::VerificationLevel;
use crate::types::NANOSECONDS_PER_DAY;
use crate::types::ONE_TIME;
use crate::types::UNSTAKE_COOLDOWN_NS;

verus! {

/// Whole days between a birthdate and the current time; zero when the
/// birthdate lies in the future.
pub open spec fn days_of(birthdate: u64, now: u64) -> int {
    if now >= birthdate {
        ((now - birthdate) as int) / (NANOSECONDS_PER_DAY as int)
    } else {
        0
    }
}

/// The birthright grant: one TIME per day lived.
pub open spec fn birthright_amount(birthdate: u64, now: u64) -> int {
    days_of(birthdate, now) * (ONE_TIME as int)
}

/// The capability bounds a fresh citizen starts with.
pub open spec fn default_agent_permissions() -> AgentPermissions {
    AgentPermissions {
        can_auto_allocate: true,
        max_single_allocation_pct: 20,
        max_daily_reallocation: (1000 * ONE_TIME) as u128,
        require_approval_above: (500 * ONE_TIME) as u128,
        notify_on_rebalance: true,
        notify_on_new_laws: true,
    }
}

/// A voting-allocation list with `v` written over its first entry for the
/// same choice, or appended if the choice is new.
pub open spec fn upsert_vote(s: Seq<VotingAllocation>, v: VotingAllocation) -> Seq<
    VotingAllocation,
> {
    if first_match(s, vote_choice(v.choice_id@)) >= 0 {
        s.update(first_match(s, vote_choice(v.choice_id@)), v)
    } else {
        s.push(v)
    }
}

/// Finds the voting-power allocation of choice `id`.
pub fn find_vote(v: &Vec<VotingAllocation>, id: &String) -> (r: Option<usize>)
    ensures
        match r {
            Some(i) => i < v@.len() && v@[i as int].choice_id@ == id@ && first_match(
                v@,
                vote_choice(id@),
            ) == i,
            None => first_match(v@, vote_choice(id@)) == -1,
        },
{
    let n: usize = v.len();
    let mut i: usize = 0;
    while i < n
        invariant
            n == v@.len(),
            i <= n,
            forall|j: int| 0 <= j < i ==> v@[j].choice_id@ != id@,
        decreases n - i,
    {
        if v[i].choice_id == *id {
            proof {
                lemma_first_match_is(v@, vote_choice(id@), i as int);
            }
            return Some(i);
        }
        i += 1;
    }
    proof {
        lemma_first_match_props(v@, vote_choice(id@));
        if first_match(v@, vote_choice(id@)) >= 0 {
            let m = first_match(v@, vote_choice(id@));
            assert(vote_choice(id@)(v@[m]));
        }
    }
    None
}

/// The same ledger entry with its tracked amount replaced.
pub open spec fn with_amount(a: Allocation, amount: u128) -> Allocation {
    Allocation {
        choice_id: a.choice_id,
        choice_type: a.choice_type,
        level: a.level,
        amount,
        percentage: a.percentage,
        updated_at: a.updated_at,
    }
}

/// The ledger after moving `amount` of tracked TIME from the first entry
/// for `from` onto the entry of `fresh.choice_id`, creating `fresh` when
/// that choice was not tracked yet.  Meaningful only when the `from` entry
/// exists and holds at least `amount`.
pub open spec fn realloc_ledger(
    ledger: Seq<Allocation>,
    from: Seq<char>,
    fresh: Allocation,
    amount: u128,
) -> Seq<Allocation> {
    let fi = first_match(ledger, alloc_choice(from));
    let mid = ledger.update(fi, with_amount(ledger[fi], (ledger[fi].amount - amount) as u128));
    let tj = first_match(ledger, alloc_choice(fresh.choice_id@));
    if tj >= 0 {
        mid.update(tj, with_amount(mid[tj], (mid[tj].amount + amount) as u128))
    } else {
        mid.push(fresh)
    }
}

/// Finds the ledger entry of choice `id`.
pub fn find_alloc(v: &Vec<Allocation>, id: &String) -> (r: Option<usize>)
    ensures
        match r {
            Some(i) => i < v@.len() && v@[i as int].choice_id@ == id@ && first_match(
                v@,
                alloc_choice(id@),
            ) == i,
            None => first_match(v@, alloc_choice(id@)) == -1,
        },
{
    let n: usize = v.len();
    let mut i: usize = 0;
    while i < n
        invariant
            n == v@.len(),
            i <= n,
            forall|j: int| 0 <= j < i ==> v@[j].choice_id@ != id@,
        decreases n - i,
    {
        if v[i].choice_id == *id {
            proof {
                lemma_first_match_is(v@, alloc_choice(id@), i as int);
            }
            return Some(i);
        }
        i += 1;
    }
    proof {
        lemma_first_match_props(v@, alloc_choice(id@));
        if first_match(v@, alloc_choice(id@)) >= 0 {
            let m = first_match(v@, alloc_choice(id@));
            assert(alloc_choice(id@)(v@[m]));
        }
    }
    None
}

/// Finds the citizen record of account `k`, scanning in claim order.
pub fn find_citizen(v: &Vec<Citizen>, k: &String) -> (r: Option<usize>)
    ensures
        match r {
            Some(i) => i < v@.len() && v@[i as int].account_id@ == k@ && first_match(
                v@,
                citizen_key(k@),
            ) == i,
            None => first_match(v@, citizen_key(k@)) == -1,
        },
{
    let n: usize = v.len();
    let mut i: usize = 0;
    while i < n
        invariant
            n == v@.len(),
            i <= n,
            forall|j: int| 0 <= j < i ==> v@[j].account_id@ != k@,
        decreases n - i,
    {
        if v[i].account_id == *k {
            proof {
                lemma_first_match_is(v@, citizen_key(k@), i as int);
            }
            return Some(i);
        }
        i += 1;
    }
    proof {
        lemma_first_match_props(v@, citizen_key(k@));
        if first_match(v@, citizen_key(k@)) >= 0 {
            let m = first_match(v@, citizen_key(k@));
            assert(citizen_key(k@)(v@[m]));
        }
    }
    None
}

/// The ledger, staking and allocation engine: one value of this type is the
/// whole protocol state, and every entry point is a single atomic step that
/// validates first and only then commits.
pub struct TimeProtocol {
    /// The account allowed to attest work.
    pub owner_id: String,
    /// Every citizen record, in claim order; account ids are unique.
    pub citizens: Vec<Citizen>,
    /// Every identity nullifier ever accepted.
    pub world_id_nullifiers: Vec<String>,
    /// Governance profiles, keyed by account.
    pub governance_profiles: Vec<(String, GovernanceProfile)>,
    /// Absolute-amount allocation ledgers, keyed by account.
    pub allocations: Vec<(String, Vec<Allocation>)>,
    /// Staking positions, keyed by account; at most one per citizen.
    pub staking_positions: Vec<(String, StakingPosition)>,
    /// Soulbound work receipts, keyed by owner, in mint order.
    pub work_nfts: Vec<(String, Vec<WorkReceiptNFT>)>,
    /// Contributions to local opportunities, keyed by account.
    pub contributions: Vec<(String, Vec<Contribution>)>,
    /// Local funding opportunities; an opportunity's id is its index here.
    pub opportunities: Vec<LocalOpportunity>,
    /// The append-only audit log, keyed by account.
    pub agent_actions: Vec<(String, Vec<AgentAction>)>,
    /// Agent bounds, keyed by account.
    pub agent_permissions: Vec<(String, AgentPermissions)>,
    /// All TIME ever issued; never decreases.
    pub total_time_supply: u128,
    /// How many citizen records exist.
    pub total_citizens: u64,
    /// TIME currently locked in staking positions.
    pub total_staked: u128,
    /// TIME ever directed at opportunities, bonuses included.
    pub total_allocated: u128,
}

impl TimeProtocol {
    /// Citizens are unique by account, their nullifiers are pairwise
    /// distinct, and each nullifier is registered in the global set.
    pub open spec fn citizens_wf(self) -> bool {
        &&& forall|i: int, j: int|
            0 <= i < j < self.citizens@.len() ==> self.citizens@[i].account_id@
                != self.citizens@[j].account_id@
        &&& forall|i: int, j: int|
            0 <= i < j < self.citizens@.len() ==> self.citizens@[i].world_id_nullifier@
                != self.citizens@[j].world_id_nullifier@
        &&& forall|i: int|
            0 <= i < self.citizens@.len() ==> contains_str(
                self.world_id_nullifiers@,
                self.citizens@[i].world_id_nullifier@,
            )
        &&& forall|i: int| 0 <= i < self.citizens@.len() ==> self.citizens@[i].claimed_birthright
    }

    /// Every keyed table holds at most one entry per account.
    pub open spec fn tables_wf(self) -> bool {
        &&& unique_keys(self.governance_profiles@)
        &&& unique_keys(self.allocations@)
        &&& unique_keys(self.staking_positions@)
        &&& unique_keys(self.work_nfts@)
        &&& unique_keys(self.contributions@)
        &&& unique_keys(self.agent_actions@)
        &&& unique_keys(self.agent_permissions@)
    }

    /// Every staking position belongs to a citizen and satisfies its own
    /// invariant: percentage allocations within 100 and voting power equal
    /// to the integer square root of the staked amount.
    pub open spec fn positions_wf(self) -> bool {
        forall|i: int|
            0 <= i < self.staking_positions@.len() ==> (#[trigger] self.staking_positions@[i]).1.wf()
                && self.has_citizen(self.staking_positions@[i].0@)
    }

    /// The amounts of each allocation ledger sum within `u128`, so moving
    /// tracked TIME between choices can never overflow.
    pub open spec fn ledgers_wf(self) -> bool {
        forall|i: int|
            0 <= i < self.allocations@.len() ==> sum_by(
                (#[trigger] self.allocations@[i]).1@,
                amount_fn(),
            ) <= u128::MAX
    }

    /// The conservation laws tying the aggregate counters to the entities:
    /// spendable balances and locked stakes never outgrow the issued
    /// supply, the staked counter is the sum of the positions, the citizen
    /// counter is the number of records, and no citizen's cumulative
    /// earnings outgrow the supply.
    pub open spec fn accounting_wf(self) -> bool {
        &&& sum_by(self.citizens@, balance_fn()) + self.total_staked as int
            <= self.total_time_supply as int
        &&& self.total_staked as int == sum_by(self.staking_positions@, staked_fn())
        &&& self.total_citizens as int == self.citizens@.len()
        &&& forall|i: int|
            0 <= i < self.citizens@.len() ==> (#[trigger] self.citizens@[i]).total_earned
                <= self.total_time_supply
    }

    /// The protocol invariant, preserved by every entry point.
    pub open spec fn wf(self) -> bool {
        &&& self.citizens_wf()
        &&& self.tables_wf()
        &&& self.positions_wf()
        &&& self.ledgers_wf()
        &&& self.accounting_wf()
    }

    /// Whether account `k` holds a citizen record.
    pub open spec fn has_citizen(self, k: Seq<char>) -> bool {
        first_match(self.citizens@, citizen_key(k)) >= 0
    }

    /// The index of account `k`'s citizen record.
    pub open spec fn citizen_idx(self, k: Seq<char>) -> int {
        first_match(self.citizens@, citizen_key(k))
    }

    /// Account `k`'s citizen record; meaningful only under `has_citizen`.
    pub open spec fn citizen_of(self, k: Seq<char>) -> Citizen {
        self.citizens@[self.citizen_idx(k)]
    }

    /// Whether account `k` holds a staking position.
    pub open spec fn has_position(self, k: Seq<char>) -> bool {
        keyed_has(self.staking_positions@, k)
    }

    /// Account `k`'s staking position; meaningful only under
    /// `has_position`.
    pub open spec fn position_of(self, k: Seq<char>) -> StakingPosition {
        keyed_get(self.staking_positions@, k)
    }

    /// Account `k`'s allocation ledger; empty if none was ever stored.
    pub open spec fn ledger_of(self, k: Seq<char>) -> Seq<Allocation> {
        keyed_seq(self.allocations@, k)
    }

    /// Account `k`'s audit trail; empty if nothing was ever logged.
    pub open spec fn actions_of(self, k: Seq<char>) -> Seq<AgentAction> {
        keyed_seq(self.agent_actions@, k)
    }

    /// Account `k`'s contribution history; empty if none.
    pub open spec fn contributions_of(self, k: Seq<char>) -> Seq<Contribution> {
        keyed_seq(self.contributions@, k)
    }

    /// Account `k`'s work receipts; empty if none.
    pub open spec fn receipts_of(self, k: Seq<char>) -> Seq<WorkReceiptNFT> {
        keyed_seq(self.work_nfts@, k)
    }

    /// One audit entry of the given kind was appended under `k`, and no
    /// other account's trail moved.
    pub open spec fn logged(
        self,
        post: TimeProtocol,
        k: Seq<char>,
        kind: ActionKind,
        at: u64,
        details: ActionDetail,
    ) -> bool {
        &&& post.actions_of(k).len() == self.actions_of(k).len() + 1
        &&& post.actions_of(k).drop_last() == self.actions_of(k)
        &&& post.actions_of(k).last().action_type == kind
        &&& post.actions_of(k).last().timestamp == at
        &&& post.actions_of(k).last().details == details
        &&& forall|q: Seq<char>| q != k ==> post.actions_of(q) == self.actions_of(q)
    }

    /// The claim is a duplicate: the nullifier was seen before, or the
    /// account already holds a citizen record.
    pub open spec fn claim_duplicate(self, caller: Seq<char>, nullifier: Seq<char>) -> bool {
        contains_str(self.world_id_nullifiers@, nullifier) || self.has_citizen(caller)
    }

    /// What account `k` has staked so far: its position's cumulative
    /// amount, or zero without a position.
    pub open spec fn staked_of(self, k: Seq<char>) -> int {
        if self.has_position(k) {
            self.position_of(k).staked_amount as int
        } else {
            0
        }
    }

    /// Staking `amount` would push account `k` past its identity cap of
    /// twice its attested earnings.  A citizen with no attested earnings is
    /// not capped.
    pub open spec fn stake_cap_exceeded(self, k: Seq<char>, amount: u128) -> bool {
        &&& self.citizen_of(k).total_earned > 0
        &&& self.staked_of(k) + amount > 2 * (self.citizen_of(k).total_earned as int)
    }

    /// Account `k` requested an unstake and the full cooldown has passed
    /// by `now`.
    pub open spec fn cooldown_elapsed(self, k: Seq<char>, now: u64) -> bool {
        match self.position_of(k).unstake_requested_at {
            Some(t) => now as int >= t as int + UNSTAKE_COOLDOWN_NS as int,
            None => false,
        }
    }

    /// An empty protocol state owned by `owner_id`.
    pub fn new(owner_id: String) -> (p: TimeProtocol)
        ensures
            p.wf(),
            p.owner_id == owner_id,
            p.citizens@.len() == 0,
            p.world_id_nullifiers@.len() == 0,
            p.governance_profiles@.len() == 0,
            p.allocations@.len() == 0,
            p.staking_positions@.len() == 0,
            p.work_nfts@.len() == 0,
            p.contributions@.len() == 0,
            p.opportunities@.len() == 0,
            p.agent_actions@.len() == 0,
            p.agent_permissions@.len() == 0,
            p.total_time_supply == 0,
            p.total_citizens == 0,
            p.total_staked == 0,
            p.total_allocated == 0,
    {
        TimeProtocol {
            owner_id,
            citizens: Vec::new(),
            world_id_nullifiers: Vec::new(),
            governance_profiles: Vec::new(),
            allocations: Vec::new(),
            staking_positions: Vec::new(),
            work_nfts: Vec::new(),
            contributions: Vec::new(),
            opportunities: Vec::new(),
            agent_actions: Vec::new(),
            agent_permissions: Vec::new(),
            total_time_supply: 0,
            total_citizens: 0,
            total_staked: 0,
            total_allocated: 0,
        }
    }

    /// The global aggregates: total issued supply, citizen count, and
    /// currently staked TIME.
    pub fn get_global_stats(&self) -> (r: (u128, u64, u128))
        ensures
            r.0 == self.total_time_supply,
            r.1 == self.total_citizens,
            r.2 == self.total_staked,
    {
        (self.total_time_supply, self.total_citizens, self.total_staked)
    }

    /// Claims the one-time birthright grant: one TIME per day lived since
    /// `birthdate_timestamp`.  Fails with `DuplicateIdentity` when the
    /// nullifier already backs a record or the account already claimed, and
    /// with `InvalidBirthdate` when the birthdate lies in the future.  On
    /// success the citizen record is created, the nullifier registered, the
    /// supply and citizen count stepped, default agent permissions stored,
    /// and the claim logged.  The proof blob and merkle root are consumed
    /// by the identity collaborator outside this core; only the nullifier
    /// matters here.
    pub fn claim_time_with_world_id(
        &mut self,
        caller: String,
        birthdate_timestamp: u64,
        merkle_root: String,
        nullifier_hash: String,
        zk_proof: String,
        verification_level: VerificationLevel,
        now: u64,
    ) -> (r: Result<Citizen, TimeError>)
        requires
            old(self).wf(),
            !old(self).claim_duplicate(caller@, nullifier_hash@) ==> old(
                self,
            ).total_time_supply as int + birthright_amount(birthdate_timestamp, now)
                <= u128::MAX as int,
            !old(self).claim_duplicate(caller@, nullifier_hash@) ==> old(self).total_citizens
                < u64::MAX,
        ensures
            final(self).wf(),
            r is Err ==> *final(self) == *old(self),
            r == Err::<Citizen, TimeError>(TimeError::DuplicateIdentity) <==> old(
                self,
            ).claim_duplicate(caller@, nullifier_hash@),
            r == Err::<Citizen, TimeError>(TimeError::InvalidBirthdate) <==> (!old(
                self,
            ).claim_duplicate(caller@, nullifier_hash@) && now < birthdate_timestamp),
            r is Ok <==> (!old(self).claim_duplicate(caller@, nullifier_hash@) && now
                >= birthdate_timestamp),
            r matches Ok(c) ==> {
                &&& c.account_id == caller
                &&& c.birthdate_timestamp == birthdate_timestamp
                &&& c.time_balance as int == birthright_amount(birthdate_timestamp, now)
                &&& c.total_earned == 0
                &&& c.claimed_birthright
                &&& c.world_id_nullifier == nullifier_hash
                &&& c.verification_level == verification_level
                &&& c.jurisdiction@ == Seq::<char>::empty()
                &&& c.created_at == now
                &&& final(self).citizens@ == old(self).citizens@.push(c)
                &&& final(self).world_id_nullifiers@ == old(self).world_id_nullifiers@.push(
                    nullifier_hash,
                )
                &&& final(self).total_time_supply as int == old(self).total_time_supply as int
                    + birthright_amount(birthdate_timestamp, now)
                &&& final(self).total_citizens == old(self).total_citizens + 1
                &&& keyed_has(final(self).agent_permissions@, caller@)
                &&& keyed_get(final(self).agent_permissions@, caller@)
                    == default_agent_permissions()
                &&& (forall|q: Seq<char>|
                    q != caller@ ==> keyed_has(final(self).agent_permissions@, q) == keyed_has(
                        old(self).agent_permissions@,
                        q,
                    ) && (keyed_has(old(self).agent_permissions@, q) ==> keyed_get(
                        final(self).agent_permissions@,
                        q,
                    ) == keyed_get(old(self).agent_permissions@, q)))
                &&& old(self).logged(
                    *final(self),
                    caller@,
                    ActionKind::BirthrightClaimed,
                    now,
                    ActionDetail::Birthright {
                        days_lived: days_of(birthdate_timestamp, now) as u64,
                        time_claimed: birthright_amount(birthdate_timestamp, now) as u128,
                    },
                )
                &&& final(self).owner_id == old(self).owner_id
                &&& final(self).governance_profiles == old(self).governance_profiles
                &&& final(self).allocations == old(self).allocations
                &&& final(self).staking_positions == old(self).staking_positions
                &&& final(self).work_nfts == old(self).work_nfts
                &&& final(self).contributions == old(self).contributions
                &&& final(self).opportunities == old(self).opportunities
                &&& final(self).total_staked == old(self).total_staked
                &&& final(self).total_allocated == old(self).total_allocated
            },
    {
        let ghost pre = *self;
        let used = find_string(&self.world_id_nullifiers, &nullifier_hash);
        let existing = find_citizen(&self.citizens, &caller);
        if used || existing.is_some() {
            return Err(TimeError::DuplicateIdentity);
        }
        if now < birthdate_timestamp {
            return Err(TimeError::InvalidBirthdate);
        }
        let days_lived: u64 = (now - birthdate_timestamp) / NANOSECONDS_PER_DAY;
        proof {
            assert(days_lived as int == days_of(birthdate_timestamp, now));
            assert((days_lived as u128 as int) * (ONE_TIME as int) == birthright_amount(
                birthdate_timestamp,
                now,
            ));
        }
        let birthright_time: u128 = (days_lived as u128) * ONE_TIME;
        let citizen = Citizen {
            account_id: caller.clone(),
            birthdate_timestamp,
            time_balance: birthright_time,
            total_earned: 0,
            claimed_birthright: true,
            world_id_nullifier: nullifier_hash.clone(),
            verification_level,
            jurisdiction: String::new(),
            created_at: now,
        };
        self.citizens.push(citizen.cloned());
        self.world_id_nullifiers.push(nullifier_hash);
        self.total_time_supply = self.total_time_supply + birthright_time;
        self.total_citizens = self.total_citizens + 1;
        keyed_put(
            &mut self.agent_permissions,
            &caller,
            AgentPermissions {
                can_auto_allocate: true,
                max_single_allocation_pct: 20,
                max_daily_reallocation: 1000 * ONE_TIME,
                require_approval_above: 500 * ONE_TIME,
                notify_on_rebalance: true,
                notify_on_new_laws: true,
            },
        );
        keyed_append(
            &mut self.agent_actions,
            &caller,
            AgentAction {
                action_type: ActionKind::BirthrightClaimed,
                description: "claimed birthright TIME".to_string(),
                timestamp: now,
                details: ActionDetail::Birthright {
                    days_lived,
                    time_claimed: birthright_time,
                },
            },
        );
        proof {
            let post = *self;
            assert(post.citizens@ == pre.citizens@.push(citizen));
            lemma_first_match_props(pre.citizens@, citizen_key(caller@));
            assert forall|i: int, j: int| 0 <= i < j < post.citizens@.len() implies post.citizens@[i].account_id@
                != post.citizens@[j].account_id@ by {
                if j == pre.citizens@.len() {
                    assert(post.citizens@[i] == pre.citizens@[i]);
                    assert(!citizen_key(caller@)(pre.citizens@[i]));
                }
            }
            assert forall|i: int, j: int| 0 <= i < j < post.citizens@.len() implies post.citizens@[i].world_id_nullifier@
                != post.citizens@[j].world_id_nullifier@ by {
                if j == pre.citizens@.len() {
                    assert(post.citizens@[i] == pre.citizens@[i]);
                    assert(contains_str(
                        pre.world_id_nullifiers@,
                        pre.citizens@[i].world_id_nullifier@,
                    ));
                }
            }
            assert forall|i: int| 0 <= i < post.citizens@.len() implies contains_str(
                post.world_id_nullifiers@,
                post.citizens@[i].world_id_nullifier@,
            ) by {
                if i < pre.citizens@.len() {
                    assert(post.citizens@[i] == pre.citizens@[i]);
                    let w = choose|w: int|
                        0 <= w < pre.world_id_nullifiers@.len() && pre.world_id_nullifiers@[w]@
                            == pre.citizens@[i].world_id_nullifier@;
                    assert(post.world_id_nullifiers@[w] == pre.world_id_nullifiers@[w]);
                } else {
                    assert(post.world_id_nullifiers@[pre.world_id_nullifiers@.len() as int]@
                        == post.citizens@[i].world_id_nullifier@);
                }
            }
            assert forall|i: int| 0 <= i < post.staking_positions@.len() implies (
            #[trigger] post.staking_positions@[i]).1.wf() && post.has_citizen(
                post.staking_positions@[i].0@,
            ) by {
                assert(pre.staking_positions@[i].1.wf());
                assert(pre.has_citizen(pre.staking_positions@[i].0@));
                lemma_first_match_push(
                    pre.citizens@,
                    citizen_key(post.staking_positions@[i].0@),
                    citizen,
                );
            }
            crate::sums::lemma_sum_by_push(pre.citizens@, balance_fn(), citizen);
            assert(balance_fn()(citizen) == birthright_time as int);
            assert(post.actions_of(caller@).drop_last() =~= pre.actions_of(caller@));
        }
        Ok(citizen)
    }

    /// Locks `amount` of spendable balance into the caller's staking
    /// position and recomputes quadratic voting power as the integer
    /// square root of the full cumulative stake.  `staked_at` is reset to
    /// the current time; a pending cooldown and the position's
    /// voting-power allocations carry over untouched.
    pub fn stake(&mut self, caller: String, amount: u128, now: u64) -> (r: Result<
        StakingPosition,
        TimeError,
    >)
        requires
            old(self).wf(),
            amount > 0,
        ensures
            final(self).wf(),
            r is Err ==> *final(self) == *old(self),
            r == Err::<StakingPosition, TimeError>(TimeError::UnknownCitizen) <==> !old(
                self,
            ).has_citizen(caller@),
            r == Err::<StakingPosition, TimeError>(TimeError::InsufficientBalance) <==> (old(
                self,
            ).has_citizen(caller@) && old(self).citizen_of(caller@).time_balance < amount),
            r == Err::<StakingPosition, TimeError>(TimeError::StakeCapExceeded) <==> (old(
                self,
            ).has_citizen(caller@) && old(self).citizen_of(caller@).time_balance >= amount && old(
                self,
            ).stake_cap_exceeded(caller@, amount)),
            r is Ok <==> (old(self).has_citizen(caller@) && old(self).citizen_of(
                caller@,
            ).time_balance >= amount && !old(self).stake_cap_exceeded(caller@, amount)),
            r matches Ok(p) ==> {
                &&& p.staked_amount as int == old(self).staked_of(caller@) + amount
                &&& is_floor_sqrt(p.staked_amount as int, p.voting_power as int)
                &&& p.staked_at == now
                &&& p.unstake_requested_at == (if old(self).has_position(caller@) {
                    old(self).position_of(caller@).unstake_requested_at
                } else {
                    None::<u64>
                })
                &&& p.allocations@ == (if old(self).has_position(caller@) {
                    old(self).position_of(caller@).allocations@
                } else {
                    Seq::<VotingAllocation>::empty()
                })
                &&& final(self).has_position(caller@)
                &&& final(self).position_of(caller@).same_as(p)
                &&& (forall|q: Seq<char>|
                    q != caller@ ==> final(self).has_position(q) == old(self).has_position(q) && (
                    old(self).has_position(q) ==> final(self).position_of(q) == old(
                        self,
                    ).position_of(q)))
                &&& final(self).has_citizen(caller@)
                &&& final(self).citizen_idx(caller@) == old(self).citizen_idx(caller@)
                &&& final(self).citizen_of(caller@).time_balance == old(self).citizen_of(
                    caller@,
                ).time_balance - amount
                &&& final(self).citizens@ == old(self).citizens@.update(
                    old(self).citizen_idx(caller@),
                    final(self).citizen_of(caller@),
                )
                &&& final(self).citizen_of(caller@).total_earned == old(self).citizen_of(
                    caller@,
                ).total_earned
                &&& final(self).citizen_of(caller@).account_id == old(self).citizen_of(
                    caller@,
                ).account_id
                &&& final(self).citizen_of(caller@).jurisdiction == old(self).citizen_of(
                    caller@,
                ).jurisdiction
                &&& final(self).total_staked as int == old(self).total_staked as int + amount
                &&& final(self).total_time_supply == old(self).total_time_supply
                &&& old(self).logged(
                    *final(self),
                    caller@,
                    ActionKind::Staked,
                    now,
                    ActionDetail::Staked { amount, voting_power: p.voting_power },
                )
                &&& final(self).owner_id == old(self).owner_id
                &&& final(self).world_id_nullifiers == old(self).world_id_nullifiers
                &&& final(self).governance_profiles == old(self).governance_profiles
                &&& final(self).allocations == old(self).allocations
                &&& final(self).work_nfts == old(self).work_nfts
                &&& final(self).contributions == old(self).contributions
                &&& final(self).opportunities == old(self).opportunities
                &&& final(self).agent_permissions == old(self).agent_permissions
                &&& final(self).total_citizens == old(self).total_citizens
                &&& final(self).total_allocated == old(self).total_allocated
            },
    {
        let ghost pre = *self;
        let ci: usize = match find_citizen(&self.citizens, &caller) {
            None => {
                return Err(TimeError::UnknownCitizen);
            },
            Some(i) => i,
        };
        let balance: u128 = self.citizens[ci].time_balance;
        if balance < amount {
            return Err(TimeError::InsufficientBalance);
        }
        let total_earned: u128 = self.citizens[ci].total_earned;
        let pos_idx = keyed_find(&self.staking_positions, &caller);
        proof {
            assert(forall|j: int|
                0 <= j < pre.citizens@.len() ==> balance_fn()(pre.citizens@[j]) >= 0);
            crate::sums::lemma_sum_by_elem_le(pre.citizens@, balance_fn(), ci as int);
            assert(forall|j: int|
                0 <= j < pre.staking_positions@.len() ==> staked_fn()(pre.staking_positions@[j])
                    >= 0);
            if pre.has_position(caller@) {
                crate::sums::lemma_sum_by_elem_le(
                    pre.staking_positions@,
                    staked_fn(),
                    keyed_idx(pre.staking_positions@, caller@),
                );
            }
        }
        let existing: u128 = match pos_idx {
            Some(i) => self.staking_positions[i].1.staked_amount,
            None => 0,
        };
        let new_total: u128 = existing + amount;
        let ceil_half: u128 = new_total / 2 + new_total % 2;
        if total_earned > 0 && ceil_half > total_earned {
            proof {
                assert(new_total == 2 * (new_total / 2) + new_total % 2);
            }
            return Err(TimeError::StakeCapExceeded);
        }
        proof {
            assert(new_total == 2 * (new_total / 2) + new_total % 2);
            assert(!pre.stake_cap_exceeded(caller@, amount));
        }
        let vp: u128 = floor_sqrt_u128(new_total);
        let position = match pos_idx {
            Some(i) => StakingPosition {
                staked_amount: new_total,
                voting_power: vp,
                staked_at: now,
                unstake_requested_at: self.staking_positions[i].1.unstake_requested_at,
                allocations: clone_voting_allocations(&self.staking_positions[i].1.allocations),
            },
            None => StakingPosition {
                staked_amount: new_total,
                voting_power: vp,
                staked_at: now,
                unstake_requested_at: None,
                allocations: Vec::new(),
            },
        };
        self.citizens[ci].time_balance = balance - amount;
        let ghost mid_citizens = self.citizens@;
        match pos_idx {
            Some(i) => {
                let key = self.staking_positions[i].0.clone();
                self.staking_positions[i] = (key, position.cloned());
            },
            None => {
                self.staking_positions.push((caller.clone(), position.cloned()));
            },
        }
        self.total_staked = self.total_staked + amount;
        keyed_append(
            &mut self.agent_actions,
            &caller,
            AgentAction {
                action_type: ActionKind::Staked,
                description: "staked TIME for voting power".to_string(),
                timestamp: now,
                details: ActionDetail::Staked { amount, voting_power: vp },
            },
        );
        proof {
            let post = *self;
            let cii = ci as int;
            assert(post.citizens@ == pre.citizens@.update(cii, post.citizens@[cii]));
            assert(post.citizens@[cii].account_id == pre.citizens@[cii].account_id);
            assert(forall|j: int|
                0 <= j < post.citizens@.len() ==> (citizen_key(caller@)(post.citizens@[j])
                    == citizen_key(caller@)(pre.citizens@[j])));
            lemma_first_match_same(post.citizens@, pre.citizens@, citizen_key(caller@));
            crate::sums::lemma_sum_by_update(pre.citizens@, balance_fn(), cii, post.citizens@[cii]);
            if pre.has_position(caller@) {
                let pi = keyed_idx(pre.staking_positions@, caller@);
                assert(post.staking_positions@ == pre.staking_positions@.update(
                    pi,
                    post.staking_positions@[pi],
                ));
                lemma_unique_keys_update(pre.staking_positions@, pi, post.staking_positions@[pi]);
                crate::sums::lemma_sum_by_update(
                    pre.staking_positions@,
                    staked_fn(),
                    pi,
                    post.staking_positions@[pi],
                );
                lemma_keyed_idx_is(post.staking_positions@, caller@, pi);
            } else {
                let pushed = post.staking_positions@[pre.staking_positions@.len() as int];
                assert(post.staking_positions@ == pre.staking_positions@.push(pushed));
                lemma_first_match_props(pre.staking_positions@, key_is::<StakingPosition>(caller@));
                lemma_unique_keys_push(pre.staking_positions@, pushed);
                crate::sums::lemma_sum_by_push(pre.staking_positions@, staked_fn(), pushed);
                lemma_keyed_idx_is(
                    post.staking_positions@,
                    caller@,
                    pre.staking_positions@.len() as int,
                );
            }
            assert forall|q: Seq<char>|
                q != caller@ implies post.has_position(q) == pre.has_position(q) && (
            pre.has_position(q) ==> post.position_of(q) == pre.position_of(q)) by {
                if pre.has_position(caller@) {
                    let pi = keyed_idx(pre.staking_positions@, caller@);
                    assert(forall|j: int|
                        0 <= j < pre.staking_positions@.len() ==> (key_is::<StakingPosition>(q)(
                            post.staking_positions@[j],
                        ) == key_is::<StakingPosition>(q)(pre.staking_positions@[j])));
                    lemma_first_match_same(
                        post.staking_positions@,
                        pre.staking_positions@,
                        key_is::<StakingPosition>(q),
                    );
                    lemma_first_match_props(pre.staking_positions@, key_is::<StakingPosition>(q));
                    if pre.has_position(q) {
                        assert(keyed_idx(pre.staking_positions@, q) != pi);
                    }
                } else {
                    let pushed = post.staking_positions@[pre.staking_positions@.len() as int];
                    lemma_first_match_push(
                        pre.staking_positions@,
                        key_is::<StakingPosition>(q),
                        pushed,
                    );
                    lemma_first_match_props(pre.staking_positions@, key_is::<StakingPosition>(q));
                    if pre.has_position(q) {
                        assert(post.staking_positions@[keyed_idx(pre.staking_positions@, q)]
                            == pre.staking_positions@[keyed_idx(pre.staking_positions@, q)]);
                    }
                }
            }
            assert forall|i: int| 0 <= i < post.staking_positions@.len() implies (
            #[trigger] post.staking_positions@[i]).1.wf() && post.has_citizen(
                post.staking_positions@[i].0@,
            ) by {
                let k = post.staking_positions@[i].0@;
                if i < pre.staking_positions@.len() && post.staking_positions@[i]
                    == pre.staking_positions@[i] {
                    assert(pre.staking_positions@[i].1.wf());
                    assert(pre.has_citizen(k));
                } else {
                    assert(k == caller@);
                    assert(post.staking_positions@[i].1.same_as(position));
                    assert(sum_by(position.allocations@, pct_fn()) <= 100);
                }
                assert(forall|j: int|
                    0 <= j < pre.citizens@.len() ==> (citizen_key(k)(post.citizens@[j])
                        == citizen_key(k)(pre.citizens@[j])));
                lemma_first_match_same(post.citizens@, pre.citizens@, citizen_key(k));
            }
            assert(post.actions_of(caller@).drop_last() =~= pre.actions_of(caller@));
        }
        Ok(position)
    }

    /// Starts (or restarts) the unstake cooldown on the caller's position:
    /// the request timestamp is set to `now`, and re-invoking while a
    /// cooldown is already pending simply refreshes it.
    pub fn request_unstake(&mut self, caller: String, now: u64) -> (r: Result<(), TimeError>)
        requires
            old(self).wf(),
        ensures
            final(self).wf(),
            r is Err ==> *final(self) == *old(self),
            r == Err::<(), TimeError>(TimeError::NoPosition) <==> !old(self).has_position(caller@),
            r is Ok <==> old(self).has_position(caller@),
            r is Ok ==> {
                &&& final(self).has_position(caller@)
                &&& final(self).position_of(caller@).unstake_requested_at == Some(now)
                &&& final(self).position_of(caller@).staked_amount == old(self).position_of(
                    caller@,
                ).staked_amount
                &&& final(self).position_of(caller@).voting_power == old(self).position_of(
                    caller@,
                ).voting_power
                &&& final(self).position_of(caller@).staked_at == old(self).position_of(
                    caller@,
                ).staked_at
                &&& final(self).position_of(caller@).allocations == old(self).position_of(
                    caller@,
                ).allocations
                &&& (forall|q: Seq<char>|
                    q != caller@ ==> final(self).has_position(q) == old(self).has_position(q) && (
                    old(self).has_position(q) ==> final(self).position_of(q) == old(
                        self,
                    ).position_of(q)))
                &&& old(self).logged(
                    *final(self),
                    caller@,
                    ActionKind::UnstakeRequested,
                    now,
                    ActionDetail::UnstakeRequested,
                )
                &&& final(self).owner_id == old(self).owner_id
                &&& final(self).citizens == old(self).citizens
                &&& final(self).world_id_nullifiers == old(self).world_id_nullifiers
                &&& final(self).governance_profiles == old(self).governance_profiles
                &&& final(self).allocations == old(self).allocations
                &&& final(self).work_nfts == old(self).work_nfts
                &&& final(self).contributions == old(self).contributions
                &&& final(self).opportunities == old(self).opportunities
                &&& final(self).agent_permissions == old(self).agent_permissions
                &&& final(self).total_time_supply == old(self).total_time_supply
                &&& final(self).total_citizens == old(self).total_citizens
                &&& final(self).total_staked == old(self).total_staked
                &&& final(self).total_allocated == old(self).total_allocated
            },
    {
        let ghost pre = *self;
        let pi: usize = match keyed_find(&self.staking_positions, &caller) {
            None => {
                return Err(TimeError::NoPosition);
            },
            Some(i) => i,
        };
        self.staking_positions[pi].1.unstake_requested_at = Some(now);
        keyed_append(
            &mut self.agent_actions,
            &caller,
            AgentAction {
                action_type: ActionKind::UnstakeRequested,
                description: "requested unstake".to_string(),
                timestamp: now,
                details: ActionDetail::UnstakeRequested,
            },
        );
        proof {
            let post = *self;
            let pii = pi as int;
            assert(post.staking_positions@ == pre.staking_positions@.update(
                pii,
                post.staking_positions@[pii],
            ));
            lemma_unique_keys_update(pre.staking_positions@, pii, post.staking_positions@[pii]);
            crate::sums::lemma_sum_by_update(
                pre.staking_positions@,
                staked_fn(),
                pii,
                post.staking_positions@[pii],
            );
            lemma_keyed_idx_is(post.staking_positions@, caller@, pii);
            assert forall|q: Seq<char>|
                q != caller@ implies post.has_position(q) == pre.has_position(q) && (
            pre.has_position(q) ==> post.position_of(q) == pre.position_of(q)) by {
                assert(forall|j: int|
                    0 <= j < pre.staking_positions@.len() ==> (key_is::<StakingPosition>(q)(
                        post.staking_positions@[j],
                    ) == key_is::<StakingPosition>(q)(pre.staking_positions@[j])));
                lemma_first_match_same(
                    post.staking_positions@,
                    pre.staking_positions@,
                    key_is::<StakingPosition>(q),
                );
                lemma_first_match_props(pre.staking_positions@, key_is::<StakingPosition>(q));
                if pre.has_position(q) {
                    assert(keyed_idx(pre.staking_positions@, q) != pii);
                }
            }
            assert forall|i: int| 0 <= i < post.staking_positions@.len() implies (
            #[trigger] post.staking_positions@[i]).1.wf() && post.has_citizen(
                post.staking_positions@[i].0@,
            ) by {
                assert(pre.staking_positions@[i].1.wf());
                assert(pre.has_citizen(pre.staking_positions@[i].0@));
                if i == pii {
                    assert(post.staking_positions@[i].1.allocations
                        == pre.staking_positions@[i].1.allocations);
                }
            }
            assert(post.actions_of(caller@).drop_last() =~= pre.actions_of(caller@));
        }
        Ok(())
    }

    /// Completes an unstake once the cooldown has elapsed: the full staked
    /// amount returns to the citizen's spendable balance and the position
    /// is removed entirely, discarding its voting-power allocations.
    /// Before `unstake_requested_at` plus the cooldown — or without a
    /// pending request — the call fails with `CooldownNotElapsed`.
    pub fn complete_unstake(&mut self, caller: String, now: u64) -> (r: Result<(), TimeError>)
        requires
            old(self).wf(),
        ensures
            final(self).wf(),
            r is Err ==> *final(self) == *old(self),
            r == Err::<(), TimeError>(TimeError::NoPosition) <==> !old(self).has_position(caller@),
            r == Err::<(), TimeError>(TimeError::CooldownNotElapsed) <==> (old(self).has_position(
                caller@,
            ) && !old(self).cooldown_elapsed(caller@, now)),
            r is Ok <==> (old(self).has_position(caller@) && old(self).cooldown_elapsed(
                caller@,
                now,
            )),
            r is Ok ==> {
                &&& !final(self).has_position(caller@)
                &&& final(self).staking_positions@ == old(self).staking_positions@.remove(
                    keyed_idx(old(self).staking_positions@, caller@),
                )
                &&& (forall|q: Seq<char>|
                    q != caller@ ==> final(self).has_position(q) == old(self).has_position(q) && (
                    old(self).has_position(q) ==> final(self).position_of(q) == old(
                        self,
                    ).position_of(q)))
                &&& final(self).has_citizen(caller@)
                &&& final(self).citizen_idx(caller@) == old(self).citizen_idx(caller@)
                &&& final(self).citizen_of(caller@).time_balance as int == old(self).citizen_of(
                    caller@,
                ).time_balance as int + old(self).position_of(caller@).staked_amount as int
                &&& final(self).citizens@ == old(self).citizens@.update(
                    old(self).citizen_idx(caller@),
                    final(self).citizen_of(caller@),
                )
                &&& final(self).citizen_of(caller@).total_earned == old(self).citizen_of(
                    caller@,
                ).total_earned
                &&& final(self).total_staked as int == old(self).total_staked as int - old(
                    self,
                ).position_of(caller@).staked_amount as int
                &&& old(self).logged(
                    *final(self),
                    caller@,
                    ActionKind::UnstakeCompleted,
                    now,
                    ActionDetail::UnstakeCompleted {
                        amount: old(self).position_of(caller@).staked_amount,
                    },
                )
                &&& final(self).owner_id == old(self).owner_id
                &&& final(self).world_id_nullifiers == old(self).world_id_nullifiers
                &&& final(self).governance_profiles == old(self).governance_profiles
                &&& final(self).allocations == old(self).allocations
                &&& final(self).work_nfts == old(self).work_nfts
                &&& final(self).contributions == old(self).contributions
                &&& final(self).opportunities == old(self).opportunities
                &&& final(self).agent_permissions == old(self).agent_permissions
                &&& final(self).total_time_supply == old(self).total_time_supply
                &&& final(self).total_citizens == old(self).total_citizens
                &&& final(self).total_allocated == old(self).total_allocated
            },
    {
        let ghost pre = *self;
        let pi: usize = match keyed_find(&self.staking_positions, &caller) {
            None => {
                return Err(TimeError::NoPosition);
            },
            Some(i) => i,
        };
        let requested_at: u64 = match self.staking_positions[pi].1.unstake_requested_at {
            None => {
                return Err(TimeError::CooldownNotElapsed);
            },
            Some(t) => t,
        };
        if now < requested_at || now - requested_at < UNSTAKE_COOLDOWN_NS {
            return Err(TimeError::CooldownNotElapsed);
        }
        let staked: u128 = self.staking_positions[pi].1.staked_amount;
        let ci: usize = match find_citizen(&self.citizens, &caller) {
            None => {
                proof {
                    assert(pre.has_citizen(pre.staking_positions@[pi as int].0@));
                    assert(false);
                }
                return Err(TimeError::UnknownCitizen);
            },
            Some(i) => i,
        };
        proof {
            assert(forall|j: int|
                0 <= j < pre.citizens@.len() ==> balance_fn()(pre.citizens@[j]) >= 0);
            crate::sums::lemma_sum_by_elem_le(pre.citizens@, balance_fn(), ci as int);
            assert(forall|j: int|
                0 <= j < pre.staking_positions@.len() ==> staked_fn()(pre.staking_positions@[j])
                    >= 0);
            crate::sums::lemma_sum_by_elem_le(pre.staking_positions@, staked_fn(), pi as int);
        }
        let balance: u128 = self.citizens[ci].time_balance;
        self.citizens[ci].time_balance = balance + staked;
        self.staking_positions.remove(pi);
        self.total_staked = self.total_staked - staked;
        keyed_append(
            &mut self.agent_actions,
            &caller,
            AgentAction {
                action_type: ActionKind::UnstakeCompleted,
                description: "completed unstake after cooldown".to_string(),
                timestamp: now,
                details: ActionDetail::UnstakeCompleted { amount: staked },
            },
        );
        proof {
            let post = *self;
            let cii = ci as int;
            let pii = pi as int;
            assert(post.citizens@ == pre.citizens@.update(cii, post.citizens@[cii]));
            assert(forall|j: int|
                0 <= j < post.citizens@.len() ==> (citizen_key(caller@)(post.citizens@[j])
                    == citizen_key(caller@)(pre.citizens@[j])));
            lemma_first_match_same(post.citizens@, pre.citizens@, citizen_key(caller@));
            crate::sums::lemma_sum_by_update(pre.citizens@, balance_fn(), cii, post.citizens@[cii]);
            assert(post.staking_positions@ == pre.staking_positions@.remove(pii));
            lemma_keyed_remove(pre.staking_positions@, pii);
            crate::sums::lemma_sum_by_remove(pre.staking_positions@, staked_fn(), pii);
            assert forall|i: int| 0 <= i < post.staking_positions@.len() implies (
            #[trigger] post.staking_positions@[i]).1.wf() && post.has_citizen(
                post.staking_positions@[i].0@,
            ) by {
                if i < pii {
                    assert(post.staking_positions@[i] == pre.staking_positions@[i]);
                    assert(pre.staking_positions@[i].1.wf());
                    assert(pre.has_citizen(pre.staking_positions@[i].0@));
                } else {
                    assert(post.staking_positions@[i] == pre.staking_positions@[i + 1]);
                    assert(pre.staking_positions@[i + 1].1.wf());
                    assert(pre.has_citizen(pre.staking_positions@[i + 1].0@));
                }
                assert(forall|j: int|
                    0 <= j < pre.citizens@.len() ==> (citizen_key(post.staking_positions@[i].0@)(
                        post.citizens@[j],
                    ) == citizen_key(post.staking_positions@[i].0@)(pre.citizens@[j])));
                lemma_first_match_same(
                    post.citizens@,
                    pre.citizens@,
                    citizen_key(post.staking_positions@[i].0@),
                );
            }
            assert(post.actions_of(caller@).drop_last() =~= pre.actions_of(caller@));
        }
        Ok(())
    }

    /// Directs `percentage` of the caller's voting power at a governance
    /// choice, writing over any earlier percentage for the same choice.
    /// The update is all-or-nothing: if the upserted set would sum past
    /// 100, the call fails with `AllocationOverflow` and the position's
    /// allocations stay exactly as they were.
    pub fn allocate_voting_power(
        &mut self,
        caller: String,
        choice_id: String,
        percentage: u8,
        now: u64,
    ) -> (r: Result<(), TimeError>)
        requires
            old(self).wf(),
        ensures
            final(self).wf(),
            r is Err ==> *final(self) == *old(self),
            r == Err::<(), TimeError>(TimeError::NoPosition) <==> !old(self).has_position(caller@),
            r == Err::<(), TimeError>(TimeError::AllocationOverflow) <==> (old(self).has_position(
                caller@,
            ) && sum_by(
                upsert_vote(
                    old(self).position_of(caller@).allocations@,
                    VotingAllocation { choice_id, percentage },
                ),
                pct_fn(),
            ) > 100),
            r is Ok <==> (old(self).has_position(caller@) && sum_by(
                upsert_vote(
                    old(self).position_of(caller@).allocations@,
                    VotingAllocation { choice_id, percentage },
                ),
                pct_fn(),
            ) <= 100),
            r is Ok ==> {
                &&& final(self).has_position(caller@)
                &&& final(self).position_of(caller@).allocations@ == upsert_vote(
                    old(self).position_of(caller@).allocations@,
                    VotingAllocation { choice_id, percentage },
                )
                &&& final(self).position_of(caller@).staked_amount == old(self).position_of(
                    caller@,
                ).staked_amount
                &&& final(self).position_of(caller@).voting_power == old(self).position_of(
                    caller@,
                ).voting_power
                &&& final(self).position_of(caller@).staked_at == old(self).position_of(
                    caller@,
                ).staked_at
                &&& final(self).position_of(caller@).unstake_requested_at == old(self).position_of(
                    caller@,
                ).unstake_requested_at
                &&& (forall|q: Seq<char>|
                    q != caller@ ==> final(self).has_position(q) == old(self).has_position(q) && (
                    old(self).has_position(q) ==> final(self).position_of(q) == old(
                        self,
                    ).position_of(q)))
                &&& old(self).logged(
                    *final(self),
                    caller@,
                    ActionKind::VotingPowerAllocated,
                    now,
                    ActionDetail::VotingPower { choice_id, percentage },
                )
                &&& final(self).owner_id == old(self).owner_id
                &&& final(self).citizens == old(self).citizens
                &&& final(self).world_id_nullifiers == old(self).world_id_nullifiers
                &&& final(self).governance_profiles == old(self).governance_profiles
                &&& final(self).allocations == old(self).allocations
                &&& final(self).work_nfts == old(self).work_nfts
                &&& final(self).contributions == old(self).contributions
                &&& final(self).opportunities == old(self).opportunities
                &&& final(self).agent_permissions == old(self).agent_permissions
                &&& final(self).total_time_supply == old(self).total_time_supply
                &&& final(self).total_citizens == old(self).total_citizens
                &&& final(self).total_staked == old(self).total_staked
                &&& final(self).total_allocated == old(self).total_allocated
            },
    {
        let ghost pre = *self;
        let pi: usize = match keyed_find(&self.staking_positions, &caller) {
            None => {
                return Err(TimeError::NoPosition);
            },
            Some(i) => i,
        };
        let ghost old_allocs = pre.staking_positions@[pi as int].1.allocations@;
        let ghost entry_spec = VotingAllocation { choice_id: choice_id, percentage };
        let ghost prospective = upsert_vote(old_allocs, entry_spec);
        let vi = find_vote(&self.staking_positions[pi].1.allocations, &choice_id);
        let n: usize = self.staking_positions[pi].1.allocations.len();
        proof {
            assert(forall|j: int| 0 <= j < old_allocs.len() ==> pct_fn()(old_allocs[j]) >= 0);
            assert(pre.staking_positions@[pi as int].1.wf());
            match vi {
                Some(v) => {
                    crate::sums::lemma_sum_by_update(old_allocs, pct_fn(), v as int, entry_spec);
                },
                None => {
                    crate::sums::lemma_sum_by_push(old_allocs, pct_fn(), entry_spec);
                },
            }
            assert(sum_by(prospective, pct_fn()) <= 355);
            assert(forall|j: int| 0 <= j < prospective.len() ==> pct_fn()(prospective[j]) >= 0);
        }
        let mut total: u32 = 0;
        let mut j: usize = 0;
        while j < n
            invariant
                j <= n,
                pi < self.staking_positions@.len(),
                self.staking_positions@[pi as int].1.allocations@ == old_allocs,
                n == old_allocs.len(),
                prospective == upsert_vote(old_allocs, entry_spec),
                match vi {
                    Some(v) => v < n && prospective == old_allocs.update(v as int, entry_spec)
                        && entry_spec.percentage == percentage,
                    None => prospective == old_allocs.push(entry_spec) && entry_spec.percentage
                        == percentage,
                },
                sum_by(prospective, pct_fn()) <= 355,
                forall|x: int| 0 <= x < prospective.len() ==> pct_fn()(prospective[x]) >= 0,
                total as int == sum_by(prospective.take(j as int), pct_fn()),
                total <= 355,
            decreases n - j,
        {
            let p: u8 = match vi {
                Some(v) => {
                    if v == j {
                        percentage
                    } else {
                        self.staking_positions[pi].1.allocations[j].percentage
                    }
                },
                None => self.staking_positions[pi].1.allocations[j].percentage,
            };
            proof {
                assert(pct_fn()(prospective[j as int]) == p as int);
                crate::sums::lemma_sum_by_take_step(prospective, pct_fn(), j as int);
                crate::sums::lemma_sum_by_take_le(prospective, pct_fn(), j as int + 1);
            }
            total = total + (p as u32);
            j += 1;
        }
        match vi {
            Some(_) => {
                proof {
                    crate::sums::lemma_sum_by_take_all(prospective, pct_fn());
                }
            },
            None => {
                proof {
                    crate::sums::lemma_sum_by_take_step(prospective, pct_fn(), n as int);
                    crate::sums::lemma_sum_by_take_all(prospective, pct_fn());
                    crate::sums::lemma_sum_by_take_le(prospective, pct_fn(), n as int);
                }
                total = total + (percentage as u32);
            },
        }
        if total > 100 {
            return Err(TimeError::AllocationOverflow);
        }
        let detail_choice = choice_id.clone();
        let entry = VotingAllocation { choice_id, percentage };
        proof {
            assert(entry == entry_spec);
        }
        match vi {
            Some(v) => {
                self.staking_positions[pi].1.allocations[v] = entry;
            },
            None => {
                self.staking_positions[pi].1.allocations.push(entry);
            },
        }
        keyed_append(
            &mut self.agent_actions,
            &caller,
            AgentAction {
                action_type: ActionKind::VotingPowerAllocated,
                description: "allocated voting power".to_string(),
                timestamp: now,
                details: ActionDetail::VotingPower { choice_id: detail_choice, percentage },
            },
        );
        proof {
            let post = *self;
            let pii = pi as int;
            assert(post.staking_positions@ == pre.staking_positions@.update(
                pii,
                post.staking_positions@[pii],
            ));
            assert(post.staking_positions@[pii].1.allocations@ == prospective);
            lemma_unique_keys_update(pre.staking_positions@, pii, post.staking_positions@[pii]);
            crate::sums::lemma_sum_by_update(
                pre.staking_positions@,
                staked_fn(),
                pii,
                post.staking_positions@[pii],
            );
            lemma_keyed_idx_is(post.staking_positions@, caller@, pii);
            assert forall|q: Seq<char>|
                q != caller@ implies post.has_position(q) == pre.has_position(q) && (
            pre.has_position(q) ==> post.position_of(q) == pre.position_of(q)) by {
                assert(forall|x: int|
                    0 <= x < pre.staking_positions@.len() ==> (key_is::<StakingPosition>(q)(
                        post.staking_positions@[x],
                    ) == key_is::<StakingPosition>(q)(pre.staking_positions@[x])));
                lemma_first_match_same(
                    post.staking_positions@,
                    pre.staking_positions@,
                    key_is::<StakingPosition>(q),
                );
                lemma_first_match_props(pre.staking_positions@, key_is::<StakingPosition>(q));
                if pre.has_position(q) {
                    assert(keyed_idx(pre.staking_positions@, q) != pii);
                }
            }
            assert forall|i: int| 0 <= i < post.staking_positions@.len() implies (
            #[trigger] post.staking_positions@[i]).1.wf() && post.has_citizen(
                post.staking_positions@[i].0@,
            ) by {
                assert(pre.staking_positions@[i].1.wf());
                assert(pre.has_citizen(pre.staking_positions@[i].0@));
            }
            assert(post.actions_of(caller@).drop_last() =~= pre.actions_of(caller@));
        }
        Ok(())
    }

    /// Moving `amount` away from `from` in account `k`'s ledger is
    /// rejected: the choice has no entry, or tracks less than `amount`.
    pub open spec fn realloc_rejected(self, k: Seq<char>, from: Seq<char>, amount: u128) -> bool {
        ||| first_match(self.ledger_of(k), alloc_choice(from)) < 0
        ||| self.ledger_of(k)[first_match(self.ledger_of(k), alloc_choice(from))].amount < amount
    }

    /// Moves `amount` of tracked TIME from one governance choice to
    /// another inside the caller's ledger.  This is a pure transfer
    /// between tracked choices: it never touches the spendable balance,
    /// and the ledger's total tracked amount is conserved.  A destination
    /// never seen before gets a fresh zero-provenance entry.  On
    /// `InsufficientAllocation` both choices stay exactly as they were.
    pub fn reallocate_time(
        &mut self,
        caller: String,
        from_choice_id: String,
        to_choice_id: String,
        amount: u128,
        now: u64,
    ) -> (r: Result<(), TimeError>)
        requires
            old(self).wf(),
        ensures
            final(self).wf(),
            r is Err ==> *final(self) == *old(self),
            r == Err::<(), TimeError>(TimeError::InsufficientAllocation) <==> old(
                self,
            ).realloc_rejected(caller@, from_choice_id@, amount),
            r is Ok <==> !old(self).realloc_rejected(caller@, from_choice_id@, amount),
            r is Ok ==> {
                &&& final(self).ledger_of(caller@) == realloc_ledger(
                    old(self).ledger_of(caller@),
                    from_choice_id@,
                    (Allocation {
                        choice_id: to_choice_id,
                        choice_type: ChoiceKind::Official,
                        level: GovLevel::Unknown,
                        amount,
                        percentage: 0,
                        updated_at: now,
                    }),
                    amount,
                )
                &&& sum_by(final(self).ledger_of(caller@), amount_fn()) == sum_by(
                    old(self).ledger_of(caller@),
                    amount_fn(),
                )
                &&& (forall|q: Seq<char>|
                    q != caller@ ==> final(self).ledger_of(q) == old(self).ledger_of(q))
                &&& old(self).logged(
                    *final(self),
                    caller@,
                    ActionKind::Reallocated,
                    now,
                    ActionDetail::Reallocation {
                        from_choice: from_choice_id,
                        to_choice: to_choice_id,
                        amount,
                    },
                )
                &&& final(self).owner_id == old(self).owner_id
                &&& final(self).citizens == old(self).citizens
                &&& final(self).world_id_nullifiers == old(self).world_id_nullifiers
                &&& final(self).governance_profiles == old(self).governance_profiles
                &&& final(self).staking_positions == old(self).staking_positions
                &&& final(self).work_nfts == old(self).work_nfts
                &&& final(self).contributions == old(self).contributions
                &&& final(self).opportunities == old(self).opportunities
                &&& final(self).agent_permissions == old(self).agent_permissions
                &&& final(self).total_time_supply == old(self).total_time_supply
                &&& final(self).total_citizens == old(self).total_citizens
                &&& final(self).total_staked == old(self).total_staked
                &&& final(self).total_allocated == old(self).total_allocated
            },
    {
        let ghost pre = *self;
        let li: usize = match keyed_find(&self.allocations, &caller) {
            None => {
                return Err(TimeError::InsufficientAllocation);
            },
            Some(i) => i,
        };
        let ghost pre_ledger = pre.allocations@[li as int].1@;
        let fi: usize = match find_alloc(&self.allocations[li].1, &from_choice_id) {
            None => {
                return Err(TimeError::InsufficientAllocation);
            },
            Some(i) => i,
        };
        let old_amt: u128 = self.allocations[li].1[fi].amount;
        if old_amt < amount {
            return Err(TimeError::InsufficientAllocation);
        }
        proof {
            assert(forall|x: int| 0 <= x < pre_ledger.len() ==> amount_fn()(pre_ledger[x]) >= 0);
            assert(sum_by(pre_ledger, amount_fn()) <= u128::MAX);
        }
        self.allocations[li].1[fi].amount = old_amt - amount;
        let ghost mid_ledger = self.allocations@[li as int].1@;
        proof {
            assert(mid_ledger == pre_ledger.update(
                fi as int,
                with_amount(pre_ledger[fi as int], (old_amt - amount) as u128),
            ));
            crate::sums::lemma_sum_by_update(
                pre_ledger,
                amount_fn(),
                fi as int,
                mid_ledger[fi as int],
            );
            assert(sum_by(mid_ledger, amount_fn()) == sum_by(pre_ledger, amount_fn())
                - amount);
            assert(forall|x: int|
                0 <= x < pre_ledger.len() ==> (alloc_choice(to_choice_id@)(mid_ledger[x])
                    == alloc_choice(to_choice_id@)(pre_ledger[x])));
            lemma_first_match_same(mid_ledger, pre_ledger, alloc_choice(to_choice_id@));
            assert(forall|x: int| 0 <= x < mid_ledger.len() ==> amount_fn()(mid_ledger[x]) >= 0);
        }
        let ti = find_alloc(&self.allocations[li].1, &to_choice_id);
        match ti {
            Some(t) => {
                let cur: u128 = self.allocations[li].1[t].amount;
                proof {
                    crate::sums::lemma_sum_by_elem_le(mid_ledger, amount_fn(), t as int);
                }
                self.allocations[li].1[t].amount = cur + amount;
                proof {
                    assert(self.allocations@[li as int].1@ == mid_ledger.update(
                        t as int,
                        with_amount(mid_ledger[t as int], (cur + amount) as u128),
                    ));
                    crate::sums::lemma_sum_by_update(
                        mid_ledger,
                        amount_fn(),
                        t as int,
                        self.allocations@[li as int].1@[t as int],
                    );
                }
            },
            None => {
                let ghost n: nat = mid_ledger.len();
                self.allocations[li].1.push(
                    Allocation {
                        choice_id: to_choice_id.clone(),
                        choice_type: ChoiceKind::Official,
                        level: GovLevel::Unknown,
                        amount,
                        percentage: 0,
                        updated_at: now,
                    },
                );
                proof {
                    crate::sums::lemma_sum_by_push(
                        mid_ledger,
                        amount_fn(),
                        self.allocations@[li as int].1@[n as int],
                    );
                }
            },
        }
        keyed_append(
            &mut self.agent_actions,
            &caller,
            AgentAction {
                action_type: ActionKind::Reallocated,
                description: "moved tracked TIME between choices".to_string(),
                timestamp: now,
                details: ActionDetail::Reallocation {
                    from_choice: from_choice_id,
                    to_choice: to_choice_id.clone(),
                    amount,
                },
            },
        );
        proof {
            let post = *self;
            let lii = li as int;
            assert(post.allocations@ == pre.allocations@.update(lii, post.allocations@[lii]));
            assert(post.allocations@[lii].0 == pre.allocations@[lii].0);
            lemma_unique_keys_update(pre.allocations@, lii, post.allocations@[lii]);
            lemma_keyed_idx_is(pre.allocations@, caller@, lii);
            lemma_keyed_idx_is(post.allocations@, caller@, lii);
            assert(sum_by(post.allocations@[lii].1@, amount_fn()) == sum_by(
                pre_ledger,
                amount_fn(),
            ));
            assert forall|x: int| 0 <= x < post.allocations@.len() implies sum_by(
                (#[trigger] post.allocations@[x]).1@,
                amount_fn(),
            ) <= u128::MAX by {
                if x != lii {
                    assert(post.allocations@[x] == pre.allocations@[x]);
                }
            }
            assert forall|q: Seq<char>| q != caller@ implies post.ledger_of(q) == pre.ledger_of(
                q,
            ) by {
                assert(forall|x: int|
                    0 <= x < pre.allocations@.len() ==> (key_is::<Vec<Allocation>>(q)(
                        post.allocations@[x],
                    ) == key_is::<Vec<Allocation>>(q)(pre.allocations@[x])));
                lemma_first_match_same(
                    post.allocations@,
                    pre.allocations@,
                    key_is::<Vec<Allocation>>(q),
                );
                lemma_first_match_props(pre.allocations@, key_is::<Vec<Allocation>>(q));
                if keyed_has(pre.allocations@, q) {
                    assert(keyed_idx(pre.allocations@, q) != lii);
                }
            }
            assert(post.actions_of(caller@).drop_last() =~= pre.actions_of(caller@));
        }
        Ok(())
    }

    /// Records what discovery found for the caller's jurisdiction: the
    /// citizen's jurisdiction tag is overwritten (idempotently) and the
    /// governance profile stored.  Fails with `UnknownCitizen` for an
    /// unregistered account.
    pub fn set_governance_profile(
        &mut self,
        caller: String,
        jurisdiction: String,
        officials_count: u32,
        laws_count: u32,
        now: u64,
    ) -> (r: Result<(), TimeError>)
        requires
            old(self).wf(),
        ensures
            final(self).wf(),
            r is Err ==> *final(self) == *old(self),
            r == Err::<(), TimeError>(TimeError::UnknownCitizen) <==> !old(self).has_citizen(
                caller@,
            ),
            r is Ok <==> old(self).has_citizen(caller@),
            r is Ok ==> {
                &&& final(self).has_citizen(caller@)
                &&& final(self).citizen_idx(caller@) == old(self).citizen_idx(caller@)
                &&& final(self).citizen_of(caller@).jurisdiction == jurisdiction
                &&& final(self).citizen_of(caller@).time_balance == old(self).citizen_of(
                    caller@,
                ).time_balance
                &&& final(self).citizen_of(caller@).total_earned == old(self).citizen_of(
                    caller@,
                ).total_earned
                &&& final(self).citizen_of(caller@).account_id == old(self).citizen_of(
                    caller@,
                ).account_id
                &&& final(self).citizen_of(caller@).world_id_nullifier == old(self).citizen_of(
                    caller@,
                ).world_id_nullifier
                &&& final(self).citizens@ == old(self).citizens@.update(
                    old(self).citizen_idx(caller@),
                    final(self).citizen_of(caller@),
                )
                &&& keyed_has(final(self).governance_profiles@, caller@)
                &&& keyed_get(final(self).governance_profiles@, caller@) == (GovernanceProfile {
                    jurisdiction,
                    officials_count,
                    laws_count,
                    last_updated: now,
                })
                &&& (forall|q: Seq<char>|
                    q != caller@ ==> keyed_has(final(self).governance_profiles@, q) == keyed_has(
                        old(self).governance_profiles@,
                        q,
                    ) && (keyed_has(old(self).governance_profiles@, q) ==> keyed_get(
                        final(self).governance_profiles@,
                        q,
                    ) == keyed_get(old(self).governance_profiles@, q)))
                &&& old(self).logged(
                    *final(self),
                    caller@,
                    ActionKind::GovernanceDiscovered,
                    now,
                    ActionDetail::Discovery { officials: officials_count, laws: laws_count },
                )
                &&& final(self).owner_id == old(self).owner_id
                &&& final(self).world_id_nullifiers == old(self).world_id_nullifiers
                &&& final(self).allocations == old(self).allocations
                &&& final(self).staking_positions == old(self).staking_positions
                &&& final(self).work_nfts == old(self).work_nfts
                &&& final(self).contributions == old(self).contributions
                &&& final(self).opportunities == old(self).opportunities
                &&& final(self).agent_permissions == old(self).agent_permissions
                &&& final(self).total_time_supply == old(self).total_time_supply
                &&& final(self).total_citizens == old(self).total_citizens
                &&& final(self).total_staked == old(self).total_staked
                &&& final(self).total_allocated == old(self).total_allocated
            },
    {
        let ghost pre = *self;
        let ci: usize = match find_citizen(&self.citizens, &caller) {
            None => {
                return Err(TimeError::UnknownCitizen);
            },
            Some(i) => i,
        };
        self.citizens[ci].jurisdiction = jurisdiction.clone();
        keyed_put(
            &mut self.governance_profiles,
            &caller,
            GovernanceProfile { jurisdiction, officials_count, laws_count, last_updated: now },
        );
        keyed_append(
            &mut self.agent_actions,
            &caller,
            AgentAction {
                action_type: ActionKind::GovernanceDiscovered,
                description: "recorded discovered governance profile".to_string(),
                timestamp: now,
                details: ActionDetail::Discovery { officials: officials_count, laws: laws_count },
            },
        );
        proof {
            let post = *self;
            let cii = ci as int;
            assert(post.citizens@ == pre.citizens@.update(cii, post.citizens@[cii]));
            assert(forall|j: int|
                0 <= j < post.citizens@.len() ==> (citizen_key(caller@)(post.citizens@[j])
                    == citizen_key(caller@)(pre.citizens@[j])));
            lemma_first_match_same(post.citizens@, pre.citizens@, citizen_key(caller@));
            crate::sums::lemma_sum_by_update(pre.citizens@, balance_fn(), cii, post.citizens@[cii]);
            assert forall|i: int| 0 <= i < post.staking_positions@.len() implies (
            #[trigger] post.staking_positions@[i]).1.wf() && post.has_citizen(
                post.staking_positions@[i].0@,
            ) by {
                assert(pre.staking_positions@[i].1.wf());
                assert(pre.has_citizen(pre.staking_positions@[i].0@));
                assert(forall|j: int|
                    0 <= j < pre.citizens@.len() ==> (citizen_key(post.staking_positions@[i].0@)(
                        post.citizens@[j],
                    ) == citizen_key(post.staking_positions@[i].0@)(pre.citizens@[j])));
                lemma_first_match_same(
                    post.citizens@,
                    pre.citizens@,
                    citizen_key(post.staking_positions@[i].0@),
                );
            }
            assert(post.actions_of(caller@).drop_last() =~= pre.actions_of(caller@));
        }
        Ok(())
    }

    /// Stores a caller-supplied status-quo ledger: the allocation entries
    /// distribute TIME across the discovered governance choices.  The
    /// entries' percentages must sum within 100, else the whole ledger is
    /// rejected with `AllocationOverflow` and nothing is stored.
    pub fn initialize_status_quo_allocation(
        &mut self,
        caller: String,
        allocations: Vec<Allocation>,
        now: u64,
    ) -> (r: Result<(), TimeError>)
        requires
            old(self).wf(),
            sum_by(allocations@, amount_fn()) <= u128::MAX,
        ensures
            final(self).wf(),
            r is Err ==> *final(self) == *old(self),
            r == Err::<(), TimeError>(TimeError::AllocationOverflow) <==> sum_by(
                allocations@,
                apct_fn(),
            ) > 100,
            r is Ok <==> sum_by(allocations@, apct_fn()) <= 100,
            r is Ok ==> {
                &&& final(self).ledger_of(caller@) == allocations@
                &&& (forall|q: Seq<char>|
                    q != caller@ ==> final(self).ledger_of(q) == old(self).ledger_of(q))
                &&& old(self).logged(
                    *final(self),
                    caller@,
                    ActionKind::StatusQuoAllocated,
                    now,
                    ActionDetail::StatusQuo { choices: allocations.len() },
                )
                &&& final(self).owner_id == old(self).owner_id
                &&& final(self).citizens == old(self).citizens
                &&& final(self).world_id_nullifiers == old(self).world_id_nullifiers
                &&& final(self).governance_profiles == old(self).governance_profiles
                &&& final(self).staking_positions == old(self).staking_positions
                &&& final(self).work_nfts == old(self).work_nfts
                &&& final(self).contributions == old(self).contributions
                &&& final(self).opportunities == old(self).opportunities
                &&& final(self).agent_permissions == old(self).agent_permissions
                &&& final(self).total_time_supply == old(self).total_time_supply
                &&& final(self).total_citizens == old(self).total_citizens
                &&& final(self).total_staked == old(self).total_staked
                &&& final(self).total_allocated == old(self).total_allocated
            },
    {
        let ghost pre = *self;
        let ghost entries = allocations@;
        proof {
            assert(forall|x: int| 0 <= x < entries.len() ==> apct_fn()(entries[x]) >= 0);
        }
        let n: usize = allocations.len();
        let mut total: u32 = 0;
        let mut j: usize = 0;
        while j < n
            invariant
                j <= n,
                n == entries.len(),
                allocations@ == entries,
                *self == pre,
                pre.wf(),
                total as int == sum_by(entries.take(j as int), apct_fn()),
                total <= 100,
                forall|x: int| 0 <= x < entries.len() ==> apct_fn()(entries[x]) >= 0,
            decreases n - j,
        {
            let p: u8 = allocations[j].percentage;
            proof {
                crate::sums::lemma_sum_by_take_step(entries, apct_fn(), j as int);
            }
            total = total + (p as u32);
            if total > 100 {
                proof {
                    crate::sums::lemma_sum_by_take_le(entries, apct_fn(), j as int + 1);
                }
                return Err(TimeError::AllocationOverflow);
            }
            j += 1;
        }
        proof {
            crate::sums::lemma_sum_by_take_all(entries, apct_fn());
        }
        let count: usize = allocations.len();
        keyed_put(&mut self.allocations, &caller, allocations);
        keyed_append(
            &mut self.agent_actions,
            &caller,
            AgentAction {
                action_type: ActionKind::StatusQuoAllocated,
                description: "stored status quo allocation".to_string(),
                timestamp: now,
                details: ActionDetail::StatusQuo { choices: count },
            },
        );
        proof {
            let post = *self;
            assert forall|x: int| 0 <= x < post.allocations@.len() implies sum_by(
                (#[trigger] post.allocations@[x]).1@,
                amount_fn(),
            ) <= u128::MAX by {
                if post.allocations@[x].0@ == caller@ {
                    lemma_keyed_idx_is(post.allocations@, caller@, x);
                    assert(post.allocations@[x].1@ == entries);
                } else {
                    if keyed_has(pre.allocations@, caller@) {
                        let i0 = keyed_idx(pre.allocations@, caller@);
                        lemma_first_match_props(
                            pre.allocations@,
                            key_is::<Vec<Allocation>>(caller@),
                        );
                        assert(post.allocations@ == pre.allocations@.update(
                            i0,
                            (pre.allocations@[i0].0, post.allocations@[i0].1),
                        ));
                        assert(x != i0);
                        assert(post.allocations@[x] == pre.allocations@[x]);
                    } else {
                        assert(x < pre.allocations@.len());
                        assert(post.allocations@[x] == pre.allocations@[x]);
                    }
                }
            }
            assert forall|q: Seq<char>| q != caller@ implies post.ledger_of(q) == pre.ledger_of(
                q,
            ) by {
                assert(keyed_has(post.allocations@, q) == keyed_has(pre.allocations@, q));
                if keyed_has(pre.allocations@, q) {
                    assert(keyed_get(post.allocations@, q) == keyed_get(pre.allocations@, q));
                }
            }
            assert(post.actions_of(caller@).drop_last() =~= pre.actions_of(caller@));
        }
        Ok(())
    }

    /// Stores new agent capability bounds for the caller.
    pub fn update_agent_permissions(&mut self, caller: String, permissions: AgentPermissions)
        requires
            old(self).wf(),
        ensures
            final(self).wf(),
            keyed_has(final(self).agent_permissions@, caller@),
            keyed_get(final(self).agent_permissions@, caller@) == permissions,
            forall|q: Seq<char>|
                q != caller@ ==> keyed_has(final(self).agent_permissions@, q) == keyed_has(
                    old(self).agent_permissions@,
                    q,
                ) && (keyed_has(old(self).agent_permissions@, q) ==> keyed_get(
                    final(self).agent_permissions@,
                    q,
                ) == keyed_get(old(self).agent_permissions@, q)),
            final(self).owner_id == old(self).owner_id,
            final(self).citizens == old(self).citizens,
            final(self).world_id_nullifiers == old(self).world_id_nullifiers,
            final(self).governance_profiles == old(self).governance_profiles,
            final(self).allocations == old(self).allocations,
            final(self).staking_positions == old(self).staking_positions,
            final(self).work_nfts == old(self).work_nfts,
            final(self).contributions == old(self).contributions,
            final(self).opportunities == old(self).opportunities,
            final(self).agent_actions == old(self).agent_actions,
            final(self).total_time_supply == old(self).total_time_supply,
            final(self).total_citizens == old(self).total_citizens,
            final(self).total_staked == old(self).total_staked,
            final(self).total_allocated == old(self).total_allocated,
    {
        keyed_put(&mut self.agent_permissions, &caller, permissions);
    }

    /// Mints a soulbound work receipt for `recipient` and credits one TIME
    /// per attested hour.  Only the owner account may attest work
    /// (`Unauthorized` otherwise), and a zero-hour attestation is rejected
    /// outright with `ZeroHours`.  Crediting is deliberately a no-op for
    /// an account that holds no citizen record: the receipt is still
    /// minted, but no balance, earnings or supply moves.
    pub fn mint_work_nft(
        &mut self,
        caller: String,
        recipient: String,
        hours_worked: u64,
        work_type: String,
        description: String,
        now: u64,
    ) -> (r: Result<WorkReceiptNFT, TimeError>)
        requires
            old(self).wf(),
            (caller@ == old(self).owner_id@ && hours_worked > 0) ==> old(
                self,
            ).total_time_supply as int + (hours_worked as int) * (ONE_TIME as int)
                <= u128::MAX as int,
        ensures
            final(self).wf(),
            r is Err ==> *final(self) == *old(self),
            r == Err::<WorkReceiptNFT, TimeError>(TimeError::Unauthorized) <==> caller@ != old(
                self,
            ).owner_id@,
            r == Err::<WorkReceiptNFT, TimeError>(TimeError::ZeroHours) <==> (caller@ == old(
                self,
            ).owner_id@ && hours_worked == 0),
            r is Ok <==> (caller@ == old(self).owner_id@ && hours_worked > 0),
            r matches Ok(nft) ==> {
                &&& nft.owner_id == recipient
                &&& nft.hours_worked == hours_worked
                &&& nft.time_earned as int == (hours_worked as int) * (ONE_TIME as int)
                &&& nft.work_type == work_type
                &&& nft.description == description
                &&& nft.verified_by == caller
                &&& nft.created_at == now
                &&& nft.token_id == old(self).receipts_of(recipient@).len()
                &&& final(self).receipts_of(recipient@) == old(self).receipts_of(recipient@).push(
                    nft,
                )
                &&& (forall|q: Seq<char>|
                    q != recipient@ ==> final(self).receipts_of(q) == old(self).receipts_of(q))
                &&& (old(self).has_citizen(recipient@) ==> {
                    &&& final(self).has_citizen(recipient@)
                    &&& final(self).citizen_idx(recipient@) == old(self).citizen_idx(recipient@)
                    &&& final(self).citizen_of(recipient@).time_balance as int == old(
                        self,
                    ).citizen_of(recipient@).time_balance as int + nft.time_earned as int
                    &&& final(self).citizen_of(recipient@).total_earned as int == old(
                        self,
                    ).citizen_of(recipient@).total_earned as int + nft.time_earned as int
                    &&& final(self).citizens@ == old(self).citizens@.update(
                        old(self).citizen_idx(recipient@),
                        final(self).citizen_of(recipient@),
                    )
                    &&& final(self).total_time_supply as int == old(self).total_time_supply as int
                        + nft.time_earned as int
                })
                &&& (!old(self).has_citizen(recipient@) ==> final(self).citizens == old(
                    self,
                ).citizens && final(self).total_time_supply == old(self).total_time_supply)
                &&& old(self).logged(
                    *final(self),
                    recipient@,
                    ActionKind::WorkMinted,
                    now,
                    ActionDetail::WorkMinted {
                        hours: hours_worked,
                        time_earned: nft.time_earned,
                    },
                )
                &&& final(self).owner_id == old(self).owner_id
                &&& final(self).world_id_nullifiers == old(self).world_id_nullifiers
                &&& final(self).governance_profiles == old(self).governance_profiles
                &&& final(self).allocations == old(self).allocations
                &&& final(self).staking_positions == old(self).staking_positions
                &&& final(self).contributions == old(self).contributions
                &&& final(self).opportunities == old(self).opportunities
                &&& final(self).agent_permissions == old(self).agent_permissions
                &&& final(self).total_citizens == old(self).total_citizens
                &&& final(self).total_staked == old(self).total_staked
                &&& final(self).total_allocated == old(self).total_allocated
            },
    {
        let ghost pre = *self;
        if !(caller == self.owner_id) {
            return Err(TimeError::Unauthorized);
        }
        if hours_worked == 0 {
            return Err(TimeError::ZeroHours);
        }
        let time_earned: u128 = (hours_worked as u128) * ONE_TIME;
        let token_id: usize = match keyed_find(&self.work_nfts, &recipient) {
            Some(i) => self.work_nfts[i].1.len(),
            None => 0,
        };
        let nft = WorkReceiptNFT {
            token_id,
            owner_id: recipient.clone(),
            hours_worked,
            time_earned,
            work_type,
            description,
            verified_by: caller,
            created_at: now,
        };
        keyed_append(&mut self.work_nfts, &recipient, nft.cloned());
        let credited = find_citizen(&self.citizens, &recipient);
        match credited {
            Some(ci) => {
                let bal: u128 = self.citizens[ci].time_balance;
                let earned: u128 = self.citizens[ci].total_earned;
                proof {
                    assert(forall|j: int|
                        0 <= j < pre.citizens@.len() ==> balance_fn()(pre.citizens@[j]) >= 0);
                    crate::sums::lemma_sum_by_elem_le(pre.citizens@, balance_fn(), ci as int);
                }
                self.citizens[ci].time_balance = bal + time_earned;
                self.citizens[ci].total_earned = earned + time_earned;
                self.total_time_supply = self.total_time_supply + time_earned;
            },
            None => {},
        }
        keyed_append(
            &mut self.agent_actions,
            &recipient,
            AgentAction {
                action_type: ActionKind::WorkMinted,
                description: "minted work receipt and credited earnings".to_string(),
                timestamp: now,
                details: ActionDetail::WorkMinted { hours: hours_worked, time_earned },
            },
        );
        proof {
            let post = *self;
            if credited is Some {
                let cii = credited->0 as int;
                assert(post.citizens@ == pre.citizens@.update(cii, post.citizens@[cii]).update(
                    cii,
                    post.citizens@[cii],
                ));
                assert(pre.citizens@.update(cii, post.citizens@[cii]).update(
                    cii,
                    post.citizens@[cii],
                ) =~= pre.citizens@.update(cii, post.citizens@[cii]));
                assert(forall|j: int|
                    0 <= j < post.citizens@.len() ==> (citizen_key(recipient@)(post.citizens@[j])
                        == citizen_key(recipient@)(pre.citizens@[j])));
                lemma_first_match_same(post.citizens@, pre.citizens@, citizen_key(recipient@));
                crate::sums::lemma_sum_by_update(
                    pre.citizens@,
                    balance_fn(),
                    cii,
                    post.citizens@[cii],
                );
            }
            assert forall|i: int| 0 <= i < post.staking_positions@.len() implies (
            #[trigger] post.staking_positions@[i]).1.wf() && post.has_citizen(
                post.staking_positions@[i].0@,
            ) by {
                assert(pre.staking_positions@[i].1.wf());
                assert(pre.has_citizen(pre.staking_positions@[i].0@));
                assert(forall|j: int|
                    0 <= j < pre.citizens@.len() ==> (citizen_key(post.staking_positions@[i].0@)(
                        post.citizens@[j],
                    ) == citizen_key(post.staking_positions@[i].0@)(pre.citizens@[j])));
                lemma_first_match_same(
                    post.citizens@,
                    pre.citizens@,
                    citizen_key(post.staking_positions@[i].0@),
                );
            }
            assert forall|i: int, j: int| 0 <= i < j < post.citizens@.len() implies post.citizens@[i].account_id@
                != post.citizens@[j].account_id@ by {
                assert(post.citizens@[i].account_id@ == pre.citizens@[i].account_id@);
                assert(post.citizens@[j].account_id@ == pre.citizens@[j].account_id@);
            }
            assert forall|i: int, j: int| 0 <= i < j < post.citizens@.len() implies post.citizens@[i].world_id_nullifier@
                != post.citizens@[j].world_id_nullifier@ by {
                assert(post.citizens@[i].world_id_nullifier@
                    == pre.citizens@[i].world_id_nullifier@);
                assert(post.citizens@[j].world_id_nullifier@
                    == pre.citizens@[j].world_id_nullifier@);
            }
            assert forall|i: int| 0 <= i < post.citizens@.len() implies contains_str(
                post.world_id_nullifiers@,
                post.citizens@[i].world_id_nullifier@,
            ) by {
                assert(post.citizens@[i].world_id_nullifier@
                    == pre.citizens@[i].world_id_nullifier@);
                assert(contains_str(
                    pre.world_id_nullifiers@,
                    pre.citizens@[i].world_id_nullifier@,
                ));
            }
            assert(post.actions_of(recipient@).drop_last() =~= pre.actions_of(recipient@));
        }
        Ok(nft)
    }

    /// The jurisdiction-match bonus for directing `amount` at opportunity
    /// `id`: a tenth of the amount (truncating) when the contributing
    /// citizen's jurisdiction equals the opportunity's, else zero.
    pub open spec fn match_bonus(self, k: Seq<char>, id: int, amount: u128) -> int {
        if self.citizen_of(k).jurisdiction@ == self.opportunities@[id].jurisdiction@ {
            (amount as int) / 10
        } else {
            0
        }
    }

    /// The opportunity exists and still accepts funds.
    pub open spec fn opportunity_active(self, id: int) -> bool {
        0 <= id < self.opportunities@.len() && self.opportunities@[id].status
            == OpportunityStatus::Active
    }

    /// Directing `amount` at opportunity `id` cannot overflow the raised
    /// and allocated counters.  This is a machine limit, not a rule of the
    /// engine.
    pub open spec fn alloc_headroom(self, id: int, amount: u128) -> bool {
        0 <= id < self.opportunities@.len() ==> {
            &&& self.opportunities@[id].raised as int + amount as int + (amount as int) / 10
                <= u128::MAX as int
            &&& self.total_allocated as int + amount as int + (amount as int) / 10
                <= u128::MAX as int
        }
    }

    /// Opens a local funding opportunity, escrowing `stake` from the
    /// creator's balance as an anti-spam bond.  The new opportunity starts
    /// active with nothing raised; its id is returned.
    pub fn create_opportunity(
        &mut self,
        caller: String,
        jurisdiction: String,
        goal: u128,
        stake: u128,
        now: u64,
    ) -> (r: Result<usize, TimeError>)
        requires
            old(self).wf(),
        ensures
            final(self).wf(),
            r is Err ==> *final(self) == *old(self),
            r == Err::<usize, TimeError>(TimeError::UnknownCitizen) <==> !old(self).has_citizen(
                caller@,
            ),
            r == Err::<usize, TimeError>(TimeError::InsufficientBalance) <==> (old(
                self,
            ).has_citizen(caller@) && old(self).citizen_of(caller@).time_balance < stake),
            r is Ok <==> (old(self).has_citizen(caller@) && old(self).citizen_of(
                caller@,
            ).time_balance >= stake),
            r matches Ok(id) ==> {
                &&& id == old(self).opportunities@.len()
                &&& final(self).opportunities@ == old(self).opportunities@.push(
                    (LocalOpportunity {
                        creator: caller,
                        jurisdiction,
                        goal,
                        raised: 0,
                        anti_spam_stake: stake,
                        status: OpportunityStatus::Active,
                        created_at: now,
                    }),
                )
                &&& final(self).has_citizen(caller@)
                &&& final(self).citizen_idx(caller@) == old(self).citizen_idx(caller@)
                &&& final(self).citizen_of(caller@).time_balance == old(self).citizen_of(
                    caller@,
                ).time_balance - stake
                &&& final(self).citizens@ == old(self).citizens@.update(
                    old(self).citizen_idx(caller@),
                    final(self).citizen_of(caller@),
                )
                &&& old(self).logged(
                    *final(self),
                    caller@,
                    ActionKind::OpportunityCreated,
                    now,
                    ActionDetail::OpportunityCreated {
                        opportunity_id: id,
                        goal,
                        anti_spam_stake: stake,
                    },
                )
                &&& final(self).owner_id == old(self).owner_id
                &&& final(self).world_id_nullifiers == old(self).world_id_nullifiers
                &&& final(self).governance_profiles == old(self).governance_profiles
                &&& final(self).allocations == old(self).allocations
                &&& final(self).staking_positions == old(self).staking_positions
                &&& final(self).work_nfts == old(self).work_nfts
                &&& final(self).contributions == old(self).contributions
                &&& final(self).agent_permissions == old(self).agent_permissions
                &&& final(self).total_time_supply == old(self).total_time_supply
                &&& final(self).total_citizens == old(self).total_citizens
                &&& final(self).total_staked == old(self).total_staked
                &&& final(self).total_allocated == old(self).total_allocated
            },
    {
        let ghost pre = *self;
        let ci: usize = match find_citizen(&self.citizens, &caller) {
            None => {
                return Err(TimeError::UnknownCitizen);
            },
            Some(i) => i,
        };
        let bal: u128 = self.citizens[ci].time_balance;
        if bal < stake {
            return Err(TimeError::InsufficientBalance);
        }
        let id: usize = self.opportunities.len();
        self.citizens[ci].time_balance = bal - stake;
        self.opportunities.push(
            LocalOpportunity {
                creator: caller.clone(),
                jurisdiction,
                goal,
                raised: 0,
                anti_spam_stake: stake,
                status: OpportunityStatus::Active,
                created_at: now,
            },
        );
        keyed_append(
            &mut self.agent_actions,
            &caller,
            AgentAction {
                action_type: ActionKind::OpportunityCreated,
                description: "opened a local funding opportunity".to_string(),
                timestamp: now,
                details: ActionDetail::OpportunityCreated {
                    opportunity_id: id,
                    goal,
                    anti_spam_stake: stake,
                },
            },
        );
        proof {
            let post = *self;
            let cii = ci as int;
            assert(post.citizens@ == pre.citizens@.update(cii, post.citizens@[cii]));
            assert(forall|j: int|
                0 <= j < post.citizens@.len() ==> (citizen_key(caller@)(post.citizens@[j])
                    == citizen_key(caller@)(pre.citizens@[j])));
            lemma_first_match_same(post.citizens@, pre.citizens@, citizen_key(caller@));
            crate::sums::lemma_sum_by_update(pre.citizens@, balance_fn(), cii, post.citizens@[cii]);
            assert forall|i: int| 0 <= i < post.staking_positions@.len() implies (
            #[trigger] post.staking_positions@[i]).1.wf() && post.has_citizen(
                post.staking_positions@[i].0@,
            ) by {
                assert(pre.staking_positions@[i].1.wf());
                assert(pre.has_citizen(pre.staking_positions@[i].0@));
                assert(forall|j: int|
                    0 <= j < pre.citizens@.len() ==> (citizen_key(post.staking_positions@[i].0@)(
                        post.citizens@[j],
                    ) == citizen_key(post.staking_positions@[i].0@)(pre.citizens@[j])));
                lemma_first_match_same(
                    post.citizens@,
                    pre.citizens@,
                    citizen_key(post.staking_positions@[i].0@),
                );
            }
            assert(post.actions_of(caller@).drop_last() =~= pre.actions_of(caller@));
        }
        Ok(id)
    }

    /// Directs `amount` of the caller's balance at an active opportunity.
    /// A matching jurisdiction mints a bonus of a tenth of the amount on
    /// top: the bonus is protocol inflation, added to the opportunity's
    /// `raised` and the allocated counter but never deducted from the
    /// citizen.  Once `raised` reaches the goal the opportunity flips to
    /// `Funded`, one-directionally.  Returns the amount and the bonus.
    pub fn allocate(
        &mut self,
        caller: String,
        opportunity_id: usize,
        amount: u128,
        now: u64,
    ) -> (r: Result<(u128, u128), TimeError>)
        requires
            old(self).wf(),
            old(self).alloc_headroom(opportunity_id as int, amount),
        ensures
            final(self).wf(),
            r is Err ==> *final(self) == *old(self),
            r == Err::<(u128, u128), TimeError>(TimeError::UnknownCitizen) <==> !old(
                self,
            ).has_citizen(caller@),
            r == Err::<(u128, u128), TimeError>(TimeError::OpportunityNotActive) <==> (old(
                self,
            ).has_citizen(caller@) && !old(self).opportunity_active(opportunity_id as int)),
            r == Err::<(u128, u128), TimeError>(TimeError::InsufficientBalance) <==> (old(
                self,
            ).has_citizen(caller@) && old(self).opportunity_active(opportunity_id as int) && old(
                self,
            ).citizen_of(caller@).time_balance < amount),
            r is Ok <==> (old(self).has_citizen(caller@) && old(self).opportunity_active(
                opportunity_id as int,
            ) && old(self).citizen_of(caller@).time_balance >= amount),
            r matches Ok(pair) ==> {
                &&& pair.0 == amount
                &&& pair.1 as int == old(self).match_bonus(caller@, opportunity_id as int, amount)
                &&& final(self).opportunities@.len() == old(self).opportunities@.len()
                &&& final(self).opportunities@ == old(self).opportunities@.update(
                    opportunity_id as int,
                    final(self).opportunities@[opportunity_id as int],
                )
                &&& final(self).opportunities@[opportunity_id as int].raised as int == old(
                    self,
                ).opportunities@[opportunity_id as int].raised as int + amount + pair.1
                &&& final(self).opportunities@[opportunity_id as int].goal == old(
                    self,
                ).opportunities@[opportunity_id as int].goal
                &&& final(self).opportunities@[opportunity_id as int].jurisdiction == old(
                    self,
                ).opportunities@[opportunity_id as int].jurisdiction
                &&& final(self).opportunities@[opportunity_id as int].creator == old(
                    self,
                ).opportunities@[opportunity_id as int].creator
                &&& final(self).opportunities@[opportunity_id as int].anti_spam_stake == old(
                    self,
                ).opportunities@[opportunity_id as int].anti_spam_stake
                &&& (old(self).opportunities@[opportunity_id as int].raised as int + amount
                    + pair.1 >= old(self).opportunities@[opportunity_id as int].goal as int
                    ==> final(self).opportunities@[opportunity_id as int].status
                    == OpportunityStatus::Funded)
                &&& (old(self).opportunities@[opportunity_id as int].raised as int + amount
                    + pair.1 < old(self).opportunities@[opportunity_id as int].goal as int
                    ==> final(self).opportunities@[opportunity_id as int].status
                    == OpportunityStatus::Active)
                &&& final(self).has_citizen(caller@)
                &&& final(self).citizen_idx(caller@) == old(self).citizen_idx(caller@)
                &&& final(self).citizen_of(caller@).time_balance == old(self).citizen_of(
                    caller@,
                ).time_balance - amount
                &&& final(self).citizens@ == old(self).citizens@.update(
                    old(self).citizen_idx(caller@),
                    final(self).citizen_of(caller@),
                )
                &&& final(self).total_allocated as int == old(self).total_allocated as int + amount
                    + pair.1
                &&& final(self).contributions_of(caller@) == old(self).contributions_of(
                    caller@,
                ).push(
                    (Contribution { opportunity_id, amount, bonus: pair.1, timestamp: now }),
                )
                &&& (forall|q: Seq<char>|
                    q != caller@ ==> final(self).contributions_of(q) == old(self).contributions_of(
                        q,
                    ))
                &&& old(self).logged(
                    *final(self),
                    caller@,
                    ActionKind::Allocated,
                    now,
                    ActionDetail::Allocated { opportunity_id, amount, bonus: pair.1 },
                )
                &&& final(self).owner_id == old(self).owner_id
                &&& final(self).world_id_nullifiers == old(self).world_id_nullifiers
                &&& final(self).governance_profiles == old(self).governance_profiles
                &&& final(self).allocations == old(self).allocations
                &&& final(self).staking_positions == old(self).staking_positions
                &&& final(self).work_nfts == old(self).work_nfts
                &&& final(self).agent_permissions == old(self).agent_permissions
                &&& final(self).total_time_supply == old(self).total_time_supply
                &&& final(self).total_citizens == old(self).total_citizens
                &&& final(self).total_staked == old(self).total_staked
            },
    {
        let ghost pre = *self;
        let ci: usize = match find_citizen(&self.citizens, &caller) {
            None => {
                return Err(TimeError::UnknownCitizen);
            },
            Some(i) => i,
        };
        if opportunity_id >= self.opportunities.len() {
            return Err(TimeError::OpportunityNotActive);
        }
        if !(self.opportunities[opportunity_id].status == OpportunityStatus::Active) {
            return Err(TimeError::OpportunityNotActive);
        }
        let bal: u128 = self.citizens[ci].time_balance;
        if bal < amount {
            return Err(TimeError::InsufficientBalance);
        }
        let matches_jurisdiction: bool = self.citizens[ci].jurisdiction
            == self.opportunities[opportunity_id].jurisdiction;
        let bonus: u128 = if matches_jurisdiction {
            amount / 10
        } else {
            0
        };
        let added: u128 = amount + bonus;
        self.citizens[ci].time_balance = bal - amount;
        let raised: u128 = self.opportunities[opportunity_id].raised;
        self.opportunities[opportunity_id].raised = raised + added;
        if raised + added >= self.opportunities[opportunity_id].goal {
            self.opportunities[opportunity_id].status = OpportunityStatus::Funded;
        }
        self.total_allocated = self.total_allocated + added;
        keyed_append(
            &mut self.contributions,
            &caller,
            Contribution { opportunity_id, amount, bonus, timestamp: now },
        );
        keyed_append(
            &mut self.agent_actions,
            &caller,
            AgentAction {
                action_type: ActionKind::Allocated,
                description: "directed TIME at a local opportunity".to_string(),
                timestamp: now,
                details: ActionDetail::Allocated { opportunity_id, amount, bonus },
            },
        );
        proof {
            let post = *self;
            let cii = ci as int;
            let oid = opportunity_id as int;
            assert(post.citizens@ == pre.citizens@.update(cii, post.citizens@[cii]));
            assert(forall|j: int|
                0 <= j < post.citizens@.len() ==> (citizen_key(caller@)(post.citizens@[j])
                    == citizen_key(caller@)(pre.citizens@[j])));
            lemma_first_match_same(post.citizens@, pre.citizens@, citizen_key(caller@));
            crate::sums::lemma_sum_by_update(pre.citizens@, balance_fn(), cii, post.citizens@[cii]);
            assert(post.opportunities@ =~= pre.opportunities@.update(
                oid,
                post.opportunities@[oid],
            ));
            assert forall|i: int| 0 <= i < post.staking_positions@.len() implies (
            #[trigger] post.staking_positions@[i]).1.wf() && post.has_citizen(
                post.staking_positions@[i].0@,
            ) by {
                assert(pre.staking_positions@[i].1.wf());
                assert(pre.has_citizen(pre.staking_positions@[i].0@));
                assert(forall|j: int|
                    0 <= j < pre.citizens@.len() ==> (citizen_key(post.staking_positions@[i].0@)(
                        post.citizens@[j],
                    ) == citizen_key(post.staking_positions@[i].0@)(pre.citizens@[j])));
                lemma_first_match_same(
                    post.citizens@,
                    pre.citizens@,
                    citizen_key(post.staking_positions@[i].0@),
                );
            }
            assert(post.actions_of(caller@).drop_last() =~= pre.actions_of(caller@));
        }
        Ok((amount, bonus))
    }

    /// Whether an identity nullifier has already backed a claim.
    pub fn is_nullifier_used(&self, nullifier_hash: String) -> (r: bool)
        ensures
            r == contains_str(self.world_id_nullifiers@, nullifier_hash@),
    {
        find_string(&self.world_id_nullifiers, &nullifier_hash)
    }

    /// The citizen record of an account, if it claimed.
    pub fn get_citizen(&self, account_id: String) -> (r: Option<Citizen>)
        ensures
            match r {
                Some(c) => self.has_citizen(account_id@) && c == self.citizen_of(account_id@),
                None => !self.has_citizen(account_id@),
            },
    {
        match find_citizen(&self.citizens, &account_id) {
            Some(i) => Some(self.citizens[i].cloned()),
            None => None,
        }
    }

    /// The governance profile discovery stored for an account.
    pub fn get_governance_profile(&self, account_id: String) -> (r: Option<GovernanceProfile>)
        ensures
            match r {
                Some(p) => keyed_has(self.governance_profiles@, account_id@) && p == keyed_get(
                    self.governance_profiles@,
                    account_id@,
                ),
                None => !keyed_has(self.governance_profiles@, account_id@),
            },
    {
        match keyed_find(&self.governance_profiles, &account_id) {
            Some(i) => Some(self.governance_profiles[i].1.cloned()),
            None => None,
        }
    }

    /// An account's allocation ledger, in storage order; empty if none.
    pub fn get_allocations(&self, account_id: String) -> (r: Vec<Allocation>)
        ensures
            r@ == self.ledger_of(account_id@),
    {
        match keyed_find(&self.allocations, &account_id) {
            Some(i) => crate::types::clone_allocations(&self.allocations[i].1),
            None => Vec::new(),
        }
    }

    /// An account's staking position, if it holds one.
    pub fn get_staking_position(&self, account_id: String) -> (r: Option<StakingPosition>)
        ensures
            match r {
                Some(p) => self.has_position(account_id@) && p.same_as(
                    self.position_of(account_id@),
                ),
                None => !self.has_position(account_id@),
            },
    {
        match keyed_find(&self.staking_positions, &account_id) {
            Some(i) => Some(self.staking_positions[i].1.cloned()),
            None => None,
        }
    }

    /// An account's soulbound work receipts, in mint order.
    pub fn get_work_nfts(&self, account_id: String) -> (r: Vec<WorkReceiptNFT>)
        ensures
            r@ == self.receipts_of(account_id@),
    {
        match keyed_find(&self.work_nfts, &account_id) {
            Some(i) => crate::types::clone_work_receipts(&self.work_nfts[i].1),
            None => Vec::new(),
        }
    }

    /// An account's audit trail, in insertion order.
    pub fn get_agent_actions(&self, account_id: String) -> (r: Vec<AgentAction>)
        ensures
            r@ == self.actions_of(account_id@),
    {
        match keyed_find(&self.agent_actions, &account_id) {
            Some(i) => crate::types::clone_agent_actions(&self.agent_actions[i].1),
            None => Vec::new(),
        }
    }

    /// The agent capability bounds stored for an account.
    pub fn get_agent_permissions(&self, account_id: String) -> (r: Option<AgentPermissions>)
        ensures
            match r {
                Some(p) => keyed_has(self.agent_permissions@, account_id@) && p == keyed_get(
                    self.agent_permissions@,
                    account_id@,
                ),
                None => !keyed_has(self.agent_permissions@, account_id@),
            },
    {
        match keyed_find(&self.agent_permissions, &account_id) {
            Some(i) => Some(self.agent_permissions[i].1),
            None => None,
        }
    }

    /// An account's contributions to local opportunities, in order.
    pub fn get_contributions(&self, account_id: String) -> (r: Vec<Contribution>)
        ensures
            r@ == self.contributions_of(account_id@),
    {
        match keyed_find(&self.contributions, &account_id) {
            Some(i) => crate::types::clone_contributions(&self.contributions[i].1),
            None => Vec::new(),
        }
    }

    /// The opportunity with the given id, if it exists.
    pub fn get_opportunity(&self, opportunity_id: usize) -> (r: Option<LocalOpportunity>)
        ensures
            match r {
                Some(o) => opportunity_id < self.opportunities@.len() && o
                    == self.opportunities@[opportunity_id as int],
                None => opportunity_id >= self.opportunities@.len(),
            },
    {
        if opportunity_id < self.opportunities.len() {
            Some(self.opportunities[opportunity_id].cloned())
        } else {
            None
        }
    }
}

/// No operation sequence can drive a balance negative or conjure TIME: a
/// balance is never negative, and never exceeds the total issued supply.
pub proof fn law_balance_bounded(p: TimeProtocol, i: int)
    requires
        p.wf(),
        0 <= i < p.citizens@.len(),
    ensures
        0 <= p.citizens@[i].time_balance as int,
        p.citizens@[i].time_balance as int <= p.total_time_supply as int,
{
    assert(forall|j: int| 0 <= j < p.citizens@.len() ==> balance_fn()(p.citizens@[j]) >= 0);
    crate::sums::lemma_sum_by_elem_le(p.citizens@, balance_fn(), i);
}

/// An identity nullifier backs at most one citizen record: two distinct
/// records always carry distinct nullifiers.
pub proof fn law_nullifier_unique(p: TimeProtocol, i: int, j: int)
    requires
        p.wf(),
        0 <= i < p.citizens@.len(),
        0 <= j < p.citizens@.len(),
        i != j,
    ensures
        p.citizens@[i].world_id_nullifier@ != p.citizens@[j].world_id_nullifier@,
{
}

/// A staking position's percentage allocations never sum past 100.
pub proof fn law_voting_allocations_bounded(p: TimeProtocol, i: int)
    requires
        p.wf(),
        0 <= i < p.staking_positions@.len(),
    ensures
        sum_by(p.staking_positions@[i].1.allocations@, pct_fn()) <= 100,
{
    assert(p.staking_positions@[i].1.wf());
}

/// Voting power always equals the integer square root of the cumulative
/// staked amount.  Together with [`crate::arith::lemma_floor_sqrt_unique`]
/// this makes voting power a function of the total stake alone, never of
/// the deposit history.
pub proof fn law_voting_power_quadratic(p: TimeProtocol, i: int)
    requires
        p.wf(),
        0 <= i < p.staking_positions@.len(),
    ensures
        is_floor_sqrt(
            p.staking_positions@[i].1.staked_amount as int,
            p.staking_positions@[i].1.voting_power as int,
        ),
{
    assert(p.staking_positions@[i].1.wf());
}

/// The staked counter is exactly the sum of all positions, and together
/// with all spendable balances stays within the issued supply.
pub proof fn law_supply_conservation(p: TimeProtocol)
    requires
        p.wf(),
    ensures
        p.total_staked as int == sum_by(p.staking_positions@, staked_fn()),
        sum_by(p.citizens@, balance_fn()) + p.total_staked as int <= p.total_time_supply as int,
{
}

} // verus!
