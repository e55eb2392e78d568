use time_protocol::Citizen;
use time_protocol::TimeError;
use time_protocol::TimeProtocol;
use time_protocol::VerificationLevel;
use time_protocol::NANOSECONDS_PER_DAY;
use time_protocol::ONE_TIME;
use time_protocol::UNSTAKE_COOLDOWN_NS;

const NOW: u64 = 10_000 * NANOSECONDS_PER_DAY;

fn claim(p: &mut TimeProtocol, who: &str, nullifier: &str, days: u64, now: u64) -> Citizen {
    p.claim_time_with_world_id(
        who.to_string(),
        now - days * NANOSECONDS_PER_DAY,
        "merkle-root".to_string(),
        nullifier.to_string(),
        "proof-blob".to_string(),
        VerificationLevel::Orb,
        now,
    )
    .unwrap()
}

#[test]
fn test_new_contract() {
    let contract = TimeProtocol::new("owner.near".to_string());
    let (supply, citizens, staked) = contract.get_global_stats();

    assert_eq!(supply, 0);
    assert_eq!(citizens, 0);
    assert_eq!(staked, 0);
}

#[test]
fn test_claim_grants_one_time_per_day_lived() {
    let mut p = TimeProtocol::new("owner.near".to_string());
    let c = claim(&mut p, "alice.near", "null-a", 3650, NOW);
    assert_eq!(c.time_balance, 3650 * ONE_TIME);
    assert_eq!(c.total_earned, 0);
    assert!(c.claimed_birthright);
    assert_eq!(c.world_id_nullifier, "null-a");
    assert_eq!(c.jurisdiction, "");
    let (supply, citizens, staked) = p.get_global_stats();
    assert_eq!(supply, 3650 * ONE_TIME);
    assert_eq!(citizens, 1);
    assert_eq!(staked, 0);
    let stored = p.get_citizen("alice.near".to_string()).unwrap();
    assert_eq!(stored.time_balance, 3650 * ONE_TIME);
}

#[test]
fn test_claim_duplicate_nullifier_rejected() {
    let mut p = TimeProtocol::new("owner.near".to_string());
    claim(&mut p, "alice.near", "null-a", 100, NOW);
    assert!(p.is_nullifier_used("null-a".to_string()));
    assert!(!p.is_nullifier_used("null-b".to_string()));
    let r = p.claim_time_with_world_id(
        "bob.near".to_string(),
        NOW - NANOSECONDS_PER_DAY,
        "merkle-root".to_string(),
        "null-a".to_string(),
        "proof-blob".to_string(),
        VerificationLevel::Device,
        NOW,
    );
    assert_eq!(r.unwrap_err(), TimeError::DuplicateIdentity);
    let (_, citizens, _) = p.get_global_stats();
    assert_eq!(citizens, 1);
}

#[test]
fn test_claim_same_account_rejected() {
    let mut p = TimeProtocol::new("owner.near".to_string());
    claim(&mut p, "alice.near", "null-a", 100, NOW);
    let r = p.claim_time_with_world_id(
        "alice.near".to_string(),
        NOW - NANOSECONDS_PER_DAY,
        "merkle-root".to_string(),
        "null-b".to_string(),
        "proof-blob".to_string(),
        VerificationLevel::Orb,
        NOW,
    );
    assert_eq!(r.unwrap_err(), TimeError::DuplicateIdentity);
}

#[test]
fn test_claim_future_birthdate_rejected() {
    let mut p = TimeProtocol::new("owner.near".to_string());
    let r = p.claim_time_with_world_id(
        "alice.near".to_string(),
        NOW + 1,
        "merkle-root".to_string(),
        "null-a".to_string(),
        "proof-blob".to_string(),
        VerificationLevel::Orb,
        NOW,
    );
    assert_eq!(r.unwrap_err(), TimeError::InvalidBirthdate);
    let (supply, citizens, _) = p.get_global_stats();
    assert_eq!(supply, 0);
    assert_eq!(citizens, 0);
}

#[test]
fn test_mint_requires_authorized_verifier() {
    let mut p = TimeProtocol::new("owner.near".to_string());
    claim(&mut p, "alice.near", "null-a", 10, NOW);
    let r = p.mint_work_nft(
        "mallory.near".to_string(),
        "alice.near".to_string(),
        5,
        "care".to_string(),
        "five hours".to_string(),
        NOW,
    );
    assert_eq!(r.unwrap_err(), TimeError::Unauthorized);
}

#[test]
fn test_mint_zero_hours_rejected() {
    let mut p = TimeProtocol::new("owner.near".to_string());
    claim(&mut p, "alice.near", "null-a", 10, NOW);
    let r = p.mint_work_nft(
        "owner.near".to_string(),
        "alice.near".to_string(),
        0,
        "care".to_string(),
        "nothing".to_string(),
        NOW,
    );
    assert_eq!(r.unwrap_err(), TimeError::ZeroHours);
    assert_eq!(p.get_work_nfts("alice.near".to_string()).len(), 0);
}

#[test]
fn test_mint_credits_balance_and_earnings() {
    let mut p = TimeProtocol::new("owner.near".to_string());
    claim(&mut p, "alice.near", "null-a", 3650, NOW);
    let nft = p
        .mint_work_nft(
            "owner.near".to_string(),
            "alice.near".to_string(),
            10,
            "teaching".to_string(),
            "ten hours of class".to_string(),
            NOW,
        )
        .unwrap();
    assert_eq!(nft.time_earned, 10 * ONE_TIME);
    assert_eq!(nft.hours_worked, 10);
    assert_eq!(nft.owner_id, "alice.near");
    assert_eq!(nft.verified_by, "owner.near");
    assert_eq!(nft.token_id, 0);
    let c = p.get_citizen("alice.near".to_string()).unwrap();
    assert_eq!(c.time_balance, 3660 * ONE_TIME);
    assert_eq!(c.total_earned, 10 * ONE_TIME);
    let (supply, _, _) = p.get_global_stats();
    assert_eq!(supply, 3660 * ONE_TIME);
    let receipts = p.get_work_nfts("alice.near".to_string());
    assert_eq!(receipts.len(), 1);
    assert_eq!(receipts[0].time_earned, 10 * ONE_TIME);
}

#[test]
fn test_mint_to_unknown_account_drops_credit() {
    let mut p = TimeProtocol::new("owner.near".to_string());
    let nft = p
        .mint_work_nft(
            "owner.near".to_string(),
            "ghost.near".to_string(),
            4,
            "care".to_string(),
            "four hours".to_string(),
            NOW,
        )
        .unwrap();
    assert_eq!(nft.time_earned, 4 * ONE_TIME);
    assert_eq!(p.get_work_nfts("ghost.near".to_string()).len(), 1);
    let (supply, _, _) = p.get_global_stats();
    assert_eq!(supply, 0);
    assert!(p.get_citizen("ghost.near".to_string()).is_none());
}

#[test]
fn test_stake_cap_is_twice_attested_earnings() {
    let mut p = TimeProtocol::new("owner.near".to_string());
    claim(&mut p, "alice.near", "null-a", 3650, NOW);
    p.mint_work_nft(
        "owner.near".to_string(),
        "alice.near".to_string(),
        10,
        "care".to_string(),
        "ten hours".to_string(),
        NOW,
    )
    .unwrap();
    let pos = p.stake("alice.near".to_string(), 15 * ONE_TIME, NOW).unwrap();
    assert_eq!(pos.staked_amount, 15 * ONE_TIME);
    let r = p.stake("alice.near".to_string(), 25 * ONE_TIME, NOW);
    assert_eq!(r.unwrap_err(), TimeError::StakeCapExceeded);
    let kept = p.get_staking_position("alice.near".to_string()).unwrap();
    assert_eq!(kept.staked_amount, 15 * ONE_TIME);
}

#[test]
fn test_stake_errors() {
    let mut p = TimeProtocol::new("owner.near".to_string());
    let r = p.stake("nobody.near".to_string(), ONE_TIME, NOW);
    assert_eq!(r.unwrap_err(), TimeError::UnknownCitizen);
    claim(&mut p, "alice.near", "null-a", 1, NOW);
    let r = p.stake("alice.near".to_string(), 2 * ONE_TIME, NOW);
    assert_eq!(r.unwrap_err(), TimeError::InsufficientBalance);
}

#[test]
fn test_stake_without_earnings_is_uncapped() {
    let mut p = TimeProtocol::new("owner.near".to_string());
    claim(&mut p, "alice.near", "null-a", 3650, NOW);
    let pos = p.stake("alice.near".to_string(), 3000 * ONE_TIME, NOW).unwrap();
    assert_eq!(pos.staked_amount, 3000 * ONE_TIME);
    let c = p.get_citizen("alice.near".to_string()).unwrap();
    assert_eq!(c.time_balance, 650 * ONE_TIME);
    let (_, _, staked) = p.get_global_stats();
    assert_eq!(staked, 3000 * ONE_TIME);
}

#[test]
fn test_voting_power_is_integer_sqrt_of_total_stake() {
    let mut p = TimeProtocol::new("owner.near".to_string());
    claim(&mut p, "alice.near", "null-a", 3650, NOW);
    let pos = p.stake("alice.near".to_string(), 25, NOW).unwrap();
    assert_eq!(pos.voting_power, 5);
    let pos = p.stake("alice.near".to_string(), 24, NOW).unwrap();
    assert_eq!(pos.staked_amount, 49);
    assert_eq!(pos.voting_power, 7);
    let stored = p.get_staking_position("alice.near".to_string()).unwrap();
    assert_eq!(stored.voting_power, 7);
}

#[test]
fn test_unstake_cooldown_gate() {
    let mut p = TimeProtocol::new("owner.near".to_string());
    claim(&mut p, "alice.near", "null-a", 3650, NOW);
    p.stake("alice.near".to_string(), 100 * ONE_TIME, NOW).unwrap();
    p.request_unstake("alice.near".to_string(), NOW).unwrap();
    let early = p.complete_unstake("alice.near".to_string(), NOW + UNSTAKE_COOLDOWN_NS - 1);
    assert_eq!(early.unwrap_err(), TimeError::CooldownNotElapsed);
    assert!(p.get_staking_position("alice.near".to_string()).is_some());
    p.complete_unstake("alice.near".to_string(), NOW + UNSTAKE_COOLDOWN_NS).unwrap();
    assert!(p.get_staking_position("alice.near".to_string()).is_none());
    let c = p.get_citizen("alice.near".to_string()).unwrap();
    assert_eq!(c.time_balance, 3650 * ONE_TIME);
    let (_, _, staked) = p.get_global_stats();
    assert_eq!(staked, 0);
}

#[test]
fn test_unstake_without_request_or_position() {
    let mut p = TimeProtocol::new("owner.near".to_string());
    let r = p.request_unstake("alice.near".to_string(), NOW);
    assert_eq!(r.unwrap_err(), TimeError::NoPosition);
    let r = p.complete_unstake("alice.near".to_string(), NOW);
    assert_eq!(r.unwrap_err(), TimeError::NoPosition);
    claim(&mut p, "alice.near", "null-a", 3650, NOW);
    p.stake("alice.near".to_string(), ONE_TIME, NOW).unwrap();
    let r = p.complete_unstake("alice.near".to_string(), NOW + UNSTAKE_COOLDOWN_NS);
    assert_eq!(r.unwrap_err(), TimeError::CooldownNotElapsed);
}

#[test]
fn test_stake_topup_keeps_cooldown_and_resets_staked_at() {
    let mut p = TimeProtocol::new("owner.near".to_string());
    claim(&mut p, "alice.near", "null-a", 3650, NOW);
    p.stake("alice.near".to_string(), 10 * ONE_TIME, NOW).unwrap();
    p.request_unstake("alice.near".to_string(), NOW + 5).unwrap();
    let pos = p.stake("alice.near".to_string(), 10 * ONE_TIME, NOW + 9).unwrap();
    assert_eq!(pos.staked_amount, 20 * ONE_TIME);
    assert_eq!(pos.staked_at, NOW + 9);
    assert_eq!(pos.unstake_requested_at, Some(NOW + 5));
}

#[test]
fn test_floor_sqrt_edges() {
    assert_eq!(time_protocol::floor_sqrt_u128(0), 0);
    assert_eq!(time_protocol::floor_sqrt_u128(1), 1);
    assert_eq!(time_protocol::floor_sqrt_u128(3), 1);
    assert_eq!(time_protocol::floor_sqrt_u128(4), 2);
    assert_eq!(time_protocol::floor_sqrt_u128(99), 9);
    assert_eq!(time_protocol::floor_sqrt_u128(u128::MAX), (1u128 << 64) - 1);
}
