use time_protocol::ActionDetail;
use time_protocol::ActionKind;
use time_protocol::AgentPermissions;
use time_protocol::Allocation;
use time_protocol::ChoiceKind;
use time_protocol::Citizen;
use time_protocol::GovLevel;
use time_protocol::OpportunityStatus;
use time_protocol::TimeError;
use time_protocol::TimeProtocol;
use time_protocol::VerificationLevel;
use time_protocol::NANOSECONDS_PER_DAY;
use time_protocol::ONE_TIME;

const NOW: u64 = 10_000 * NANOSECONDS_PER_DAY;

fn claim(p: &mut TimeProtocol, who: &str, nullifier: &str, days: u64, now: u64) -> Citizen {
    p.claim_time_with_world_id(
        who.to_string(),
        now - days * NANOSECONDS_PER_DAY,
        "merkle-root".to_string(),
        nullifier.to_string(),
        "proof-blob".to_string(),
        VerificationLevel::Orb,
        now,
    )
    .unwrap()
}

fn entry(choice: &str, amount: u128, percentage: u8) -> Allocation {
    Allocation {
        choice_id: choice.to_string(),
        choice_type: ChoiceKind::Official,
        level: GovLevel::Local,
        amount,
        percentage,
        updated_at: NOW,
    }
}

#[test]
fn test_set_governance_profile_updates_jurisdiction() {
    let mut p = TimeProtocol::new("owner.near".to_string());
    let r = p.set_governance_profile(
        "nobody.near".to_string(),
        "san-francisco-ca".to_string(),
        12,
        40,
        NOW,
    );
    assert_eq!(r.unwrap_err(), TimeError::UnknownCitizen);
    claim(&mut p, "alice.near", "null-a", 100, NOW);
    p.set_governance_profile(
        "alice.near".to_string(),
        "san-francisco-ca".to_string(),
        12,
        40,
        NOW,
    )
    .unwrap();
    let c = p.get_citizen("alice.near".to_string()).unwrap();
    assert_eq!(c.jurisdiction, "san-francisco-ca");
    let g = p.get_governance_profile("alice.near".to_string()).unwrap();
    assert_eq!(g.jurisdiction, "san-francisco-ca");
    assert_eq!(g.officials_count, 12);
    assert_eq!(g.laws_count, 40);
    assert_eq!(g.last_updated, NOW);
}

#[test]
fn test_initialize_status_quo_within_hundred_percent() {
    let mut p = TimeProtocol::new("owner.near".to_string());
    claim(&mut p, "alice.near", "null-a", 100, NOW);
    let over = vec![entry("mayor-sf", ONE_TIME, 60), entry("governor-ca", ONE_TIME, 41)];
    let r = p.initialize_status_quo_allocation("alice.near".to_string(), over, NOW);
    assert_eq!(r.unwrap_err(), TimeError::AllocationOverflow);
    assert_eq!(p.get_allocations("alice.near".to_string()).len(), 0);
    let ok = vec![entry("mayor-sf", ONE_TIME, 60), entry("governor-ca", ONE_TIME, 40)];
    p.initialize_status_quo_allocation("alice.near".to_string(), ok, NOW).unwrap();
    let stored = p.get_allocations("alice.near".to_string());
    assert_eq!(stored.len(), 2);
    assert_eq!(stored[0].choice_id, "mayor-sf");
    assert_eq!(stored[0].percentage, 60);
    assert_eq!(stored[1].choice_id, "governor-ca");
    assert_eq!(stored[1].percentage, 40);
}

#[test]
fn test_reallocate_moves_tracked_time() {
    let mut p = TimeProtocol::new("owner.near".to_string());
    claim(&mut p, "alice.near", "null-a", 100, NOW);
    let ledger = vec![entry("mayor-sf", 100 * ONE_TIME, 50), entry("governor-ca", 50 * ONE_TIME, 25)];
    p.initialize_status_quo_allocation("alice.near".to_string(), ledger, NOW).unwrap();
    p.reallocate_time(
        "alice.near".to_string(),
        "mayor-sf".to_string(),
        "governor-ca".to_string(),
        40 * ONE_TIME,
        NOW + 1,
    )
    .unwrap();
    let stored = p.get_allocations("alice.near".to_string());
    assert_eq!(stored[0].amount, 60 * ONE_TIME);
    assert_eq!(stored[1].amount, 90 * ONE_TIME);
    p.reallocate_time(
        "alice.near".to_string(),
        "mayor-sf".to_string(),
        "school-board-sf".to_string(),
        10 * ONE_TIME,
        NOW + 2,
    )
    .unwrap();
    let stored = p.get_allocations("alice.near".to_string());
    assert_eq!(stored.len(), 3);
    assert_eq!(stored[0].amount, 50 * ONE_TIME);
    assert_eq!(stored[2].choice_id, "school-board-sf");
    assert_eq!(stored[2].amount, 10 * ONE_TIME);
    assert_eq!(stored[2].percentage, 0);
    assert_eq!(stored[2].updated_at, NOW + 2);
    let c = p.get_citizen("alice.near".to_string()).unwrap();
    assert_eq!(c.time_balance, 100 * ONE_TIME);
}

#[test]
fn test_reallocate_insufficient_leaves_both_unchanged() {
    let mut p = TimeProtocol::new("owner.near".to_string());
    claim(&mut p, "alice.near", "null-a", 100, NOW);
    let ledger = vec![entry("mayor-sf", 30 * ONE_TIME, 50), entry("governor-ca", 5 * ONE_TIME, 25)];
    p.initialize_status_quo_allocation("alice.near".to_string(), ledger, NOW).unwrap();
    let r = p.reallocate_time(
        "alice.near".to_string(),
        "mayor-sf".to_string(),
        "governor-ca".to_string(),
        31 * ONE_TIME,
        NOW + 1,
    );
    assert_eq!(r.unwrap_err(), TimeError::InsufficientAllocation);
    let r = p.reallocate_time(
        "alice.near".to_string(),
        "unheard-of".to_string(),
        "governor-ca".to_string(),
        ONE_TIME,
        NOW + 1,
    );
    assert_eq!(r.unwrap_err(), TimeError::InsufficientAllocation);
    let stored = p.get_allocations("alice.near".to_string());
    assert_eq!(stored.len(), 2);
    assert_eq!(stored[0].amount, 30 * ONE_TIME);
    assert_eq!(stored[1].amount, 5 * ONE_TIME);
}

#[test]
fn test_reallocate_onto_itself_changes_nothing() {
    let mut p = TimeProtocol::new("owner.near".to_string());
    claim(&mut p, "alice.near", "null-a", 100, NOW);
    let ledger = vec![entry("mayor-sf", 30 * ONE_TIME, 50)];
    p.initialize_status_quo_allocation("alice.near".to_string(), ledger, NOW).unwrap();
    p.reallocate_time(
        "alice.near".to_string(),
        "mayor-sf".to_string(),
        "mayor-sf".to_string(),
        20 * ONE_TIME,
        NOW + 1,
    )
    .unwrap();
    let stored = p.get_allocations("alice.near".to_string());
    assert_eq!(stored.len(), 1);
    assert_eq!(stored[0].amount, 30 * ONE_TIME);
}

#[test]
fn test_initialize_overwrites_previous_ledger() {
    let mut p = TimeProtocol::new("owner.near".to_string());
    claim(&mut p, "alice.near", "null-a", 100, NOW);
    let first = vec![entry("mayor-sf", ONE_TIME, 10)];
    p.initialize_status_quo_allocation("alice.near".to_string(), first, NOW).unwrap();
    let second = vec![entry("governor-ca", 2 * ONE_TIME, 20), entry("senator-ca", ONE_TIME, 5)];
    p.initialize_status_quo_allocation("alice.near".to_string(), second, NOW + 1).unwrap();
    let stored = p.get_allocations("alice.near".to_string());
    assert_eq!(stored.len(), 2);
    assert_eq!(stored[0].choice_id, "governor-ca");
    assert_eq!(stored[1].choice_id, "senator-ca");
}

#[test]
fn test_allocate_voting_power_caps_at_hundred() {
    let mut p = TimeProtocol::new("owner.near".to_string());
    claim(&mut p, "alice.near", "null-a", 3650, NOW);
    let r = p.allocate_voting_power("alice.near".to_string(), "mayor-sf".to_string(), 10, NOW);
    assert_eq!(r.unwrap_err(), TimeError::NoPosition);
    p.stake("alice.near".to_string(), 100 * ONE_TIME, NOW).unwrap();
    p.allocate_voting_power("alice.near".to_string(), "mayor-sf".to_string(), 60, NOW).unwrap();
    p.allocate_voting_power("alice.near".to_string(), "governor-ca".to_string(), 40, NOW)
        .unwrap();
    let r = p.allocate_voting_power("alice.near".to_string(), "school-board-sf".to_string(), 1, NOW);
    assert_eq!(r.unwrap_err(), TimeError::AllocationOverflow);
    let pos = p.get_staking_position("alice.near".to_string()).unwrap();
    assert_eq!(pos.allocations.len(), 2);
    assert_eq!(pos.allocations[0].choice_id, "mayor-sf");
    assert_eq!(pos.allocations[0].percentage, 60);
    assert_eq!(pos.allocations[1].percentage, 40);
    p.allocate_voting_power("alice.near".to_string(), "mayor-sf".to_string(), 50, NOW).unwrap();
    let pos = p.get_staking_position("alice.near".to_string()).unwrap();
    assert_eq!(pos.allocations.len(), 2);
    assert_eq!(pos.allocations[0].percentage, 50);
}

#[test]
fn test_matching_jurisdiction_bonus_funds_opportunity() {
    let mut p = TimeProtocol::new("owner.near".to_string());
    claim(&mut p, "alice.near", "null-a", 3650, NOW);
    p.set_governance_profile("alice.near".to_string(), "san-francisco-ca".to_string(), 1, 1, NOW)
        .unwrap();
    let id = p
        .create_opportunity(
            "alice.near".to_string(),
            "san-francisco-ca".to_string(),
            105 * ONE_TIME,
            5 * ONE_TIME,
            NOW,
        )
        .unwrap();
    let (amount, bonus) = p.allocate("alice.near".to_string(), id, 100 * ONE_TIME, NOW).unwrap();
    assert_eq!(amount, 100 * ONE_TIME);
    assert_eq!(bonus, 10 * ONE_TIME);
    let opp = p.get_opportunity(id).unwrap();
    assert_eq!(opp.raised, 110 * ONE_TIME);
    assert_eq!(opp.status, OpportunityStatus::Funded);
    let c = p.get_citizen("alice.near".to_string()).unwrap();
    assert_eq!(c.time_balance, (3650 - 5 - 100) * ONE_TIME);
    let history = p.get_contributions("alice.near".to_string());
    assert_eq!(history.len(), 1);
    assert_eq!(history[0].amount, 100 * ONE_TIME);
    assert_eq!(history[0].bonus, 10 * ONE_TIME);
}

#[test]
fn test_mismatched_jurisdiction_gets_no_bonus() {
    let mut p = TimeProtocol::new("owner.near".to_string());
    claim(&mut p, "alice.near", "null-a", 3650, NOW);
    p.set_governance_profile("alice.near".to_string(), "san-francisco-ca".to_string(), 1, 1, NOW)
        .unwrap();
    let id = p
        .create_opportunity(
            "alice.near".to_string(),
            "oakland-ca".to_string(),
            105 * ONE_TIME,
            5 * ONE_TIME,
            NOW,
        )
        .unwrap();
    let (amount, bonus) = p.allocate("alice.near".to_string(), id, 100 * ONE_TIME, NOW).unwrap();
    assert_eq!(amount, 100 * ONE_TIME);
    assert_eq!(bonus, 0);
    let opp = p.get_opportunity(id).unwrap();
    assert_eq!(opp.raised, 100 * ONE_TIME);
    assert_eq!(opp.status, OpportunityStatus::Active);
}

#[test]
fn test_opportunity_errors() {
    let mut p = TimeProtocol::new("owner.near".to_string());
    let r = p.create_opportunity(
        "nobody.near".to_string(),
        "oakland-ca".to_string(),
        ONE_TIME,
        0,
        NOW,
    );
    assert_eq!(r.unwrap_err(), TimeError::UnknownCitizen);
    claim(&mut p, "alice.near", "null-a", 2, NOW);
    let r = p.create_opportunity(
        "alice.near".to_string(),
        "oakland-ca".to_string(),
        ONE_TIME,
        3 * ONE_TIME,
        NOW,
    );
    assert_eq!(r.unwrap_err(), TimeError::InsufficientBalance);
    let id = p
        .create_opportunity("alice.near".to_string(), "oakland-ca".to_string(), ONE_TIME, 0, NOW)
        .unwrap();
    let r = p.allocate("nobody.near".to_string(), id, 1, NOW);
    assert_eq!(r.unwrap_err(), TimeError::UnknownCitizen);
    let r = p.allocate("alice.near".to_string(), id + 7, 1, NOW);
    assert_eq!(r.unwrap_err(), TimeError::OpportunityNotActive);
    let r = p.allocate("alice.near".to_string(), id, 3 * ONE_TIME, NOW);
    assert_eq!(r.unwrap_err(), TimeError::InsufficientBalance);
    p.allocate("alice.near".to_string(), id, ONE_TIME, NOW).unwrap();
    let r = p.allocate("alice.near".to_string(), id, 1, NOW);
    assert_eq!(r.unwrap_err(), TimeError::OpportunityNotActive);
}

#[test]
fn test_audit_log_grows_in_order() {
    let mut p = TimeProtocol::new("owner.near".to_string());
    claim(&mut p, "alice.near", "null-a", 3650, NOW);
    p.mint_work_nft(
        "owner.near".to_string(),
        "alice.near".to_string(),
        10,
        "care".to_string(),
        "ten hours".to_string(),
        NOW + 1,
    )
    .unwrap();
    p.stake("alice.near".to_string(), 20 * ONE_TIME, NOW + 2).unwrap();
    let log = p.get_agent_actions("alice.near".to_string());
    assert_eq!(log.len(), 3);
    assert_eq!(log[0].action_type, ActionKind::BirthrightClaimed);
    assert_eq!(log[0].timestamp, NOW);
    assert!(matches!(
        log[0].details,
        ActionDetail::Birthright { days_lived: 3650, time_claimed } if time_claimed == 3650 * ONE_TIME
    ));
    assert_eq!(log[1].action_type, ActionKind::WorkMinted);
    assert!(matches!(
        log[1].details,
        ActionDetail::WorkMinted { hours: 10, time_earned } if time_earned == 10 * ONE_TIME
    ));
    assert_eq!(log[2].action_type, ActionKind::Staked);
    assert!(matches!(
        log[2].details,
        ActionDetail::Staked { amount, voting_power: _ } if amount == 20 * ONE_TIME
    ));
    assert_eq!(p.get_agent_actions("owner.near".to_string()).len(), 0);
}

#[test]
fn test_agent_permissions_default_and_update() {
    let mut p = TimeProtocol::new("owner.near".to_string());
    assert!(p.get_agent_permissions("alice.near".to_string()).is_none());
    claim(&mut p, "alice.near", "null-a", 100, NOW);
    let perms = p.get_agent_permissions("alice.near".to_string()).unwrap();
    assert!(perms.can_auto_allocate);
    assert_eq!(perms.max_single_allocation_pct, 20);
    assert_eq!(perms.max_daily_reallocation, 1000 * ONE_TIME);
    assert_eq!(perms.require_approval_above, 500 * ONE_TIME);
    assert!(perms.notify_on_rebalance);
    assert!(perms.notify_on_new_laws);
    let tighter = AgentPermissions {
        can_auto_allocate: false,
        max_single_allocation_pct: 5,
        max_daily_reallocation: 10 * ONE_TIME,
        require_approval_above: ONE_TIME,
        notify_on_rebalance: false,
        notify_on_new_laws: true,
    };
    p.update_agent_permissions("alice.near".to_string(), tighter);
    let perms = p.get_agent_permissions("alice.near".to_string()).unwrap();
    assert_eq!(perms, tighter);
}
