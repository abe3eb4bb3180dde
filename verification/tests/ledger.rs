use crowdfund::contract::{CrowdfundContract, Store};
use crowdfund::types::{Campaign, DataKey, DonationEvent, Identity, LedgerError};

fn ident(id: u64) -> Identity {
    Identity { id }
}

#[test]
fn donation_updates_state() {
    let mut store = Store::new();

    let admin = ident(1);
    let donor = ident(2);

    CrowdfundContract::initialize(&mut store, admin, 1_000_000_i128).unwrap();
    CrowdfundContract::donate(&mut store, donor, donor, 250_000_i128).unwrap();

    let campaign = CrowdfundContract::get_campaign(&store).unwrap();
    assert_eq!(campaign.total_raised, 250_000_i128);
    assert_eq!(campaign.goal, 1_000_000_i128);
    assert_eq!(campaign.donors, 1_u32);
    assert_eq!(CrowdfundContract::get_donation(&store, donor), 250_000_i128);
    assert!(!CrowdfundContract::is_goal_reached(&store));
}

#[test]
fn initialize_twice_fails_and_keeps_state() {
    let mut store = Store::new();
    CrowdfundContract::initialize(&mut store, ident(1), 500).unwrap();
    let before = CrowdfundContract::get_campaign(&store).unwrap();

    let second = CrowdfundContract::initialize(&mut store, ident(9), 700);
    assert_eq!(second, Err(LedgerError::AlreadyInitialized));

    let after = CrowdfundContract::get_campaign(&store).unwrap();
    assert_eq!(after, before);
    assert_eq!(after.admin, ident(1));
    assert_eq!(after.goal, 500);
}

#[test]
fn zero_goal_rejected() {
    let mut store = Store::new();
    let r = CrowdfundContract::initialize(&mut store, ident(1), 0);
    assert_eq!(r, Err(LedgerError::InvalidGoal));
    assert_eq!(
        CrowdfundContract::get_campaign(&store),
        Err(LedgerError::NotInitialized)
    );
}

#[test]
fn negative_goal_rejected() {
    let mut store = Store::new();
    let r = CrowdfundContract::initialize(&mut store, ident(1), -5);
    assert_eq!(r, Err(LedgerError::InvalidGoal));
    assert_eq!(
        CrowdfundContract::get_campaign(&store),
        Err(LedgerError::NotInitialized)
    );
}

#[test]
fn donate_before_initialize_rejected() {
    let mut store = Store::new();
    let donor = ident(2);
    let r = CrowdfundContract::donate(&mut store, donor, donor, 100);
    assert_eq!(r, Err(LedgerError::NotInitialized));
    assert_eq!(CrowdfundContract::get_donation(&store, donor), 0);
}

#[test]
fn zero_amount_rejected() {
    let mut store = Store::new();
    CrowdfundContract::initialize(&mut store, ident(1), 1_000).unwrap();
    let donor = ident(2);
    let r = CrowdfundContract::donate(&mut store, donor, donor, 0);
    assert_eq!(r, Err(LedgerError::InvalidAmount));
    let campaign = CrowdfundContract::get_campaign(&store).unwrap();
    assert_eq!(campaign.total_raised, 0);
    assert_eq!(campaign.donors, 0);
}

#[test]
fn negative_amount_rejected() {
    let mut store = Store::new();
    CrowdfundContract::initialize(&mut store, ident(1), 1_000).unwrap();
    let donor = ident(2);
    let r = CrowdfundContract::donate(&mut store, donor, donor, -1);
    assert_eq!(r, Err(LedgerError::InvalidAmount));
    assert_eq!(CrowdfundContract::get_donation(&store, donor), 0);
}

#[test]
fn unauthorized_caller_rejected() {
    let mut store = Store::new();
    CrowdfundContract::initialize(&mut store, ident(1), 1_000).unwrap();
    let r = CrowdfundContract::donate(&mut store, ident(3), ident(2), 100);
    assert_eq!(r, Err(LedgerError::Unauthorized));
    assert_eq!(CrowdfundContract::get_donation(&store, ident(2)), 0);
    assert_eq!(CrowdfundContract::get_campaign(&store).unwrap().donors, 0);
}

#[test]
fn donor_total_overflow_rejected() {
    let mut store = Store::new();
    CrowdfundContract::initialize(&mut store, ident(1), 1_000).unwrap();
    let donor = ident(2);
    CrowdfundContract::donate(&mut store, donor, donor, i128::MAX).unwrap();

    let r = CrowdfundContract::donate(&mut store, donor, donor, 1);
    assert_eq!(r, Err(LedgerError::DonorOverflow));

    // The failed call left no trace.
    assert_eq!(CrowdfundContract::get_donation(&store, donor), i128::MAX);
    let campaign = CrowdfundContract::get_campaign(&store).unwrap();
    assert_eq!(campaign.total_raised, i128::MAX);
    assert_eq!(campaign.donors, 1);
}

#[test]
fn campaign_total_overflow_rejected() {
    let mut store = Store::new();
    CrowdfundContract::initialize(&mut store, ident(1), 1_000).unwrap();
    let first = ident(2);
    let second = ident(3);
    CrowdfundContract::donate(&mut store, first, first, i128::MAX).unwrap();

    // The second donor's own total fits, but the campaign total would not.
    let r = CrowdfundContract::donate(&mut store, second, second, 1);
    assert_eq!(r, Err(LedgerError::CampaignOverflow));

    assert_eq!(CrowdfundContract::get_donation(&store, second), 0);
    let campaign = CrowdfundContract::get_campaign(&store).unwrap();
    assert_eq!(campaign.total_raised, i128::MAX);
    assert_eq!(campaign.donors, 1);
}

#[test]
fn repeat_donor_accumulates_without_recount() {
    let mut store = Store::new();
    CrowdfundContract::initialize(&mut store, ident(1), 1_000_000).unwrap();
    let donor = ident(2);
    CrowdfundContract::donate(&mut store, donor, donor, 250_000).unwrap();
    CrowdfundContract::donate(&mut store, donor, donor, 800_000).unwrap();

    let campaign = CrowdfundContract::get_campaign(&store).unwrap();
    assert_eq!(campaign.total_raised, 1_050_000);
    assert_eq!(campaign.donors, 1);
    assert_eq!(CrowdfundContract::get_donation(&store, donor), 1_050_000);
    assert!(CrowdfundContract::is_goal_reached(&store));
}

#[test]
fn distinct_donors_counted_once_each() {
    let mut store = Store::new();
    CrowdfundContract::initialize(&mut store, ident(1), 1_000_000).unwrap();
    let first = ident(2);
    let second = ident(3);
    CrowdfundContract::donate(&mut store, first, first, 500_000).unwrap();
    CrowdfundContract::donate(&mut store, second, second, 500_000).unwrap();

    let campaign = CrowdfundContract::get_campaign(&store).unwrap();
    assert_eq!(campaign.donors, 2);
    assert_eq!(campaign.total_raised, 1_000_000);
    assert!(CrowdfundContract::is_goal_reached(&store));
    assert_eq!(CrowdfundContract::get_donation(&store, first), 500_000);
    assert_eq!(CrowdfundContract::get_donation(&store, second), 500_000);
}

#[test]
fn goal_reached_stays_reached() {
    let mut store = Store::new();
    CrowdfundContract::initialize(&mut store, ident(1), 100).unwrap();
    let donor = ident(2);
    CrowdfundContract::donate(&mut store, donor, donor, 100).unwrap();
    assert!(CrowdfundContract::is_goal_reached(&store));

    // Further valid contributions never un-reach the goal.
    let other = ident(3);
    CrowdfundContract::donate(&mut store, other, other, 1).unwrap();
    assert!(CrowdfundContract::is_goal_reached(&store));
    CrowdfundContract::donate(&mut store, donor, donor, 50).unwrap();
    assert!(CrowdfundContract::is_goal_reached(&store));
}

#[test]
fn donation_event_carries_payload() {
    let mut store = Store::new();
    CrowdfundContract::initialize(&mut store, ident(1), 1_000).unwrap();
    let donor = ident(2);
    let first = CrowdfundContract::donate(&mut store, donor, donor, 300).unwrap();
    assert_eq!(
        first,
        DonationEvent { donor, amount: 300, total_raised: 300 }
    );
    let second = CrowdfundContract::donate(&mut store, donor, donor, 400).unwrap();
    assert_eq!(
        second,
        DonationEvent { donor, amount: 400, total_raised: 700 }
    );
}

#[test]
fn uninitialized_reads_use_defensive_defaults() {
    let store = Store::new();
    // Absent goal and total both default to zero, so the goal vacuously
    // counts as reached before initialization.
    assert!(CrowdfundContract::is_goal_reached(&store));
    assert_eq!(CrowdfundContract::get_donation(&store, ident(2)), 0);
    assert_eq!(
        CrowdfundContract::get_campaign(&store),
        Err(LedgerError::NotInitialized)
    );
}

#[test]
fn goal_boundary_is_inclusive() {
    let mut store = Store::new();
    CrowdfundContract::initialize(&mut store, ident(1), 1_000).unwrap();
    let donor = ident(2);
    CrowdfundContract::donate(&mut store, donor, donor, 999).unwrap();
    assert!(!CrowdfundContract::is_goal_reached(&store));
    CrowdfundContract::donate(&mut store, donor, donor, 1).unwrap();
    assert!(CrowdfundContract::is_goal_reached(&store));
}

#[test]
fn storage_keys_appear_as_written() {
    let mut store = Store::new();
    assert!(!store.has(&DataKey::Initialized));
    assert!(!store.has(&DataKey::Admin));
    assert!(!store.has(&DataKey::Goal));
    assert!(!store.has(&DataKey::TotalRaised));
    assert!(!store.has(&DataKey::Donors));
    assert!(!store.has(&DataKey::Donation(ident(2))));

    CrowdfundContract::initialize(&mut store, ident(1), 1_000).unwrap();
    assert!(store.has(&DataKey::Initialized));
    assert!(store.has(&DataKey::Admin));
    assert!(store.has(&DataKey::Goal));
    assert!(store.has(&DataKey::TotalRaised));
    assert!(store.has(&DataKey::Donors));
    assert!(!store.has(&DataKey::Donation(ident(2))));

    let donor = ident(2);
    CrowdfundContract::donate(&mut store, donor, donor, 10).unwrap();
    assert!(store.has(&DataKey::Donation(donor)));
    assert!(!store.has(&DataKey::Donation(ident(3))));
}

#[test]
fn failed_attempts_add_nothing_to_the_total() {
    let mut store = Store::new();
    CrowdfundContract::initialize(&mut store, ident(1), 10_000).unwrap();
    let first = ident(2);
    let second = ident(3);

    CrowdfundContract::donate(&mut store, first, first, 1_000).unwrap();
    assert!(CrowdfundContract::donate(&mut store, first, first, 0).is_err());
    assert!(CrowdfundContract::donate(&mut store, first, second, 500).is_err());
    CrowdfundContract::donate(&mut store, second, second, 2_000).unwrap();
    assert!(CrowdfundContract::donate(&mut store, second, second, -7).is_err());
    CrowdfundContract::donate(&mut store, first, first, 4_000).unwrap();

    // Exactly the committed amounts are summed: 1_000 + 2_000 + 4_000.
    let campaign = CrowdfundContract::get_campaign(&store).unwrap();
    assert_eq!(campaign.total_raised, 7_000);
    assert_eq!(campaign.donors, 2);
    assert_eq!(CrowdfundContract::get_donation(&store, first), 5_000);
    assert_eq!(CrowdfundContract::get_donation(&store, second), 2_000);
}

#[test]
fn campaign_summary_is_plain_data() {
    let mut store = Store::new();
    CrowdfundContract::initialize(&mut store, ident(7), 42).unwrap();
    let campaign = CrowdfundContract::get_campaign(&store).unwrap();
    assert_eq!(
        campaign,
        Campaign { admin: ident(7), goal: 42, total_raised: 0, donors: 0 }
    );
}
