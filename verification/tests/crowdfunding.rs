use eleccions_a_delegat::crowdfunding_sc::{CrowdfundingSc, FundingError, Payment, Status};

const OWNER: u64 = 7;
const DONOR_A: u64 = 1;
const DONOR_B: u64 = 2;
const DEADLINE: u64 = 100;

fn campaign() -> CrowdfundingSc {
    CrowdfundingSc::init(OWNER, 1000, DEADLINE, 10, 500, 2000, 50).unwrap()
}

#[test]
fn init_validates_configuration_in_order() {
    assert!(matches!(
        CrowdfundingSc::init(OWNER, 0, DEADLINE, 10, 500, 2000, 50),
        Err(FundingError::TargetZero)
    ));
    assert!(matches!(
        CrowdfundingSc::init(OWNER, 1000, DEADLINE, 10, 500, 999, 50),
        Err(FundingError::MaxTargetBelowTarget)
    ));
    assert!(matches!(
        CrowdfundingSc::init(OWNER, 1000, DEADLINE, 0, 500, 2000, 50),
        Err(FundingError::MinFundZero)
    ));
    assert!(matches!(
        CrowdfundingSc::init(OWNER, 1000, DEADLINE, 10, 9, 2000, 50),
        Err(FundingError::MaxDepositBelowMinFund)
    ));
    assert!(matches!(
        CrowdfundingSc::init(OWNER, 1000, 50, 10, 500, 2000, 50),
        Err(FundingError::DeadlineInPast)
    ));
    let sc = campaign();
    assert_eq!(sc.get_current_funds(), 0);
    assert_eq!(sc.deposit(DONOR_A), 0);
}

#[test]
fn scenario_cap_then_failure_then_refund() {
    // target=1000, min_fund=10, max_deposit_per_donor=500, max_target=2000,
    // deadline=100.
    let mut sc = campaign();
    assert_eq!(sc.fund(DONOR_A, 500, DEADLINE - 1), Ok(()));
    assert_eq!(sc.deposit(DONOR_A), 500);
    assert_eq!(sc.get_current_funds(), 500);
    assert_eq!(sc.status(DEADLINE - 1), Status::FundingPeriod);

    // A second 600 would lift A's cumulative deposit over the cap of 500.
    assert_eq!(sc.fund(DONOR_A, 600, DEADLINE - 1), Err(FundingError::ExceedsDonorCap));
    assert_eq!(sc.deposit(DONOR_A), 500);

    // Past the deadline with 500 < 1000 the campaign has failed.
    assert_eq!(sc.status(DEADLINE + 1), Status::Failed);

    // A reclaims exactly its ledger entry and the entry drops to zero.
    assert_eq!(
        sc.claim(DONOR_A, DEADLINE + 1),
        Ok(Some(Payment { to: DONOR_A, amount: 500 }))
    );
    assert_eq!(sc.deposit(DONOR_A), 0);
    assert_eq!(sc.get_current_funds(), 0);
}

#[test]
fn failed_claim_is_idempotent() {
    let mut sc = campaign();
    assert_eq!(sc.fund(DONOR_A, 200, 10), Ok(()));
    assert_eq!(sc.fund(DONOR_B, 300, 10), Ok(()));
    assert_eq!(
        sc.claim(DONOR_A, DEADLINE + 1),
        Ok(Some(Payment { to: DONOR_A, amount: 200 }))
    );
    // Repeating the claim transfers nothing more.
    assert_eq!(sc.claim(DONOR_A, DEADLINE + 1), Ok(None));
    assert_eq!(sc.deposit(DONOR_A), 0);
    // A caller with no entry gets a no-op, not an error.
    assert_eq!(sc.claim(99, DEADLINE + 1), Ok(None));
    // B's entry is untouched by A's refund.
    assert_eq!(sc.deposit(DONOR_B), 300);
    assert_eq!(sc.get_current_funds(), 300);
}

#[test]
fn fund_guards_in_order() {
    let mut sc = campaign();
    assert_eq!(sc.fund(DONOR_A, 9, 10), Err(FundingError::BelowMinFund));
    assert_eq!(sc.fund(DONOR_A, 2001, 10), Err(FundingError::ExceedsMaxTarget));
    assert_eq!(sc.fund(DONOR_A, 100, DEADLINE), Err(FundingError::AfterDeadline));
    assert_eq!(sc.fund(DONOR_A, 501, 10), Err(FundingError::ExceedsDonorCap));
    assert_eq!(sc.get_current_funds(), 0);
}

#[test]
fn max_target_counts_the_whole_balance() {
    let mut sc = campaign();
    let mut donor: u64 = 100;
    // Four donors at the cap reach the maximum target of 2000.
    for _ in 0..4 {
        assert_eq!(sc.fund(donor, 500, 10), Ok(()));
        donor += 1;
    }
    assert_eq!(sc.get_current_funds(), 2000);
    assert_eq!(sc.fund(donor, 10, 10), Err(FundingError::ExceedsMaxTarget));
}

#[test]
fn ledger_always_accounts_for_the_balance() {
    let mut sc = campaign();
    assert_eq!(sc.fund(DONOR_A, 150, 10), Ok(()));
    assert_eq!(sc.fund(DONOR_B, 250, 20), Ok(()));
    assert_eq!(sc.fund(DONOR_A, 100, 30), Ok(()));
    assert_eq!(
        sc.deposit(DONOR_A) + sc.deposit(DONOR_B),
        sc.get_current_funds()
    );
    assert_eq!(sc.deposit(DONOR_A), 250);
    assert_eq!(sc.deposit(DONOR_B), 250);
}

#[test]
fn cap_bounds_every_sequence_of_funds() {
    let mut sc = campaign();
    assert_eq!(sc.fund(DONOR_A, 300, 10), Ok(()));
    assert_eq!(sc.fund(DONOR_A, 200, 20), Ok(()));
    assert_eq!(sc.deposit(DONOR_A), 500);
    assert_eq!(sc.fund(DONOR_A, 10, 30), Err(FundingError::ExceedsDonorCap));
    assert_eq!(sc.deposit(DONOR_A), 500);
}

#[test]
fn disabling_the_cap_is_owner_only() {
    let mut sc = campaign();
    assert_eq!(
        sc.set_max_deposit_per_donor(DONOR_A, 0),
        Err(FundingError::NotOwner)
    );
    assert_eq!(sc.set_max_deposit_per_donor(OWNER, 0), Ok(()));
    // With the cap disabled a donor may pass the old cap of 500.
    assert_eq!(sc.fund(DONOR_A, 700, 10), Ok(()));
    assert_eq!(sc.deposit(DONOR_A), 700);
}

#[test]
fn successful_campaign_pays_the_owner_once() {
    let mut sc = campaign();
    assert_eq!(sc.fund(DONOR_A, 500, 10), Ok(()));
    assert_eq!(sc.fund(DONOR_B, 500, 10), Ok(()));
    assert_eq!(sc.status(DEADLINE + 1), Status::Successful);

    // Nobody can claim while the campaign is open, not even the owner.
    assert_eq!(sc.claim(OWNER, DEADLINE), Err(FundingError::ClaimBeforeDeadline));
    // Only the owner collects a successful campaign.
    assert_eq!(sc.claim(DONOR_A, DEADLINE + 1), Err(FundingError::NotOwner));
    assert_eq!(
        sc.claim(OWNER, DEADLINE + 1),
        Ok(Some(Payment { to: OWNER, amount: 1000 }))
    );
    assert_eq!(sc.get_current_funds(), 0);
    // The payout drained the balance, so the status — derived from the clock
    // and the balance alone — reads Failed afterwards; the ledger was cleared
    // with the balance, so every further claim is a no-op.
    assert_eq!(sc.status(DEADLINE + 2), Status::Failed);
    assert_eq!(sc.claim(OWNER, DEADLINE + 2), Ok(None));
    assert_eq!(sc.claim(DONOR_A, DEADLINE + 2), Ok(None));
    assert_eq!(sc.deposit(DONOR_A), 0);
}

#[test]
fn the_deadline_instant_is_still_open() {
    let sc = campaign();
    assert_eq!(sc.status(DEADLINE), Status::FundingPeriod);
    assert_eq!(sc.status(DEADLINE + 1), Status::Failed);
}

#[test]
fn status_before_deadline_ignores_the_ledger() {
    let mut sc = campaign();
    assert_eq!(sc.status(0), Status::FundingPeriod);
    assert_eq!(sc.fund(DONOR_A, 500, 10), Ok(()));
    assert_eq!(sc.fund(DONOR_B, 500, 10), Ok(()));
    // The target is reached, yet before the deadline the campaign is open.
    assert_eq!(sc.status(DEADLINE - 1), Status::FundingPeriod);
}
