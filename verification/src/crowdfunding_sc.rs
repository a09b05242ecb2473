//! Time-boxed fundraising campaign.
//!
//! A campaign is created with a funding target, a deadline and contribution
//! bounds, all immutable afterwards except the per-donor cap, which the owner
//! may adjust. Donors contribute while the deadline has not passed; after the
//! deadline the campaign either succeeded (the custodied balance reached the
//! target) or failed, in which case each donor can reclaim exactly what it
//! contributed.
//!
//! The custodied balance is modelled explicitly and always equals the sum of
//! the ledger entries: when the owner collects a successful campaign the
//! ledger is cleared together with the balance, so the accounting stays exact
//! and every claim against the drained campaign is a no-op.

use vstd::prelude::*;

verus! {

/// Phase of the campaign, derived from the clock and the custodied balance.
#[derive(Clone, Copy, PartialEq, Eq, Structural, Debug)]
pub enum Status {
    FundingPeriod,
    Successful,
    Failed,
}

/// Why a campaign action was rejected. Creation errors reject the whole
/// configuration; the others reject a single action and leave the state
/// unchanged.
#[derive(Clone, Copy, PartialEq, Eq, Structural, Debug)]
pub enum FundingError {
    /// The funding target must be more than 0.
    TargetZero,
    /// The maximum target must be at least the target.
    MaxTargetBelowTarget,
    /// The minimum contribution must be more than 0.
    MinFundZero,
    /// The per-donor cap must be at least the minimum contribution.
    MaxDepositBelowMinFund,
    /// The deadline cannot be in the past.
    DeadlineInPast,
    /// The contribution does not reach the minimum accepted.
    BelowMinFund,
    /// The contribution would exceed the maximum target.
    ExceedsMaxTarget,
    /// Cannot fund after the deadline.
    AfterDeadline,
    /// The donor's cumulative deposit would exceed the per-donor cap.
    ExceedsDonorCap,
    /// Cannot claim before the deadline has resolved the campaign.
    ClaimBeforeDeadline,
    /// Only the owner may perform this action.
    NotOwner,
}

/// One ledger entry: a donor address and its cumulative contribution.
#[derive(Clone, Copy, PartialEq, Eq, Structural, Debug)]
pub struct DepositEntry {
    pub donor: u64,
    pub amount: u128,
}

/// A value transfer the host is asked to carry out on behalf of the campaign.
#[derive(Clone, Copy, PartialEq, Eq, Structural, Debug)]
pub struct Payment {
    pub to: u64,
    pub amount: u128,
}

/// No donor owns two ledger entries.
pub open spec fn donors_unique(s: Seq<DepositEntry>) -> bool {
    forall|i: int, j: int| 0 <= i < j < s.len() ==> s[i].donor != s[j].donor
}

/// The cumulative contribution recorded for `donor`; an absent entry means 0.
pub open spec fn deposit_of(s: Seq<DepositEntry>, donor: u64) -> int
    decreases s.len(),
{
    if s.len() == 0 {
        0
    } else if s.last().donor == donor {
        s.last().amount as int
    } else {
        deposit_of(s.drop_last(), donor)
    }
}

/// The sum of all ledger entries.
pub open spec fn sum_deposits(s: Seq<DepositEntry>) -> int
    decreases s.len(),
{
    if s.len() == 0 {
        0
    } else {
        sum_deposits(s.drop_last()) + s.last().amount
    }
}

pub proof fn lemma_sum_deposits_nonneg(s: Seq<DepositEntry>)
    ensures
        sum_deposits(s) >= 0,
    decreases s.len(),
{
    if s.len() > 0 {
        lemma_sum_deposits_nonneg(s.drop_last());
    }
}

/// No single entry exceeds the sum of all entries.
pub proof fn lemma_deposit_of_le_sum(s: Seq<DepositEntry>, donor: u64)
    ensures
        0 <= deposit_of(s, donor) <= sum_deposits(s),
    decreases s.len(),
{
    if s.len() > 0 {
        lemma_deposit_of_le_sum(s.drop_last(), donor);
        lemma_sum_deposits_nonneg(s.drop_last());
    }
}

/// With unique donors, the entry at index `i` is what `deposit_of` reports
/// for its donor.
pub proof fn lemma_deposit_at(s: Seq<DepositEntry>, i: int)
    requires
        donors_unique(s),
        0 <= i < s.len(),
    ensures
        deposit_of(s, s[i].donor) == s[i].amount,
    decreases s.len(),
{
    if i == s.len() - 1 {
        assert(s.last() == s[i]);
    } else {
        assert(s.last().donor != s[i].donor);
        assert(donors_unique(s.drop_last()));
        assert(s.drop_last()[i] == s[i]);
        lemma_deposit_at(s.drop_last(), i);
    }
}

/// A donor with no entry has deposit 0.
pub proof fn lemma_deposit_absent(s: Seq<DepositEntry>, donor: u64)
    requires
        forall|j: int| 0 <= j < s.len() ==> s[j].donor != donor,
    ensures
        deposit_of(s, donor) == 0,
    decreases s.len(),
{
    if s.len() > 0 {
        lemma_deposit_absent(s.drop_last(), donor);
    }
}

/// Replacing the entry at index `i` by one for the same donor changes that
/// donor's deposit to the new amount, leaves every other donor's deposit
/// alone, and shifts the sum by the difference.
pub proof fn lemma_deposit_update(s: Seq<DepositEntry>, i: int, e: DepositEntry)
    requires
        donors_unique(s),
        0 <= i < s.len(),
        e.donor == s[i].donor,
    ensures
        donors_unique(s.update(i, e)),
        deposit_of(s.update(i, e), e.donor) == e.amount,
        forall|d: u64| d != e.donor ==> deposit_of(s.update(i, e), d) == deposit_of(s, d),
        sum_deposits(s.update(i, e)) == sum_deposits(s) - s[i].amount + e.amount,
    decreases s.len(),
{
    let t = s.update(i, e);
    assert(donors_unique(t)) by {
        assert(forall|p: int, q: int| 0 <= p < q < t.len() ==> t[p].donor != t[q].donor) by {
            assert(forall|p: int| 0 <= p < t.len() ==> t[p].donor == s[p].donor);
        }
    }
    if i == s.len() - 1 {
        assert(t.last() == e);
        assert(t.drop_last() =~= s.drop_last());
        assert(s.last().donor == e.donor);
        assert forall|d: u64| d != e.donor implies deposit_of(t, d) == deposit_of(s, d) by {
            assert(deposit_of(t, d) == deposit_of(s.drop_last(), d));
            assert(deposit_of(s, d) == deposit_of(s.drop_last(), d));
        }
    } else {
        assert(t.last() == s.last());
        assert(t.drop_last() =~= s.drop_last().update(i, e));
        assert(donors_unique(s.drop_last()));
        assert(s.drop_last()[i] == s[i]);
        lemma_deposit_update(s.drop_last(), i, e);
        assert(s.last().donor != e.donor);
        assert forall|d: u64| d != e.donor implies deposit_of(t, d) == deposit_of(s, d) by {
            if t.last().donor == d {
                assert(deposit_of(t, d) == t.last().amount);
                assert(deposit_of(s, d) == s.last().amount);
            } else {
                assert(deposit_of(t, d) == deposit_of(s.drop_last().update(i, e), d));
                assert(deposit_of(s, d) == deposit_of(s.drop_last(), d));
            }
        }
    }
}

/// Appending an entry for a donor that has none records exactly that entry
/// and adds its amount to the sum.
pub proof fn lemma_deposit_push(s: Seq<DepositEntry>, e: DepositEntry)
    requires
        donors_unique(s),
        forall|j: int| 0 <= j < s.len() ==> s[j].donor != e.donor,
    ensures
        donors_unique(s.push(e)),
        deposit_of(s.push(e), e.donor) == e.amount,
        forall|d: u64| d != e.donor ==> deposit_of(s.push(e), d) == deposit_of(s, d),
        sum_deposits(s.push(e)) == sum_deposits(s) + e.amount,
{
    let t = s.push(e);
    assert(t.drop_last() =~= s);
    assert(t.last() == e);
    assert(donors_unique(t)) by {
        assert(forall|p: int| 0 <= p < s.len() ==> t[p] == s[p]);
        assert(t[s.len() as int] == e);
    }
}

/// The fundraising campaign: immutable configuration, donor ledger and the
/// custodied balance it accounts for.
pub struct CrowdfundingSc {
    /// Address of the account that created the campaign.
    pub owner: u64,
    /// Funding goal the custodied balance must reach by the deadline.
    pub target: u128,
    /// Instant after which contributions close and the outcome is derived.
    pub deadline: u64,
    /// Smallest acceptable single contribution.
    pub min_fund: u128,
    /// Cap on any donor's cumulative contribution; 0 disables the cap.
    pub max_deposit_per_donor: u128,
    /// Hard cap on the custodied balance.
    pub max_target: u128,
    /// Per-donor ledger of cumulative contributions.
    pub deposits: Vec<DepositEntry>,
    /// Value currently custodied by the campaign.
    pub balance: u128,
}

impl CrowdfundingSc {
    /// Structural invariant: a validated configuration, a ledger without
    /// duplicate donors, and a balance that the ledger accounts for exactly
    /// and that never exceeds the maximum target.
    pub open spec fn well_formed(self) -> bool {
        &&& self.target >= 1
        &&& self.max_target >= self.target
        &&& self.min_fund >= 1
        &&& donors_unique(self.deposits@)
        &&& self.balance <= self.max_target
        &&& sum_deposits(self.deposits@) == self.balance
    }

    /// The configuration fields `fund` and `claim` never touch.
    pub open spec fn same_config(self, other: CrowdfundingSc) -> bool {
        &&& self.owner == other.owner
        &&& self.target == other.target
        &&& self.deadline == other.deadline
        &&& self.min_fund == other.min_fund
        &&& self.max_deposit_per_donor == other.max_deposit_per_donor
        &&& self.max_target == other.max_target
    }

    /// The phase, derived from the clock and the custodied balance alone,
    /// never cached: after the deadline the campaign is successful if and
    /// only if the balance reached the target. The boundary instant
    /// `now == deadline` still belongs to the funding period.
    pub open spec fn spec_status(self, now: u64) -> Status {
        if now <= self.deadline {
            Status::FundingPeriod
        } else if self.balance >= self.target {
            Status::Successful
        } else {
            Status::Failed
        }
    }

    /// The first configuration rule the given parameters break, if any,
    /// checked in the order creation checks them.
    pub open spec fn init_error(
        target: u128,
        deadline: u64,
        min_fund: u128,
        max_deposit_per_donor: u128,
        max_target: u128,
        now: u64,
    ) -> Option<FundingError> {
        if target == 0 {
            Some(FundingError::TargetZero)
        } else if max_target < target {
            Some(FundingError::MaxTargetBelowTarget)
        } else if min_fund == 0 {
            Some(FundingError::MinFundZero)
        } else if max_deposit_per_donor < min_fund {
            Some(FundingError::MaxDepositBelowMinFund)
        } else if deadline <= now {
            Some(FundingError::DeadlineInPast)
        } else {
            None
        }
    }

    /// Creates a campaign after validating the configuration exactly once.
    /// `now` is the host's current time; the deadline must lie strictly in
    /// the future.
    pub fn init(
        owner: u64,
        target: u128,
        deadline: u64,
        min_fund: u128,
        max_deposit_per_donor: u128,
        max_target: u128,
        now: u64,
    ) -> (r: Result<CrowdfundingSc, FundingError>)
        ensures
            match Self::init_error(target, deadline, min_fund, max_deposit_per_donor, max_target, now) {
                Some(e) => r == Err::<CrowdfundingSc, FundingError>(e),
                None => r matches Ok(sc) && {
                    &&& sc.well_formed()
                    &&& sc.owner == owner
                    &&& sc.target == target
                    &&& sc.deadline == deadline
                    &&& sc.min_fund == min_fund
                    &&& sc.max_deposit_per_donor == max_deposit_per_donor
                    &&& sc.max_target == max_target
                    &&& sc.deposits@.len() == 0
                    &&& sc.balance == 0
                },
            },
    {
        if target == 0 {
            return Err(FundingError::TargetZero);
        }
        if max_target < target {
            return Err(FundingError::MaxTargetBelowTarget);
        }
        if min_fund == 0 {
            return Err(FundingError::MinFundZero);
        }
        if max_deposit_per_donor < min_fund {
            return Err(FundingError::MaxDepositBelowMinFund);
        }
        if deadline <= now {
            return Err(FundingError::DeadlineInPast);
        }
        Ok(CrowdfundingSc {
            owner,
            target,
            deadline,
            min_fund,
            max_deposit_per_donor,
            max_target,
            deposits: Vec::new(),
            balance: 0,
        })
    }

    /// Derives the phase from the given current time; nothing is cached.
    pub fn status(&self, now: u64) -> (r: Status)
        ensures
            r == self.spec_status(now),
    {
        if now <= self.deadline {
            Status::FundingPeriod
        } else if self.balance >= self.target {
            Status::Successful
        } else {
            Status::Failed
        }
    }

    /// The value currently custodied by the campaign.
    pub fn get_current_funds(&self) -> (r: u128)
        ensures
            r == self.balance,
    {
        self.balance
    }

    /// The cumulative contribution recorded for `donor`.
    pub fn deposit(&self, donor: u64) -> (r: u128)
        requires
            self.well_formed(),
        ensures
            r as int == deposit_of(self.deposits@, donor),
    {
        match find_donor(&self.deposits, donor) {
            Some(i) => {
                proof {
                    lemma_deposit_at(self.deposits@, i as int);
                }
                self.deposits[i].amount
            },
            None => {
                proof {
                    lemma_deposit_absent(self.deposits@, donor);
                }
                0
            },
        }
    }

    /// The first guard a contribution breaks, if any, checked in the order
    /// `fund` checks them: minimum amount, room below the maximum target,
    /// deadline not passed, and, when the cap is enabled, the donor's new
    /// cumulative amount within the cap.
    pub open spec fn fund_error(self, caller: u64, payment: u128, now: u64) -> Option<FundingError> {
        if payment < self.min_fund {
            Some(FundingError::BelowMinFund)
        } else if self.balance + payment > self.max_target {
            Some(FundingError::ExceedsMaxTarget)
        } else if now >= self.deadline {
            Some(FundingError::AfterDeadline)
        } else if self.max_deposit_per_donor > 0
            && deposit_of(self.deposits@, caller) + payment > self.max_deposit_per_donor {
            Some(FundingError::ExceedsDonorCap)
        } else {
            None
        }
    }

    /// What an admitted contribution does: the caller's ledger entry and the
    /// custodied balance both grow by exactly the payment; no other donor's
    /// entry and no configuration field moves.
    pub open spec fn fund_ok_post(pre: CrowdfundingSc, post: CrowdfundingSc, caller: u64, payment: u128) -> bool {
        &&& pre.same_config(post)
        &&& post.balance == pre.balance + payment
        &&& deposit_of(post.deposits@, caller) == deposit_of(pre.deposits@, caller) + payment
        &&& forall|d: u64| d != caller ==> deposit_of(post.deposits@, d) == deposit_of(pre.deposits@, d)
        &&& sum_deposits(post.deposits@) == sum_deposits(pre.deposits@) + payment
        &&& pre.max_deposit_per_donor > 0
            ==> deposit_of(post.deposits@, caller) <= pre.max_deposit_per_donor
    }

    /// Contributes `payment` on behalf of `caller` at time `now`. The payment
    /// is custodied by the campaign; rejected contributions leave the state
    /// untouched.
    pub fn fund(&mut self, caller: u64, payment: u128, now: u64) -> (r: Result<(), FundingError>)
        requires
            old(self).well_formed(),
        ensures
            final(self).well_formed(),
            match old(self).fund_error(caller, payment, now) {
                Some(e) => r == Err::<(), FundingError>(e) && *final(self) == *old(self),
                None => r is Ok && Self::fund_ok_post(*old(self), *final(self), caller, payment),
            },
            // Whether the call was admitted or rejected: a non-zero cap that
            // every ledger entry respected before still bounds every entry,
            // so no sequence of contributions ever passes the cap.
            old(self).max_deposit_per_donor > 0 && (forall|d: u64|
                deposit_of(old(self).deposits@, d) <= old(self).max_deposit_per_donor)
                ==> forall|d: u64|
                    deposit_of(final(self).deposits@, d) <= old(self).max_deposit_per_donor,
    {
        if payment < self.min_fund {
            return Err(FundingError::BelowMinFund);
        }
        // balance <= max_target, so the subtraction cannot underflow and the
        // comparison is the guard `balance + payment <= max_target`.
        if payment > self.max_target - self.balance {
            return Err(FundingError::ExceedsMaxTarget);
        }
        if now >= self.deadline {
            return Err(FundingError::AfterDeadline);
        }
        let found = find_donor(&self.deposits, caller);
        let deposited_amount: u128 = match found {
            Some(i) => {
                proof {
                    lemma_deposit_at(self.deposits@, i as int);
                }
                self.deposits[i].amount
            },
            None => {
                proof {
                    lemma_deposit_absent(self.deposits@, caller);
                }
                0
            },
        };
        proof {
            lemma_deposit_of_le_sum(self.deposits@, caller);
        }
        if self.max_deposit_per_donor > 0 {
            if payment > self.max_deposit_per_donor
                || deposited_amount > self.max_deposit_per_donor - payment {
                return Err(FundingError::ExceedsDonorCap);
            }
        }
        // deposited_amount <= sum of the ledger == balance, and
        // balance + payment <= max_target, so the new cumulative fits.
        let wallet_deposit: u128 = deposited_amount + payment;
        match found {
            Some(i) => {
                proof {
                    lemma_deposit_update(
                        self.deposits@,
                        i as int,
                        DepositEntry { donor: caller, amount: wallet_deposit },
                    );
                }
                self.deposits.set(i, DepositEntry { donor: caller, amount: wallet_deposit });
            },
            None => {
                proof {
                    lemma_deposit_push(
                        self.deposits@,
                        DepositEntry { donor: caller, amount: wallet_deposit },
                    );
                }
                self.deposits.push(DepositEntry { donor: caller, amount: wallet_deposit });
            },
        }
        self.balance = self.balance + payment;
        proof {
            if self.max_deposit_per_donor > 0 && (forall|d: u64|
                deposit_of(old(self).deposits@, d) <= old(self).max_deposit_per_donor) {
                lemma_cap_preserved(*old(self), *self, caller, payment);
            }
        }
        Ok(())
    }

    /// The guard a claim breaks, if any: nothing can be claimed while the
    /// campaign is open, and only the owner collects a successful campaign.
    pub open spec fn claim_error(self, caller: u64, now: u64) -> Option<FundingError> {
        if self.spec_status(now) == Status::FundingPeriod {
            Some(FundingError::ClaimBeforeDeadline)
        } else if self.spec_status(now) == Status::Successful && caller != self.owner {
            Some(FundingError::NotOwner)
        } else {
            None
        }
    }

    /// Resolves a claim at time `now` and returns the transfer the host must
    /// carry out, if any.
    ///
    /// Successful campaign: the owner collects the whole custodied balance,
    /// and the ledger is cleared together with the balance — the deliberate
    /// choice here, so that the balance always equals the sum of the ledger
    /// entries. The drained campaign thereafter reads `Failed`, where every
    /// ledger entry is zero, so repeated claims by anybody are no-ops.
    /// Failed campaign: any caller with a non-zero ledger entry is refunded
    /// exactly that entry, the entry drops to zero, and a repeated claim is
    /// a no-op.
    pub fn claim(&mut self, caller: u64, now: u64) -> (r: Result<Option<Payment>, FundingError>)
        requires
            old(self).well_formed(),
        ensures
            final(self).well_formed(),
            old(self).same_config(*final(self)),
            match old(self).claim_error(caller, now) {
                Some(e) => r == Err::<Option<Payment>, FundingError>(e) && *final(self) == *old(self),
                None => r matches Ok(p) && {
                    if old(self).spec_status(now) == Status::Successful {
                        &&& p == Some(Payment { to: old(self).owner, amount: old(self).balance })
                        &&& final(self).balance == 0
                        &&& final(self).deposits@.len() == 0
                    } else {
                        let dep = deposit_of(old(self).deposits@, caller);
                        if dep > 0 {
                            &&& p == Some(Payment { to: caller, amount: dep as u128 })
                            &&& final(self).balance == old(self).balance - dep
                            &&& deposit_of(final(self).deposits@, caller) == 0
                            &&& forall|d: u64| d != caller
                                ==> deposit_of(final(self).deposits@, d) == deposit_of(old(self).deposits@, d)
                        } else {
                            p == None::<Payment> && *final(self) == *old(self)
                        }
                    }
                },
            },
    {
        let st = self.status(now);
        match st {
            Status::FundingPeriod => Err(FundingError::ClaimBeforeDeadline),
            Status::Successful => {
                if caller != self.owner {
                    return Err(FundingError::NotOwner);
                }
                let sc_balance = self.balance;
                self.deposits.clear();
                self.balance = 0;
                Ok(Some(Payment { to: self.owner, amount: sc_balance }))
            },
            Status::Failed => {
                match find_donor(&self.deposits, caller) {
                    Some(i) => {
                        proof {
                            lemma_deposit_at(self.deposits@, i as int);
                        }
                        let dep = self.deposits[i].amount;
                        if dep > 0 {
                            proof {
                                lemma_deposit_of_le_sum(self.deposits@, caller);
                                lemma_deposit_update(
                                    self.deposits@,
                                    i as int,
                                    DepositEntry { donor: caller, amount: 0 },
                                );
                            }
                            self.deposits.set(i, DepositEntry { donor: caller, amount: 0 });
                            self.balance = self.balance - dep;
                            Ok(Some(Payment { to: caller, amount: dep }))
                        } else {
                            Ok(None)
                        }
                    },
                    None => {
                        proof {
                            lemma_deposit_absent(self.deposits@, caller);
                        }
                        Ok(None)
                    },
                }
            },
        }
    }

    /// Adjusts the per-donor cap; only the owner may do so. A value of 0
    /// disables the cap for later contributions.
    pub fn set_max_deposit_per_donor(&mut self, caller: u64, max_deposit: u128) -> (r: Result<(), FundingError>)
        requires
            old(self).well_formed(),
        ensures
            final(self).well_formed(),
            if caller != old(self).owner {
                r == Err::<(), FundingError>(FundingError::NotOwner) && *final(self) == *old(self)
            } else {
                &&& r is Ok
                &&& final(self).max_deposit_per_donor == max_deposit
                &&& final(self).owner == old(self).owner
                &&& final(self).target == old(self).target
                &&& final(self).deadline == old(self).deadline
                &&& final(self).min_fund == old(self).min_fund
                &&& final(self).max_target == old(self).max_target
                &&& final(self).deposits@ == old(self).deposits@
                &&& final(self).balance == old(self).balance
            },
    {
        if caller != self.owner {
            return Err(FundingError::NotOwner);
        }
        self.max_deposit_per_donor = max_deposit;
        Ok(())
    }
}

/// Finds the ledger entry of `donor`, if it has one.
fn find_donor(deposits: &Vec<DepositEntry>, donor: u64) -> (r: Option<usize>)
    ensures
        match r {
            Some(i) => i < deposits@.len() && deposits@[i as int].donor == donor,
            None => forall|j: int| 0 <= j < deposits@.len() ==> deposits@[j].donor != donor,
        },
{
    let mut idx: usize = 0;
    while idx < deposits.len()
        invariant
            idx <= deposits@.len(),
            forall|j: int| 0 <= j < idx ==> deposits@[j].donor != donor,
        decreases deposits@.len() - idx,
    {
        if deposits[idx].donor == donor {
            return Some(idx);
        }
        idx = idx + 1;
    }
    None
}

/// Law: before the deadline the campaign is in its funding period, whatever
/// the ledger and the balance hold.
pub proof fn lemma_open_before_deadline(sc: CrowdfundingSc, now: u64)
    requires
        now <= sc.deadline,
    ensures
        sc.spec_status(now) == Status::FundingPeriod,
{
}

/// Law: after the deadline the campaign succeeded if and only if the
/// custodied balance reached the target; nothing besides the clock and the
/// balance decides the phase.
pub proof fn lemma_resolution_by_balance(sc: CrowdfundingSc, now: u64)
    requires
        now > sc.deadline,
    ensures
        sc.spec_status(now) == Status::Successful <==> sc.balance >= sc.target,
        sc.spec_status(now) == Status::Failed <==> sc.balance < sc.target,
{
}

/// Law: in a well-formed campaign the custodied balance always equals the
/// sum of the per-donor ledger entries.
pub proof fn lemma_balance_matches_ledger(sc: CrowdfundingSc)
    requires
        sc.well_formed(),
    ensures
        sum_deposits(sc.deposits@) == sc.balance,
{
}

/// Law: when the cap is enabled, an admitted contribution never lifts any
/// donor's cumulative contribution above the cap: a ledger whose entries all
/// respect the cap still does after the contribution is recorded.
pub proof fn lemma_cap_preserved(
    pre: CrowdfundingSc,
    post: CrowdfundingSc,
    caller: u64,
    payment: u128,
)
    requires
        pre.max_deposit_per_donor > 0,
        CrowdfundingSc::fund_ok_post(pre, post, caller, payment),
        forall|d: u64| deposit_of(pre.deposits@, d) <= pre.max_deposit_per_donor,
    ensures
        forall|d: u64| deposit_of(post.deposits@, d) <= pre.max_deposit_per_donor,
{
    assert forall|d: u64| deposit_of(post.deposits@, d) <= pre.max_deposit_per_donor by {
        if d != caller {
            assert(deposit_of(post.deposits@, d) == deposit_of(pre.deposits@, d));
        }
    }
}

} // verus!
