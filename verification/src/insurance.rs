//! The insurance (backstop) fund: a share of every protocol fee accrues to
//! it, and it covers whitelisted failure classes, never paying out more than
//! it holds.
use vstd::prelude::*;

use crate::admin::{_ensure_not_paused, AdminContext, RuntimeMode};
use crate::errors::ContractError;
use crate::math_common::{fits_i128, payout_add, payout_add_spec};

verus! {

/// Largest accrual split: half of each fee.
pub const MAX_INSURANCE_SPLIT_BPS: u32 = 5_000;

/// Largest coverage: the whole stake.
pub const MAX_INSURANCE_COVERAGE_BPS: u32 = 10_000;

/// The failure classes that coverage can be granted for.
#[derive(Clone, Copy, Debug, PartialEq, Eq, Structural)]
pub enum InsuranceEvent {
    OracleOutage,
    OracleDeviation,
    FallbackRefund,
}

/// The stored code of an event class.
pub open spec fn event_code(e: InsuranceEvent) -> u32 {
    match e {
        InsuranceEvent::OracleOutage => 1,
        InsuranceEvent::OracleDeviation => 2,
        InsuranceEvent::FallbackRefund => 3,
    }
}

/// The stored code of an event class.
pub fn insurance_event_code(e: InsuranceEvent) -> (c: u32)
    ensures
        c == event_code(e),
{
    match e {
        InsuranceEvent::OracleOutage => 1,
        InsuranceEvent::OracleDeviation => 2,
        InsuranceEvent::FallbackRefund => 3,
    }
}

/// The event class a round-cancellation reason stands for: 1 an oracle
/// outage, 2 an oracle deviation, 3 a fallback refund; others none.
pub open spec fn event_of_reason(reason: u32) -> Option<InsuranceEvent> {
    if reason == 1 {
        Some(InsuranceEvent::OracleOutage)
    } else if reason == 2 {
        Some(InsuranceEvent::OracleDeviation)
    } else if reason == 3 {
        Some(InsuranceEvent::FallbackRefund)
    } else {
        None
    }
}

/// Who may change the insurance configuration: an admin must exist and the
/// contract must not be fully paused; the stored schema plays no part.
pub open spec fn insurance_admin_gate(ctx: AdminContext) -> Result<(), ContractError> {
    if !ctx.admin_set {
        Err(ContractError::AdminNotSet)
    } else if ctx.runtime_mode == RuntimeMode::FullyPaused {
        Err(ContractError::ContractPaused)
    } else {
        Ok(())
    }
}

fn require_insurance_admin(ctx: &AdminContext) -> (r: Result<(), ContractError>)
    ensures
        r == insurance_admin_gate(*ctx),
{
    if !ctx.admin_set {
        return Err(ContractError::AdminNotSet);
    }
    _ensure_not_paused(ctx.runtime_mode)
}

/// Validates a new accrual split (admin only).
pub fn set_insurance_split_bps(ctx: &AdminContext, bps: u32) -> (r: Result<u32, ContractError>)
    ensures
        r == (match insurance_admin_gate(*ctx) {
            Err(e) => Err(e),
            Ok(_) => if bps > MAX_INSURANCE_SPLIT_BPS {
                Err(ContractError::InsuranceInvalidSplit)
            } else {
                Ok(bps)
            },
        }),
{
    require_insurance_admin(ctx)?;
    if bps > MAX_INSURANCE_SPLIT_BPS {
        return Err(ContractError::InsuranceInvalidSplit);
    }
    Ok(bps)
}

/// Validates a new coverage rate (admin only).
pub fn set_insurance_coverage_bps(ctx: &AdminContext, bps: u32) -> (r: Result<u32, ContractError>)
    ensures
        r == (match insurance_admin_gate(*ctx) {
            Err(e) => Err(e),
            Ok(_) => if bps > MAX_INSURANCE_COVERAGE_BPS {
                Err(ContractError::InsuranceInvalidSplit)
            } else {
                Ok(bps)
            },
        }),
{
    require_insurance_admin(ctx)?;
    if bps > MAX_INSURANCE_COVERAGE_BPS {
        return Err(ContractError::InsuranceInvalidSplit);
    }
    Ok(bps)
}

/// Replaces the whitelist of event codes that coverage is granted for
/// (admin only); the list is stored as given.
pub fn set_insurance_eligible_events(ctx: &AdminContext, events: Vec<u32>) -> (r: Result<
    Vec<u32>,
    ContractError,
>)
    ensures
        insurance_admin_gate(*ctx) is Err ==> r == Err::<Vec<u32>, ContractError>(
            insurance_admin_gate(*ctx)->Err_0,
        ),
        insurance_admin_gate(*ctx) is Ok ==> r is Ok && r->Ok_0@ == events@,
{
    require_insurance_admin(ctx)?;
    Ok(events)
}

/// The whitelist of event codes; empty until one is set.
pub fn get_insurance_eligible_events(stored: Option<Vec<u32>>) -> (v: Vec<u32>)
    ensures
        v@ == (match stored {
            Some(w) => w@,
            None => Seq::<u32>::empty(),
        }),
{
    match stored {
        Some(w) => w,
        None => Vec::new(),
    }
}

/// The accrual split in basis points; `0` (off) until one is set.
pub fn get_insurance_split_bps(stored: Option<u32>) -> (v: u32)
    ensures
        v == (match stored {
            Some(b) => b,
            None => 0u32,
        }),
{
    match stored {
        Some(b) => b,
        None => 0,
    }
}

/// The coverage rate in basis points; `0` (off) until one is set.
pub fn get_insurance_coverage_bps(stored: Option<u32>) -> (v: u32)
    ensures
        v == (match stored {
            Some(b) => b,
            None => 0u32,
        }),
{
    match stored {
        Some(b) => b,
        None => 0,
    }
}

/// The balance of the fund; `0` until anything accrued.
pub fn get_insurance_fund_balance(stored: Option<i128>) -> (v: i128)
    ensures
        v == (match stored {
            Some(b) => b,
            None => 0i128,
        }),
{
    match stored {
        Some(b) => b,
        None => 0,
    }
}

/// The insurance share of a fee: `fee * split_bps / 10_000`, at most the
/// fee, nothing when the split is off or the fee is not positive.
pub open spec fn insurance_share(split_bps: u32, fee_amount: i128) -> Result<i128, ContractError> {
    if split_bps == 0 || fee_amount <= 0 {
        Ok(0)
    } else if !fits_i128(fee_amount * split_bps) {
        Err(ContractError::Overflow)
    } else {
        let a = fee_amount * split_bps / 10_000;
        if a <= 0 {
            Ok(0)
        } else if a < fee_amount {
            Ok(a as i128)
        } else {
            Ok(fee_amount)
        }
    }
}

/// Accrues the insurance share of a fee into the fund. Returns the share
/// and the new fund balance.
pub fn collect_insurance_fee(fund: i128, split_bps: u32, fee_amount: i128) -> (r: Result<
    (i128, i128),
    ContractError,
>)
    ensures
        r == (match insurance_share(split_bps, fee_amount) {
            Err(e) => Err(e),
            Ok(a) => if a == 0 {
                Ok((0i128, fund))
            } else if !fits_i128(fund + a) {
                Err(ContractError::Overflow)
            } else {
                Ok((a, (fund + a) as i128))
            },
        }),
{
    if split_bps == 0 || fee_amount <= 0 {
        return Ok((0, fund));
    }
    let product = match fee_amount.checked_mul(split_bps as i128) {
        Some(p) => p,
        None => return Err(ContractError::Overflow),
    };
    let insurance_amount = product / 10_000;
    if insurance_amount <= 0 {
        return Ok((0, fund));
    }
    let capped = if insurance_amount < fee_amount {
        insurance_amount
    } else {
        fee_amount
    };
    let new_fund = match fund.checked_add(capped) {
        Some(f) => f,
        None => return Err(ContractError::Overflow),
    };
    Ok((capped, new_fund))
}

/// Where protocol fees are held: the operations treasury and the
/// insurance fund, with the split between them.
#[derive(Clone, Copy, Debug, PartialEq, Eq, Structural)]
pub struct FeeLedger {
    pub treasury: i128,
    pub insurance_fund: i128,
    pub insurance_split_bps: u32,
}

/// The ledger after a fee is collected: the insurance share to the fund,
/// the rest to the treasury; a fee that is not positive changes nothing.
pub open spec fn fee_collected(ledger: FeeLedger, fee_amount: i128) -> Result<
    FeeLedger,
    ContractError,
> {
    if fee_amount <= 0 {
        Ok(ledger)
    } else {
        match insurance_share(ledger.insurance_split_bps, fee_amount) {
            Err(e) => Err(e),
            Ok(a) => if a != 0 && !fits_i128(ledger.insurance_fund + a) {
                Err(ContractError::Overflow)
            } else if !fits_i128(ledger.treasury + (fee_amount - a)) {
                Err(ContractError::Overflow)
            } else {
                Ok(
                    FeeLedger {
                        treasury: (ledger.treasury + (fee_amount - a)) as i128,
                        insurance_fund: (ledger.insurance_fund + a) as i128,
                        insurance_split_bps: ledger.insurance_split_bps,
                    },
                )
            },
        }
    }
}

/// Collects a protocol fee into the treasury and the insurance fund.
pub fn _collect_protocol_fee(ledger: FeeLedger, fee_amount: i128) -> (r: Result<
    FeeLedger,
    ContractError,
>)
    ensures
        r == fee_collected(ledger, fee_amount),
{
    if fee_amount <= 0 {
        return Ok(ledger);
    }
    let (insurance_amount, new_fund) = collect_insurance_fee(
        ledger.insurance_fund,
        ledger.insurance_split_bps,
        fee_amount,
    )?;
    let ops_amount = fee_amount - insurance_amount;
    let new_treasury = match ledger.treasury.checked_add(ops_amount) {
        Some(t) => t,
        None => return Err(ContractError::Overflow),
    };
    Ok(
        FeeLedger {
            treasury: new_treasury,
            insurance_fund: new_fund,
            insurance_split_bps: ledger.insurance_split_bps,
        },
    )
}

/// A collected fee is split, not created or lost: treasury plus fund grows
/// by exactly the fee, and the fund's share is within the fee.
pub proof fn law_fee_collection_conserves(ledger: FeeLedger, fee_amount: i128)
    requires
        fee_collected(ledger, fee_amount) is Ok,
    ensures
        ({
            let after = fee_collected(ledger, fee_amount)->Ok_0;
            &&& fee_amount > 0 ==> after.treasury + after.insurance_fund == ledger.treasury
                + ledger.insurance_fund + fee_amount
            &&& fee_amount <= 0 ==> after == ledger
            &&& fee_amount > 0 ==> 0 <= after.insurance_fund - ledger.insurance_fund <= fee_amount
        }),
{
}

/// Whether a cancellation reason is whitelisted for coverage.
pub open spec fn reason_whitelisted(whitelist: Seq<u32>, reason: u32) -> bool {
    match event_of_reason(reason) {
        None => false,
        Some(e) => whitelist.contains(event_code(e)),
    }
}

fn _is_eligible_event(whitelist: &Vec<u32>, cancel_reason: u32) -> (b: bool)
    ensures
        b == reason_whitelisted(whitelist@, cancel_reason),
{
    let event_type: u32 = if cancel_reason == 1 {
        insurance_event_code(InsuranceEvent::OracleOutage)
    } else if cancel_reason == 2 {
        insurance_event_code(InsuranceEvent::OracleDeviation)
    } else if cancel_reason == 3 {
        insurance_event_code(InsuranceEvent::FallbackRefund)
    } else {
        return false;
    };
    let mut i: usize = 0;
    while i < whitelist.len()
        invariant
            i <= whitelist@.len(),
            forall|k: int| 0 <= k < i ==> whitelist@[k] != event_type,
            event_type == event_code(event_of_reason(cancel_reason)->0),
            event_of_reason(cancel_reason) is Some,
        decreases whitelist@.len() - i,
    {
        if whitelist[i] == event_type {
            return true;
        }
        i = i + 1;
    }
    proof {
        assert(!whitelist@.contains(event_type));
    }
    false
}

/// A cancellation is covered when its reason is whitelisted and coverage is
/// configured.
pub fn is_coverage_eligible(whitelist: &Vec<u32>, coverage_bps: u32, cancel_reason: u32) -> (b:
    bool)
    ensures
        b == (reason_whitelisted(whitelist@, cancel_reason) && coverage_bps > 0),
{
    _is_eligible_event(whitelist, cancel_reason) && coverage_bps > 0
}

/// The coverage owed on a stake: `stake * coverage_bps / 10_000`, nothing
/// when coverage is off or the stake is not positive.
pub fn calculate_coverage_amount(coverage_bps: u32, stake: i128) -> (r: Result<
    i128,
    ContractError,
>)
    ensures
        r == (if coverage_bps == 0 || stake <= 0 {
            Ok(0i128)
        } else if !fits_i128(stake * coverage_bps) {
            Err(ContractError::Overflow)
        } else {
            Ok((stake * coverage_bps / 10_000) as i128)
        }),
{
    if coverage_bps == 0 || stake <= 0 {
        return Ok(0);
    }
    let product = match stake.checked_mul(coverage_bps as i128) {
        Some(p) => p,
        None => return Err(ContractError::Overflow),
    };
    Ok(product / 10_000)
}

/// The coverage actually paid on a request, and the fund after: the
/// request, capped by what the fund holds.
pub open spec fn coverage_deduction(fund: i128, requested: i128) -> (i128, i128) {
    if requested <= 0 || fund <= 0 {
        (0i128, fund)
    } else if requested < fund {
        (requested, (fund - requested) as i128)
    } else {
        (fund, 0i128)
    }
}

/// Pays coverage out of the fund, never more than it holds. Returns the
/// amount paid and the new fund balance.
pub fn deduct_insurance_coverage(fund: i128, requested: i128) -> (r: (i128, i128))
    ensures
        r == coverage_deduction(fund, requested),
{
    if requested <= 0 {
        return (0, fund);
    }
    if fund <= 0 {
        return (0, fund);
    }
    let distributed = if requested < fund {
        requested
    } else {
        fund
    };
    (distributed, fund - distributed)
}

/// Coverage is solvent: what is paid is never more than was requested or
/// than the fund held, the fund never goes negative from a payout, and what
/// leaves the fund is exactly what is paid.
pub proof fn law_coverage_solvent(fund: i128, requested: i128)
    ensures
        ({
            let (paid, after) = coverage_deduction(fund, requested);
            &&& 0 <= paid
            &&& requested > 0 ==> paid <= requested
            &&& fund > 0 ==> paid <= fund && after >= 0
            &&& after + paid == fund
        }),
{
}

/// Moves funds from the admin's balance into the fund (admin only).
/// Returns the admin's new balance and the new fund balance.
pub fn top_up_insurance_fund(ctx: &AdminContext, admin_balance: i128, fund: i128, amount: i128) -> (r:
    Result<(i128, i128), ContractError>)
    ensures
        r == (if !ctx.admin_set {
            Err(ContractError::AdminNotSet)
        } else if ctx.runtime_mode == RuntimeMode::FullyPaused {
            Err(ContractError::ContractPaused)
        } else if amount <= 0 {
            Err(ContractError::InvalidBetAmount)
        } else if admin_balance < amount {
            Err(ContractError::InsufficientBalance)
        } else if !fits_i128(fund + amount) {
            Err(ContractError::Overflow)
        } else {
            Ok(((admin_balance - amount) as i128, (fund + amount) as i128))
        }),
{
    if !ctx.admin_set {
        return Err(ContractError::AdminNotSet);
    }
    _ensure_not_paused(ctx.runtime_mode)?;
    if amount <= 0 {
        return Err(ContractError::InvalidBetAmount);
    }
    if admin_balance < amount {
        return Err(ContractError::InsufficientBalance);
    }
    let new_balance = admin_balance - amount;
    let new_fund = match fund.checked_add(amount) {
        Some(f) => f,
        None => return Err(ContractError::Overflow),
    };
    Ok((new_balance, new_fund))
}

/// The outcome of a withdrawal from the fund to a recipient: the amount
/// must be positive and held by the fund.
pub open spec fn fund_withdrawal(fund: i128, recipient_balance: i128, amount: i128) -> Result<
    (i128, i128),
    ContractError,
> {
    if amount <= 0 {
        Err(ContractError::InvalidBetAmount)
    } else if amount > fund {
        Err(ContractError::InsuranceInsufficientFund)
    } else {
        match payout_add_spec(recipient_balance, amount) {
            Err(e) => Err(e),
            Ok(b) => Ok(((fund - amount) as i128, b)),
        }
    }
}

/// Withdraws from the fund once governance approved it. Returns the new
/// fund balance and the recipient's new balance.
pub fn execute_withdraw_insurance_fund(fund: i128, recipient_balance: i128, amount: i128) -> (r:
    Result<(i128, i128), ContractError>)
    ensures
        r == fund_withdrawal(fund, recipient_balance, amount),
{
    if amount <= 0 {
        return Err(ContractError::InvalidBetAmount);
    }
    if amount > fund {
        return Err(ContractError::InsuranceInsufficientFund);
    }
    let new_fund = fund - amount;
    let new_recipient = payout_add(recipient_balance, amount)?;
    Ok((new_fund, new_recipient))
}

/// A direct withdrawal by the admin, allowed only while no governance
/// approver is set (otherwise it must go through a proposal).
pub fn withdraw_insurance_fund(
    ctx: &AdminContext,
    gov_approver_set: bool,
    fund: i128,
    recipient_balance: i128,
    amount: i128,
) -> (r: Result<(i128, i128), ContractError>)
    ensures
        r == (if !ctx.admin_set {
            Err(ContractError::AdminNotSet)
        } else if gov_approver_set {
            Err(ContractError::GovUnauthorized)
        } else if ctx.runtime_mode == RuntimeMode::FullyPaused {
            Err(ContractError::ContractPaused)
        } else {
            fund_withdrawal(fund, recipient_balance, amount)
        }),
{
    if !ctx.admin_set {
        return Err(ContractError::AdminNotSet);
    }
    if gov_approver_set {
        return Err(ContractError::GovUnauthorized);
    }
    _ensure_not_paused(ctx.runtime_mode)?;
    execute_withdraw_insurance_fund(fund, recipient_balance, amount)
}

/// A withdrawal never leaves the fund negative when it started
/// non-negative, and moves exactly the amount.
pub proof fn law_withdrawal_solvent(fund: i128, recipient_balance: i128, amount: i128)
    requires
        fund_withdrawal(fund, recipient_balance, amount) is Ok,
    ensures
        ({
            let (f, b) = fund_withdrawal(fund, recipient_balance, amount)->Ok_0;
            &&& f >= 0
            &&& f == fund - amount
            &&& b == recipient_balance + amount
        }),
{
}

} // verus!
