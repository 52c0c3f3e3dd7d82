//! A stake-weighted oracle committee: the quorum of active stake behind a
//! set of feeder reports, and slashing of misbehaving feeders.
//!
//! Feeders are identified by opaque `u64` ids here.
use vstd::prelude::*;

use crate::errors::ContractError;
use crate::math_common::{div_trunc, div_trunc_i128, fits_i128, sat_add_i128, sat_sub_i128, saturating_add_i128};

verus! {

/// A registered feeder.
#[derive(Clone, Copy, Debug, PartialEq, Eq, Structural)]
pub struct CommitteeMember {
    pub feeder: u64,
    pub stake: i128,
    pub active: bool,
    pub registered_at: u64,
}

/// A price reported by a feeder.
#[derive(Clone, Copy, Debug, PartialEq, Eq, Structural)]
pub struct FeederReport {
    pub feeder: u64,
    pub price: i128,
    pub timestamp: u64,
}

/// The committee's aggregate of a set of reports.
#[derive(Clone, Copy, Debug, PartialEq, Eq, Structural)]
pub struct AggregatedOraclePrice {
    pub price: i128,
    pub total_stake_weight: i128,
    pub quorum_reached: bool,
}

/// The stake of the active members, summed in order with saturation.
pub open spec fn active_stake(members: Seq<CommitteeMember>) -> i128
    decreases members.len(),
{
    if members.len() == 0 {
        0
    } else {
        let m = members.last();
        let prev = active_stake(members.drop_last());
        if m.active {
            sat_add_i128(prev, m.stake)
        } else {
            prev
        }
    }
}

/// Adds, in member order, the stake of every active member with the
/// report's feeder id to `acc`, with saturation.
pub open spec fn report_stake(acc: i128, report: FeederReport, members: Seq<CommitteeMember>) -> i128
    decreases members.len(),
{
    if members.len() == 0 {
        acc
    } else {
        let prev = report_stake(acc, report, members.drop_last());
        let m = members.last();
        if m.feeder == report.feeder && m.active {
            sat_add_i128(prev, m.stake)
        } else {
            prev
        }
    }
}

/// The stake behind the reports: for each report in order, the stake of the
/// matching active members, all summed with saturation.
pub open spec fn participating_stake(reports: Seq<FeederReport>, members: Seq<CommitteeMember>) -> i128
    decreases reports.len(),
{
    if reports.len() == 0 {
        0
    } else {
        report_stake(participating_stake(reports.drop_last(), members), reports.last(), members)
    }
}

/// Whether some active member has the report's feeder id.
pub open spec fn backed(report: FeederReport, members: Seq<CommitteeMember>) -> bool {
    exists|j: int| 0 <= j < members.len() && #[trigger] members[j].feeder == report.feeder
        && members[j].active
}

/// The price of the first report backed by an active member, if any.
pub open spec fn first_backed_price(reports: Seq<FeederReport>, members: Seq<CommitteeMember>) -> Option<i128>
    decreases reports.len(),
{
    if reports.len() == 0 {
        None
    } else if backed(reports[0], members) {
        Some(reports[0].price)
    } else {
        first_backed_price(reports.drop_first(), members)
    }
}

/// The committee's aggregate: refused when there are no reports or no
/// active stake; otherwise the first backed price (0 if none), the
/// participating stake, and whether it reaches `total * quorum_bps / 10_000`
/// (rounded toward zero).
pub open spec fn aggregate(
    reports: Seq<FeederReport>,
    members: Seq<CommitteeMember>,
    required_quorum_bps: u32,
) -> Result<AggregatedOraclePrice, ContractError> {
    let total = active_stake(members);
    if reports.len() == 0 || total == 0 {
        Err(ContractError::InvalidAmount)
    } else {
        let participating = participating_stake(reports, members);
        let required = div_trunc(total * required_quorum_bps, 10_000);
        Ok(
            AggregatedOraclePrice {
                price: first_backed_price(reports, members).unwrap_or(0i128),
                total_stake_weight: participating,
                quorum_reached: participating >= required,
            },
        )
    }
}

/// The stake-weighted oracle committee.
pub struct OracleCommittee;

proof fn lemma_first_backed_step(reports: Seq<FeederReport>, members: Seq<CommitteeMember>, i: int)
    requires
        0 <= i < reports.len(),
        forall|k: int| 0 <= k < i ==> !backed(#[trigger] reports[k], members),
    ensures
        first_backed_price(reports, members) == first_backed_price(reports.subrange(i, reports.len() as int), members),
    decreases i,
{
    if i > 0 {
        assert(!backed(reports[0], members));
        assert(reports.drop_first().subrange(i - 1, reports.drop_first().len() as int) =~= reports.subrange(i, reports.len() as int));
        assert forall|k: int| 0 <= k < i - 1 implies !backed(#[trigger] reports.drop_first()[k], members) by {
            assert(reports.drop_first()[k] == reports[k + 1]);
        }
        lemma_first_backed_step(reports.drop_first(), members, i - 1);
    } else {
        assert(reports.subrange(0, reports.len() as int) =~= reports);
    }
}

proof fn lemma_first_backed_none(reports: Seq<FeederReport>, members: Seq<CommitteeMember>)
    requires
        forall|k: int| 0 <= k < reports.len() ==> !backed(#[trigger] reports[k], members),
    ensures
        first_backed_price(reports, members) is None,
    decreases reports.len(),
{
    if reports.len() > 0 {
        assert forall|k: int| 0 <= k < reports.drop_first().len() implies !backed(#[trigger] reports.drop_first()[k], members) by {
            assert(reports.drop_first()[k] == reports[k + 1]);
        }
        lemma_first_backed_none(reports.drop_first(), members);
    }
}

impl OracleCommittee {
    /// Aggregates feeder reports: the stake of the active members behind
    /// them, whether it reaches the required share of all active stake, and
    /// the first backed price.
    pub fn aggregate_reports(
        reports: &Vec<FeederReport>,
        members: &Vec<CommitteeMember>,
        required_quorum_bps: u32,
    ) -> (r: Result<AggregatedOraclePrice, ContractError>)
        requires
            fits_i128(active_stake(members@) * required_quorum_bps),
        ensures
            r == aggregate(reports@, members@, required_quorum_bps),
    {
        if reports.len() == 0 {
            return Err(ContractError::InvalidAmount);
        }
        let mut total: i128 = 0;
        let mut i: usize = 0;
        while i < members.len()
            invariant
                i <= members@.len(),
                total == active_stake(members@.take(i as int)),
            decreases members@.len() - i,
        {
            proof {
                assert(members@.take(i + 1).drop_last() =~= members@.take(i as int));
            }
            if members[i].active {
                total = saturating_add_i128(total, members[i].stake);
            }
            i = i + 1;
        }
        proof {
            assert(members@.take(members@.len() as int) =~= members@);
        }
        if total == 0 {
            return Err(ContractError::InvalidAmount);
        }
        let mut participating: i128 = 0;
        let mut price: Option<i128> = None;
        let mut ri: usize = 0;
        while ri < reports.len()
            invariant
                ri <= reports@.len(),
                reports@.len() > 0,
                participating == participating_stake(reports@.take(ri as int), members@),
                price is None ==> forall|k: int| 0 <= k < ri ==> !backed(#[trigger] reports@[k], members@),
                price is Some ==> price == first_backed_price(reports@, members@),
            decreases reports@.len() - ri,
        {
            let report = reports[ri];
            let ghost before = participating;
            let mut found = false;
            let mut j: usize = 0;
            while j < members.len()
                invariant
                    j <= members@.len(),
                    report == reports@[ri as int],
                    participating == report_stake(before, report, members@.take(j as int)),
                    found <==> exists|k: int| 0 <= k < j && #[trigger] members@[k].feeder == report.feeder
                        && members@[k].active,
                decreases members@.len() - j,
            {
                proof {
                    assert(members@.take(j + 1).drop_last() =~= members@.take(j as int));
                }
                let m = members[j];
                if m.feeder == report.feeder && m.active {
                    participating = saturating_add_i128(participating, m.stake);
                    found = true;
                }
                j = j + 1;
            }
            proof {
                assert(members@.take(members@.len() as int) =~= members@);
                assert(reports@.take(ri + 1).drop_last() =~= reports@.take(ri as int));
                assert(reports@.take(ri + 1).last() == report);
            }
            if found && price.is_none() {
                proof {
                    assert(backed(report, members@));
                    lemma_first_backed_step(reports@, members@, ri as int);
                    let tail = reports@.subrange(ri as int, reports@.len() as int);
                    assert(tail[0] == report);
                }
                price = Some(report.price);
            }
            ri = ri + 1;
        }
        proof {
            assert(reports@.take(reports@.len() as int) =~= reports@);
            if price is None {
                lemma_first_backed_none(reports@, members@);
            }
        }
        let product = total * (required_quorum_bps as i128);
        let required = div_trunc_i128(product, 10_000);
        let quorum_reached = participating >= required;
        let final_price = match price {
            Some(p) => p,
            None => 0,
        };
        Ok(
            AggregatedOraclePrice {
                price: final_price,
                total_stake_weight: participating,
                quorum_reached,
            },
        )
    }

    /// Slashes a feeder by at most its stake; a feeder left with no stake
    /// is deactivated. Returns the amount slashed.
    pub fn slash_feeder(member: &mut CommitteeMember, slash_amount: i128) -> (r: Result<
        i128,
        ContractError,
    >)
        ensures
            ({
                let actual = if old(member).stake <= slash_amount {
                    old(member).stake
                } else {
                    slash_amount
                };
                let stake = sat_sub_i128(old(member).stake, actual);
                &&& r == Ok::<i128, ContractError>(actual)
                &&& final(member).stake == stake
                &&& final(member).active == (old(member).active && stake != 0)
                &&& final(member).feeder == old(member).feeder
                &&& final(member).registered_at == old(member).registered_at
            }),
    {
        let actual = if member.stake <= slash_amount {
            member.stake
        } else {
            slash_amount
        };
        member.stake = crate::math_common::saturating_sub_i128(member.stake, actual);
        if member.stake == 0 {
            member.active = false;
        }
        Ok(actual)
    }
}

/// Slashing never takes more than was asked or than the feeder staked, and
/// what it takes leaves the stake (absent saturation of a negative request).
pub proof fn law_slash_bounded(stake: i128, slash_amount: i128)
    ensures
        ({
            let actual = if stake <= slash_amount {
                stake
            } else {
                slash_amount
            };
            &&& actual <= stake
            &&& actual <= slash_amount
            &&& fits_i128(stake - actual) ==> sat_sub_i128(stake, actual) + actual == stake
            &&& stake <= slash_amount ==> sat_sub_i128(stake, actual) == 0
        }),
{
}

} // verus!
