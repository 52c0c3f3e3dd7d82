//! Protocol-wide limits and defaults.
use vstd::prelude::*;

use crate::errors::ContractError;
use crate::math_common::{payout_add, payout_add_spec};

verus! {

/// Refused while a round is active.
pub fn assert_no_active_round(has_active_round: bool) -> (r: Result<(), ContractError>)
    ensures
        r == (if has_active_round {
            Err(ContractError::RoundAlreadyActive)
        } else {
            Ok(())
        }),
{
    if has_active_round {
        return Err(ContractError::RoundAlreadyActive);
    }
    Ok(())
}

pub const DEFAULT_PENDING_WINNINGS_EXPIRY: u32 = 0;
pub const MIN_PENDING_WINNINGS_EXPIRY: u32 = 128;
pub const MAX_PENDING_WINNINGS_EXPIRY: u32 = 1_000_000;
pub const DEFAULT_GOV_PROPOSAL_TTL_LEDGERS: u32 = 100;
/// Maximum dispute window in ledgers (about 7 days at 5 s ledgers).
pub const MAX_DISPUTE_LEDGERS: u32 = 120_960;
pub const DEFAULT_DISPUTE_LEDGERS: u32 = 0;
pub const MIN_CAP_VALUE: i128 = 1;
pub const MAX_MIN_PARTICIPANTS: u32 = 10_000;
pub const DEFAULT_MAX_PRECISION_PARTICIPANTS: u32 = 1_000;
pub const MAX_PRECISION_PARTICIPANTS_LIMIT: u32 = 10_000;
pub const MAX_PAGE_SIZE: u32 = 100;
/// Hard cap on the addresses accepted by one batch claim.
pub const MAX_CLAIM_BATCH_SIZE: u32 = 50;
/// Entries kept in each bounded leaderboard index.
pub const LEADERBOARD_LIMIT: u32 = 100;
pub const DEFAULT_ORACLE_STALE_THRESHOLD: u64 = 3_600;
pub const MIN_ORACLE_STALE_THRESHOLD: u64 = 60;
pub const MAX_ORACLE_STALE_THRESHOLD: u64 = 86_400;
pub const DEFAULT_ORACLE_HEARTBEAT_GRACE_SECONDS: u64 = 600;
pub const MIN_ORACLE_HEARTBEAT_GRACE_SECONDS: u64 = 0;
pub const MAX_ORACLE_HEARTBEAT_GRACE_SECONDS: u64 = 86_400;
pub const DEFAULT_BET_WINDOW_LEDGERS: u32 = 6;
pub const DEFAULT_RUN_WINDOW_LEDGERS: u32 = 12;
pub const DEFAULT_CLOSE_BUFFER_LEDGERS: u32 = 0;
pub const MAX_BET_WINDOW_LEDGERS: u32 = 1_440;
pub const MAX_RUN_WINDOW_LEDGERS: u32 = 2_880;
pub const MAX_CLOSE_BUFFER_LEDGERS: u32 = 1_440;
pub const MAX_ORACLE_DEVIATION_BPS: u32 = 100_000;
/// Approximate seconds per ledger, for estimating a round's end time.
pub const SECONDS_PER_LEDGER: u64 = 5;
pub const DEFAULT_ORACLE_TIMESTAMP_SKEW: u64 = 300;
pub const MIN_ORACLE_TIMESTAMP_SKEW: u64 = 0;
pub const MAX_ORACLE_TIMESTAMP_SKEW: u64 = 86_400;
pub const MAX_PROTOCOL_FEE_BPS: u32 = 1_000;
pub const CURRENT_SCHEMA_VERSION: u32 = 3;
pub const MIN_START_PRICE: u128 = 1;
pub const MAX_START_PRICE: u128 = 1_000_000_000_000_000_000;
pub const TTL_BUMP_THRESHOLD: u32 = 17_280;
pub const TTL_BUMP_AMOUNT: u32 = 518_400;
pub const DEFAULT_ARCHIVE_RETENTION: u32 = 128;
pub const MIN_ARCHIVE_RETENTION: u32 = 1;
pub const MAX_ARCHIVE_RETENTION: u32 = 10_000;
pub const CONFIG_TIMELOCK_LEDGERS: u32 = 1440;
/// Ledgers per mint epoch (about 2 hours at 5 s ledgers).
pub const EPOCH_LEDGERS: u32 = 1440;
pub const DEFAULT_ORACLE_QUORUM_MIN_OBSERVATIONS: u32 = 3;
pub const DEFAULT_ORACLE_QUORUM_THRESHOLD: u32 = 3;
pub const DEFAULT_ORACLE_OUTLIER_THRESHOLD_BPS: u32 = 500;
pub const MAX_ORACLE_OBSERVATIONS: u32 = 32;
pub const MIN_TWAP_WINDOW_SAMPLES: u32 = 2;
pub const MAX_TWAP_WINDOW_SAMPLES: u32 = 64;

/// The mint epoch that a ledger falls in.
pub fn _current_epoch_id(ledger_sequence: u32) -> (e: u32)
    ensures
        e == ledger_sequence / EPOCH_LEDGERS,
{
    ledger_sequence / EPOCH_LEDGERS
}


/// A user's pending winnings after `amount` more is credited: the sum must
/// fit and, when a cap is set, not exceed it.
pub open spec fn pending_accumulated(existing: i128, amount: i128, cap: Option<i128>) -> Result<
    i128,
    ContractError,
> {
    match payout_add_spec(existing, amount) {
        Err(e) => Err(e),
        Ok(p) => if cap is Some && p > cap->0 {
            Err(ContractError::PendingWinningsCapExceeded)
        } else {
            Ok(p)
        },
    }
}

/// Credits `amount` to a user's pending winnings, enforcing the cap.
pub fn _accumulate_pending(existing: i128, amount: i128, cap: Option<i128>) -> (r: Result<
    i128,
    ContractError,
>)
    ensures
        r == pending_accumulated(existing, amount, cap),
{
    let new_pending = payout_add(existing, amount)?;
    if let Some(c) = cap {
        if new_pending > c {
            return Err(ContractError::PendingWinningsCapExceeded);
        }
    }
    Ok(new_pending)
}


/// Where an address stands in the host's order of addresses: the kind of
/// address first, then its 32-byte payload read as four big-endian words.
#[derive(Clone, Copy, Debug, PartialEq, Eq, Structural)]
pub struct AddressKey {
    pub kind: u32,
    pub w0: u64,
    pub w1: u64,
    pub w2: u64,
    pub w3: u64,
}

/// A participant: its registry id and the key of its address.
#[derive(Clone, Copy, Debug, PartialEq, Eq, Structural)]
pub struct Participant {
    pub id: u64,
    pub key: AddressKey,
}

/// The lexicographic order of address keys, field by field.
pub open spec fn key_le(a: AddressKey, b: AddressKey) -> bool {
    if a.kind != b.kind {
        a.kind < b.kind
    } else if a.w0 != b.w0 {
        a.w0 < b.w0
    } else if a.w1 != b.w1 {
        a.w1 < b.w1
    } else if a.w2 != b.w2 {
        a.w2 < b.w2
    } else {
        a.w3 <= b.w3
    }
}

/// Whether `a` comes strictly before `b` in the order of address keys.
pub fn key_before(a: &AddressKey, b: &AddressKey) -> (r: bool)
    ensures
        r == !key_le(*b, *a),
{
    if a.kind != b.kind {
        a.kind < b.kind
    } else if a.w0 != b.w0 {
        a.w0 < b.w0
    } else if a.w1 != b.w1 {
        a.w1 < b.w1
    } else if a.w2 != b.w2 {
        a.w2 < b.w2
    } else {
        a.w3 < b.w3
    }
}

/// Whether participants are in ascending order of their address keys.
pub open spec fn ascending_keys(s: Seq<Participant>) -> bool {
    forall|i: int, j: int| 0 <= i <= j < s.len() ==> key_le(#[trigger] s[i].key, #[trigger] s[j].key)
}

proof fn lemma_exchange_keeps_multiset<A>(s: Seq<A>, a: int, b: int)
    requires
        0 <= a < s.len(),
        0 <= b < s.len(),
        a != b,
    ensures
        s.update(a, s[b]).update(b, s[a]).to_multiset() == s.to_multiset(),
{
    broadcast use vstd::seq_lib::to_multiset_update;
    broadcast use vstd::multiset::group_multiset_properties;
    broadcast use vstd::multiset::group_multiset_axioms;
    broadcast use vstd::seq_lib::to_multiset_contains;

    let t = s.update(a, s[b]);
    assert(s.contains(s[a]));
    assert(s.to_multiset().count(s[a]) > 0);
    assert(t[b] == s[b]);
    assert(t.to_multiset() == s.to_multiset().insert(s[b]).remove(s[a]));
    assert(t.update(b, s[a]).to_multiset() == t.to_multiset().insert(s[a]).remove(s[b]));
    assert(s.to_multiset().insert(s[b]).remove(s[a]).insert(s[a]).remove(s[b]) =~= s.to_multiset());
}

/// Returns the participants in ascending order of their addresses
/// (insertion sort), so that iteration over participants follows the
/// host's order of addresses.
pub fn sort_addresses(addresses: Vec<Participant>) -> (sorted: Vec<Participant>)
    ensures
        ascending_keys(sorted@),
        sorted@.to_multiset() == addresses@.to_multiset(),
        sorted@.len() == addresses@.len(),
{
    broadcast use vstd::seq_lib::to_multiset_update;

    let mut v = addresses;
    let ghost initial = v@;
    let n = v.len();
    if n <= 1 {
        return v;
    }
    let mut i: usize = 1;
    while i < n
        invariant
            n == v@.len(),
            1 <= i <= n,
            ascending_keys(v@.take(i as int)),
            v@.to_multiset() == initial.to_multiset(),
        decreases n - i,
    {
        let item = v[i];
        proof {
            assert(v@.update(i as int, item) =~= v@);
            assert forall|a: int, b: int| 0 <= a <= b < i implies key_le(
                #[trigger] v@[a].key,
                #[trigger] v@[b].key,
            ) by {
                assert(v@.take(i as int)[a] == v@[a]);
                assert(v@.take(i as int)[b] == v@[b]);
            }
        }
        let mut j: usize = i;
        while j > 0 && key_before(&item.key, &v[j - 1].key)
            invariant
                n == v@.len(),
                0 <= j <= i < n,
                v@.update(j as int, item).to_multiset() == initial.to_multiset(),
                forall|a: int, b: int|
                    0 <= a <= b < j ==> key_le(#[trigger] v@[a].key, #[trigger] v@[b].key),
                forall|a: int, b: int|
                    j < a <= b <= i ==> key_le(#[trigger] v@[a].key, #[trigger] v@[b].key),
                forall|a: int| j < a <= i ==> !key_le(#[trigger] v@[a].key, item.key),
                forall|a: int, b: int|
                    0 <= a < j && j < b <= i ==> key_le(#[trigger] v@[a].key, #[trigger] v@[b].key),
            decreases j,
        {
            let ghost before = v@;
            let prev = v[j - 1];
            v.set(j, prev);
            proof {
                let s1 = before.update(j as int, item);
                let s2 = v@.update(j - 1, item);
                assert(s2 =~= s1.update(j - 1, item).update(j as int, prev));
                lemma_exchange_keeps_multiset(s1, j - 1, j as int);
                assert(s1[j - 1] == prev);
                assert(s1[j as int] == item);
            }
            j = j - 1;
        }
        v.set(j, item);
        proof {
            assert(v@ =~= v@.update(j as int, item));
            assert forall|a: int, b: int| 0 <= a <= b < i + 1 implies key_le(
                #[trigger] v@.take(i + 1)[a].key,
                #[trigger] v@.take(i + 1)[b].key,
            ) by {
                assert(v@.take(i + 1)[a] == v@[a]);
                assert(v@.take(i + 1)[b] == v@[b]);
            }
        }
        i = i + 1;
    }
    proof {
        assert(v@.take(n as int) =~= v@);
    }
    v
}

} // verus!
