//! The message an oracle operator signs for a settlement report: a fixed
//! domain prefix, then every field that binds the report to one network,
//! contract, round, price, time and nonce. The integers are written in their
//! `ScVal` XDR form: a four-byte type tag, then the value's big-endian bytes.
use vstd::prelude::*;

use soroban_sdk::Env;

use crate::oracle::OraclePayload;
use crate::xdr::{scval_int_xdr, tag_u128, tag_u32, tag_u64, u128_xdr, u32_xdr, u64_xdr};

verus! {

/// The domain prefix `XELMA_ORACLE_ATTESTATION_V1`, which keeps a signed
/// report from being replayed as any other signed message.
pub open spec fn attestation_prefix() -> Seq<u8> {
    seq![
        88u8, 69, 76, 77, 65, 95, 79, 82, 65, 67, 76, 69, 95, 65, 84, 84, 69, 83, 84, 65, 84, 73,
        79, 78, 95, 86, 49,
    ]
}

/// The message signed for a report: the prefix, the network id, the XDR of
/// the contract's address, then the round id, price, timestamp and nonce in
/// XDR. The confidence and the signature itself are not part of it.
pub open spec fn attestation_message(payload: OraclePayload, contract_xdr: Seq<u8>) -> Seq<u8> {
    attestation_prefix() + payload.network_id@ + contract_xdr + scval_int_xdr(
        tag_u32(),
        payload.round_id as nat,
        4,
    ) + scval_int_xdr(tag_u128(), payload.price as nat, 16) + scval_int_xdr(
        tag_u64(),
        payload.timestamp as nat,
        8,
    ) + scval_int_xdr(tag_u64(), payload.nonce as nat, 8)
}

fn push_all(m: &mut Vec<u8>, bytes: &[u8])
    ensures
        final(m)@ == old(m)@ + bytes@,
{
    let mut i: usize = 0;
    while i < bytes.len()
        invariant
            i <= bytes@.len(),
            m@ == old(m)@ + bytes@.take(i as int),
        decreases bytes@.len() - i,
    {
        m.push(bytes[i]);
        i = i + 1;
        proof {
            assert(bytes@.take(i as int) =~= bytes@.take(i - 1).push(bytes@[i - 1]));
        }
    }
    proof {
        assert(bytes@.take(bytes@.len() as int) =~= bytes@);
    }
}

/// Builds the message the oracle operator signs for `payload`, given the
/// XDR of this contract's address.
pub fn _build_attestation_message(env: &Env, payload: &OraclePayload, contract_xdr: &[u8]) -> (m:
    Vec<u8>)
    ensures
        m@ == attestation_message(*payload, contract_xdr@),
{
    let mut message: Vec<u8> = vec![
        88u8, 69, 76, 77, 65, 95, 79, 82, 65, 67, 76, 69, 95, 65, 84, 84, 69, 83, 84, 65, 84, 73,
        79, 78, 95, 86, 49,
    ];
    assert(message@ =~= attestation_prefix());
    push_all(&mut message, &payload.network_id);
    push_all(&mut message, contract_xdr);
    let mut round_id = u32_xdr(env, payload.round_id);
    message.append(&mut round_id);
    let mut price = u128_xdr(env, payload.price);
    message.append(&mut price);
    let mut timestamp = u64_xdr(env, payload.timestamp);
    message.append(&mut timestamp);
    let mut nonce = u64_xdr(env, payload.nonce);
    message.append(&mut nonce);
    message
}

} // verus!
