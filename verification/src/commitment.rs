//! Commitment hashes of the two commit-reveal schemes. A commitment is the
//! host's SHA-256 of the XDR encodings of the committed values, in order:
//!
//! - a Precision prediction: `sha256(price.to_xdr() || salt.to_xdr())`;
//! - a sealed Up/Down order:
//!   `sha256(side.to_xdr() || amount.to_xdr() || price_guess.to_xdr() || salt.to_xdr())`,
//!   where the side is encoded as the contract type `BetSide` is, a vector
//!   holding the variant's name as a symbol.
use vstd::prelude::*;

use soroban_sdk::Env;

use crate::xdr::{
    bytes32_xdr, bytes32_xdr_spec, i128_xdr, scval_int_xdr, side_symbol_xdr, side_symbol_xdr_spec,
    tag_i128, tag_u128, twos_complement_128, u128_xdr,
};

verus! {

/// The host environment that computes hashes.
#[verifier::external_type_specification]
#[verifier::external_body]
pub struct ExEnv(soroban_sdk::Env);

/// The host's SHA-256 of a byte string, as a function of the bytes.
pub uninterp spec fn sha256_digest(data: Seq<u8>) -> Seq<u8>;

/// Calls `Env::crypto().sha256` on `data`. Claimed: the 32-byte result is
/// [`sha256_digest`] of the bytes, so the same bytes always give the same
/// digest; nothing more is claimed of SHA-256.
#[verifier::external_body]
fn sha256(env: &Env, data: &[u8]) -> (h: [u8; 32])
    ensures
        h@ == sha256_digest(data@),
{
    env.crypto().sha256(&soroban_sdk::Bytes::from_slice(env, data)).to_array()
}

/// What a Precision commitment hashes: the predicted price (`u128`), then
/// the salt (`BytesN<32>`), each in XDR.
pub open spec fn precision_commitment_preimage(predicted_price: u128, salt: Seq<u8>) -> Seq<u8> {
    scval_int_xdr(tag_u128(), predicted_price as nat, 16) + bytes32_xdr_spec(salt)
}

/// The commitment digest of a Precision prediction.
pub open spec fn precision_commitment_digest(predicted_price: u128, salt: Seq<u8>) -> Seq<u8> {
    sha256_digest(precision_commitment_preimage(predicted_price, salt))
}

/// What a sealed order hashes: the side, the amount (`i128`), the price
/// guess (`u128`) and the salt (`BytesN<32>`), each in XDR.
pub open spec fn order_commitment_preimage(
    side_name: Seq<char>,
    amount: i128,
    price_guess: u128,
    salt: Seq<u8>,
) -> Seq<u8> {
    side_symbol_xdr_spec(side_name) + scval_int_xdr(tag_i128(), twos_complement_128(amount), 16)
        + scval_int_xdr(tag_u128(), price_guess as nat, 16) + bytes32_xdr_spec(salt)
}

/// The commitment digest of a sealed order.
pub open spec fn order_commitment_digest(
    side_name: Seq<char>,
    amount: i128,
    price_guess: u128,
    salt: Seq<u8>,
) -> Seq<u8> {
    sha256_digest(order_commitment_preimage(side_name, amount, price_guess, salt))
}

/// The digest a Precision commitment must equal.
pub(crate) fn precision_commitment_hash(env: &Env, predicted_price: u128, salt: &[u8; 32]) -> (h:
    [u8; 32])
    ensures
        h@ == precision_commitment_digest(predicted_price, salt@),
{
    let mut preimage = u128_xdr(env, predicted_price);
    let mut salt_xdr = bytes32_xdr(env, salt);
    preimage.append(&mut salt_xdr);
    sha256(env, preimage.as_slice())
}

/// The digest a sealed order must equal; the side is named `Up` or `Down`.
pub(crate) fn order_commitment_hash(
    env: &Env,
    side_name: &str,
    amount: i128,
    price_guess: u128,
    salt: &[u8; 32],
) -> (h: [u8; 32])
    requires
        side_name@ == "Up"@ || side_name@ == "Down"@,
    ensures
        h@ == order_commitment_digest(side_name@, amount, price_guess, salt@),
{
    let mut preimage = side_symbol_xdr(env, side_name);
    let mut amount_xdr = i128_xdr(env, amount);
    preimage.append(&mut amount_xdr);
    let mut guess_xdr = u128_xdr(env, price_guess);
    preimage.append(&mut guess_xdr);
    let mut salt_xdr = bytes32_xdr(env, salt);
    preimage.append(&mut salt_xdr);
    sha256(env, preimage.as_slice())
}

} // verus!
