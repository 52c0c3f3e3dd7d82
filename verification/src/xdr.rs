//! The XDR encodings the library hashes and signs: values in their `ScVal`
//! form, as `ToXdr::to_xdr` writes them. An integer is a four-byte type tag
//! followed by its big-endian bytes; a byte string is its tag, its length
//! and its bytes; a vector is its tag, a presence flag, its length and its
//! elements.
use vstd::prelude::*;

use soroban_sdk::xdr::ToXdr;
use soroban_sdk::Env;

verus! {

/// The `n` big-endian bytes of `v` (its low `8 * n` bits).
pub open spec fn be_bytes(v: nat, n: nat) -> Seq<u8>
    decreases n,
{
    if n == 0 {
        Seq::empty()
    } else {
        be_bytes(v / 256, (n - 1) as nat).push((v % 256) as u8)
    }
}

/// The XDR of an integer `ScVal`: its four-byte type tag, then the value in
/// `width` big-endian bytes.
pub open spec fn scval_int_xdr(tag: u8, v: nat, width: nat) -> Seq<u8> {
    seq![0u8, 0u8, 0u8, tag] + be_bytes(v, width)
}

/// The `ScVal` tags of the integer types the message holds.
pub open spec fn tag_u32() -> u8 {
    3
}

pub open spec fn tag_u64() -> u8 {
    5
}

pub open spec fn tag_u128() -> u8 {
    9
}

/// Calls `ToXdr::to_xdr` on a `u32`. Claimed, as the XDR of `ScVal::U32`:
/// the tag 3 in four bytes, then the value's four big-endian bytes.
#[verifier::external_body]
pub(crate) fn u32_xdr(env: &Env, v: u32) -> (b: Vec<u8>)
    ensures
        b@ == scval_int_xdr(tag_u32(), v as nat, 4),
{
    v.to_xdr(env).iter().collect()
}

/// Calls `ToXdr::to_xdr` on a `u64`. Claimed, as the XDR of `ScVal::U64`:
/// the tag 5 in four bytes, then the value's eight big-endian bytes.
#[verifier::external_body]
pub(crate) fn u64_xdr(env: &Env, v: u64) -> (b: Vec<u8>)
    ensures
        b@ == scval_int_xdr(tag_u64(), v as nat, 8),
{
    v.to_xdr(env).iter().collect()
}

/// Calls `ToXdr::to_xdr` on a `u128`. Claimed, as the XDR of `ScVal::U128`
/// (the high then the low 64-bit half): the tag 9 in four bytes, then the
/// value's sixteen big-endian bytes.
#[verifier::external_body]
pub(crate) fn u128_xdr(env: &Env, v: u128) -> (b: Vec<u8>)
    ensures
        b@ == scval_int_xdr(tag_u128(), v as nat, 16),
{
    v.to_xdr(env).iter().collect()
}

/// The `ScVal` tag of `i128`.
pub open spec fn tag_i128() -> u8 {
    10
}

/// The 128-bit two's complement of `v`.
pub open spec fn twos_complement_128(v: i128) -> nat {
    if v < 0 {
        (v + 0x1_0000_0000_0000_0000_0000_0000_0000_0000int) as nat
    } else {
        v as nat
    }
}

/// Calls `ToXdr::to_xdr` on an `i128`. Claimed, as the XDR of `ScVal::I128`
/// (the signed high then the low 64-bit half): the tag 10 in four bytes,
/// then the value's sixteen big-endian two's complement bytes.
#[verifier::external_body]
pub(crate) fn i128_xdr(env: &Env, v: i128) -> (b: Vec<u8>)
    ensures
        b@ == scval_int_xdr(tag_i128(), twos_complement_128(v), 16),
{
    v.to_xdr(env).iter().collect()
}

/// The XDR of 32 bytes as `ScVal::Bytes`: the tag 13, the length 32, then
/// the bytes (32 is a multiple of four, so no padding follows).
pub open spec fn bytes32_xdr_spec(bytes: Seq<u8>) -> Seq<u8> {
    seq![0u8, 0u8, 0u8, 13u8, 0u8, 0u8, 0u8, 32u8] + bytes
}

/// Calls `ToXdr::to_xdr` on a `BytesN<32>` made from `bytes`. Claimed: the
/// XDR of `ScVal::Bytes` holding them, [`bytes32_xdr_spec`].
#[verifier::external_body]
pub(crate) fn bytes32_xdr(env: &Env, bytes: &[u8; 32]) -> (b: Vec<u8>)
    ensures
        b@ == bytes32_xdr_spec(bytes@),
{
    soroban_sdk::BytesN::from_array(env, bytes).to_xdr(env).iter().collect()
}

/// The XDR of a one-element tuple holding the symbol `Up` or `Down` (which
/// is how a unit variant of a contract enum is encoded): `ScVal::Vec` (tag
/// 16), present (1), of length 1, holding `ScVal::Symbol` (tag 15) with the
/// name's length and its ASCII bytes, padded with zeros to four bytes.
pub open spec fn side_symbol_xdr_spec(name: Seq<char>) -> Seq<u8> {
    seq![0u8, 0u8, 0u8, 16u8, 0u8, 0u8, 0u8, 1u8, 0u8, 0u8, 0u8, 1u8, 0u8, 0u8, 0u8, 15u8] + if name
        == "Up"@ {
        seq![0u8, 0u8, 0u8, 2u8, 85u8, 112u8, 0u8, 0u8]
    } else {
        seq![0u8, 0u8, 0u8, 4u8, 68u8, 111u8, 119u8, 110u8]
    }
}

/// Calls `ToXdr::to_xdr` on the tuple `(Symbol::new(env, name),)`.
/// Claimed: [`side_symbol_xdr_spec`] of the name. `Symbol::new` panics on a
/// name that is not a valid symbol, so the name must be one of the two.
#[verifier::external_body]
pub(crate) fn side_symbol_xdr(env: &Env, name: &str) -> (b: Vec<u8>)
    requires
        name@ == "Up"@ || name@ == "Down"@,
    ensures
        b@ == side_symbol_xdr_spec(name@),
{
    (soroban_sdk::Symbol::new(env, name),).to_xdr(env).iter().collect()
}

} // verus!
