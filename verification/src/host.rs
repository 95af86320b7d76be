//! What the library asks of the Soroban host: the ledger's close time, the
//! XDR encoding of values, and SHA-256 digests.
//!
//! The host counts the work of each call against a budget and stops the
//! contract when the budget runs out; the contracts below do not say how much
//! input stays within it.
use vstd::prelude::*;
use vstd::utf8::encode_utf8;

use soroban_sdk::xdr::ToXdr;

verus! {

/// The Soroban environment, through which the host is reached.
#[verifier::external_type_specification]
#[verifier::external_body]
pub struct ExEnv(soroban_sdk::Env);

/// The four big-endian bytes of `n`.
pub open spec fn be_u32(n: u32) -> Seq<u8> {
    seq![(n >> 24u32) as u8, (n >> 16u32) as u8, (n >> 8u32) as u8, n as u8]
}

/// The eight big-endian bytes of `n`.
pub open spec fn be_u64(n: u64) -> Seq<u8> {
    seq![
        (n >> 56u64) as u8,
        (n >> 48u64) as u8,
        (n >> 40u64) as u8,
        (n >> 32u64) as u8,
        (n >> 24u64) as u8,
        (n >> 16u64) as u8,
        (n >> 8u64) as u8,
        n as u8,
    ]
}

/// XDR variable-length opaque data: the length as four big-endian bytes, the
/// bytes, then zeros up to a multiple of four.
pub open spec fn xdr_opaque(bytes: Seq<u8>) -> Seq<u8> {
    be_u32(bytes.len() as u32) + bytes + Seq::new(((4 - bytes.len() % 4) % 4) as nat, |i: int| 0u8)
}

/// The XDR of an `ScVal`: its type tag as four big-endian bytes, then its body.
pub open spec fn xdr_sc_val(tag: u32, body: Seq<u8>) -> Seq<u8> {
    be_u32(tag) + body
}

/// The bytes that `ToXdr::to_xdr` gives for a Soroban string with these
/// characters: an `ScVal::String` (tag 14) holding their UTF-8 encoding.
pub open spec fn xdr_of_text(text: Seq<char>) -> Seq<u8> {
    xdr_sc_val(14, xdr_opaque(encode_utf8(text)))
}

/// The bytes that `ToXdr::to_xdr` gives for a `u64`: an `ScVal::U64` (tag 5)
/// holding its eight big-endian bytes.
pub open spec fn xdr_of_u64(n: u64) -> Seq<u8> {
    xdr_sc_val(5, be_u64(n))
}

/// The bytes that `ToXdr::to_xdr` gives for a `BytesN<32>` holding these
/// bytes: an `ScVal::Bytes` (tag 13) holding them.
pub open spec fn xdr_of_bytes32(bytes: Seq<u8>) -> Seq<u8> {
    xdr_sc_val(13, xdr_opaque(bytes))
}

/// Equal big-endian bytes come from equal numbers.
pub proof fn lemma_be_u64_injective(a: u64, b: u64)
    requires
        be_u64(a) == be_u64(b),
    ensures
        a == b,
{
    assert(be_u64(a)[0] == be_u64(b)[0]);
    assert(be_u64(a)[1] == be_u64(b)[1]);
    assert(be_u64(a)[2] == be_u64(b)[2]);
    assert(be_u64(a)[3] == be_u64(b)[3]);
    assert(be_u64(a)[4] == be_u64(b)[4]);
    assert(be_u64(a)[5] == be_u64(b)[5]);
    assert(be_u64(a)[6] == be_u64(b)[6]);
    assert(be_u64(a)[7] == be_u64(b)[7]);
    assert(a == b) by (bit_vector)
        requires
            (a >> 56u64) as u8 == (b >> 56u64) as u8,
            (a >> 48u64) as u8 == (b >> 48u64) as u8,
            (a >> 40u64) as u8 == (b >> 40u64) as u8,
            (a >> 32u64) as u8 == (b >> 32u64) as u8,
            (a >> 24u64) as u8 == (b >> 24u64) as u8,
            (a >> 16u64) as u8 == (b >> 16u64) as u8,
            (a >> 8u64) as u8 == (b >> 8u64) as u8,
            a as u8 == b as u8,
    ;
}

/// The SHA-256 digest of `data`.
pub uninterp spec fn sha256_of(data: Seq<u8>) -> Seq<u8>;

/// Calls `Ledger::timestamp`, the close time of the ledger that the host is
/// running. The value depends on the ledger, so nothing is stated of it.
#[verifier::external_body]
pub(crate) fn ledger_timestamp(env: &soroban_sdk::Env) -> u64 {
    env.ledger().timestamp()
}

/// Calls `ToXdr::to_xdr` on the Soroban string made by `String::from_str` from
/// `text`, and copies out the bytes: the `ScVal::String` XDR of the text's
/// UTF-8 bytes (`xdr_of_text`).
#[verifier::external_body]
pub(crate) fn text_to_xdr(env: &soroban_sdk::Env, text: &String) -> (r: Vec<u8>)
    ensures
        r@ == xdr_of_text(text@),
{
    let bytes = soroban_sdk::String::from_str(env, text.as_str()).to_xdr(env);
    let mut out = vec![0u8; bytes.len() as usize];
    bytes.copy_into_slice(&mut out);
    out
}

/// Calls `ToXdr::to_xdr` on `n` and copies out the bytes: the `ScVal::U64`
/// XDR of `n` (`xdr_of_u64`).
#[verifier::external_body]
pub(crate) fn u64_to_xdr(env: &soroban_sdk::Env, n: u64) -> (r: Vec<u8>)
    ensures
        r@ == xdr_of_u64(n),
{
    let bytes = n.to_xdr(env);
    let mut out = vec![0u8; bytes.len() as usize];
    bytes.copy_into_slice(&mut out);
    out
}

/// Calls `ToXdr::to_xdr` on the `BytesN<32>` made by `BytesN::from_array`
/// from `data`, and copies out the bytes: the `ScVal::Bytes` XDR of `data`
/// (`xdr_of_bytes32`).
#[verifier::external_body]
pub(crate) fn bytes32_to_xdr(env: &soroban_sdk::Env, data: &[u8; 32]) -> (r: Vec<u8>)
    ensures
        r@ == xdr_of_bytes32(data@),
{
    let bytes = soroban_sdk::BytesN::from_array(env, data).to_xdr(env);
    let mut out = vec![0u8; bytes.len() as usize];
    bytes.copy_into_slice(&mut out);
    out
}

/// Calls `Crypto::sha256` on the `Bytes` made by `Bytes::from_slice` from
/// `data`. The digest depends on `data` alone, and is named `sha256_of`; that it
/// has 32 bytes is in the result's type.
#[verifier::external_body]
pub(crate) fn sha256(env: &soroban_sdk::Env, data: &Vec<u8>) -> (r: [u8; 32])
    ensures
        r@ == sha256_of(data@),
{
    env.crypto().sha256(&soroban_sdk::Bytes::from_slice(env, data.as_slice())).to_array()
}

} // verus!
