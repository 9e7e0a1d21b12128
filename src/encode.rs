//! The transfer encoder: the bytes of the "receive student" call that
//! recreates a record on the destination chain, in the SCALE format.
use vstd::prelude::*;
use crate::types::{AccountId, Config, Gender, Student, XcmMessage};

verus! {

/// The index of the "receive student" call within this pallet.
pub const RECEIVE_STUDENT_CALL_INDEX: u8 = 10;

/// Reference time granted to the dispatched call on the destination when it
/// cannot be weighed there.
pub const TRANSACT_FALLBACK_REF_TIME: u64 = 1_000_000_000;

/// The `k` low bytes of `n`, least significant first.
pub open spec fn le_bytes(n: nat, k: nat) -> Seq<u8>
    decreases k,
{
    if k == 0 {
        Seq::empty()
    } else {
        seq![(n % 256) as u8] + le_bytes(n / 256, (k - 1) as nat)
    }
}

/// The SCALE compact form of a length `n < 2^32`: one, two or four bytes whose
/// two low bits give the mode, or a marker byte and four plain bytes.
pub open spec fn compact_len(n: nat) -> Seq<u8> {
    if n < 0x40 {
        seq![(n * 4) as u8]
    } else if n < 0x4000 {
        le_bytes(n * 4 + 1, 2)
    } else if n < 0x4000_0000 {
        le_bytes(n * 4 + 2, 4)
    } else {
        seq![3u8] + le_bytes(n, 4)
    }
}

/// A byte string: its compact length, then the bytes.
pub open spec fn bytes_encoding(b: Seq<u8>) -> Seq<u8> {
    compact_len(b.len()) + b
}

pub open spec fn bool_encoding(b: bool) -> Seq<u8> {
    if b {
        seq![1u8]
    } else {
        seq![0u8]
    }
}

/// The variant index of a gender.
pub open spec fn gender_tag(g: Gender) -> u8 {
    match g {
        Gender::Male => 0,
        Gender::Female => 1,
        Gender::Other => 2,
    }
}

/// A record's fields in declaration order, with the graduation flag given.
pub open spec fn student_encoding(s: Student, graduated: bool) -> Seq<u8> {
    bytes_encoding(s.name@) + bytes_encoding(s.surname@) + le_bytes(s.age as nat, 4) + seq![
        gender_tag(s.gender),
    ] + bool_encoding(graduated)
}

/// The call selector, the record, then the account that is to own it.
pub open spec fn receive_call_encoding(
    pallet_index: u8,
    s: Student,
    graduated: bool,
    new_owner: AccountId,
) -> Seq<u8> {
    seq![pallet_index, RECEIVE_STUDENT_CALL_INDEX] + student_encoding(s, graduated) + le_bytes(
        new_owner as nat,
        8,
    )
}

/// Relies on parity_scale_codec's `Encode` for `u32`: the four bytes, least
/// significant first.
#[verifier::external_body]
fn scale_u32(x: u32) -> (r: Vec<u8>)
    ensures
        r@ == le_bytes(x as nat, 4),
{
    parity_scale_codec::Encode::encode(&x)
}

/// Relies on parity_scale_codec's `Encode` for `u64`: the eight bytes, least
/// significant first.
#[verifier::external_body]
fn scale_u64(x: u64) -> (r: Vec<u8>)
    ensures
        r@ == le_bytes(x as nat, 8),
{
    parity_scale_codec::Encode::encode(&x)
}

/// Relies on parity_scale_codec's `Encode` for `bool`: one byte, 1 or 0.
#[verifier::external_body]
fn scale_bool(b: bool) -> (r: Vec<u8>)
    ensures
        r@ == bool_encoding(b),
{
    parity_scale_codec::Encode::encode(&b)
}

/// Relies on parity_scale_codec's `Encode` for `Vec<u8>`: the length as a
/// `Compact<u32>`, then the bytes. It panics on more than `u32::MAX` bytes.
#[verifier::external_body]
fn scale_bytes(b: &Vec<u8>) -> (r: Vec<u8>)
    requires
        b@.len() <= u32::MAX,
    ensures
        r@ == bytes_encoding(b@),
{
    parity_scale_codec::Encode::encode(b)
}

/// Encodes a record with the graduation flag `graduated` in place of its own.
pub fn encode_student(s: &Student, graduated: bool) -> (r: Vec<u8>)
    requires
        s.name@.len() <= u32::MAX,
        s.surname@.len() <= u32::MAX,
    ensures
        r@ == student_encoding(*s, graduated),
{
    let mut out = scale_bytes(&s.name);
    let mut part = scale_bytes(&s.surname);
    out.append(&mut part);
    let mut part = scale_u32(s.age);
    out.append(&mut part);
    let tag: u8 = match s.gender {
        Gender::Male => 0,
        Gender::Female => 1,
        Gender::Other => 2,
    };
    out.push(tag);
    let mut part = scale_bool(graduated);
    out.append(&mut part);
    proof {
        assert(out@ =~= student_encoding(*s, graduated));
    }
    out
}

/// Encodes the call that makes the destination's pallet at `pallet_index`
/// store the record under `new_owner`.
pub fn encode_receive_call(
    pallet_index: u8,
    s: &Student,
    graduated: bool,
    new_owner: AccountId,
) -> (r: Vec<u8>)
    requires
        s.name@.len() <= u32::MAX,
        s.surname@.len() <= u32::MAX,
    ensures
        r@ == receive_call_encoding(pallet_index, *s, graduated, new_owner),
{
    let mut out: Vec<u8> = Vec::new();
    out.push(pallet_index);
    out.push(RECEIVE_STUDENT_CALL_INDEX);
    let mut body = encode_student(s, graduated);
    out.append(&mut body);
    let mut owner = scale_u64(new_owner);
    out.append(&mut owner);
    proof {
        assert(out@ =~= receive_call_encoding(pallet_index, *s, graduated, new_owner));
    }
    out
}

/// The message that hands a record over: it recreates the record, marked as
/// graduated, under `new_owner` on the destination.
pub open spec fn transfer_message_spec(
    config: Config,
    s: Student,
    new_owner: AccountId,
    m: XcmMessage,
) -> bool {
    &&& m.fallback_ref_time == TRANSACT_FALLBACK_REF_TIME
    &&& m.fallback_proof_size == 0
    &&& m.call@ == receive_call_encoding(config.pallet_index, s, true, new_owner)
}

/// Builds the cross-chain message that transfers `s` to `new_owner`.
pub fn transfer_message(config: &Config, s: &Student, new_owner: AccountId) -> (r: XcmMessage)
    requires
        s.name@.len() <= u32::MAX,
        s.surname@.len() <= u32::MAX,
    ensures
        transfer_message_spec(*config, *s, new_owner, r),
{
    let call = encode_receive_call(config.pallet_index, s, true, new_owner);
    XcmMessage { fallback_ref_time: TRANSACT_FALLBACK_REF_TIME, fallback_proof_size: 0, call }
}

} // verus!
