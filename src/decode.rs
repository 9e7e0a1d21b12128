//! The destination side of the transfer envelope: reading a "receive
//! student" call back out of its bytes.
use vstd::prelude::*;
use crate::types::{AccountId, Gender, Student};
use crate::encode::{
    bool_encoding, bytes_encoding, gender_tag, le_bytes, receive_call_encoding,
    RECEIVE_STUDENT_CALL_INDEX,
};
use vstd::slice::slice_subrange;

verus! {

/// Relies on parity_scale_codec's `Decode` for `Vec<u8>`: it reads a
/// canonical compact length and then that many bytes, and leaves the rest of
/// the input.
#[verifier::external_body]
fn scale_decode_bytes<'a>(input: &'a [u8]) -> (r: Option<(Vec<u8>, &'a [u8])>)
    ensures
        r is Some ==> input@ == bytes_encoding((r->0).0@) + (r->0).1@ && (r->0).0@.len()
            <= u32::MAX,
        forall|b: Seq<u8>, rest: Seq<u8>|
            b.len() <= u32::MAX && input@ == #[trigger] (bytes_encoding(b) + rest) ==> r is Some
                && (r->0).0@ == b && (r->0).1@ == rest,
{
    let mut rest: &[u8] = input;
    match <Vec<u8> as parity_scale_codec::Decode>::decode(&mut rest) {
        Ok(b) => Some((b, rest)),
        Err(_) => None,
    }
}

/// Relies on parity_scale_codec's `Decode` for `u32`: four bytes, least
/// significant first.
#[verifier::external_body]
fn scale_decode_u32<'a>(input: &'a [u8]) -> (r: Option<(u32, &'a [u8])>)
    ensures
        r is Some ==> input@ == le_bytes((r->0).0 as nat, 4) + (r->0).1@,
        forall|x: u32, rest: Seq<u8>|
            input@ == #[trigger] (le_bytes(x as nat, 4) + rest) ==> r is Some && (r->0).0 == x
                && (r->0).1@ == rest,
{
    let mut rest: &[u8] = input;
    match <u32 as parity_scale_codec::Decode>::decode(&mut rest) {
        Ok(x) => Some((x, rest)),
        Err(_) => None,
    }
}

/// Relies on parity_scale_codec's `Decode` for `u64`: eight bytes, least
/// significant first.
#[verifier::external_body]
fn scale_decode_u64<'a>(input: &'a [u8]) -> (r: Option<(u64, &'a [u8])>)
    ensures
        r is Some ==> input@ == le_bytes((r->0).0 as nat, 8) + (r->0).1@,
        forall|x: u64, rest: Seq<u8>|
            input@ == #[trigger] (le_bytes(x as nat, 8) + rest) ==> r is Some && (r->0).0 == x
                && (r->0).1@ == rest,
{
    let mut rest: &[u8] = input;
    match <u64 as parity_scale_codec::Decode>::decode(&mut rest) {
        Ok(x) => Some((x, rest)),
        Err(_) => None,
    }
}

/// Relies on parity_scale_codec's `Decode` for `bool`: one byte, 0 or 1.
#[verifier::external_body]
fn scale_decode_bool<'a>(input: &'a [u8]) -> (r: Option<(bool, &'a [u8])>)
    ensures
        r is Some ==> input@ == bool_encoding((r->0).0) + (r->0).1@,
        forall|x: bool, rest: Seq<u8>|
            input@ == #[trigger] (bool_encoding(x) + rest) ==> r is Some && (r->0).0 == x
                && (r->0).1@ == rest,
{
    let mut rest: &[u8] = input;
    match <bool as parity_scale_codec::Decode>::decode(&mut rest) {
        Ok(x) => Some((x, rest)),
        Err(_) => None,
    }
}

/// What follows the gender tag in the encoding of `p`.
spec fn tail_after_tag(p: (Student, AccountId)) -> Seq<u8> {
    bool_encoding(p.0.has_graduated) + le_bytes(p.1 as nat, 8)
}

spec fn tail_after_age(p: (Student, AccountId)) -> Seq<u8> {
    seq![gender_tag(p.0.gender)] + tail_after_tag(p)
}

spec fn tail_after_surname(p: (Student, AccountId)) -> Seq<u8> {
    le_bytes(p.0.age as nat, 4) + tail_after_age(p)
}

spec fn tail_after_name(p: (Student, AccountId)) -> Seq<u8> {
    bytes_encoding(p.0.surname@) + tail_after_surname(p)
}

/// `bytes` is the call that stores the record `p.0` under `p.1`; the record's
/// byte strings are short enough to carry a 32-bit length.
pub open spec fn is_receive_call(
    pallet_index: u8,
    bytes: Seq<u8>,
    p: (Student, AccountId),
) -> bool {
    &&& p.0.name@.len() <= u32::MAX
    &&& p.0.surname@.len() <= u32::MAX
    &&& bytes == receive_call_encoding(pallet_index, p.0, p.0.has_graduated, p.1)
}

/// The same record, field by field, under the same owner.
pub open spec fn same_call(a: (Student, AccountId), b: (Student, AccountId)) -> bool {
    &&& a.0.name@ == b.0.name@
    &&& a.0.surname@ == b.0.surname@
    &&& a.0.age == b.0.age
    &&& a.0.gender == b.0.gender
    &&& a.0.has_graduated == b.0.has_graduated
    &&& a.1 == b.1
}

proof fn lemma_call_parts(pallet_index: u8, p: (Student, AccountId))
    ensures
        receive_call_encoding(pallet_index, p.0, p.0.has_graduated, p.1) == seq![
            pallet_index,
            RECEIVE_STUDENT_CALL_INDEX,
        ] + (bytes_encoding(p.0.name@) + tail_after_name(p)),
{
    assert(receive_call_encoding(pallet_index, p.0, p.0.has_graduated, p.1) =~= seq![
        pallet_index,
        RECEIVE_STUDENT_CALL_INDEX,
    ] + (bytes_encoding(p.0.name@) + tail_after_name(p)));
}

/// Reads a "receive student" call addressed to the pallet at `pallet_index`:
/// the record and the account that is to own it. Bytes that are not exactly
/// such a call, trailing bytes included, give `None`; the encoding of a call
/// gives that call back.
#[verifier::spinoff_prover]
#[verifier::rlimit(60)]
pub fn decode_receive_call(pallet_index: u8, bytes: &[u8]) -> (r: Option<(Student, AccountId)>)
    ensures
        match r {
            Some(p) => is_receive_call(pallet_index, bytes@, p),
            None => forall|p: (Student, AccountId)| !is_receive_call(pallet_index, bytes@, p),
        },
        forall|p: (Student, AccountId)|
            is_receive_call(pallet_index, bytes@, p) ==> r is Some && same_call(r->0, p),
{
    let ghost found = exists|p: (Student, AccountId)| is_receive_call(pallet_index, bytes@, p);
    let ghost w = if found {
        choose|p: (Student, AccountId)| is_receive_call(pallet_index, bytes@, p)
    } else {
        arbitrary()
    };
    proof {
        lemma_call_parts(pallet_index, w);
    }
    if bytes.len() < 2 || bytes[0] != pallet_index || bytes[1] != RECEIVE_STUDENT_CALL_INDEX {
        return None;
    }
    let body = slice_subrange(bytes, 2, bytes.len());
    proof {
        if found {
            assert(body@ =~= bytes_encoding(w.0.name@) + tail_after_name(w));
        }
    }
    let (name, rest1) = match scale_decode_bytes(body) {
        Some(x) => x,
        None => {
            return None;
        },
    };
    proof {
        if found {
            assert(name@ == w.0.name@ && rest1@ == tail_after_name(w));
        }
    }
    let (surname, rest2) = match scale_decode_bytes(rest1) {
        Some(x) => x,
        None => {
            return None;
        },
    };
    proof {
        if found {
            assert(surname@ == w.0.surname@ && rest2@ == tail_after_surname(w));
        }
    }
    let (age, rest3) = match scale_decode_u32(rest2) {
        Some(x) => x,
        None => {
            return None;
        },
    };
    proof {
        if found {
            assert(age == w.0.age && rest3@ == tail_after_age(w));
            assert(rest3@[0] == gender_tag(w.0.gender));
        }
    }
    if rest3.len() < 1 {
        return None;
    }
    let gender = if rest3[0] == 0 {
        Gender::Male
    } else if rest3[0] == 1 {
        Gender::Female
    } else if rest3[0] == 2 {
        Gender::Other
    } else {
        return None;
    };
    let rest4 = slice_subrange(rest3, 1, rest3.len());
    proof {
        if found {
            assert(gender == w.0.gender);
            assert(rest4@ =~= tail_after_tag(w));
        }
    }
    let (has_graduated, rest5) = match scale_decode_bool(rest4) {
        Some(x) => x,
        None => {
            return None;
        },
    };
    proof {
        if found {
            assert(has_graduated == w.0.has_graduated && rest5@ == le_bytes(w.1 as nat, 8));
            assert(rest5@ =~= le_bytes(w.1 as nat, 8) + Seq::<u8>::empty());
        }
    }
    let (owner, rest6) = match scale_decode_u64(rest5) {
        Some(x) => x,
        None => {
            return None;
        },
    };
    if rest6.len() != 0 {
        proof {
            if found {
                assert(rest6@ =~= Seq::<u8>::empty());
            }
        }
        return None;
    }
    let student = Student { name, surname, age, gender, has_graduated };
    proof {
        assert(rest3@ =~= seq![gender_tag(gender)] + rest4@);
        assert(rest6@ =~= Seq::<u8>::empty());
        assert(bytes@ =~= seq![pallet_index, RECEIVE_STUDENT_CALL_INDEX] + body@);
        assert(bytes@ =~= receive_call_encoding(pallet_index, student, has_graduated, owner));
        assert forall|p: (Student, AccountId)|
            is_receive_call(pallet_index, bytes@, p) implies same_call((student, owner), p) by {
            lemma_call_parts(pallet_index, p);
            assert(body@ =~= bytes_encoding(p.0.name@) + tail_after_name(p));
            assert(name@ == p.0.name@ && rest1@ == tail_after_name(p));
            assert(surname@ == p.0.surname@ && rest2@ == tail_after_surname(p));
            assert(age == p.0.age && rest3@ == tail_after_age(p));
            assert(rest3@[0] == gender_tag(p.0.gender));
            assert(gender == p.0.gender);
            assert(rest4@ =~= tail_after_tag(p));
            assert(has_graduated == p.0.has_graduated && rest5@ == le_bytes(p.1 as nat, 8));
            assert(rest5@ =~= le_bytes(p.1 as nat, 8) + Seq::<u8>::empty());
        }
    }
    Some((student, owner))
}

} // verus!
