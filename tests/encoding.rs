use pallet_template::{
    decode_receive_call, encode_receive_call, encode_student, transfer_message, Config, Gender,
    Student,
};

fn ada() -> Student {
    Student {
        name: b"Ada".to_vec(),
        surname: b"Lovelace".to_vec(),
        age: 30,
        gender: Gender::Female,
        has_graduated: false,
    }
}

#[test]
fn student_encoding_is_exact() {
    let mut expected = vec![12, b'A', b'd', b'a', 32];
    expected.extend_from_slice(b"Lovelace");
    expected.extend_from_slice(&[30, 0, 0, 0, 1, 0]);
    assert_eq!(encode_student(&ada(), false), expected);
    let last = encode_student(&ada(), true);
    assert_eq!(last[last.len() - 1], 1);
}

#[test]
fn gender_tags() {
    let mut s = ada();
    for (g, tag) in [(Gender::Male, 0u8), (Gender::Female, 1), (Gender::Other, 2)] {
        s.gender = g;
        let bytes = encode_student(&s, false);
        assert_eq!(bytes[bytes.len() - 2], tag);
    }
}

#[test]
fn long_lengths_use_two_and_four_byte_compact_forms() {
    let mut s = ada();
    s.name = vec![7u8; 64];
    let bytes = encode_student(&s, false);
    assert_eq!(&bytes[..3], &[0x01, 0x01, 7]);
    s.name = vec![7u8; 16384];
    let bytes = encode_student(&s, false);
    assert_eq!(&bytes[..5], &[0x02, 0x00, 0x01, 0x00, 7]);
}

#[test]
fn receive_call_layout() {
    let owner: u64 = 0x0102_0304_0506_0708;
    let call = encode_receive_call(42, &ada(), true, owner);
    assert_eq!(&call[..2], &[42, 10]);
    let body = encode_student(&ada(), true);
    assert_eq!(&call[2..2 + body.len()], &body[..]);
    assert_eq!(&call[2 + body.len()..], &[8, 7, 6, 5, 4, 3, 2, 1]);
}

#[test]
fn transfer_message_marks_graduated() {
    let config = Config { max_name_len: 8, max_surname_len: 8, pallet_index: 3 };
    let m = transfer_message(&config, &ada(), 9);
    assert_eq!(m.call, encode_receive_call(3, &ada(), true, 9));
    assert_eq!(m.fallback_ref_time, 1_000_000_000);
    assert_eq!(m.fallback_proof_size, 0);
}

#[test]
fn receive_call_round_trips() {
    let mut s = ada();
    s.has_graduated = true;
    let call = encode_receive_call(5, &s, true, 77);
    assert_eq!(decode_receive_call(5, &call), Some((s.clone(), 77)));
    let mut other = ada();
    other.gender = Gender::Other;
    let call = encode_receive_call(5, &other, false, u64::MAX);
    assert_eq!(decode_receive_call(5, &call), Some((other, u64::MAX)));
}

#[test]
fn decode_rejects_other_bytes() {
    let call = encode_receive_call(5, &ada(), true, 77);
    assert_eq!(decode_receive_call(6, &call), None);
    let mut trailing = call.clone();
    trailing.push(0);
    assert_eq!(decode_receive_call(5, &trailing), None);
    assert_eq!(decode_receive_call(5, &call[..call.len() - 1]), None);
    let mut bad_flag = call.clone();
    let flag_at = call.len() - 9;
    bad_flag[flag_at] = 2;
    assert_eq!(decode_receive_call(5, &bad_flag), None);
    let mut bad_tag = call.clone();
    bad_tag[flag_at - 1] = 3;
    assert_eq!(decode_receive_call(5, &bad_tag), None);
    let mut wrong_call = call.clone();
    wrong_call[1] = 0;
    assert_eq!(decode_receive_call(5, &wrong_call), None);
    assert_eq!(decode_receive_call(5, &[]), None);
}

#[test]
fn non_canonical_length_is_rejected() {
    // "Ada" with its length written in the two-byte form.
    let mut call = vec![5, 10, 0x0d, 0x00, b'A', b'd', b'a', 0];
    call.extend_from_slice(&[30, 0, 0, 0, 1, 1]);
    call.extend_from_slice(&77u64.to_le_bytes());
    assert_eq!(decode_receive_call(5, &call), None);
}
