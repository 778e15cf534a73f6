use drift_sdk::types::SdkError;
use drift_sdk::user_name::{
    decode_name, encode_name, DEFAULT_USER_NAME, MAX_NAME_LENGTH,
};

#[test]
fn encode_packs_and_pads_exactly() {
    let encoded = encode_name("AB").unwrap();
    let mut expected = vec![b'A', b'B'];
    expected.resize(32, b' ');
    assert_eq!(encoded, expected);
    assert_eq!(encoded.len(), MAX_NAME_LENGTH);
}

#[test]
fn decode_trims_trailing_spaces_only() {
    let encoded = encode_name("Main Account").unwrap();
    assert_eq!(decode_name(&encoded), b"Main Account".to_vec());

    // interior spaces survive; only the padding goes
    let encoded = encode_name("a b").unwrap();
    assert_eq!(decode_name(&encoded), b"a b".to_vec());
}

#[test]
fn round_trip_reproduces_names_up_to_32_bytes() {
    for name in ["", "x", DEFAULT_USER_NAME, "exactly-thirty-two-bytes-long..."] {
        assert_eq!(name.len() <= 32, true);
        let encoded = encode_name(name).unwrap();
        assert_eq!(encoded.len(), 32);
        assert_eq!(decode_name(&encoded), name.as_bytes().to_vec());
    }
}

#[test]
fn name_longer_than_32_bytes_is_rejected() {
    let long = "this-name-is-definitely-longer-than-thirty-two-bytes";
    assert_eq!(long.len() > MAX_NAME_LENGTH, true);
    assert_eq!(encode_name(long), Err(SdkError::NameTooLong));

    let exactly_33 = "123456789012345678901234567890123";
    assert_eq!(encode_name(exactly_33), Err(SdkError::NameTooLong));
}

#[test]
fn full_width_name_round_trips() {
    let exactly_32 = "12345678901234567890123456789012";
    let encoded = encode_name(exactly_32).unwrap();
    assert_eq!(encoded, exactly_32.as_bytes().to_vec());
    assert_eq!(decode_name(&encoded), exactly_32.as_bytes().to_vec());
}
