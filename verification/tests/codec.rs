use latbench::codec::{decode, encode, DecodeError, Message};

fn msg(id: i32, seconds: i64, nanos: i32, jitter: i64) -> Message {
    Message { id, seconds, nanos, jitter }
}

#[test]
fn encode_known_bytes() {
    // id = 1, ts = { seconds: 1, nanos: 2 }, jitter = 3, all single-byte varints.
    let m = msg(1, 1, 2, 3);
    let bytes = encode(&m);
    assert_eq!(bytes, vec![0x08, 0x01, 0x12, 0x04, 0x08, 0x01, 0x10, 0x02, 0x18, 0x03]);
}

#[test]
fn encode_multibyte_varints() {
    // seconds = 300 -> varint AC 02; jitter = 128 -> varint 80 01.
    let m = msg(0, 300, 0, 128);
    let bytes = encode(&m);
    assert_eq!(
        bytes,
        vec![0x08, 0x00, 0x12, 0x05, 0x08, 0xAC, 0x02, 0x10, 0x00, 0x18, 0x80, 0x01]
    );
}

#[test]
fn round_trip_typical() {
    let m = msg(42, 1_700_000_000, 123_456_789, 857);
    assert_eq!(decode(&encode(&m)), Ok(m));
}

#[test]
fn round_trip_zero() {
    let m = msg(0, 0, 0, 0);
    assert_eq!(decode(&encode(&m)), Ok(m));
}

#[test]
fn round_trip_negative_fields() {
    // A buggy producer can in principle report negative jitter; the codec
    // preserves it exactly either way.
    let m = msg(-1, -62_135_596_800, -5, -1_000_000);
    assert_eq!(decode(&encode(&m)), Ok(m));
}

#[test]
fn round_trip_extremes() {
    for m in [
        msg(i32::MAX, i64::MAX, i32::MAX, i64::MAX),
        msg(i32::MIN, i64::MIN, i32::MIN, i64::MIN),
        msg(1, i64::MAX, 999_999_999, -1),
    ] {
        assert_eq!(decode(&encode(&m)), Ok(m));
    }
}

#[test]
fn decode_empty_fails() {
    assert_eq!(decode(&[]), Err(DecodeError));
}

#[test]
fn decode_every_truncation_fails() {
    let m = msg(7, 1_700_000_000, 999_999_999, i64::MAX);
    let bytes = encode(&m);
    for cut in 0..bytes.len() {
        assert_eq!(decode(&bytes[..cut]), Err(DecodeError), "prefix of {} bytes", cut);
    }
}

#[test]
fn decode_trailing_garbage_fails() {
    let mut bytes = encode(&msg(1, 2, 3, 4));
    bytes.push(0x00);
    assert_eq!(decode(&bytes), Err(DecodeError));
}

#[test]
fn decode_wrong_leading_tag_fails() {
    let mut bytes = encode(&msg(1, 2, 3, 4));
    bytes[0] = 0x10;
    assert_eq!(decode(&bytes), Err(DecodeError));
}

#[test]
fn decode_overlong_varint_fails() {
    // id written as the over-long two-byte varint 80 00 for the value 0.
    let bytes = vec![0x08, 0x80, 0x00, 0x12, 0x04, 0x08, 0x01, 0x10, 0x02, 0x18, 0x03];
    assert_eq!(decode(&bytes), Err(DecodeError));
}

#[test]
fn decode_unfinished_varint_fails() {
    // jitter varint ends on a continuation byte.
    let bytes = vec![0x08, 0x01, 0x12, 0x04, 0x08, 0x01, 0x10, 0x02, 0x18, 0x80];
    assert_eq!(decode(&bytes), Err(DecodeError));
}

#[test]
fn decode_bad_sign_extension_fails() {
    // id field carrying 2^32, which is not the sign-extension of any i32.
    let bytes = vec![
        0x08, 0x80, 0x80, 0x80, 0x80, 0x10, 0x12, 0x04, 0x08, 0x01, 0x10, 0x02, 0x18, 0x03,
    ];
    assert_eq!(decode(&bytes), Err(DecodeError));
}

#[test]
fn decode_nested_length_mismatch_fails() {
    // Timestamp declares 5 bytes but holds a 4-byte payload plus a stray byte.
    let bytes = vec![0x08, 0x01, 0x12, 0x05, 0x08, 0x01, 0x10, 0x02, 0x00, 0x18, 0x03];
    assert_eq!(decode(&bytes), Err(DecodeError));
}

#[test]
fn decode_corrupted_byte_fails_or_changes_nothing_silently() {
    // Flipping any single byte of this encoding never passes off as the
    // same message: it either fails or decodes to a visibly different one.
    let m = msg(5, 1_000, 2_000, 3_000);
    let bytes = encode(&m);
    for i in 0..bytes.len() {
        let mut corrupt = bytes.clone();
        corrupt[i] ^= 0xFF;
        match decode(&corrupt) {
            Ok(m2) => assert_ne!(m2, m, "flip at {}", i),
            Err(e) => assert_eq!(e, DecodeError),
        }
    }
}
