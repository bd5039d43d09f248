//! Cross-checks the nested timestamp encoding against the protobuf
//! library's own well-known Timestamp message: the codec's bytes for the
//! timestamp section must be exactly what a protobuf writer produces.

use latbench::codec::{encode, Message};
use protobuf::well_known_types::timestamp::Timestamp;
use protobuf::Message as PbMessage;

fn ts_section(m: &Message) -> Vec<u8> {
    let bytes = encode(m);
    // Layout for single-byte id varints: 08 <id> 12 <len> <payload> ...
    assert_eq!(bytes[0], 0x08);
    assert_eq!(bytes[2], 0x12);
    let len = bytes[3] as usize;
    bytes[4..4 + len].to_vec()
}

#[test]
fn timestamp_matches_protobuf_writer() {
    let mut ts = Timestamp::new();
    ts.seconds = 1_700_000_000;
    ts.nanos = 123_456_789;
    let reference = ts.write_to_bytes().unwrap();
    let ours = ts_section(&Message { id: 1, seconds: 1_700_000_000, nanos: 123_456_789, jitter: 1 });
    assert_eq!(ours, reference);
}

#[test]
fn timestamp_matches_protobuf_writer_small_values() {
    let mut ts = Timestamp::new();
    ts.seconds = 3;
    ts.nanos = 200;
    let reference = ts.write_to_bytes().unwrap();
    let ours = ts_section(&Message { id: 0, seconds: 3, nanos: 200, jitter: 0 });
    assert_eq!(ours, reference);
}

#[test]
fn timestamp_round_trips_through_protobuf_reader() {
    let ours = ts_section(&Message { id: 2, seconds: 1_234_567, nanos: 890, jitter: 5 });
    let parsed = Timestamp::parse_from_bytes(&ours).unwrap();
    assert_eq!(parsed.seconds, 1_234_567);
    assert_eq!(parsed.nanos, 890);
}
