//! Binary codec for the benchmark's wire message.
//!
//! The message travels as a protobuf-style byte sequence: three varint-coded
//! fields (`id`, `jitter`, and a nested two-field timestamp), each preceded by
//! its tag byte. Encoding is total and canonical; decoding is strict, so it
//! accepts exactly the byte sequences this encoder produces. Strictness is
//! what makes the truncation and corruption guarantees provable: a decoder
//! that tolerated missing fields would silently accept a truncated message.

use vstd::prelude::*;
use vstd::slice::slice_subrange;

verus! {

/// Little-endian base-128 encoding of `x`, low group first, with the
/// continuation bit set on every byte but the last.
pub open spec fn varint_bytes(x: u64) -> Seq<u8>
    decreases x,
{
    if x < 128 {
        seq![x as u8]
    } else {
        seq![(x % 128 + 128) as u8] + varint_bytes(x / 128)
    }
}

/// Parses one varint from the front of `s`: the value and how many bytes it
/// took. Rejects over-long encodings (a continuation whose tail encodes 0)
/// and values that do not fit in 64 bits, so a parse succeeds exactly on the
/// canonical encodings that `varint_bytes` produces.
pub open spec fn parse_varint(s: Seq<u8>) -> Option<(u64, int)>
    decreases s.len(),
{
    if s.len() == 0 {
        None
    } else if s[0] < 128 {
        Some((s[0] as u64, 1))
    } else {
        match parse_varint(s.skip(1)) {
            Some((v, n)) => {
                if v == 0 || v * 128 + (s[0] - 128) > u64::MAX {
                    None
                } else {
                    Some(((v * 128 + (s[0] - 128)) as u64, n + 1))
                }
            }
            None => None,
        }
    }
}

/// 128 raised to the k-th power; bounds how many base-128 digit groups a
/// value can need.
pub open spec fn pow128(k: nat) -> nat
    decreases k,
{
    if k == 0 {
        1
    } else {
        128 * pow128((k - 1) as nat)
    }
}

proof fn lemma_varint_len_bounded(x: u64, k: nat)
    requires
        k >= 1,
        x < pow128(k),
    ensures
        varint_bytes(x).len() <= k,
    decreases k,
{
    if x >= 128 {
        assert(pow128(k) == 128 * pow128((k - 1) as nat));
        assert(x / 128 < pow128((k - 1) as nat)) by (nonlinear_arith)
            requires
                x < 128 * pow128((k - 1) as nat),
                x >= 128,
        ;
        lemma_varint_len_bounded(x / 128, (k - 1) as nat);
    }
}

/// A varint takes at least one byte and never more than ten.
pub proof fn lemma_varint_len(x: u64)
    ensures
        1 <= varint_bytes(x).len() <= 10,
{
    assert(pow128(10) > u64::MAX) by {
        reveal_with_fuel(pow128, 11);
    }
    lemma_varint_len_bounded(x, 10);
}

/// A canonical varint, followed by anything, parses back to its value and
/// length; in particular encoding then parsing is the identity.
pub proof fn lemma_varint_parse(x: u64, rest: Seq<u8>)
    ensures
        1 <= varint_bytes(x).len(),
        parse_varint(varint_bytes(x) + rest) == Some((x, varint_bytes(x).len() as int)),
    decreases x,
{
    let s = varint_bytes(x) + rest;
    if x < 128 {
        assert(s[0] == x as u8);
    } else {
        assert(s[0] == (x % 128 + 128) as u8);
        assert(s.skip(1) =~= varint_bytes(x / 128) + rest);
        lemma_varint_parse(x / 128, rest);
        assert((x / 128) * 128 + (x % 128) == x) by (nonlinear_arith);
    }
}

/// A successful parse consumed a prefix that is exactly the canonical
/// encoding of the value read.
pub proof fn lemma_varint_canonical(s: Seq<u8>)
    requires
        parse_varint(s) is Some,
    ensures
        1 <= parse_varint(s)->Some_0.1 <= s.len(),
        s.take(parse_varint(s)->Some_0.1) == varint_bytes(parse_varint(s)->Some_0.0),
    decreases s.len(),
{
    let (v, n) = parse_varint(s)->Some_0;
    if s[0] < 128 {
        assert(s.take(1) =~= varint_bytes(v));
    } else {
        lemma_varint_canonical(s.skip(1));
        let (v2, n2) = parse_varint(s.skip(1))->Some_0;
        assert(v == v2 * 128 + (s[0] - 128));
        assert(v2 >= 1);
        assert(v >= 128 && v / 128 == v2 && v % 128 == s[0] - 128) by (nonlinear_arith)
            requires
                v == v2 * 128 + (s[0] - 128),
                v2 >= 1,
                128 <= s[0] < 256,
        ;
        assert(s.skip(1).take(n2) == varint_bytes(v2));
        assert(s.take(n) =~= seq![s[0]] + s.skip(1).take(n2));
        assert(varint_bytes(v) == seq![(v % 128 + 128) as u8] + varint_bytes(v / 128));
        assert(s.take(n) =~= varint_bytes(v));
    }
}

/// The unit exchanged on the wire: which publisher slot sent it, the
/// wall-clock send time (seconds and sub-second nanoseconds), and the
/// scheduling jitter in microseconds measured just before the send.
#[derive(Clone, Copy, Debug, PartialEq, Eq, Structural)]
pub struct Message {
    pub id: i32,
    pub seconds: i64,
    pub nanos: i32,
    pub jitter: i64,
}

/// Decoding failed: the bytes are not a complete, well-formed message.
/// The caller drops the input; this is never fatal to a run.
#[derive(Clone, Copy, Debug, PartialEq, Eq, Structural)]
pub struct DecodeError;

/// Two's-complement image of a 64-bit signed value, as the wire carries it.
pub open spec fn wire64(x: i64) -> u64 {
    if x >= 0 {
        x as u64
    } else {
        (x + 0x1_0000_0000_0000_0000) as u64
    }
}

/// Inverse of `wire64`: every 64-bit pattern names one signed value.
pub open spec fn unwire64(v: u64) -> i64 {
    if v < 0x8000_0000_0000_0000 {
        v as i64
    } else {
        (v - 0x1_0000_0000_0000_0000) as i64
    }
}

/// Two's-complement image of a 32-bit signed value, sign-extended to the
/// 64 bits a wire varint carries.
pub open spec fn wire32(x: i32) -> u64 {
    if x >= 0 {
        x as u64
    } else {
        (x + 0x1_0000_0000_0000_0000) as u64
    }
}

/// Does the 64-bit pattern `v` arise by sign-extending some 32-bit value?
/// Anything else in a 32-bit field is malformed.
pub open spec fn is_wire32(v: u64) -> bool {
    v < 0x8000_0000 || v >= 0xFFFF_FFFF_8000_0000
}

/// Inverse of `wire32` on the patterns `is_wire32` admits.
pub open spec fn unwire32(v: u64) -> i32 {
    if v < 0x8000_0000 {
        v as i32
    } else {
        (v - 0x1_0000_0000_0000_0000) as i32
    }
}

pub proof fn lemma_wire64_inverse(v: u64)
    ensures
        wire64(unwire64(v)) == v,
{
}

pub proof fn lemma_wire32_inverse(v: u64)
    requires
        is_wire32(v),
    ensures
        wire32(unwire32(v)) == v,
{
}

pub proof fn lemma_unwire64_inverse(x: i64)
    ensures
        unwire64(wire64(x)) == x,
{
}

pub proof fn lemma_unwire32_inverse(x: i32)
    ensures
        is_wire32(wire32(x)),
        unwire32(wire32(x)) == x,
{
}

/// The nested timestamp payload: seconds under tag 8, nanoseconds under
/// tag 16 (field numbers 1 and 2, varint wire type), each sign-extended to
/// 64 bits as the wire carries signed values.
pub open spec fn ts_payload(m: Message) -> Seq<u8> {
    seq![8u8] + varint_bytes(wire64(m.seconds)) + seq![16u8] + varint_bytes(wire32(m.nanos))
}

/// The full canonical encoding of a message: id, then the length-delimited
/// timestamp, then jitter, in field order.
pub open spec fn encode_spec(m: Message) -> Seq<u8> {
    seq![8u8] + varint_bytes(wire32(m.id)) + seq![18u8] + varint_bytes(
        ts_payload(m).len() as u64,
    ) + ts_payload(m) + seq![24u8] + varint_bytes(wire64(m.jitter))
}

/// Parses a tag byte followed by a varint from the front of `s`.
pub open spec fn parse_tagged(s: Seq<u8>, tag: u8) -> Option<(u64, int)> {
    if s.len() >= 1 && s[0] == tag {
        match parse_varint(s.skip(1)) {
            Some((v, n)) => Some((v, n + 1)),
            None => None,
        }
    } else {
        None
    }
}

/// Parses the nested timestamp payload: seconds then nanoseconds, each
/// tagged. Returns the two values and how many bytes they took.
pub open spec fn parse_ts(s: Seq<u8>) -> Option<((i64, i32), int)> {
    match parse_tagged(s, 8) {
        Some((vs, n1)) => match parse_tagged(s.skip(n1), 16) {
            Some((vn, n2)) => if is_wire32(vn) {
                Some(((unwire64(vs), unwire32(vn)), n1 + n2))
            } else {
                None
            },
            None => None,
        },
        None => None,
    }
}

/// Strict parse of a whole message: all three fields, in order, the nested
/// timestamp consuming exactly its declared length, and nothing left over.
pub open spec fn parse_message(s: Seq<u8>) -> Option<Message> {
    match parse_tagged(s, 8) {
        Some((vid, n1)) => if !is_wire32(vid) {
            None
        } else {
            match parse_tagged(s.skip(n1), 18) {
                Some((tslen, n2)) => if tslen > s.skip(n1 + n2).len() {
                    None
                } else {
                    match parse_ts(s.skip(n1 + n2).take(tslen as int)) {
                        Some(((secs, nanos), nts)) => if nts != tslen {
                            None
                        } else {
                            match parse_tagged(s.skip(n1 + n2 + tslen as int), 24) {
                                Some((vj, n3)) => if n1 + n2 + tslen + n3 == s.len() {
                                    Some(
                                        Message {
                                            id: unwire32(vid),
                                            seconds: secs,
                                            nanos: nanos,
                                            jitter: unwire64(vj),
                                        },
                                    )
                                } else {
                                    None
                                },
                                None => None,
                            }
                        },
                        None => None,
                    }
                },
                None => None,
            }
        },
        None => None,
    }
}

pub proof fn lemma_tagged_parse(tag: u8, v: u64, rest: Seq<u8>)
    ensures
        parse_tagged(seq![tag] + varint_bytes(v) + rest, tag) == Some(
            (v, 1 + varint_bytes(v).len() as int),
        ),
{
    let s = seq![tag] + varint_bytes(v) + rest;
    lemma_varint_parse(v, rest);
    assert(s[0] == tag);
    assert(s.skip(1) =~= varint_bytes(v) + rest);
}

pub proof fn lemma_tagged_canonical(s: Seq<u8>, tag: u8)
    requires
        parse_tagged(s, tag) is Some,
    ensures
        2 <= parse_tagged(s, tag)->Some_0.1 <= s.len(),
        s.take(parse_tagged(s, tag)->Some_0.1) == seq![tag] + varint_bytes(
            parse_tagged(s, tag)->Some_0.0,
        ),
{
    let (v, n) = parse_tagged(s, tag)->Some_0;
    lemma_varint_canonical(s.skip(1));
    assert(s.skip(1).take(n - 1) == varint_bytes(v));
    assert(s.take(n) =~= seq![tag] + s.skip(1).take(n - 1));
}

pub proof fn lemma_tagged_depends(s: Seq<u8>, t: Seq<u8>, tag: u8)
    requires
        parse_tagged(s, tag) is Some,
        parse_tagged(s, tag)->Some_0.1 <= t.len(),
        t.take(parse_tagged(s, tag)->Some_0.1) == s.take(parse_tagged(s, tag)->Some_0.1),
    ensures
        parse_tagged(t, tag) == parse_tagged(s, tag),
{
    let (v, n) = parse_tagged(s, tag)->Some_0;
    lemma_tagged_canonical(s, tag);
    assert(t =~= (seq![tag] + varint_bytes(v)) + t.skip(n));
    assert(t =~= seq![tag] + varint_bytes(v) + t.skip(n));
    lemma_tagged_parse(tag, v, t.skip(n));
}

pub proof fn lemma_ts_parse(seconds: i64, nanos: i32, rest: Seq<u8>)
    ensures
        parse_ts(
            (seq![8u8] + varint_bytes(wire64(seconds)) + seq![16u8] + varint_bytes(wire32(nanos)))
                + rest,
        ) == Some(
            (
                (seconds, nanos),
                (seq![8u8] + varint_bytes(wire64(seconds)) + seq![16u8] + varint_bytes(
                    wire32(nanos),
                )).len() as int,
            ),
        ),
{
    let p = seq![8u8] + varint_bytes(wire64(seconds)) + seq![16u8] + varint_bytes(wire32(nanos));
    let s = p + rest;
    let tail = seq![16u8] + varint_bytes(wire32(nanos)) + rest;
    assert(s =~= seq![8u8] + varint_bytes(wire64(seconds)) + tail);
    lemma_tagged_parse(8u8, wire64(seconds), tail);
    let n1 = 1 + varint_bytes(wire64(seconds)).len() as int;
    assert(s.skip(n1) =~= tail);
    assert(tail =~= seq![16u8] + varint_bytes(wire32(nanos)) + rest);
    lemma_tagged_parse(16u8, wire32(nanos), rest);
    lemma_unwire32_inverse(nanos);
    lemma_unwire64_inverse(seconds);
}

pub proof fn lemma_ts_canonical(s: Seq<u8>)
    requires
        parse_ts(s) is Some,
    ensures
        4 <= parse_ts(s)->Some_0.1 <= s.len(),
        s.take(parse_ts(s)->Some_0.1) == seq![8u8] + varint_bytes(
            wire64(parse_ts(s)->Some_0.0.0),
        ) + seq![16u8] + varint_bytes(wire32(parse_ts(s)->Some_0.0.1)),
{
    let ((seconds, nanos), n) = parse_ts(s)->Some_0;
    let (vs, n1) = parse_tagged(s, 8u8)->Some_0;
    let (vn, n2) = parse_tagged(s.skip(n1), 16u8)->Some_0;
    lemma_tagged_canonical(s, 8u8);
    lemma_tagged_canonical(s.skip(n1), 16u8);
    lemma_wire64_inverse(vs);
    lemma_wire32_inverse(vn);
    assert(s.take(n) =~= s.take(n1) + s.skip(n1).take(n2));
    assert(s.take(n) =~= (seq![8u8] + varint_bytes(vs)) + (seq![16u8] + varint_bytes(vn)));
    assert(s.take(n) =~= seq![8u8] + varint_bytes(wire64(seconds)) + seq![16u8] + varint_bytes(
        wire32(nanos),
    ));
}

/// Round trip: the canonical encoding of any message parses back to
/// exactly that message — id, seconds, nanos and jitter all preserved.
pub proof fn lemma_round_trip(m: Message)
    ensures
        parse_message(encode_spec(m)) == Some(m),
{
    let s = encode_spec(m);
    let p = ts_payload(m);
    lemma_varint_len(wire64(m.seconds));
    lemma_varint_len(wire32(m.nanos));
    assert(p.len() <= 22);
    let tslen = p.len() as u64;
    let vj = varint_bytes(wire64(m.jitter));
    let rest1 = seq![18u8] + varint_bytes(tslen) + p + seq![24u8] + vj;
    assert(s =~= seq![8u8] + varint_bytes(wire32(m.id)) + rest1);
    lemma_tagged_parse(8u8, wire32(m.id), rest1);
    lemma_unwire32_inverse(m.id);
    let n1 = 1 + varint_bytes(wire32(m.id)).len() as int;
    assert(s.skip(n1) =~= rest1);
    let rest2 = p + seq![24u8] + vj;
    assert(rest1 =~= seq![18u8] + varint_bytes(tslen) + rest2);
    lemma_tagged_parse(18u8, tslen, rest2);
    let n2 = 1 + varint_bytes(tslen).len() as int;
    assert(parse_tagged(s.skip(n1), 18u8) == Some((tslen, n2)));
    let body = s.skip(n1 + n2);
    assert(body =~= rest2);
    assert(body.take(tslen as int) =~= p);
    assert(p =~= (seq![8u8] + varint_bytes(wire64(m.seconds)) + seq![16u8] + varint_bytes(
        wire32(m.nanos),
    )) + Seq::<u8>::empty());
    lemma_ts_parse(m.seconds, m.nanos, Seq::<u8>::empty());
    assert(parse_ts(body.take(tslen as int)) == Some(((m.seconds, m.nanos), tslen as int)));
    let tail = s.skip(n1 + n2 + tslen as int);
    assert(tail =~= seq![24u8] + vj + Seq::<u8>::empty());
    lemma_tagged_parse(24u8, wire64(m.jitter), Seq::<u8>::empty());
    assert(tail == seq![24u8] + vj + Seq::<u8>::empty());
    let n3 = 1 + vj.len() as int;
    assert(parse_tagged(tail, 24u8) == Some((wire64(m.jitter), n3)));
    assert(n1 + n2 + tslen + n3 == s.len());
    lemma_unwire64_inverse(m.seconds);
    lemma_unwire64_inverse(m.jitter);
}

/// Decoding is canonical: a successful parse means the input is, byte for
/// byte, the encoding of the message read. Any corrupted sequence that is
/// not an exact encoding is rejected.
pub proof fn lemma_parse_canonical(s: Seq<u8>)
    requires
        parse_message(s) is Some,
    ensures
        s == encode_spec(parse_message(s)->Some_0),
{
    let m = parse_message(s)->Some_0;
    let (vid, n1) = parse_tagged(s, 8u8)->Some_0;
    let (tslen, n2) = parse_tagged(s.skip(n1), 18u8)->Some_0;
    let body = s.skip(n1 + n2);
    let ((secs, nanos), nts) = parse_ts(body.take(tslen as int))->Some_0;
    let (vj, n3) = parse_tagged(s.skip(n1 + n2 + tslen as int), 24u8)->Some_0;
    lemma_tagged_canonical(s, 8u8);
    lemma_tagged_canonical(s.skip(n1), 18u8);
    lemma_ts_canonical(body.take(tslen as int));
    lemma_tagged_canonical(s.skip(n1 + n2 + tslen as int), 24u8);
    lemma_wire32_inverse(vid);
    lemma_wire64_inverse(vj);
    assert(body.take(tslen as int).take(nts) =~= body.take(tslen as int));
    assert(ts_payload(m) == body.take(tslen as int));
    assert(tslen as int == ts_payload(m).len());
    assert(s.skip(n1 + n2 + tslen as int).take(n3) =~= s.skip(n1 + n2 + tslen as int));
    assert(s =~= s.take(n1) + s.skip(n1).take(n2) + body.take(tslen as int) + s.skip(
        n1 + n2 + tslen as int,
    ));
    assert(s =~= encode_spec(m));
}

/// A strict parse consumes everything, so no message encoding can be
/// extended: appending any byte to a parseable sequence breaks it.
pub proof fn lemma_parse_extension_fails(s: Seq<u8>, t: Seq<u8>)
    requires
        parse_message(s) is Some,
        s.len() < t.len(),
        t.take(s.len() as int) == s,
    ensures
        parse_message(t) is None,
{
    let (vid, n1) = parse_tagged(s, 8u8)->Some_0;
    let (tslen, n2) = parse_tagged(s.skip(n1), 18u8)->Some_0;
    let body = s.skip(n1 + n2);
    let (vj, n3) = parse_tagged(s.skip(n1 + n2 + tslen as int), 24u8)->Some_0;
    lemma_tagged_canonical(s, 8u8);
    assert(t.take(n1) =~= s.take(n1));
    lemma_tagged_depends(s, t, 8u8);
    lemma_tagged_canonical(s.skip(n1), 18u8);
    assert(t.skip(n1).take(n2) =~= s.skip(n1).take(n2));
    lemma_tagged_depends(s.skip(n1), t.skip(n1), 18u8);
    let tbody = t.skip(n1 + n2);
    assert(tbody.take(tslen as int) =~= body.take(tslen as int));
    lemma_tagged_canonical(s.skip(n1 + n2 + tslen as int), 24u8);
    assert(t.skip(n1 + n2 + tslen as int).take(n3) =~= s.skip(n1 + n2 + tslen as int).take(n3));
    lemma_tagged_depends(
        s.skip(n1 + n2 + tslen as int),
        t.skip(n1 + n2 + tslen as int),
        24u8,
    );
    assert(n1 + n2 + tslen + n3 == s.len());
    assert(n1 + n2 + tslen + n3 != t.len());
}

/// Truncation is always detected: no proper prefix of an encoding parses.
pub proof fn lemma_truncated_parse_fails(m: Message, i: int)
    requires
        0 <= i < encode_spec(m).len(),
    ensures
        parse_message(encode_spec(m).take(i)) is None,
{
    let s = encode_spec(m);
    lemma_round_trip(m);
    if parse_message(s.take(i)) is Some {
        lemma_parse_canonical(s.take(i));
        assert(s.take(s.take(i).len() as int) =~= s.take(i));
        lemma_parse_extension_fails(s.take(i), s);
        assert(false);
    }
}

fn wire64_exec(x: i64) -> (r: u64)
    ensures
        r == wire64(x),
{
    if x >= 0 {
        x as u64
    } else {
        ((x as i128) + 0x1_0000_0000_0000_0000i128) as u64
    }
}

fn wire32_exec(x: i32) -> (r: u64)
    ensures
        r == wire32(x),
{
    if x >= 0 {
        x as u64
    } else {
        ((x as i128) + 0x1_0000_0000_0000_0000i128) as u64
    }
}

fn unwire64_exec(v: u64) -> (r: i64)
    ensures
        r == unwire64(v),
{
    if v < 0x8000_0000_0000_0000 {
        v as i64
    } else {
        ((v as i128) - 0x1_0000_0000_0000_0000i128) as i64
    }
}

fn unwire32_exec(v: u64) -> (r: i32)
    requires
        is_wire32(v),
    ensures
        r == unwire32(v),
{
    if v < 0x8000_0000 {
        v as i32
    } else {
        ((v as i128) - 0x1_0000_0000_0000_0000i128) as i32
    }
}

fn push_varint(buf: &mut Vec<u8>, x: u64)
    ensures
        final(buf)@ == old(buf)@ + varint_bytes(x),
    decreases x,
{
    if x < 128 {
        buf.push(x as u8);
        assert(buf@ =~= old(buf)@ + varint_bytes(x));
    } else {
        buf.push((x % 128 + 128) as u8);
        push_varint(buf, x / 128);
        assert(buf@ =~= old(buf)@ + varint_bytes(x));
    }
}

/// Encodes a message into its canonical wire form. Total: every message has
/// an encoding, so the publish path never drops a message at this stage.
pub fn encode(m: &Message) -> (r: Vec<u8>)
    ensures
        r@ == encode_spec(*m),
{
    let mut ts: Vec<u8> = Vec::new();
    ts.push(8u8);
    push_varint(&mut ts, wire64_exec(m.seconds));
    ts.push(16u8);
    push_varint(&mut ts, wire32_exec(m.nanos));
    assert(ts@ =~= ts_payload(*m));
    proof {
        lemma_varint_len(wire64(m.seconds));
        lemma_varint_len(wire32(m.nanos));
    }
    let mut out: Vec<u8> = Vec::new();
    out.push(8u8);
    push_varint(&mut out, wire32_exec(m.id));
    out.push(18u8);
    push_varint(&mut out, ts.len() as u64);
    out.append(&mut ts);
    out.push(24u8);
    push_varint(&mut out, wire64_exec(m.jitter));
    assert(out@ =~= encode_spec(*m));
    out
}

fn read_varint(bytes: &[u8], pos: usize) -> (r: Option<(u64, usize)>)
    requires
        pos <= bytes@.len(),
    ensures
        (match parse_varint(bytes@.skip(pos as int)) {
            Some(vn) => r == Some((vn.0, vn.1 as usize)),
            None => r is None,
        }),
    decreases bytes@.len() - pos,
{
    let ghost s = bytes@.skip(pos as int);
    if pos == bytes.len() {
        None
    } else {
        let b = bytes[pos];
        if b < 128 {
            Some((b as u64, 1))
        } else {
            proof {
                assert(s.skip(1) =~= bytes@.skip(pos as int + 1));
            }
            match read_varint(bytes, pos + 1) {
                Some((v, n)) => {
                    if v == 0 {
                        None
                    } else {
                        let wide: u128 = (v as u128) * 128 + ((b - 128) as u128);
                        if wide > u64::MAX as u128 {
                            None
                        } else {
                            proof {
                                lemma_varint_canonical(s.skip(1));
                            }
                            Some((wide as u64, n + 1))
                        }
                    }
                }
                None => None,
            }
        }
    }
}

fn read_tagged(bytes: &[u8], pos: usize, tag: u8) -> (r: Option<(u64, usize)>)
    requires
        pos <= bytes@.len(),
    ensures
        (match parse_tagged(bytes@.skip(pos as int), tag) {
            Some(vn) => r == Some((vn.0, vn.1 as usize)),
            None => r is None,
        }),
{
    let ghost s = bytes@.skip(pos as int);
    if pos < bytes.len() && bytes[pos] == tag {
        proof {
            assert(s.skip(1) =~= bytes@.skip(pos as int + 1));
        }
        match read_varint(bytes, pos + 1) {
            Some((v, n)) => {
                proof {
                    lemma_varint_canonical(s.skip(1));
                }
                Some((v, n + 1))
            }
            None => None,
        }
    } else {
        None
    }
}

fn read_ts(body: &[u8]) -> (r: Option<(i64, i32, usize)>)
    ensures
        (match parse_ts(body@) {
            Some(vn) => r == Some((vn.0.0, vn.0.1, vn.1 as usize)),
            None => r is None,
        }),
{
    let blen: usize = body.len();
    proof {
        assert(body@.len() == blen as int);
        assert(body@.skip(0) =~= body@);
    }
    match read_tagged(body, 0, 8u8) {
        Some((vs, n1)) => {
            proof {
                lemma_tagged_canonical(body@, 8u8);
            }
            match read_tagged(body, n1, 16u8) {
                Some((vn, n2)) => {
                    proof {
                        lemma_tagged_canonical(body@.skip(n1 as int), 16u8);
                    }
                    if vn < 0x8000_0000 || vn >= 0xFFFF_FFFF_8000_0000 {
                        Some((unwire64_exec(vs), unwire32_exec(vn), n1 + n2))
                    } else {
                        None
                    }
                }
                None => None,
            }
        }
        None => None,
    }
}

/// Decodes a wire message. Succeeds exactly on the canonical encodings that
/// `encode` produces; anything truncated or otherwise malformed is rejected
/// whole — never a partially populated message.
pub fn decode(bytes: &[u8]) -> (r: Result<Message, DecodeError>)
    ensures
        (match parse_message(bytes@) {
            Some(m) => r == Ok::<Message, DecodeError>(m),
            None => r == Err::<Message, DecodeError>(DecodeError),
        }),
{
    let blen: usize = bytes.len();
    proof {
        assert(bytes@.len() == blen as int);
        assert(bytes@.skip(0) =~= bytes@);
    }
    match read_tagged(bytes, 0, 8u8) {
        None => Err(DecodeError),
        Some((vid, n1)) => {
            proof {
                lemma_tagged_canonical(bytes@, 8u8);
            }
            if !(vid < 0x8000_0000 || vid >= 0xFFFF_FFFF_8000_0000) {
                return Err(DecodeError);
            }
            match read_tagged(bytes, n1, 18u8) {
                None => Err(DecodeError),
                Some((tslen, n2)) => {
                    proof {
                        lemma_tagged_canonical(bytes@.skip(n1 as int), 18u8);
                    }
                    let rem = bytes.len() - (n1 + n2);
                    if tslen > rem as u64 {
                        return Err(DecodeError);
                    }
                    let tsl = tslen as usize;
                    let body = slice_subrange(bytes, n1 + n2, n1 + n2 + tsl);
                    proof {
                        assert(body@ =~= bytes@.skip(n1 + n2).take(tslen as int));
                    }
                    match read_ts(body) {
                        None => Err(DecodeError),
                        Some((secs, nanos, nts)) => {
                            proof {
                                lemma_ts_canonical(body@);
                            }
                            if nts != tsl {
                                return Err(DecodeError);
                            }
                            match read_tagged(bytes, n1 + n2 + tsl, 24u8) {
                                None => Err(DecodeError),
                                Some((vj, n3)) => {
                                    proof {
                                        lemma_tagged_canonical(
                                            bytes@.skip((n1 + n2 + tsl) as int),
                                            24u8,
                                        );
                                    }
                                    if n1 + n2 + tsl + n3 != bytes.len() {
                                        return Err(DecodeError);
                                    }
                                    Ok(
                                        Message {
                                            id: unwire32_exec(vid),
                                            seconds: secs,
                                            nanos: nanos,
                                            jitter: unwire64_exec(vj),
                                        },
                                    )
                                }
                            }
                        }
                    }
                }
            }
        }
    }
}

} // verus!
