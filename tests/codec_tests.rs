use tracecore::codec::{decode, encode, ParseError, TraceContext, HEADER_LEN};

const SAMPLE: &str = "00-4bf92f3577b34da6a3ce929d0e0e4736-00f067aa0ba902b7-01";

fn ctx(trace_id: u128, span_id: u64, sampled: bool) -> TraceContext {
    TraceContext { trace_id, span_id, parent_span_id: None, sampled }
}

#[test]
fn encode_exact_header() {
    let c = ctx(0x4bf92f3577b34da6a3ce929d0e0e4736, 0x00f067aa0ba902b7, true);
    let h = encode(&c);
    assert_eq!(h.len(), HEADER_LEN);
    assert_eq!(String::from_utf8(h).unwrap(), SAMPLE);
}

#[test]
fn encode_unsampled_and_zero_padding() {
    let h = encode(&ctx(1, 2, false));
    assert_eq!(
        String::from_utf8(h).unwrap(),
        "00-00000000000000000000000000000001-0000000000000002-00"
    );
}

#[test]
fn decode_valid_header() {
    let c = decode(SAMPLE.as_bytes()).unwrap();
    assert_eq!(c, ctx(0x4bf92f3577b34da6a3ce929d0e0e4736, 0x00f067aa0ba902b7, true));
}

#[test]
fn decode_round_trip() {
    let cases = [
        ctx(0, 0, false),
        ctx(u128::MAX, u64::MAX, true),
        ctx(0x0123456789abcdef0123456789abcdef, 0xfedcba9876543210, true),
    ];
    for c in cases.iter() {
        assert_eq!(decode(&encode(c)), Ok(*c));
    }
}

#[test]
fn decode_drops_parent_from_wire_form() {
    let c = TraceContext { trace_id: 7, span_id: 8, parent_span_id: Some(9), sampled: true };
    assert_eq!(decode(&encode(&c)), Ok(ctx(7, 8, true)));
}

#[test]
fn decode_rejects_bad_length() {
    assert_eq!(decode(b""), Err(ParseError::BadLength));
    assert_eq!(decode(&SAMPLE.as_bytes()[..54]), Err(ParseError::BadLength));
}

#[test]
fn decode_rejects_bad_version() {
    let h = SAMPLE.replacen("00-", "01-", 1);
    assert_eq!(decode(h.as_bytes()), Err(ParseError::BadVersion));
    let h = SAMPLE.replacen("00-", "ff-", 1);
    assert_eq!(decode(h.as_bytes()), Err(ParseError::BadVersion));
}

#[test]
fn decode_rejects_bad_separator() {
    let mut h = SAMPLE.as_bytes().to_vec();
    h[35] = b'_';
    assert_eq!(decode(&h), Err(ParseError::BadSeparator));
}

#[test]
fn decode_rejects_bad_ids() {
    let mut h = SAMPLE.as_bytes().to_vec();
    h[10] = b'g';
    assert_eq!(decode(&h), Err(ParseError::BadId));
    let mut h = SAMPLE.as_bytes().to_vec();
    h[40] = b'A';
    assert_eq!(decode(&h), Err(ParseError::BadId));
}

#[test]
fn decode_rejects_unknown_flag_bits() {
    let h = SAMPLE.replacen("-01", "-03", 1);
    assert_eq!(decode(h.as_bytes()), Err(ParseError::BadFlags));
    let h = SAMPLE.replacen("-01", "-80", 1);
    assert_eq!(decode(h.as_bytes()), Err(ParseError::BadFlags));
}
