use mqtt_header::error::DecodeError;
use mqtt_header::remaining_length::{encode_remaining_length, remaining_length};

#[test]
fn decode_reads_value_and_count() {
    assert_eq!(remaining_length(b"\x00"), Ok((0, 1)));
    assert_eq!(remaining_length(b"\x7f"), Ok((127, 1)));
    assert_eq!(remaining_length(b"\xc1\x02"), Ok((321, 2)));
    assert_eq!(remaining_length(b"\x82\x7f"), Ok((16258, 2)));
    assert_eq!(remaining_length(b"\xff\xff\xff\x7f"), Ok((268435455, 4)));
}

#[test]
fn decode_stops_at_first_terminator() {
    assert_eq!(remaining_length(b"\x7f\xff\xff"), Ok((127, 1)));
    assert_eq!(remaining_length(b"\xc1\x02\x99"), Ok((321, 2)));
}

#[test]
fn decode_errors_are_exact() {
    assert_eq!(remaining_length(b""), Err(DecodeError::UnexpectedEndOfInput));
    assert_eq!(
        remaining_length(b"\x80\x80"),
        Err(DecodeError::UnexpectedEndOfInput)
    );
    assert_eq!(
        remaining_length(b"\x80\x80\x80\x80"),
        Err(DecodeError::UnexpectedEndOfInput)
    );
    assert_eq!(
        remaining_length(b"\x80\x80\x80\x80\x80"),
        Err(DecodeError::MalformedVariableLength)
    );
    assert_eq!(
        remaining_length(b"\xff\xff\xff\xff\x00"),
        Err(DecodeError::MalformedVariableLength)
    );
}

#[test]
fn encode_uses_minimal_bytes() {
    assert_eq!(encode_remaining_length(0), b"\x00");
    assert_eq!(encode_remaining_length(127), b"\x7f");
    assert_eq!(encode_remaining_length(128), b"\x80\x01");
    assert_eq!(encode_remaining_length(321), b"\xc1\x02");
    assert_eq!(encode_remaining_length(16383), b"\xff\x7f");
    assert_eq!(encode_remaining_length(16384), b"\x80\x80\x01");
    assert_eq!(encode_remaining_length(2097151), b"\xff\xff\x7f");
    assert_eq!(encode_remaining_length(2097152), b"\x80\x80\x80\x01");
    assert_eq!(encode_remaining_length(268435455), b"\xff\xff\xff\x7f");
}

#[test]
fn encode_then_decode_returns_the_value() {
    let values = [
        0u32, 1, 64, 127, 128, 129, 321, 16258, 16383, 16384, 1000000, 2097151, 2097152, 133700000,
        268435455,
    ];
    for v in values {
        let bytes = encode_remaining_length(v);
        assert_eq!(remaining_length(&bytes), Ok((v, bytes.len())));
    }
}
