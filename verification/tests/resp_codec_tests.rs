use bytes::BytesMut;
use miniredis::parser::{parse_number, parse_resp, crlf, ParseError};
use miniredis::{CodecError, Resp, RespCodec};

#[test]
fn test_decode_happy() {
    let mut src = BytesMut::from("$3\r\nhey\r\n".as_bytes());
    let mut codec = RespCodec {};
    let result = codec.decode(&mut src);

    assert_eq!(result.unwrap(), Some(Resp::BulkString("hey".into())));
}

#[test]
fn test_decode_incomplete() {
    let mut src = BytesMut::from("$3\r\nhey\r".as_bytes());
    let mut codec = RespCodec {};
    let result = codec.decode(&mut src);

    assert_eq!(result.unwrap(), None);
}

#[test]
fn test_decode_error() {
    let mut src = BytesMut::from("$3\r\nheyWRONG\r\n".as_bytes());
    let mut codec = RespCodec {};
    let result = codec.decode(&mut src);

    assert!(matches!(result, Err(_)));
    assert_eq!(result.unwrap_err(), CodecError::InvalidData);
    assert_eq!(&src[..], b"$3\r\nheyWRONG\r\n");
}

#[test]
fn test_encode_array() {
    let resp = Resp::Array(vec![Resp::Simple("The answer is".into()), Resp::Int(64)]);
    let codec = RespCodec {};
    let encoded = codec._encode_resp(&resp);
    assert_eq!(encoded, "*2\r\n+The answer is\r\n:64\r\n");
}

#[test]
fn test_parse_number() {
    let (rest, i) = parse_number("123\r\n".as_bytes()).unwrap();
    assert_eq!(i, 123);
    assert_eq!(rest, []);
}

#[test]
fn parse_number_signs_and_errors() {
    assert_eq!(parse_number(b"-42\r\nx").unwrap(), (&b"x"[..], -42));
    assert_eq!(parse_number(b"+7\r\n").unwrap().1, 7);
    assert_eq!(parse_number(b"12"), Err(ParseError::Incomplete));
    assert_eq!(parse_number(b"1x\r\n"), Err(ParseError::Invalid));
    assert_eq!(parse_number(b"-\r\n"), Err(ParseError::Invalid));
    assert_eq!(parse_number(b"9223372036854775807\r\n").unwrap().1, i64::MAX);
    assert_eq!(parse_number(b"-9223372036854775808\r\n").unwrap().1, i64::MIN);
    assert_eq!(parse_number(b"9223372036854775808\r\n"), Err(ParseError::Invalid));
}

#[test]
fn crlf_cases() {
    assert_eq!(crlf(b"\r\nab").unwrap(), &b"ab"[..]);
    assert_eq!(crlf(b"\r"), Err(ParseError::Incomplete));
    assert_eq!(crlf(b""), Err(ParseError::Incomplete));
    assert_eq!(crlf(b"\n\r"), Err(ParseError::Invalid));
}

#[test]
fn decode_leaves_following_bytes() {
    let mut src = BytesMut::from("+OK\r\n:5\r\n".as_bytes());
    let mut codec = RespCodec {};
    assert_eq!(codec.decode(&mut src).unwrap(), Some(Resp::Simple("OK".into())));
    assert_eq!(&src[..], b":5\r\n");
    assert_eq!(codec.decode(&mut src).unwrap(), Some(Resp::Int(5)));
    assert_eq!(src.len(), 0);
    assert_eq!(codec.decode(&mut src).unwrap(), None);
}

#[test]
fn decode_each_kind() {
    let input = b"*6\r\n-ERR x\r\n$-1\r\n*-1\r\n$0\r\n\r\n*1\r\n:-3\r\n$4\r\nh\xc3\xa9y\r\n";
    let (rest, v) = parse_resp(input).unwrap();
    assert!(rest.is_empty());
    assert_eq!(
        v,
        Resp::Array(vec![
            Resp::Error("ERR x".into()),
            Resp::NullBulkString,
            Resp::NullArray,
            Resp::BulkString("".into()),
            Resp::Array(vec![Resp::Int(-3)]),
            Resp::BulkString("h\u{e9}y".into()),
        ])
    );
}

#[test]
fn decode_rejects() {
    assert_eq!(parse_resp(b"?x\r\n").unwrap_err(), ParseError::Invalid);
    assert_eq!(parse_resp(b"$-2\r\n").unwrap_err(), ParseError::Invalid);
    assert_eq!(parse_resp(b":abc\r\n").unwrap_err(), ParseError::Invalid);
    assert_eq!(parse_resp(b"$1\r\n\xff\r\n").unwrap_err(), ParseError::Invalid);
    assert_eq!(parse_resp(b"").unwrap_err(), ParseError::Incomplete);
    assert_eq!(parse_resp(b"*2\r\n:1\r\n").unwrap_err(), ParseError::Incomplete);
    assert_eq!(parse_resp(b"+no end").unwrap_err(), ParseError::Incomplete);
}

#[test]
fn encode_then_decode_roundtrip() {
    let value = Resp::Array(vec![
        Resp::BulkString("LPUSH".into()),
        Resp::BulkString("a\r\nb".into()),
        Resp::Int(i64::MIN),
        Resp::Simple("fine".into()),
        Resp::NullBulkString,
        Resp::NullArray,
        Resp::Array(vec![]),
    ]);
    let mut codec = RespCodec {};
    let mut dst = BytesMut::new();
    codec.encode(value.clone(), &mut dst).unwrap();
    dst.extend_from_slice(b"+next\r\n");
    assert_eq!(codec.decode(&mut dst).unwrap(), Some(value));
    assert_eq!(&dst[..], b"+next\r\n");
}

#[test]
fn encode_null_and_bulk() {
    let codec = RespCodec {};
    assert_eq!(codec._encode_resp(&Resp::NullBulkString), "$-1\r\n");
    assert_eq!(codec._encode_resp(&Resp::NullArray), "*-1\r\n");
    assert_eq!(codec._encode_resp(&Resp::BulkString("h\u{e9}".into())), "$3\r\nh\u{e9}\r\n");
    assert_eq!(codec._encode_resp(&Resp::Error("bad".into())), "-bad\r\n");
}

#[test]
fn partial_frames_are_incomplete() {
    let value = Resp::Array(vec![Resp::BulkString("ab\r\n".into()), Resp::Int(-12), Resp::Simple("x".into())]);
    let codec = RespCodec {};
    let frame = codec._encode_resp(&value);
    let bytes = frame.as_bytes();
    for k in 0..bytes.len() {
        assert_eq!(parse_resp(&bytes[..k]).unwrap_err(), ParseError::Incomplete, "prefix of {} bytes", k);
    }
    assert_eq!(parse_resp(bytes).unwrap().1, value);
}
