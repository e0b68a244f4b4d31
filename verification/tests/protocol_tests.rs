//! The wire framer: parsing, serialization, and their round trip.

use rudis::decimal::{fmt_i64, fmt_u64, parse_i64, parse_u64};
use rudis::errors::RespError;
use rudis::protocol::{parse, serialize, Frame, FrameError};

const MAX: usize = 0x400_0000;

fn bulk(s: &[u8]) -> Frame {
    Frame::BulkString(Some(s.to_vec()))
}

#[test]
fn protocol_test() {
    let s = String::from("12345\r\n");
    s.chars().next();
    let _ = &s[1..].trim_end();
}

#[test]
fn resp_test() {
    let s = String::from("12345\r\n");
    s.chars().next();
    let _ = &s[1..].trim_end();
}

#[test]
fn protocol_test_parse_array_ok() {
    let input = b"*2\r\n$5\r\nhello\r\n$5\r\nworld\r\n".to_vec();
    let (f, used) = parse(&input, MAX).unwrap();
    assert_eq!(f, Frame::Array(Some(vec![bulk(b"hello"), bulk(b"world")])));
    assert_eq!(used, input.len());

    let input = b"*3\r\n$3\r\nset\r\n$3\r\nkey\r\n$5\r\nvalue\r\n".to_vec();
    let (f, used) = parse(&input, MAX).unwrap();
    assert_eq!(
        f,
        Frame::Array(Some(vec![bulk(b"set"), bulk(b"key"), bulk(b"value")]))
    );
    assert_eq!(used, input.len());
}

#[test]
fn test_write_simple_string_ok() {
    let out = serialize(&Frame::SimpleString(b"HelloWorld".to_vec()));
    assert_eq!(out, b"+HelloWorld\r\n".to_vec());
}

#[test]
fn test_write_array_ok() {
    let out = serialize(&Frame::Array(Some(vec![
        Frame::SimpleString(b"HelloWorld".to_vec()),
        bulk(&[1, 2, 3, 4, 5]),
        Frame::Integer(64),
    ])));
    let expected = [
        b"*3\r\n".as_ref(),
        b"+HelloWorld\r\n".as_ref(),
        b"$5\r\n".as_ref(),
        &[1, 2, 3, 4, 5],
        b"\r\n".as_ref(),
        b":64\r\n".as_ref(),
    ]
    .concat();
    assert_eq!(out, expected);
}

#[test]
fn test_parse_simple_error_integer() {
    let (f, used) = parse(&b"+OK\r\n".to_vec(), MAX).unwrap();
    assert_eq!(f, Frame::SimpleString(b"OK".to_vec()));
    assert_eq!(used, 5);
    let (f, _) = parse(&b"-ERR broken\r\n".to_vec(), MAX).unwrap();
    assert_eq!(f, Frame::Error(b"ERR broken".to_vec()));
    let (f, _) = parse(&b":-42\r\n".to_vec(), MAX).unwrap();
    assert_eq!(f, Frame::Integer(-42));
}

#[test]
fn test_round_trip_nested_array() {
    let f = Frame::Array(Some(vec![
        Frame::SimpleString(b"a b".to_vec()),
        Frame::Error(b"oops".to_vec()),
        Frame::Integer(i64::MIN),
        Frame::BulkString(None),
        bulk(b""),
        Frame::Array(None),
        Frame::Array(Some(vec![bulk(b"x"), Frame::Integer(0)])),
    ]));
    let wire = serialize(&f);
    let (g, used) = parse(&wire, MAX).unwrap();
    assert_eq!(g, f);
    assert_eq!(used, wire.len());
}

#[test]
fn test_bulk_reads_exact_with_embedded_crlf() {
    // declared length 5: exactly 5 payload bytes plus the 2-byte terminator,
    // embedded CR and LF included
    let input = b"$5\r\nhe\r\no\r\nrest".to_vec();
    let (f, used) = parse(&input, MAX).unwrap();
    assert_eq!(f, bulk(b"he\r\no"));
    assert_eq!(used, 11);
}

#[test]
fn test_null_bulk_distinct_from_empty() {
    let (null_bulk, _) = parse(&b"$-1\r\n".to_vec(), MAX).unwrap();
    let (empty_bulk, _) = parse(&b"$0\r\n\r\n".to_vec(), MAX).unwrap();
    assert_eq!(null_bulk, Frame::BulkString(None));
    assert_eq!(empty_bulk, bulk(b""));
    assert_ne!(null_bulk, empty_bulk);
    assert_ne!(
        serialize(&Frame::BulkString(None)),
        serialize(&Frame::BulkString(Some(Vec::new())))
    );
}

#[test]
fn test_null_array_distinct_from_empty() {
    let (null_arr, _) = parse(&b"*-1\r\n".to_vec(), MAX).unwrap();
    let (empty_arr, _) = parse(&b"*0\r\n".to_vec(), MAX).unwrap();
    assert_eq!(null_arr, Frame::Array(None));
    assert_eq!(empty_arr, Frame::Array(Some(Vec::new())));
    assert_ne!(null_arr, empty_arr);
    assert_ne!(
        serialize(&Frame::Array(None)),
        serialize(&Frame::Array(Some(Vec::new())))
    );
}

#[test]
fn test_parse_error_variants() {
    assert_eq!(
        parse(&b"^bad\r\n".to_vec(), MAX).unwrap_err(),
        FrameError::UnsupportedType(b'^')
    );
    assert_eq!(
        parse(&b":abc\r\n".to_vec(), MAX).unwrap_err(),
        FrameError::ParseIntError
    );
    assert_eq!(
        parse(&b"$5\r\nab".to_vec(), MAX).unwrap_err(),
        FrameError::IncompleteData {
            expected: 7,
            actual: 2
        }
    );
    assert_eq!(
        parse(&b"$3\r\nabc\r\n".to_vec(), 2).unwrap_err(),
        FrameError::ValueTooLong { length: 3, max: 2 }
    );
    // a header line without its terminator is incomplete, not malformed
    assert_eq!(
        parse(&b"+no terminator".to_vec(), MAX).unwrap_err(),
        FrameError::IncompleteData {
            expected: 15,
            actual: 14
        }
    );
    assert_eq!(
        parse(&Vec::new(), MAX).unwrap_err(),
        FrameError::IncompleteData {
            expected: 1,
            actual: 0
        }
    );
    // a bare line feed is no terminator
    assert_eq!(
        parse(&b"+x\n".to_vec(), MAX).unwrap_err(),
        FrameError::InvalidFormat
    );
    // an empty header line is malformed
    assert_eq!(
        parse(&b"\r\n".to_vec(), MAX).unwrap_err(),
        FrameError::InvalidFormat
    );
    // a negative length other than -1 is malformed
    assert_eq!(
        parse(&b"$-2\r\n".to_vec(), MAX).unwrap_err(),
        FrameError::InvalidFormat
    );
}

#[test]
fn test_resp_error_classification() {
    assert_eq!(
        RespError::of_frame_error(&FrameError::InvalidFormat),
        RespError::InvalidFormat
    );
    assert_eq!(
        RespError::of_frame_error(&FrameError::UnsupportedType(b'^')),
        RespError::UnsupportedType
    );
    assert_eq!(
        RespError::of_frame_error(&FrameError::IncompleteData {
            expected: 7,
            actual: 2
        }),
        RespError::EmptyData
    );
    assert_eq!(
        RespError::of_frame_error(&FrameError::ValueTooLong { length: 3, max: 2 }),
        RespError::InvalidFormat
    );
    assert_eq!(
        RespError::of_frame_error(&FrameError::ParseIntError),
        RespError::ParseIntError
    );
}

#[test]
fn test_decimal_format() {
    assert_eq!(fmt_u64(0), b"0".to_vec());
    assert_eq!(fmt_u64(90107), b"90107".to_vec());
    assert_eq!(fmt_u64(u64::MAX), b"18446744073709551615".to_vec());
    assert_eq!(fmt_i64(-1), b"-1".to_vec());
    assert_eq!(fmt_i64(i64::MIN), b"-9223372036854775808".to_vec());
    assert_eq!(fmt_i64(i64::MAX), b"9223372036854775807".to_vec());
}

#[test]
fn test_decimal_parse() {
    let v = b"+123".to_vec();
    assert_eq!(parse_i64(&v, 0, v.len()), Some(123));
    let v = b"-9223372036854775808".to_vec();
    assert_eq!(parse_i64(&v, 0, v.len()), Some(i64::MIN));
    let v = b"9223372036854775808".to_vec();
    assert_eq!(parse_i64(&v, 0, v.len()), None);
    let v = b"007".to_vec();
    assert_eq!(parse_i64(&v, 0, v.len()), Some(7));
    let v = b"1a".to_vec();
    assert_eq!(parse_i64(&v, 0, v.len()), None);
    let v = b"".to_vec();
    assert_eq!(parse_i64(&v, 0, 0), None);
    let v = b"18446744073709551615".to_vec();
    assert_eq!(parse_u64(&v, 0, v.len()), Some(u64::MAX));
    let v = b"18446744073709551616".to_vec();
    assert_eq!(parse_u64(&v, 0, v.len()), None);
    let v = b"-1".to_vec();
    assert_eq!(parse_u64(&v, 0, v.len()), None);
}

#[test]
fn test_kind_name() {
    assert_eq!(Frame::Null.kind_name(), "Null");
    assert_eq!(bulk(b"x").kind_name(), "BulkString");
    assert_eq!(Frame::Exit.kind_name(), "Exit");
}

#[test]
fn test_parse_leaves_trailing_bytes() {
    let input = b":1\r\n:2\r\n".to_vec();
    let (f, used) = parse(&input, MAX).unwrap();
    assert_eq!(f, Frame::Integer(1));
    assert_eq!(used, 4);
}
