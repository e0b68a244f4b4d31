//! The argument parser and the typed command conversions.

use rudis::command::error::CommandError;
use rudis::command::option::Expiration;
use rudis::command::parser::{Parser, StrArg};
use rudis::command::string::{get_range, Get, GetRangeCommand, SetCommand};
use rudis::protocol::Frame;

fn bulk(s: &[u8]) -> Frame {
    Frame::BulkString(Some(s.to_vec()))
}

fn parser_of(parts: Vec<Frame>) -> Parser {
    Parser::new(Frame::Array(Some(parts))).unwrap()
}

#[test]
fn get_test_try_from_frame_to_set_ok() {
    let value = vec![bulk(b"key")];
    let value = Parser::new(Frame::Array(Some(value))).unwrap();
    let result: Get = Get::from_parser(value).unwrap();
    assert_eq!(
        result,
        Get {
            key: StrArg(b"key".to_vec()),
        }
    )
}

#[test]
fn set_test_try_from_frame_to_set_ok() {
    let value = vec![bulk(b"set"), bulk(b"key")];
    let value = Parser::new(Frame::Array(Some(value))).unwrap();
    let result: SetCommand = SetCommand::from_parser(value).unwrap();
    assert_eq!(
        result,
        SetCommand {
            key: StrArg(b"set".to_vec()),
            value: b"key".to_vec(),
            expiration: None,
            nx: false,
            xx: false,
            keepttl: false,
            get: false,
        }
    )
}

#[test]
fn test_get_range_on_start_is_positive_then_ok() {
    assert_eq!(get_range(4, 0, 0), Some((0, 1)));
    assert_eq!(get_range(4, 0, 1), Some((0, 2)));
    assert_eq!(get_range(4, 0, 4), Some((0, 4)));
    assert_eq!(get_range(4, 0, 5), Some((0, 4)));
    assert_eq!(get_range(4, 0, -1), Some((0, 4)));
    assert_eq!(get_range(4, 0, -2), Some((0, 3)));
    assert_eq!(get_range(4, 0, -5), Some((0, 1)));
}

#[test]
fn test_get_range_on_start_is_negative_then_ok() {
    assert_eq!(get_range(4, -4, 0), Some((0, 1)));
    assert_eq!(get_range(4, -4, 1), Some((0, 2)));
    assert_eq!(get_range(4, -4, 4), Some((0, 4)));
    assert_eq!(get_range(4, -4, 5), Some((0, 4)));
    assert_eq!(get_range(4, -4, -1), Some((0, 4)));
    assert_eq!(get_range(4, -4, -2), Some((0, 3)));
}

#[test]
fn test_get_range_on_start_is_very_small_then_ok() {
    assert_eq!(get_range(4, -5, 0), Some((0, 1)));
    assert_eq!(get_range(4, -5, 1), Some((0, 2)));
    assert_eq!(get_range(4, -5, 4), Some((0, 4)));
    assert_eq!(get_range(4, -5, 5), Some((0, 4)));
    assert_eq!(get_range(4, -5, -1), Some((0, 4)));
    assert_eq!(get_range(4, -5, -2), Some((0, 3)));
    assert_eq!(get_range(4, -5, -5), Some((0, 1)));
}

#[test]
fn test_get_range_of_bytes_on_index_out_of_range() {
    assert_eq!(get_range(4, 2, 1), None);
    assert_eq!(get_range(4, 5, 6), None);
    assert_eq!(get_range(4, -4, -5), None);
}

#[test]
fn test_get_range_start_at_length_is_empty() {
    assert_eq!(get_range(5, 5, 10), None);
    assert_eq!(get_range(5, 0, -1), Some((0, 5)));
}

#[test]
fn test_parser_cursor() {
    let mut p = parser_of(vec![bulk(b"GET"), bulk(b"k"), Frame::Integer(7)]);
    assert_eq!(p.len(), 3);
    assert!(p.has_next());
    let name: StrArg = p.next().unwrap();
    assert_eq!(name, StrArg(b"GET".to_vec()));
    // the remaining-length query: the addressable arguments after the name
    assert_eq!(p.len(), 2);
    let (k, v): (StrArg, i64) = p.next_pair().unwrap();
    assert_eq!(k, StrArg(b"k".to_vec()));
    assert_eq!(v, 7);
    assert!(!p.has_next());
    let exhausted: Result<StrArg, CommandError> = p.next();
    assert_eq!(
        exhausted.unwrap_err(),
        CommandError::InvalidArgumentNumber(b"get".to_vec(), 3)
    );
}

#[test]
fn test_parser_rejects_bad_requests() {
    assert_eq!(
        Parser::new(Frame::Array(Some(Vec::new()))).unwrap_err(),
        CommandError::InvalidCommandFormat(b"Empty command array".to_vec())
    );
    assert_eq!(
        Parser::new(Frame::Array(None)).unwrap_err(),
        CommandError::WrongType
    );
    assert_eq!(
        Parser::new(Frame::Integer(3)).unwrap_err(),
        CommandError::WrongType
    );
    assert_eq!(
        Parser::new(Frame::Array(Some(vec![Frame::Integer(3)]))).unwrap_err(),
        CommandError::WrongType
    );
}

#[test]
fn test_typed_conversions() {
    // integer from a wire integer or from decimal bulk text
    let mut p = parser_of(vec![bulk(b"CMD"), Frame::Integer(5), bulk(b"-12"), bulk(b"x")]);
    let _name: StrArg = p.next().unwrap();
    let a: i64 = p.next().unwrap();
    let b: i64 = p.next().unwrap();
    assert_eq!((a, b), (5, -12));
    let c: Result<i64, CommandError> = p.next();
    assert_eq!(c.unwrap_err(), CommandError::ParseIntError);

    // boolean from 0/1 or case-insensitive TRUE/FALSE simple strings
    let mut p = parser_of(vec![
        bulk(b"CMD"),
        Frame::Integer(1),
        Frame::Integer(0),
        Frame::SimpleString(b"tRuE".to_vec()),
        Frame::SimpleString(b"false".to_vec()),
        Frame::Integer(2),
    ]);
    let _name: StrArg = p.next().unwrap();
    assert_eq!(p.next::<bool>().unwrap(), true);
    assert_eq!(p.next::<bool>().unwrap(), false);
    assert_eq!(p.next::<bool>().unwrap(), true);
    assert_eq!(p.next::<bool>().unwrap(), false);
    assert_eq!(p.next::<bool>().unwrap_err(), CommandError::WrongType);

    // raw bytes come only from a non-null bulk string
    let mut p = parser_of(vec![Frame::SimpleString(b"s".to_vec())]);
    assert_eq!(p.next::<Vec<u8>>().unwrap_err(), CommandError::WrongType);
    let mut p = parser_of(vec![bulk(b"raw")]);
    assert_eq!(p.next::<Vec<u8>>().unwrap(), b"raw".to_vec());
}

#[test]
fn test_textual_values_must_be_utf8() {
    // a bulk string converts to text only when its bytes decode as UTF-8
    let mut p = parser_of(vec![bulk(b"CMD"), bulk(&[0xff]), bulk(&[0xff])]);
    let _name: StrArg = p.next().unwrap();
    assert_eq!(p.next::<StrArg>().unwrap_err(), CommandError::FromUtf8Error);
    assert_eq!(p.next::<i64>().unwrap_err(), CommandError::FromUtf8Error);
    // the command name likewise
    assert_eq!(
        Parser::new(Frame::Array(Some(vec![bulk(&[0xff])]))).unwrap_err(),
        CommandError::FromUtf8Error
    );
    // a simple-string name needs no decoding, and multi-byte UTF-8 passes
    assert!(Parser::new(Frame::Array(Some(vec![Frame::SimpleString(vec![0xff])]))).is_ok());
    assert!(Parser::new(Frame::Array(Some(vec![bulk("gr\u{fc}n".as_bytes())]))).is_ok());
}

#[test]
fn test_count_error_precedes_type_error() {
    // one argument, and a malformed one: still the count error
    let mut p = parser_of(vec![bulk(b"SET"), Frame::Integer(99)]);
    let _name: StrArg = p.next().unwrap();
    assert_eq!(
        SetCommand::from_parser(p).unwrap_err(),
        CommandError::InvalidArgumentNumber(b"set".to_vec(), 2)
    );
}

#[test]
fn test_set_parses_options_and_flags() {
    let mut parts = vec![bulk(b"k"), bulk(b"v")];
    parts.push(bulk(b"ex"));
    parts.push(bulk(b"10"));
    parts.push(bulk(b"nx"));
    parts.push(bulk(b"KEEPTTL"));
    parts.push(bulk(b"xx"));
    parts.push(bulk(b"get"));
    let c = SetCommand::from_parser(parser_of(parts)).unwrap();
    assert_eq!(c.key, StrArg(b"k".to_vec()));
    assert_eq!(c.value, b"v".to_vec());
    assert_eq!(c.expiration, Some(Expiration::EX(10)));
    assert!(c.nx && c.xx && c.keepttl && c.get);
}

#[test]
fn test_set_rejects_unknown_option() {
    let parts = vec![bulk(b"k"), bulk(b"v"), bulk(b"bogus")];
    assert_eq!(
        SetCommand::from_parser(parser_of(parts)).unwrap_err(),
        CommandError::InvalidCommandFormat(b"Unknown option BOGUS".to_vec())
    );
}

#[test]
fn test_set_expiration_value_must_be_a_number() {
    let parts = vec![bulk(b"k"), bulk(b"v"), bulk(b"PX"), bulk(b"soon")];
    assert_eq!(
        SetCommand::from_parser(parser_of(parts)).unwrap_err(),
        CommandError::ParseIntError
    );
}

#[test]
fn test_expiration_from_pair() {
    let k = StrArg(b"exat".to_vec());
    let v = StrArg(b"1700000000".to_vec());
    assert_eq!(
        Expiration::from_pair(&k, &v).unwrap(),
        Expiration::EXAT(1700000000)
    );
    let k = StrArg(b"later".to_vec());
    assert_eq!(
        Expiration::from_pair(&k, &v).unwrap_err(),
        CommandError::InvalidCommandFormat(b"Unknown expiration type later".to_vec())
    );
}

#[test]
fn test_expiration_to_ttl_ms() {
    assert_eq!(Expiration::EX(2).to_ttl_ms(500), 2000);
    assert_eq!(Expiration::PX(75).to_ttl_ms(500), 75);
    assert_eq!(Expiration::EXAT(3).to_ttl_ms(1000), 2000);
    assert_eq!(Expiration::EXAT(1).to_ttl_ms(5000), 0);
    assert_eq!(Expiration::PXAT(800).to_ttl_ms(500), 300);
    assert_eq!(Expiration::PXAT(100).to_ttl_ms(500), 0);
    assert_eq!(Expiration::EX(u64::MAX).to_ttl_ms(0), u64::MAX);
}

#[test]
fn test_getrange_parse() {
    let parts = vec![bulk(b"k"), bulk(b"0"), bulk(b"-1")];
    let c = GetRangeCommand::from_parser(parser_of(parts)).unwrap();
    assert_eq!(c.key, StrArg(b"k".to_vec()));
    assert_eq!((c.start, c.end), (0, -1));
    let parts = vec![bulk(b"k"), bulk(b"zero"), bulk(b"-1")];
    assert_eq!(
        GetRangeCommand::from_parser(parser_of(parts)).unwrap_err(),
        CommandError::ParseIntError
    );
}

#[test]
fn test_error_messages() {
    assert_eq!(
        CommandError::InvalidCommand(b"NOPE".to_vec()).to_message(),
        b"Invalid command: `NOPE`".to_vec()
    );
    assert_eq!(
        CommandError::InvalidArgumentNumber(b"set".to_vec(), 2).to_message(),
        b"Wrong number of arguments for `set` command, expect 2 value(s)".to_vec()
    );
    assert_eq!(
        CommandError::WrongType.to_message(),
        b"Operation against a key holding the wrong kind of value".to_vec()
    );
    assert_eq!(
        CommandError::ParseIntError.to_message(),
        b"Value is not an integer or out of range".to_vec()
    );
    assert_eq!(
        CommandError::FromUtf8Error.to_message(),
        b"From UTF-8 error".to_vec()
    );
    assert_eq!(
        CommandError::InvalidCommandFormat(b"Empty command array".to_vec()).to_message(),
        b"Invalid format for `Empty command array` command".to_vec()
    );
}
