//! The storage map, the registry, and request dispatch, end to end.

use rudis::ascii::{to_lower, to_upper};
use rudis::command::execute_request;
use rudis::command::registry::{CommandHandler, Registry};
use rudis::command::{default_registry, Command};
use rudis::config::{Config, LogLevel};
use rudis::database::Database;
use rudis::object::RedisObject;
use rudis::protocol::Frame;

fn bulk(s: &[u8]) -> Frame {
    Frame::BulkString(Some(s.to_vec()))
}

fn req(parts: Vec<Frame>) -> Frame {
    Frame::Array(Some(parts))
}

#[test]
fn test_db_set_then_get() {
    let mut db = Database::new(0);
    db.set(b"k".to_vec(), RedisObject::new_string(b"v".to_vec()), None, false, 1000);
    let got = db.get(&b"k".to_vec(), 1000).unwrap();
    assert_eq!(got.to_frame(), bulk(b"v"));
    assert!(db.get(&b"missing".to_vec(), 1000).is_none());
}

#[test]
fn test_db_get_with_projection() {
    let mut db = Database::new(0);
    db.set(b"k".to_vec(), RedisObject::new_string(b"hello".to_vec()), None, false, 0);
    let len = db.get_with(&b"k".to_vec(), 1, |o| match o.to_frame() {
        Frame::BulkString(Some(b)) => b.len(),
        _ => 0,
    });
    assert_eq!(len, Some(5));
    assert_eq!(db.get_with(&b"nope".to_vec(), 1, |_o| 1), None);
}

#[test]
fn test_db_ttl_expires_and_purges() {
    let mut db = Database::new(0);
    let key = b"k".to_vec();
    // ttl of zero: already expired at any strictly later instant
    db.set(key.clone(), RedisObject::new_string(b"v".to_vec()), Some(0), false, 1000);
    assert!(db.get(&key, 1001).is_none());
    // the stale bookkeeping is purged: a subsequent ttl-less set sticks
    db.set(key.clone(), RedisObject::new_string(b"w".to_vec()), None, false, 2000);
    let got = db.get(&key, u64::MAX).unwrap();
    assert_eq!(got.to_frame(), bulk(b"w"));
}

#[test]
fn test_db_ttl_boundary() {
    let mut db = Database::new(0);
    let key = b"k".to_vec();
    db.set(key.clone(), RedisObject::new_string(b"v".to_vec()), Some(50), false, 1000);
    // at the expiration instant itself the key still reads
    assert!(db.get(&key, 1050).is_some());
    assert!(db.get(&key, 1051).is_none());
}

#[test]
fn test_db_set_clears_or_keeps_ttl() {
    let mut db = Database::new(0);
    let key = b"k".to_vec();
    db.set(key.clone(), RedisObject::new_string(b"a".to_vec()), Some(10), false, 0);
    // a plain overwrite clears the previous ttl
    db.set(key.clone(), RedisObject::new_string(b"b".to_vec()), None, false, 5);
    assert!(db.get(&key, 1_000_000).is_some());
    // an overwrite with the keep flag preserves it
    db.set(key.clone(), RedisObject::new_string(b"c".to_vec()), Some(10), false, 0);
    db.set(key.clone(), RedisObject::new_string(b"d".to_vec()), None, true, 5);
    assert!(db.get(&key, 11).is_none());
}

#[test]
fn test_registry_lookup_and_override() {
    let mut reg = Registry::new();
    reg.en_register_queue(&b"hello".to_vec(), CommandHandler::Ping);
    reg.en_register_queue(&b"HELLO".to_vec(), CommandHandler::Get);
    reg.do_register();
    // names are upper-cased at enqueue time; the last drained wins
    assert_eq!(reg.lookup(&b"HELLO".to_vec()), Some(CommandHandler::Get));
    assert_eq!(reg.lookup(&b"hello".to_vec()), None);
    assert_eq!(reg.lookup(&b"OTHER".to_vec()), None);
}

#[test]
fn test_default_registry_serves_builtins() {
    let reg = default_registry();
    assert_eq!(reg.lookup(&b"PING".to_vec()), Some(CommandHandler::Ping));
    assert_eq!(reg.lookup(&b"GET".to_vec()), Some(CommandHandler::Get));
    assert_eq!(reg.lookup(&b"SET".to_vec()), Some(CommandHandler::SetCmd));
    assert_eq!(reg.lookup(&b"GETSET".to_vec()), Some(CommandHandler::GetSet));
    assert_eq!(reg.lookup(&b"GETRANGE".to_vec()), Some(CommandHandler::GetRange));
}

#[test]
fn test_set_stores_and_replies_true() {
    let reg = default_registry();
    let mut db = Database::new(0);
    let reply = execute_request(
        req(vec![bulk(b"SET"), bulk(b"k"), bulk(b"v")]),
        &reg,
        &mut db,
        1000,
    );
    assert_eq!(reply, Frame::Boolean(true));
    // stores k -> "v" with no expiration
    let got = db.get(&b"k".to_vec(), u64::MAX).unwrap();
    assert_eq!(got.to_frame(), bulk(b"v"));
}

#[test]
fn test_get_missing_replies_null_bulk() {
    let reg = default_registry();
    let mut db = Database::new(0);
    let reply = execute_request(req(vec![bulk(b"GET"), bulk(b"missing")]), &reg, &mut db, 0);
    assert_eq!(reply, Frame::BulkString(None));
}

#[test]
fn test_get_returns_stored_value() {
    let reg = default_registry();
    let mut db = Database::new(0);
    execute_request(req(vec![bulk(b"SET"), bulk(b"k"), bulk(b"v")]), &reg, &mut db, 0);
    let reply = execute_request(req(vec![bulk(b"get"), bulk(b"k")]), &reg, &mut db, 1);
    assert_eq!(reply, bulk(b"v"));
}

#[test]
fn test_unknown_command_replies_error_and_connection_goes_on() {
    let reg = default_registry();
    let mut db = Database::new(0);
    let reply = execute_request(req(vec![bulk(b"UNKNOWNCMD")]), &reg, &mut db, 0);
    assert_eq!(reply, Frame::Error(b"Invalid command: `UNKNOWNCMD`".to_vec()));
    // the same registry and store keep serving afterwards
    let reply = execute_request(req(vec![bulk(b"PING")]), &reg, &mut db, 0);
    assert_eq!(reply, Frame::SimpleString(b"PONG".to_vec()));
}

#[test]
fn test_getrange_scenarios() {
    let reg = default_registry();
    let mut db = Database::new(0);
    execute_request(req(vec![bulk(b"SET"), bulk(b"k"), bulk(b"hello")]), &reg, &mut db, 0);
    let reply = execute_request(
        req(vec![bulk(b"GETRANGE"), bulk(b"k"), bulk(b"0"), bulk(b"-1")]),
        &reg,
        &mut db,
        1,
    );
    assert_eq!(reply, bulk(b"hello"));
    let reply = execute_request(
        req(vec![bulk(b"GETRANGE"), bulk(b"k"), bulk(b"5"), bulk(b"10")]),
        &reg,
        &mut db,
        1,
    );
    assert_eq!(reply, Frame::BulkString(None));
    let reply = execute_request(
        req(vec![bulk(b"GETRANGE"), bulk(b"k"), bulk(b"1"), bulk(b"3")]),
        &reg,
        &mut db,
        1,
    );
    assert_eq!(reply, bulk(b"ell"));
}

#[test]
fn test_getset_swaps_value() {
    let reg = default_registry();
    let mut db = Database::new(0);
    let reply = execute_request(
        req(vec![bulk(b"GETSET"), bulk(b"k"), bulk(b"one")]),
        &reg,
        &mut db,
        0,
    );
    assert_eq!(reply, Frame::Null);
    let reply = execute_request(
        req(vec![bulk(b"GETSET"), bulk(b"k"), bulk(b"two")]),
        &reg,
        &mut db,
        1,
    );
    assert_eq!(reply, bulk(b"one"));
    let reply = execute_request(req(vec![bulk(b"GET"), bulk(b"k")]), &reg, &mut db, 2);
    assert_eq!(reply, bulk(b"two"));
}

#[test]
fn test_set_with_expiration_option() {
    let reg = default_registry();
    let mut db = Database::new(0);
    let reply = execute_request(
        req(vec![bulk(b"SET"), bulk(b"k"), bulk(b"v"), bulk(b"PX"), bulk(b"100")]),
        &reg,
        &mut db,
        1000,
    );
    assert_eq!(reply, Frame::Boolean(true));
    let reply = execute_request(req(vec![bulk(b"GET"), bulk(b"k")]), &reg, &mut db, 1100);
    assert_eq!(reply, bulk(b"v"));
    let reply = execute_request(req(vec![bulk(b"GET"), bulk(b"k")]), &reg, &mut db, 1101);
    assert_eq!(reply, Frame::BulkString(None));
}

#[test]
fn test_expired_set_then_read_then_fresh_set() {
    let reg = default_registry();
    let mut db = Database::new(0);
    // an already-expired store reads as absent and purges the bookkeeping
    execute_request(
        req(vec![bulk(b"SET"), bulk(b"k"), bulk(b"v"), bulk(b"PX"), bulk(b"0")]),
        &reg,
        &mut db,
        1000,
    );
    let reply = execute_request(req(vec![bulk(b"GET"), bulk(b"k")]), &reg, &mut db, 1001);
    assert_eq!(reply, Frame::BulkString(None));
    // so a subsequent ttl-less set is unaffected by the stale record
    execute_request(req(vec![bulk(b"SET"), bulk(b"k"), bulk(b"w")]), &reg, &mut db, 1002);
    let reply = execute_request(req(vec![bulk(b"GET"), bulk(b"k")]), &reg, &mut db, u64::MAX);
    assert_eq!(reply, bulk(b"w"));
}

#[test]
fn test_non_utf8_key_is_rejected() {
    let reg = default_registry();
    let mut db = Database::new(0);
    // a SET whose key is not UTF-8 is a conversion error, nothing is stored
    let reply = execute_request(
        req(vec![bulk(b"SET"), bulk(&[0xff]), bulk(b"v")]),
        &reg,
        &mut db,
        0,
    );
    assert_eq!(reply, Frame::Error(b"From UTF-8 error".to_vec()));
    assert!(db.get(&vec![0xff], 1).is_none());
    // a non-UTF-8 command name likewise
    let reply = execute_request(req(vec![bulk(&[0xff])]), &reg, &mut db, 0);
    assert_eq!(reply, Frame::Error(b"From UTF-8 error".to_vec()));
}

#[test]
fn test_dispatch_renders_count_error() {
    let reg = default_registry();
    let mut db = Database::new(0);
    // too few arguments, and the supplied one is malformed: the count error
    let reply = execute_request(
        req(vec![bulk(b"SET"), Frame::Integer(99)]),
        &reg,
        &mut db,
        0,
    );
    assert_eq!(
        reply,
        Frame::Error(b"Wrong number of arguments for `set` command, expect 2 value(s)".to_vec())
    );
}

#[test]
fn test_command_parse_resolves_handler() {
    let reg = default_registry();
    let cmd = Command::parse(req(vec![bulk(b"ping")]), &reg);
    assert!(cmd.is_ok());
    let mut db = Database::new(0);
    let reply = cmd.unwrap().execute(&mut db, 0);
    assert_eq!(reply, Frame::SimpleString(b"PONG".to_vec()));
}

#[test]
fn test_case_folding() {
    assert_eq!(to_upper(&b"getRange7~".to_vec()), b"GETRANGE7~".to_vec());
    assert_eq!(to_lower(&b"GETRANGE7~".to_vec()), b"getrange7~".to_vec());
}

#[test]
fn test_config_defaults() {
    let c = Config::default();
    assert_eq!(c.listen_ip, "127.0.0.1");
    assert_eq!(c.port, 6379);
    assert_eq!(c.log_level, LogLevel::Info);
    assert_eq!(c.string_max_length, 0x400_0000);
}
