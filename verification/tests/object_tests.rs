//! The storage object model: inline-versus-heap strings, the packed header,
//! and conversion to wire replies.

use std::mem;

use rudis::object::{ObjectHeader, ObjectType, RedisObject, RedisValue};
use rudis::protocol::Frame;
use rudis::sds::{EmbStr, Raw, EMB_LEN};

#[test]
fn sds_ensure_static_size() {
    assert_eq!(mem::size_of::<EmbStr>(), 55);
    assert_eq!(mem::size_of::<Raw>(), 24);
}

#[test]
fn test_vec_to_embstr_on_vec_len_less_than_buf() {
    let vec = vec![1u8; 30];
    let embstr = EmbStr::from_vec(&vec);

    let mut stub = [0; EMB_LEN];
    for i in 0..30 {
        stub[i] = 1;
    }
    assert_eq!(embstr.buf, stub);
    assert_eq!(embstr.len, 30);
}

#[test]
fn test_vec_to_embstr_on_vec_len_equal_to_buf() {
    let vec: Vec<u8> = (0u8..EMB_LEN as u8).into_iter().collect();
    let embstr = EmbStr::from_vec(&vec);

    let mut stub = [0u8; EMB_LEN];
    for i in 0..EMB_LEN {
        stub[i] = i as u8;
    }
    assert_eq!(embstr.buf, stub);
    assert_eq!(embstr.len, EMB_LEN as u8);
}

#[test]
fn test_vec_to_embstr_on_vec_len_more_than_buf() {
    let vec = vec![1u8; 180];
    let embstr = EmbStr::from_vec(&vec);

    assert_eq!(embstr.buf, [1; EMB_LEN]);
    assert_eq!(embstr.len, EMB_LEN as u8);
}

#[test]
fn test_embstr_round_trip() {
    let vec = b"short string".to_vec();
    let embstr = EmbStr::from_vec(&vec);
    assert_eq!(embstr.to_vec(), vec);
}

#[test]
fn test_raw_round_trip() {
    let vec = vec![7u8; 100];
    let raw = Raw::from_vec(vec.clone());
    assert_eq!(raw.to_vec(), vec);
}

#[test]
fn redis_object_ensure_static_size() {
    assert_eq!(mem::size_of::<ObjectType>(), 1);
    assert_eq!(mem::size_of::<ObjectHeader>(), 8);
    assert_eq!(mem::size_of::<RedisValue>(), 56);
    assert_eq!(mem::size_of::<RedisObject>(), 64);
}

#[test]
fn redis_object_test_new_string_object_on_buf_len_less_than_emblen() {
    let obj = RedisObject::new_string("string".as_bytes().to_vec());

    assert_eq!(obj.header.obj_type(), ObjectType::String);
    assert!(matches!(obj.ptr, RedisValue::EmbStr(_)));
}

#[test]
fn redis_object_test_new_string_object_on_buf_len_more_than_emblen() {
    let obj = RedisObject::new_string("string".repeat(20).as_bytes().to_vec());

    assert_eq!(obj.header.obj_type(), ObjectType::String);
    assert!(matches!(obj.ptr, RedisValue::Raw(_)));
}

#[test]
fn test_inline_threshold_is_exact() {
    // 54 bytes stays inline; 55 goes to the heap; both read back unchanged
    let at = vec![9u8; 54];
    let over = vec![9u8; 55];
    let o_at = RedisObject::new_string(at.clone());
    let o_over = RedisObject::new_string(over.clone());
    assert!(matches!(o_at.ptr, RedisValue::EmbStr(_)));
    assert!(matches!(o_over.ptr, RedisValue::Raw(_)));
    assert_eq!(o_at.to_frame(), Frame::BulkString(Some(at)));
    assert_eq!(o_over.to_frame(), Frame::BulkString(Some(over)));
}

#[test]
fn test_int_object_reads_as_decimal_text() {
    let obj = RedisObject {
        header: ObjectHeader::new().with_obj_type(ObjectType::String),
        ptr: RedisValue::Int(-37),
    };
    assert_eq!(obj.to_frame(), Frame::BulkString(Some(b"-37".to_vec())));
}

#[test]
fn test_non_string_object_reads_as_not_implemented() {
    let obj = RedisObject {
        header: ObjectHeader::new().with_obj_type(ObjectType::List),
        ptr: RedisValue::LinkedList,
    };
    assert_eq!(obj.to_frame(), Frame::Error(b"Not Implemented".to_vec()));
}

#[test]
fn test_header_packing() {
    let h = ObjectHeader::new()
        .with_obj_type(ObjectType::Zset)
        .with_lru(0xabcdef)
        .with_ref_count(0x1234_5678);
    assert_eq!(h.obj_type(), ObjectType::Zset);
    assert_eq!(h.lru(), 0xabcdef);
    assert_eq!(h.ref_count(), 0x1234_5678);
    // replacing the tag leaves the counters alone
    let h2 = h.with_obj_type(ObjectType::Hash);
    assert_eq!(h2.obj_type(), ObjectType::Hash);
    assert_eq!(h2.lru(), 0xabcdef);
    assert_eq!(h2.ref_count(), 0x1234_5678);
    assert_eq!(h.bits & 0xff, 4);
}
