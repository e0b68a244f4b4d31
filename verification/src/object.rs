//! The storage object model: a tagged value plus a packed metadata header.
//! The header packs the type tag, a 24-bit recency counter and a 32-bit
//! reference count into eight bytes; the counters sit in the layout but no
//! operation maintains them yet.  A string value is inline or heap-backed,
//! chosen once at construction by payload size.

use vstd::prelude::*;

use crate::decimal::{fmt_i64, i64_dec};
use crate::protocol::{Frame, SpecFrame};
use crate::sds::{EmbStr, Raw, EMB_LEN};

verus! {

/// The type tag of a stored object.
#[derive(Debug, PartialEq, Eq, Structural, Clone, Copy)]
pub enum ObjectType {
    String,
    List,
    Hash,
    SetObj,
    Zset,
}

impl ObjectType {
    /// The tag value packed into the header's low byte.
    pub open spec fn spec_tag(self) -> u64 {
        match self {
            ObjectType::String => 0,
            ObjectType::List => 1,
            ObjectType::Hash => 2,
            ObjectType::SetObj => 3,
            ObjectType::Zset => 4,
        }
    }

    pub fn tag(self) -> (r: u64)
        ensures
            r == self.spec_tag(),
    {
        match self {
            ObjectType::String => 0,
            ObjectType::List => 1,
            ObjectType::Hash => 2,
            ObjectType::SetObj => 3,
            ObjectType::Zset => 4,
        }
    }

    pub fn from_tag(t: u64) -> (r: ObjectType)
        requires
            t <= 4,
        ensures
            r.spec_tag() == t,
    {
        if t == 0 {
            ObjectType::String
        } else if t == 1 {
            ObjectType::List
        } else if t == 2 {
            ObjectType::Hash
        } else if t == 3 {
            ObjectType::SetObj
        } else {
            ObjectType::Zset
        }
    }
}

/// Object metadata packed into eight bytes: bits 0..8 hold the type tag,
/// bits 8..32 the recency counter, bits 32..64 the reference count.
#[derive(Debug, PartialEq, Eq, Structural, Clone, Copy)]
pub struct ObjectHeader {
    pub bits: u64,
}

impl ObjectHeader {
    pub open spec fn spec_tag(self) -> u64 {
        self.bits & 0xff
    }

    pub open spec fn spec_lru(self) -> u64 {
        (self.bits >> 8) & 0xff_ffff
    }

    pub open spec fn spec_ref_count(self) -> u64 {
        self.bits >> 32
    }

    /// The packed tag selects one of the five object types.
    pub open spec fn wf(self) -> bool {
        self.spec_tag() <= 4
    }

    /// An all-zero header: String tag, zero counters.
    pub fn new() -> (r: ObjectHeader)
        ensures
            r.bits == 0,
            r.spec_tag() == 0 && r.spec_lru() == 0 && r.spec_ref_count() == 0,
            r.wf(),
    {
        let r = ObjectHeader { bits: 0 };
        proof {
            assert(0u64 & 0xff == 0 && (0u64 >> 8) & 0xff_ffff == 0 && 0u64 >> 32 == 0)
                by (bit_vector);
        }
        r
    }

    /// The same header with the type tag replaced.
    pub fn with_obj_type(self, t: ObjectType) -> (r: ObjectHeader)
        ensures
            r.spec_tag() == t.spec_tag(),
            r.spec_lru() == self.spec_lru(),
            r.spec_ref_count() == self.spec_ref_count(),
            r.wf(),
    {
        let tag = t.tag();
        let b = self.bits;
        let nb = (b & 0xffff_ffff_ffff_ff00u64) | tag;
        proof {
            assert(((b & 0xffff_ffff_ffff_ff00u64) | tag) & 0xff == tag && ((b
                & 0xffff_ffff_ffff_ff00u64) | tag) >> 8 & 0xff_ffff == (b >> 8) & 0xff_ffff && ((b
                & 0xffff_ffff_ffff_ff00u64) | tag) >> 32 == b >> 32) by (bit_vector)
                requires
                    tag <= 4u64,
            ;
        }
        ObjectHeader { bits: nb }
    }

    /// The same header with the recency counter replaced (low 24 bits kept).
    pub fn with_lru(self, lru: u64) -> (r: ObjectHeader)
        requires
            lru <= 0xff_ffff,
        ensures
            r.spec_tag() == self.spec_tag(),
            r.spec_lru() == lru,
            r.spec_ref_count() == self.spec_ref_count(),
    {
        let b = self.bits;
        let nb = (b & 0xffff_ffff_0000_00ffu64) | (lru << 8);
        proof {
            assert(((b & 0xffff_ffff_0000_00ffu64) | (lru << 8)) & 0xff == b & 0xff && ((b
                & 0xffff_ffff_0000_00ffu64) | (lru << 8)) >> 8 & 0xff_ffff == lru && ((b
                & 0xffff_ffff_0000_00ffu64) | (lru << 8)) >> 32 == b >> 32) by (bit_vector)
                requires
                    lru <= 0xff_ffffu64,
            ;
        }
        ObjectHeader { bits: nb }
    }

    /// The same header with the reference count replaced.
    pub fn with_ref_count(self, rc: u32) -> (r: ObjectHeader)
        ensures
            r.spec_tag() == self.spec_tag(),
            r.spec_lru() == self.spec_lru(),
            r.spec_ref_count() == rc,
    {
        let b = self.bits;
        let rc64 = rc as u64;
        let nb = (b & 0x0000_0000_ffff_ffffu64) | (rc64 << 32);
        proof {
            assert(((b & 0x0000_0000_ffff_ffffu64) | (rc64 << 32)) & 0xff == b & 0xff && ((b
                & 0x0000_0000_ffff_ffffu64) | (rc64 << 32)) >> 8 & 0xff_ffff == (b >> 8) & 0xff_ffff
                && ((b & 0x0000_0000_ffff_ffffu64) | (rc64 << 32)) >> 32 == rc64) by (bit_vector)
                requires
                    rc64 <= 0xffff_ffffu64,
            ;
        }
        ObjectHeader { bits: nb }
    }

    /// Reads the type tag back as an `ObjectType`.
    pub fn obj_type(&self) -> (r: ObjectType)
        requires
            self.wf(),
        ensures
            r.spec_tag() == self.spec_tag(),
    {
        let t = self.bits & 0xff;
        ObjectType::from_tag(t)
    }

    pub fn lru(&self) -> (r: u64)
        ensures
            r == self.spec_lru(),
    {
        (self.bits >> 8) & 0xff_ffff
    }

    pub fn ref_count(&self) -> (r: u64)
        ensures
            r == self.spec_ref_count(),
    {
        self.bits >> 32
    }
}

/// The tagged value of a stored object.  Only the string-typed encodings
/// carry data today; the container encodings are reserved placeholders until
/// those types are designed.
#[derive(Debug, PartialEq, Eq, Clone)]
pub enum RedisValue {
    Int(i64),
    EmbStr(EmbStr),
    Raw(Raw),
    HashTable,
    LinkedList,
    ZipList,
    IntSet,
    SkipList,
}

/// A stored object: packed header plus tagged value.
#[derive(Debug, PartialEq, Eq, Clone)]
pub struct RedisObject {
    pub header: ObjectHeader,
    pub ptr: RedisValue,
}

impl RedisObject {
    /// The header's type tag matches the active value variant.
    pub open spec fn wf(self) -> bool {
        match self.ptr {
            RedisValue::Int(_) => self.header.spec_tag() == 0,
            RedisValue::EmbStr(e) => self.header.spec_tag() == 0 && e.wf(),
            RedisValue::Raw(_) => self.header.spec_tag() == 0,
            RedisValue::HashTable => self.header.spec_tag() == 2,
            RedisValue::LinkedList => self.header.spec_tag() == 1,
            RedisValue::ZipList => self.header.spec_tag() == 1,
            RedisValue::IntSet => self.header.spec_tag() == 3,
            RedisValue::SkipList => self.header.spec_tag() == 4,
        }
    }

    /// The byte content of a string-typed object: an integer reads as its
    /// decimal text, an inline or heap string as its raw bytes.
    pub open spec fn str_bytes(self) -> Seq<u8> {
        match self.ptr {
            RedisValue::Int(i) => i64_dec(i as int),
            RedisValue::EmbStr(e) => e@,
            RedisValue::Raw(r) => r@,
            _ => Seq::empty(),
        }
    }

    /// Builds a String object from a payload: at most `EMB_LEN` bytes stay
    /// inline, anything longer goes to the heap.  The choice is never
    /// revisited.
    pub fn new_string(buf: Vec<u8>) -> (r: RedisObject)
        ensures
            r.wf(),
            r.header.spec_tag() == 0,
            r.header.spec_lru() == 0,
            r.header.spec_ref_count() == 0,
            r.ptr is EmbStr <==> buf@.len() <= 54,
            r.ptr is Raw <==> buf@.len() > 54,
            r.str_bytes() == buf@,
    {
        if buf.len() <= EMB_LEN {
            RedisObject {
                header: ObjectHeader::new().with_obj_type(ObjectType::String),
                ptr: RedisValue::EmbStr(EmbStr::from_vec(&buf)),
            }
        } else {
            RedisObject {
                header: ObjectHeader::new().with_obj_type(ObjectType::String),
                ptr: RedisValue::Raw(Raw::from_vec(buf)),
            }
        }
    }

    /// The bytes of the "not implemented" error reply.
    pub open spec fn spec_not_implemented() -> Seq<u8> {
        seq![78u8, 111u8, 116u8, 32u8, 73u8, 109u8, 112u8, 108u8, 101u8, 109u8, 101u8, 110u8,
            116u8, 101u8, 100u8]
    }

    /// Converts the object to its wire reply, as the protocol shows it: a
    /// string-typed object becomes a bulk string of its byte content; every
    /// other type is not implemented yet and becomes an error reply.
    pub fn to_frame(self) -> (r: Frame)
        requires
            self.wf(),
        ensures
            self.header.spec_tag() == 0 ==> r@ == SpecFrame::BulkString(Some(self.str_bytes())),
            self.header.spec_tag() != 0 ==> r@ == SpecFrame::Error(
                RedisObject::spec_not_implemented(),
            ),
    {
        match self.ptr {
            RedisValue::Int(i) => Frame::BulkString(Some(fmt_i64(i))),
            RedisValue::EmbStr(e) => Frame::BulkString(Some(e.to_vec())),
            RedisValue::Raw(raw) => Frame::BulkString(Some(raw.to_vec())),
            _ => {
                let mut m: Vec<u8> = Vec::new();
                m.push(78);
                m.push(111);
                m.push(116);
                m.push(32);
                m.push(73);
                m.push(109);
                m.push(112);
                m.push(108);
                m.push(101);
                m.push(109);
                m.push(101);
                m.push(110);
                m.push(116);
                m.push(101);
                m.push(100);
                assert(m@ =~= RedisObject::spec_not_implemented());
                Frame::Error(m)
            },
        }
    }
}

} // verus!
