//! The storage map: a key-to-object map and an independent key-to-expiration
//! map, with lazy per-key expiration.  A key is logically absent when missing
//! from the data map or past its expiration instant; an expired key is purged
//! from both maps on access.
//!
//! Both maps are `dashmap::DashMap` values, kept behind trusted wrappers
//! whose contracts speak of the maps' contents; the expiration logic around
//! them is verified.  The contracts here describe one operation at a time
//! under exclusive access; sharing a store across tasks is the connection
//! layer's concern.

use vstd::prelude::*;

use crate::object::RedisObject;

verus! {

#[verifier::external_type_specification]
#[verifier::external_body]
#[verifier::reject_recursive_types(K)]
#[verifier::reject_recursive_types(V)]
#[verifier::reject_recursive_types(S)]
pub struct ExDashMap<K, V, S>(dashmap::DashMap<K, V, S>);

/// The concurrent object map.
pub type ObjMap = dashmap::DashMap<Vec<u8>, RedisObject>;

/// The concurrent expiration map.
pub type ExpMap = dashmap::DashMap<Vec<u8>, u64>;

/// What the object map holds, keyed by the key's bytes.
pub uninterp spec fn obj_entries(m: ObjMap) -> Map<Seq<u8>, RedisObject>;

/// What the expiration map holds: each key's absolute expiration instant, in
/// milliseconds.
pub uninterp spec fn exp_entries(m: ExpMap) -> Map<Seq<u8>, u64>;

/// Relies on dashmap::DashMap::insert: maps the key to the value, replacing
/// any previous value.
#[verifier::external_body]
fn obj_insert(m: &mut ObjMap, key: Vec<u8>, value: RedisObject)
    ensures
        obj_entries(*final(m)) == obj_entries(*old(m)).insert(key@, value),
{
    m.insert(key, value);
}

/// Relies on dashmap::DashMap::get: returns the value at the key, if any;
/// the wrapper hands out a clone of it.
#[verifier::external_body]
fn obj_get(m: &ObjMap, key: &Vec<u8>) -> (r: Option<RedisObject>)
    ensures
        r == if obj_entries(*m).dom().contains(key@) {
            Some(obj_entries(*m)[key@])
        } else {
            None::<RedisObject>
        },
{
    match m.get(key) {
        Some(v) => Some(v.value().clone()),
        None => None,
    }
}

/// Relies on dashmap::DashMap::remove: the entry at the key, if any, leaves
/// the map.
#[verifier::external_body]
fn obj_remove(m: &mut ObjMap, key: &Vec<u8>)
    ensures
        obj_entries(*final(m)) == obj_entries(*old(m)).remove(key@),
{
    m.remove(key);
}

/// Relies on dashmap::DashMap::insert: maps the key to the instant,
/// replacing any previous one.
#[verifier::external_body]
fn exp_insert(m: &mut ExpMap, key: Vec<u8>, at: u64)
    ensures
        exp_entries(*final(m)) == exp_entries(*old(m)).insert(key@, at),
{
    m.insert(key, at);
}

/// Relies on dashmap::DashMap::get: returns the instant at the key, if any.
#[verifier::external_body]
fn exp_get(m: &ExpMap, key: &Vec<u8>) -> (r: Option<u64>)
    ensures
        r == if exp_entries(*m).dom().contains(key@) {
            Some(exp_entries(*m)[key@])
        } else {
            None::<u64>
        },
{
    match m.get(key) {
        Some(v) => Some(*v.value()),
        None => None,
    }
}

/// Relies on dashmap::DashMap::remove: the entry at the key, if any, leaves
/// the map.
#[verifier::external_body]
fn exp_remove(m: &mut ExpMap, key: &Vec<u8>)
    ensures
        exp_entries(*final(m)) == exp_entries(*old(m)).remove(key@),
{
    m.remove(key);
}

/// A key whose recorded expiration instant lies strictly before `now_ms`.
pub open spec fn map_expired(expires: Map<Seq<u8>, u64>, key: Seq<u8>, now_ms: u64) -> bool {
    expires.dom().contains(key) && now_ms > expires[key]
}

/// A key is logically present when it is stored and not expired.
pub open spec fn map_present(
    data: Map<Seq<u8>, RedisObject>,
    expires: Map<Seq<u8>, u64>,
    key: Seq<u8>,
    now_ms: u64,
) -> bool {
    data.dom().contains(key) && !map_expired(expires, key, now_ms)
}

/// The object map after a read of `key` at `now_ms`: an expired key is
/// purged, anything else stays.
pub open spec fn after_get_data(
    data: Map<Seq<u8>, RedisObject>,
    expires: Map<Seq<u8>, u64>,
    key: Seq<u8>,
    now_ms: u64,
) -> Map<Seq<u8>, RedisObject> {
    if map_expired(expires, key, now_ms) {
        data.remove(key)
    } else {
        data
    }
}

/// The expiration map after a read of `key` at `now_ms`.
pub open spec fn after_get_expires(
    expires: Map<Seq<u8>, u64>,
    key: Seq<u8>,
    now_ms: u64,
) -> Map<Seq<u8>, u64> {
    if map_expired(expires, key, now_ms) {
        expires.remove(key)
    } else {
        expires
    }
}

/// `a + b`, stopping at the largest representable instant.
pub open spec fn sat_add(a: u64, b: u64) -> u64 {
    if a + b > u64::MAX {
        u64::MAX
    } else {
        (a + b) as u64
    }
}

/// The in-memory store: an object map and an independent expiration map.
pub struct Database {
    data: ObjMap,
    expires: ExpMap,
}

impl Database {
    /// The stored objects, by key bytes.
    pub closed spec fn spec_data(self) -> Map<Seq<u8>, RedisObject> {
        obj_entries(self.data)
    }

    /// The recorded expiration instants, by key bytes.
    pub closed spec fn spec_expires(self) -> Map<Seq<u8>, u64> {
        exp_entries(self.expires)
    }

    /// A key whose recorded expiration instant lies strictly in the past.
    pub open spec fn spec_expired(self, key: Seq<u8>, now_ms: u64) -> bool {
        map_expired(self.spec_expires(), key, now_ms)
    }

    /// A key is logically present when it is stored and not expired.
    pub open spec fn spec_present(self, key: Seq<u8>, now_ms: u64) -> bool {
        map_present(self.spec_data(), self.spec_expires(), key, now_ms)
    }

    /// Every stored object is well formed; constructors establish it and
    /// every operation preserves it.
    pub open spec fn wf(self) -> bool {
        forall|k: Seq<u8>| #[trigger]
            self.spec_data().dom().contains(k) ==> self.spec_data()[k].wf()
    }

    /// An empty store.  Relies on dashmap::DashMap::new: a new map is empty.
    #[verifier::external_body]
    pub fn new(_id: usize) -> (r: Database)
        ensures
            (r.spec_data() == Map::<Seq<u8>, RedisObject>::empty()),
            (r.spec_expires() == Map::<Seq<u8>, u64>::empty()),
    {
        Database { data: dashmap::DashMap::new(), expires: dashmap::DashMap::new() }
    }

    /// Reads the object at `key` as of `now_ms`: a copy of the stored object
    /// when the key is present, absence otherwise.  An expired key is purged
    /// from both maps; nothing else changes.
    pub fn get(&mut self, key: &Vec<u8>, now_ms: u64) -> (r: Option<RedisObject>)
        requires
            old(self).wf(),
        ensures
            final(self).wf(),
            (r matches Some(o) ==> o.wf()),
            r == if old(self).spec_present(key@, now_ms) {
                Some(old(self).spec_data()[key@])
            } else {
                None::<RedisObject>
            },
            final(self).spec_data() == if old(self).spec_expired(key@, now_ms) {
                old(self).spec_data().remove(key@)
            } else {
                old(self).spec_data()
            },
            final(self).spec_expires() == if old(self).spec_expired(key@, now_ms) {
                old(self).spec_expires().remove(key@)
            } else {
                old(self).spec_expires()
            },
    {
        match exp_get(&self.expires, key) {
            Some(t) => {
                if now_ms > t {
                    obj_remove(&mut self.data, key);
                    exp_remove(&mut self.expires, key);
                    proof {
                        assert forall|k: Seq<u8>| #[trigger]
                            self.spec_data().dom().contains(k) implies self.spec_data()[k].wf() by {
                            assert(old(self).spec_data().dom().contains(k));
                        }
                    }
                    return None;
                }
            },
            None => {},
        }
        proof {
            if self.spec_data().dom().contains(key@) {
                assert(self.spec_data()[key@].wf());
            }
        }
        obj_get(&self.data, key)
    }


    /// Reads the object at `key` through a projection, as `get` does: the
    /// projection applied to the stored object when the key is present,
    /// absence otherwise.  An expired key is purged from both maps.
    pub fn get_with<R, F: FnOnce(RedisObject) -> R>(
        &mut self,
        key: &Vec<u8>,
        now_ms: u64,
        f: F,
    ) -> (r: Option<R>)
        requires
            old(self).wf(),
            forall|o: RedisObject| o.wf() ==> call_requires(f, (o,)),
        ensures
            final(self).wf(),
            final(self).spec_data() == if old(self).spec_expired(key@, now_ms) {
                old(self).spec_data().remove(key@)
            } else {
                old(self).spec_data()
            },
            final(self).spec_expires() == if old(self).spec_expired(key@, now_ms) {
                old(self).spec_expires().remove(key@)
            } else {
                old(self).spec_expires()
            },
            match r {
                Some(v) => old(self).spec_present(key@, now_ms) && call_ensures(
                    f,
                    (old(self).spec_data()[key@],),
                    v,
                ),
                None => !old(self).spec_present(key@, now_ms),
            },
    {
        match self.get(key, now_ms) {
            Some(o) => Some(f(o)),
            None => None,
        }
    }

    /// Stores `value` at `key`, unconditionally overwriting.  With a ttl, the
    /// absolute expiration becomes `now_ms + ttl_ms` (saturating), replacing
    /// any prior one; without a ttl the prior expiration is cleared, unless
    /// `keep_ttl` explicitly asks to preserve it.
    pub fn set(&mut self, key: Vec<u8>, value: RedisObject, ttl_ms: Option<u64>, keep_ttl: bool, now_ms: u64)
        requires
            old(self).wf(),
            value.wf(),
        ensures
            final(self).wf(),
            final(self).spec_data() == old(self).spec_data().insert(key@, value),
            final(self).spec_expires() == if keep_ttl {
                old(self).spec_expires()
            } else {
                match ttl_ms {
                    Some(t) => old(self).spec_expires().insert(key@, sat_add(now_ms, t)),
                    None => old(self).spec_expires().remove(key@),
                }
            },
    {
        let key2 = key.clone();
        assert(key2@ =~= key@);
        obj_insert(&mut self.data, key2, value);
        if !keep_ttl {
            match ttl_ms {
                Some(t) => {
                    let at = if t > u64::MAX - now_ms {
                        u64::MAX
                    } else {
                        now_ms + t
                    };
                    exp_insert(&mut self.expires, key, at);
                },
                None => {
                    exp_remove(&mut self.expires, &key);
                },
            }
        }
        proof {
            assert forall|k: Seq<u8>| #[trigger]
                self.spec_data().dom().contains(k) implies self.spec_data()[k].wf() by {
                if k != key@ {
                    assert(old(self).spec_data().dom().contains(k));
                }
            }
        }
    }
}


/// Law: storing a key with a ttl of zero makes it expired at every strictly
/// later instant, so a read then reports absence and purges both records --
/// and on the purged maps a subsequent ttl-less set leaves the key present at
/// every instant, unaffected by the stale bookkeeping.
pub proof fn lemma_set_expired_then_get(
    data: Map<Seq<u8>, RedisObject>,
    expires: Map<Seq<u8>, u64>,
    key: Seq<u8>,
    value: RedisObject,
    value2: RedisObject,
    now: u64,
    later: u64,
)
    requires
        now < later,
    ensures
        ({
            // what `set` with `ttl_ms == Some(0)` leaves behind
            let d1 = data.insert(key, value);
            let e1 = expires.insert(key, sat_add(now, 0));
            // what the purging `get` at `later` leaves behind
            let d2 = d1.remove(key);
            let e2 = e1.remove(key);
            // what a ttl-less `set` after that leaves behind
            let d3 = d2.insert(key, value2);
            let e3 = e2.remove(key);
            &&& map_expired(e1, key, later)
            &&& !map_present(d1, e1, key, later)
            &&& !d2.dom().contains(key)
            &&& !e2.dom().contains(key)
            &&& forall|t: u64| map_present(d3, e3, key, t)
        }),
{
    let e1 = expires.insert(key, sat_add(now, 0));
    assert(e1[key] == now);
}

} // verus!
