//! The string commands: representative consumers of the argument-parsing
//! contract -- reading, writing and slicing string-typed objects.

use vstd::prelude::*;

use crate::ascii::{ascii_upper, to_upper};
use crate::command::error::{CommandError, SpecCmdErr};
use crate::command::option::{
    spec_ex_token, spec_exat_token, spec_from_pair, spec_px_token, spec_pxat_token, spec_ttl_ms,
    token_eq, token_eq4, Expiration,
};
use crate::command::parser::{
    reject_extras, spec_reject_extras, spec_unknown_option_pre, unknown_option_err, FrameConvert,
    Parser, StrArg,
};
use crate::database::{
    after_get_data, after_get_expires, map_expired, map_present, sat_add, Database,
};
use crate::decimal::fmt_i64;
use crate::object::{ObjectType, RedisObject, RedisValue};
use crate::protocol::{copy_range, Frame, SpecFrame};

verus! {

/// A negative index counts back from the end of the string.
pub open spec fn spec_to_pos(len: int, i: int) -> int {
    if i < 0 {
        len + i
    } else {
        i
    }
}

/// Clamps a position into `[0, len - 1]`.
pub open spec fn spec_clamp(v: int, len: int) -> int {
    if v < 0 {
        0
    } else if v > len - 1 {
        len - 1
    } else {
        v
    }
}

/// The half-open byte range that `start..=end` selects out of a string of
/// `len` bytes, with negative indices counting from the end; `None` when the
/// selection is empty or starts past the string.
pub open spec fn spec_get_range(len: int, start: int, end: int) -> Option<(int, int)> {
    if len == 0 || start >= len || (start < 0 && end < 0 && start > end) {
        None
    } else {
        let s = spec_clamp(spec_to_pos(len, start), len);
        let e = spec_clamp(spec_to_pos(len, end), len);
        if s <= e {
            Some((s, e + 1))
        } else {
            None
        }
    }
}

fn clamp_pos(len: usize, i: i64) -> (r: usize)
    requires
        len >= 1,
    ensures
        r as int == spec_clamp(spec_to_pos(len as int, i as int), len as int),
{
    if i >= 0 {
        if (i as u64) >= (len as u64) {
            len - 1
        } else {
            i as usize
        }
    } else {
        let m_minus1 = -(i + 1);
        let m_minus1_u = m_minus1 as u64;
        if m_minus1_u >= (len as u64) {
            0
        } else {
            len - 1 - (m_minus1_u as usize)
        }
    }
}

/// Resolves an inclusive `start..=end` selection against a string of `len`
/// bytes, as the spec function describes it.
pub fn get_range(len: usize, start: i64, end: i64) -> (r: Option<(usize, usize)>)
    ensures
        match r {
            Some((a, b)) => spec_get_range(len as int, start as int, end as int) == Some(
                (a as int, b as int),
            ) && a <= b <= len,
            None => spec_get_range(len as int, start as int, end as int) == None::<(int, int)>,
        },
{
    if len == 0 {
        return None;
    }
    if start >= 0 && (start as u64) >= (len as u64) {
        return None;
    }
    if start < 0 && end < 0 && start > end {
        return None;
    }
    let s = clamp_pos(len, start);
    let e = clamp_pos(len, end);
    if s <= e {
        Some((s, e + 1))
    } else {
        None
    }
}

/// The wire reply a stored object reads as: a string-typed object becomes a
/// bulk string of its byte content, anything else the not-implemented error.
pub open spec fn spec_obj_reply(o: RedisObject) -> SpecFrame {
    if o.header.spec_tag() == 0 {
        SpecFrame::BulkString(Some(o.str_bytes()))
    } else {
        SpecFrame::Error(RedisObject::spec_not_implemented())
    }
}

/// Reads the object at a key, as a bulk string; absence reads as the null
/// bulk string.
#[derive(PartialEq, Eq, Debug)]
pub struct Get {
    pub key: StrArg,
}

/// What parsing GET's arguments yields: exactly one textual key.
pub open spec fn spec_parse_get(cmd: Seq<u8>, rest: Seq<SpecFrame>) -> Result<Seq<u8>, SpecCmdErr> {
    if rest.len() < 1 {
        Err(SpecCmdErr::InvalidArgumentNumber(cmd, 1))
    } else {
        match StrArg::spec_from_frame(rest[0]) {
            Err(e) => Err(e),
            Ok(key) => match spec_reject_extras(rest.skip(1)) {
                None => Ok(key),
                Some(e) => Err(e),
            },
        }
    }
}

impl Get {
    /// Consumes the cursor after the command name: the required-argument
    /// count is checked once, up front, before any value is converted.
    pub fn from_parser(mut p: Parser) -> (r: Result<Get, CommandError>)
        ensures
            match r {
                Ok(g) => spec_parse_get(p.spec_cmd(), p.spec_rest()) == Ok::<Seq<u8>, SpecCmdErr>(
                    g.key@,
                ),
                Err(e) => spec_parse_get(p.spec_cmd(), p.spec_rest()) == Err::<Seq<u8>, SpecCmdErr>(
                    e@,
                ),
            },
    {
        if p.len() < 1 {
            return Err(CommandError::InvalidArgumentNumber(p.cmd(), 1));
        }
        let key: StrArg = match p.next::<StrArg>() {
            Ok(k) => k,
            Err(e) => {
                return Err(e);
            },
        };
        match reject_extras(&mut p) {
            None => Ok(Get { key }),
            Some(e) => Err(e),
        }
    }

    /// Replies with the stored string, or the null bulk string when the key
    /// is absent; reading purges an expired key.
    pub fn execute(self, db: &mut Database, now_ms: u64) -> (r: Result<Frame, CommandError>)
        requires
            old(db).wf(),
        ensures
            final(db).wf(),
            final(db).spec_data() == after_get_data(
                old(db).spec_data(),
                old(db).spec_expires(),
                self.key@,
                now_ms,
            ),
            final(db).spec_expires() == after_get_expires(
                old(db).spec_expires(),
                self.key@,
                now_ms,
            ),
            r matches Ok(f) && f@ == if old(db).spec_present(self.key@, now_ms) {
                spec_obj_reply(old(db).spec_data()[self.key@])
            } else {
                SpecFrame::BulkString(None::<Seq<u8>>)
            },
    {
        match db.get(&self.key.0, now_ms) {
            Some(o) => Ok(o.to_frame()),
            None => Ok(Frame::BulkString(None)),
        }
    }
}

pub open spec fn spec_nx_token() -> Seq<u8> {
    seq![78u8, 88u8]
}

pub open spec fn spec_xx_token() -> Seq<u8> {
    seq![88u8, 88u8]
}

pub open spec fn spec_keepttl_token() -> Seq<u8> {
    seq![75u8, 69u8, 69u8, 80u8, 84u8, 84u8, 76u8]
}

pub open spec fn spec_get_token() -> Seq<u8> {
    seq![71u8, 69u8, 84u8]
}

fn token_eq3(v: &Vec<u8>, a: u8, b: u8, c: u8) -> (r: bool)
    ensures
        r == (v@ == seq![a, b, c]),
{
    let r = v.len() == 3 && v[0] == a && v[1] == b && v[2] == c;
    proof {
        if r {
            assert(v@ =~= seq![a, b, c]);
        }
    }
    r
}

fn token_eq7(v: &Vec<u8>, a: u8, b: u8, c: u8, d: u8, e: u8, f: u8, g: u8) -> (r: bool)
    ensures
        r == (v@ == seq![a, b, c, d, e, f, g]),
{
    let r = v.len() == 7 && v[0] == a && v[1] == b && v[2] == c && v[3] == d && v[4] == e && v[5]
        == f && v[6] == g;
    proof {
        if r {
            assert(v@ =~= seq![a, b, c, d, e, f, g]);
        }
    }
    r
}

/// Stores a string at a key and replies boolean true.  Fixed fields first,
/// then trailing named options and bare flags in any order.
#[derive(PartialEq, Eq, Debug)]
pub struct SetCommand {
    pub key: StrArg,
    pub value: Vec<u8>,
    pub expiration: Option<Expiration>,
    pub nx: bool,
    pub xx: bool,
    pub keepttl: bool,
    pub get: bool,
}

/// One pass of SET's trailing-option loop: read a token, upper-case it,
/// dispatch on the known names -- an expiration spelling consumes one
/// following value, a flag consumes nothing -- and fail on anything else.
pub open spec fn spec_parse_set_opts(
    cmd: Seq<u8>,
    total: int,
    rest: Seq<SpecFrame>,
    exp: Option<Expiration>,
    nx: bool,
    xx: bool,
    keepttl: bool,
    get: bool,
) -> Result<(Option<Expiration>, bool, bool, bool, bool), SpecCmdErr>
    decreases rest.len(),
{
    if rest.len() == 0 {
        Ok((exp, nx, xx, keepttl, get))
    } else {
        match StrArg::spec_from_frame(rest[0]) {
            Err(e) => Err(e),
            Ok(k) => {
                let ku = ascii_upper(k);
                if ku == spec_ex_token() || ku == spec_px_token() || ku == spec_exat_token() || ku
                    == spec_pxat_token() {
                    if rest.len() < 2 {
                        Err(SpecCmdErr::InvalidArgumentNumber(cmd, total))
                    } else {
                        match StrArg::spec_from_frame(rest[1]) {
                            Err(e) => Err(e),
                            Ok(v) => match spec_from_pair(k, v) {
                                Err(e) => Err(e),
                                Ok(e2) => spec_parse_set_opts(
                                    cmd,
                                    total,
                                    rest.skip(2),
                                    Some(e2),
                                    nx,
                                    xx,
                                    keepttl,
                                    get,
                                ),
                            },
                        }
                    }
                } else if ku == spec_nx_token() {
                    spec_parse_set_opts(cmd, total, rest.skip(1), exp, true, xx, keepttl, get)
                } else if ku == spec_xx_token() {
                    spec_parse_set_opts(cmd, total, rest.skip(1), exp, nx, true, keepttl, get)
                } else if ku == spec_keepttl_token() {
                    spec_parse_set_opts(cmd, total, rest.skip(1), exp, nx, xx, true, get)
                } else if ku == spec_get_token() {
                    spec_parse_set_opts(cmd, total, rest.skip(1), exp, nx, xx, keepttl, true)
                } else {
                    Err(SpecCmdErr::InvalidCommandFormat(spec_unknown_option_pre() + ku))
                }
            },
        }
    }
}

/// What parsing SET's arguments yields: the key, the value, and the options.
pub open spec fn spec_parse_set(cmd: Seq<u8>, total: int, rest: Seq<SpecFrame>) -> Result<
    (Seq<u8>, Seq<u8>, Option<Expiration>, bool, bool, bool, bool),
    SpecCmdErr,
> {
    if rest.len() < 2 {
        Err(SpecCmdErr::InvalidArgumentNumber(cmd, 2))
    } else {
        match StrArg::spec_from_frame(rest[0]) {
            Err(e) => Err(e),
            Ok(key) => match <Vec<u8> as FrameConvert>::spec_from_frame(rest[1]) {
                Err(e) => Err(e),
                Ok(val) => match spec_parse_set_opts(
                    cmd,
                    total,
                    rest.skip(2),
                    None,
                    false,
                    false,
                    false,
                    false,
                ) {
                    Err(e) => Err(e),
                    Ok((e2, nx, xx, kt, g)) => Ok((key, val, e2, nx, xx, kt, g)),
                },
            },
        }
    }
}

impl SetCommand {
    /// Consumes the cursor after the command name: the count check comes
    /// first, then the two positional fields, then the option loop.
    #[verifier::loop_isolation(false)]
    pub fn from_parser(mut p: Parser) -> (r: Result<SetCommand, CommandError>)
        ensures
            match r {
                Ok(c) => spec_parse_set(p.spec_cmd(), p.spec_total(), p.spec_rest()) == Ok::<
                    (Seq<u8>, Seq<u8>, Option<Expiration>, bool, bool, bool, bool),
                    SpecCmdErr,
                >((c.key@, c.value@, c.expiration, c.nx, c.xx, c.keepttl, c.get)),
                Err(e) => spec_parse_set(p.spec_cmd(), p.spec_total(), p.spec_rest()) == Err::<
                    (Seq<u8>, Seq<u8>, Option<Expiration>, bool, bool, bool, bool),
                    SpecCmdErr,
                >(e@),
            },
    {
        let ghost cmd0 = p.spec_cmd();
        let ghost total0 = p.spec_total();
        let ghost rest0 = p.spec_rest();
        if p.len() < 2 {
            return Err(CommandError::InvalidArgumentNumber(p.cmd(), 2));
        }
        let key: StrArg = match p.next::<StrArg>() {
            Ok(k) => k,
            Err(e) => {
                return Err(e);
            },
        };
        proof {
            assert(rest0.drop_first()[0] == rest0[1]);
        }
        let value: Vec<u8> = match p.next::<Vec<u8>>() {
            Ok(v) => v,
            Err(e) => {
                return Err(e);
            },
        };
        proof {
            assert(rest0.drop_first().drop_first() =~= rest0.skip(2));
        }
        let mut expiration: Option<Expiration> = None;
        let mut nx: bool = false;
        let mut xx: bool = false;
        let mut keepttl: bool = false;
        let mut get: bool = false;
        while p.has_next()
            invariant
                p.spec_cmd() == cmd0,
                p.spec_total() == total0,
                spec_parse_set_opts(cmd0, total0, rest0.skip(2), None, false, false, false, false)
                    == spec_parse_set_opts(
                    cmd0,
                    total0,
                    p.spec_rest(),
                    expiration,
                    nx,
                    xx,
                    keepttl,
                    get,
                ),
            decreases p.spec_rest().len(),
        {
            let ghost rest_at = p.spec_rest();
            let ghost acc0 = (expiration, nx, xx, keepttl, get);
            let k: StrArg = match p.next::<StrArg>() {
                Ok(k) => k,
                Err(e) => {
                    proof {
                        assert(spec_parse_set_opts(cmd0, total0, rest_at, acc0.0, acc0.1, acc0.2,
                            acc0.3, acc0.4) == Err::<(Option<Expiration>, bool, bool, bool, bool),
                            SpecCmdErr>(e@));
                    }
                    return Err(e);
                },
            };
            let ku = to_upper(&k.0);
            if token_eq(&ku, 69, 88) || token_eq(&ku, 80, 88) || token_eq4(&ku, 69, 88, 65, 84)
                || token_eq4(&ku, 80, 88, 65, 84) {
                proof {
                    if rest_at.len() >= 2 {
                        assert(rest_at.drop_first()[0] == rest_at[1]);
                    }
                }
                let v: StrArg = match p.next::<StrArg>() {
                    Ok(v) => v,
                    Err(e) => {
                        proof {
                            assert(spec_parse_set_opts(cmd0, total0, rest_at, acc0.0, acc0.1,
                                acc0.2, acc0.3, acc0.4) == Err::<
                                (Option<Expiration>, bool, bool, bool, bool),
                                SpecCmdErr,
                            >(e@));
                        }
                        return Err(e);
                    },
                };
                let e2 = match Expiration::from_pair(&k, &v) {
                    Ok(e2) => e2,
                    Err(e) => {
                        proof {
                            assert(rest_at[1] == rest_at.drop_first()[0]);
                            assert(spec_parse_set_opts(cmd0, total0, rest_at, acc0.0, acc0.1,
                                acc0.2, acc0.3, acc0.4) == Err::<
                                (Option<Expiration>, bool, bool, bool, bool),
                                SpecCmdErr,
                            >(e@));
                        }
                        return Err(e);
                    },
                };
                expiration = Some(e2);
                proof {
                    assert(rest_at[1] == rest_at.drop_first()[0]);
                    assert(rest_at.drop_first().drop_first() =~= rest_at.skip(2));
                    assert(spec_parse_set_opts(cmd0, total0, rest_at, acc0.0, acc0.1, acc0.2,
                        acc0.3, acc0.4) == spec_parse_set_opts(cmd0, total0, rest_at.skip(2),
                        expiration, nx, xx, keepttl, get));
                }
            } else if token_eq(&ku, 78, 88) {
                nx = true;
                proof {
                    assert(rest_at.drop_first() =~= rest_at.skip(1));
                    assert(spec_parse_set_opts(cmd0, total0, rest_at, acc0.0, acc0.1, acc0.2,
                        acc0.3, acc0.4) == spec_parse_set_opts(cmd0, total0, rest_at.skip(1),
                        expiration, nx, xx, keepttl, get));
                }
            } else if token_eq(&ku, 88, 88) {
                xx = true;
                proof {
                    assert(rest_at.drop_first() =~= rest_at.skip(1));
                    assert(spec_parse_set_opts(cmd0, total0, rest_at, acc0.0, acc0.1, acc0.2,
                        acc0.3, acc0.4) == spec_parse_set_opts(cmd0, total0, rest_at.skip(1),
                        expiration, nx, xx, keepttl, get));
                }
            } else if token_eq7(&ku, 75, 69, 69, 80, 84, 84, 76) {
                keepttl = true;
                proof {
                    assert(rest_at.drop_first() =~= rest_at.skip(1));
                    assert(spec_parse_set_opts(cmd0, total0, rest_at, acc0.0, acc0.1, acc0.2,
                        acc0.3, acc0.4) == spec_parse_set_opts(cmd0, total0, rest_at.skip(1),
                        expiration, nx, xx, keepttl, get));
                }
            } else if token_eq3(&ku, 71, 69, 84) {
                get = true;
                proof {
                    assert(rest_at.drop_first() =~= rest_at.skip(1));
                    assert(spec_parse_set_opts(cmd0, total0, rest_at, acc0.0, acc0.1, acc0.2,
                        acc0.3, acc0.4) == spec_parse_set_opts(cmd0, total0, rest_at.skip(1),
                        expiration, nx, xx, keepttl, get));
                }
            } else {
                let e = unknown_option_err(ku);
                proof {
                    assert(spec_parse_set_opts(cmd0, total0, rest_at, acc0.0, acc0.1, acc0.2,
                        acc0.3, acc0.4) == Err::<(Option<Expiration>, bool, bool, bool, bool),
                        SpecCmdErr>(e@));
                }
                return Err(e);
            }
        }
        proof {
            assert(spec_parse_set_opts(cmd0, total0, p.spec_rest(), expiration, nx, xx, keepttl,
                get) == Ok::<(Option<Expiration>, bool, bool, bool, bool), SpecCmdErr>(
                (expiration, nx, xx, keepttl, get),
            ));
        }
        Ok(SetCommand { key, value, expiration, nx, xx, keepttl, get })
    }

    /// Stores the value, honouring an expiration option and the explicit
    /// keep-ttl flag; a plain store clears any prior expiration.  Replies
    /// boolean true.  The nx, xx and get flags are parsed but take no part
    /// in execution yet.
    pub fn execute(self, db: &mut Database, now_ms: u64) -> (r: Result<Frame, CommandError>)
        requires
            old(db).wf(),
        ensures
            final(db).wf(),
            r matches Ok(f) && f@ == SpecFrame::Boolean(true),
            final(db).spec_data() == old(db).spec_data().insert(
                self.key@,
                final(db).spec_data()[self.key@],
            ),
            ({
                let o = final(db).spec_data()[self.key@];
                &&& o.wf()
                &&& o.header.spec_tag() == 0
                &&& o.str_bytes() == self.value@
                &&& (o.ptr is EmbStr <==> self.value@.len() <= 54)
                &&& (o.ptr is Raw <==> self.value@.len() > 54)
            }),
            final(db).spec_expires() == if self.keepttl {
                old(db).spec_expires()
            } else {
                match self.expiration {
                    Some(e) => old(db).spec_expires().insert(
                        self.key@,
                        sat_add(now_ms, spec_ttl_ms(e, now_ms)),
                    ),
                    None => old(db).spec_expires().remove(self.key@),
                }
            },
    {
        let ttl: Option<u64> = match self.expiration {
            Some(e) => Some(e.to_ttl_ms(now_ms)),
            None => None,
        };
        let o = RedisObject::new_string(self.value);
        db.set(self.key.0, o, ttl, self.keepttl, now_ms);
        Ok(Frame::Boolean(true))
    }
}

/// Stores a new string at a key and replies with the previous value, or
/// null when there was none.
#[derive(PartialEq, Eq, Debug)]
pub struct GetSetCommand {
    pub key: StrArg,
    pub value: Vec<u8>,
}

/// What parsing GETSET's arguments yields: a key and a value, nothing more.
pub open spec fn spec_parse_getset(cmd: Seq<u8>, rest: Seq<SpecFrame>) -> Result<
    (Seq<u8>, Seq<u8>),
    SpecCmdErr,
> {
    if rest.len() < 2 {
        Err(SpecCmdErr::InvalidArgumentNumber(cmd, 2))
    } else {
        match StrArg::spec_from_frame(rest[0]) {
            Err(e) => Err(e),
            Ok(key) => match <Vec<u8> as FrameConvert>::spec_from_frame(rest[1]) {
                Err(e) => Err(e),
                Ok(val) => match spec_reject_extras(rest.skip(2)) {
                    None => Ok((key, val)),
                    Some(e) => Err(e),
                },
            },
        }
    }
}

impl GetSetCommand {
    pub fn from_parser(mut p: Parser) -> (r: Result<GetSetCommand, CommandError>)
        ensures
            match r {
                Ok(c) => spec_parse_getset(p.spec_cmd(), p.spec_rest()) == Ok::<
                    (Seq<u8>, Seq<u8>),
                    SpecCmdErr,
                >((c.key@, c.value@)),
                Err(e) => spec_parse_getset(p.spec_cmd(), p.spec_rest()) == Err::<
                    (Seq<u8>, Seq<u8>),
                    SpecCmdErr,
                >(e@),
            },
    {
        let ghost rest0 = p.spec_rest();
        if p.len() < 2 {
            return Err(CommandError::InvalidArgumentNumber(p.cmd(), 2));
        }
        let key: StrArg = match p.next::<StrArg>() {
            Ok(k) => k,
            Err(e) => {
                return Err(e);
            },
        };
        proof {
            assert(rest0.drop_first()[0] == rest0[1]);
        }
        let value: Vec<u8> = match p.next::<Vec<u8>>() {
            Ok(v) => v,
            Err(e) => {
                return Err(e);
            },
        };
        proof {
            assert(rest0.drop_first().drop_first() =~= rest0.skip(2));
        }
        match reject_extras(&mut p) {
            None => Ok(GetSetCommand { key, value }),
            Some(e) => Err(e),
        }
    }

    /// Swaps in the new value with no expiration, replying with the previous
    /// string or null.
    pub fn execute(self, db: &mut Database, now_ms: u64) -> (r: Result<Frame, CommandError>)
        requires
            old(db).wf(),
        ensures
            final(db).wf(),
            final(db).spec_data() == old(db).spec_data().insert(
                self.key@,
                final(db).spec_data()[self.key@],
            ),
            ({
                let o = final(db).spec_data()[self.key@];
                &&& o.wf()
                &&& o.header.spec_tag() == 0
                &&& o.str_bytes() == self.value@
                &&& (o.ptr is EmbStr <==> self.value@.len() <= 54)
                &&& (o.ptr is Raw <==> self.value@.len() > 54)
            }),
            final(db).spec_expires() == old(db).spec_expires().remove(self.key@),
            r matches Ok(f) && f@ == if old(db).spec_present(self.key@, now_ms) {
                spec_obj_reply(old(db).spec_data()[self.key@])
            } else {
                SpecFrame::Null
            },
    {
        let prev = db.get(&self.key.0, now_ms);
        let o = RedisObject::new_string(self.value);
        let ghost mid_data = db.spec_data();
        let ghost mid_exp = db.spec_expires();
        db.set(self.key.0, o, None, false, now_ms);
        proof {
            let k = self.key@;
            assert(db.spec_data() =~= old(db).spec_data().insert(k, db.spec_data()[k]));
            assert(db.spec_expires() =~= old(db).spec_expires().remove(k));
        }
        match prev {
            Some(pv) => Ok(pv.to_frame()),
            None => Ok(Frame::Null),
        }
    }
}

/// Reads an inclusive index range of a stored string, with negative indices
/// counting from the end.
#[derive(PartialEq, Eq, Debug)]
pub struct GetRangeCommand {
    pub key: StrArg,
    pub start: i64,
    pub end: i64,
}

/// What parsing GETRANGE's arguments yields: a key and two indices.
pub open spec fn spec_parse_getrange(cmd: Seq<u8>, rest: Seq<SpecFrame>) -> Result<
    (Seq<u8>, i64, i64),
    SpecCmdErr,
> {
    if rest.len() < 3 {
        Err(SpecCmdErr::InvalidArgumentNumber(cmd, 3))
    } else {
        match StrArg::spec_from_frame(rest[0]) {
            Err(e) => Err(e),
            Ok(key) => match <i64 as FrameConvert>::spec_from_frame(rest[1]) {
                Err(e) => Err(e),
                Ok(start) => match <i64 as FrameConvert>::spec_from_frame(rest[2]) {
                    Err(e) => Err(e),
                    Ok(end) => match spec_reject_extras(rest.skip(3)) {
                        None => Ok((key, start, end)),
                        Some(e) => Err(e),
                    },
                },
            },
        }
    }
}

impl GetRangeCommand {
    pub fn from_parser(mut p: Parser) -> (r: Result<GetRangeCommand, CommandError>)
        ensures
            match r {
                Ok(c) => spec_parse_getrange(p.spec_cmd(), p.spec_rest()) == Ok::<
                    (Seq<u8>, i64, i64),
                    SpecCmdErr,
                >((c.key@, c.start, c.end)),
                Err(e) => spec_parse_getrange(p.spec_cmd(), p.spec_rest()) == Err::<
                    (Seq<u8>, i64, i64),
                    SpecCmdErr,
                >(e@),
            },
    {
        let ghost rest0 = p.spec_rest();
        if p.len() < 3 {
            return Err(CommandError::InvalidArgumentNumber(p.cmd(), 3));
        }
        let key: StrArg = match p.next::<StrArg>() {
            Ok(k) => k,
            Err(e) => {
                return Err(e);
            },
        };
        proof {
            assert(rest0.drop_first()[0] == rest0[1]);
        }
        let start: i64 = match p.next::<i64>() {
            Ok(v) => v,
            Err(e) => {
                return Err(e);
            },
        };
        proof {
            assert(rest0.drop_first().drop_first()[0] == rest0[2]);
        }
        let end: i64 = match p.next::<i64>() {
            Ok(v) => v,
            Err(e) => {
                return Err(e);
            },
        };
        proof {
            assert(rest0.drop_first().drop_first().drop_first() =~= rest0.skip(3));
        }
        match reject_extras(&mut p) {
            None => Ok(GetRangeCommand { key, start, end }),
            Some(e) => Err(e),
        }
    }

    /// Replies with the selected slice of the stored string as a bulk
    /// string; an empty selection or an absent key reads as the null bulk
    /// string, and a non-string object is a wrong-type error.
    pub fn execute(self, db: &mut Database, now_ms: u64) -> (r: Result<Frame, CommandError>)
        requires
            old(db).wf(),
        ensures
            final(db).wf(),
            final(db).spec_data() == after_get_data(
                old(db).spec_data(),
                old(db).spec_expires(),
                self.key@,
                now_ms,
            ),
            final(db).spec_expires() == after_get_expires(
                old(db).spec_expires(),
                self.key@,
                now_ms,
            ),
            match r {
                Ok(f) => {
                    &&& !(old(db).spec_present(self.key@, now_ms) && old(db).spec_data()[self.key@].header.spec_tag() != 0)
                    &&& f@ == if old(db).spec_present(self.key@, now_ms) {
                        match spec_get_range(
                            old(db).spec_data()[self.key@].str_bytes().len() as int,
                            self.start as int,
                            self.end as int,
                        ) {
                            Some((a, b)) => SpecFrame::BulkString(
                                Some(old(db).spec_data()[self.key@].str_bytes().subrange(a, b)),
                            ),
                            None => SpecFrame::BulkString(None::<Seq<u8>>),
                        }
                    } else {
                        SpecFrame::BulkString(None::<Seq<u8>>)
                    }
                },
                Err(e) => old(db).spec_present(self.key@, now_ms) && old(db).spec_data()[self.key@].header.spec_tag() != 0 && e@ == SpecCmdErr::WrongType,
            },
    {
        match db.get(&self.key.0, now_ms) {
            None => Ok(Frame::BulkString(None)),
            Some(o) => {
                proof {
                    assert(o.header.wf());
                }
                let t = o.header.obj_type();
                if t != ObjectType::String {
                    return Err(CommandError::WrongType);
                }
                let bytes: Vec<u8> = match o.ptr {
                    RedisValue::Int(i) => fmt_i64(i),
                    RedisValue::EmbStr(e) => e.to_vec(),
                    RedisValue::Raw(raw) => raw.to_vec(),
                    _ => Vec::new(),
                };
                match get_range(bytes.len(), self.start, self.end) {
                    Some((a, b)) => Ok(Frame::BulkString(Some(copy_range(&bytes, a, b)))),
                    None => Ok(Frame::BulkString(None)),
                }
            },
        }
    }
}


/// Law: the required-argument count is checked before any value conversion.
/// A request with too few arguments fails with the count error whatever the
/// supplied elements hold -- even individually malformed ones.
pub proof fn lemma_count_checked_first(cmd: Seq<u8>, total: int, rest: Seq<SpecFrame>)
    ensures
        rest.len() < 1 ==> spec_parse_get(cmd, rest) == Err::<Seq<u8>, SpecCmdErr>(
            SpecCmdErr::InvalidArgumentNumber(cmd, 1),
        ),
        rest.len() < 2 ==> spec_parse_set(cmd, total, rest) == Err::<
            (Seq<u8>, Seq<u8>, Option<Expiration>, bool, bool, bool, bool),
            SpecCmdErr,
        >(SpecCmdErr::InvalidArgumentNumber(cmd, 2)),
        rest.len() < 2 ==> spec_parse_getset(cmd, rest) == Err::<(Seq<u8>, Seq<u8>), SpecCmdErr>(
            SpecCmdErr::InvalidArgumentNumber(cmd, 2),
        ),
        rest.len() < 3 ==> spec_parse_getrange(cmd, rest) == Err::<
            (Seq<u8>, i64, i64),
            SpecCmdErr,
        >(SpecCmdErr::InvalidArgumentNumber(cmd, 3)),
{
}

} // verus!
