//! Trailing named options of the string commands: the four expiration
//! spellings, each naming one value.

use vstd::prelude::*;

use crate::ascii::{ascii_upper, to_upper};
use crate::command::error::{CommandError, SpecCmdErr};
use crate::command::parser::StrArg;
use crate::database::sat_add;
use crate::decimal::{parse_u64, spec_parse_u64};
use crate::protocol::push_all;

verus! {

/// An expiration request: relative seconds or milliseconds, or an absolute
/// timestamp in seconds or milliseconds.
#[derive(PartialEq, Eq, Debug, Clone, Copy)]
pub enum Expiration {
    EX(u64),
    PX(u64),
    EXAT(u64),
    PXAT(u64),
}

pub open spec fn spec_ex_token() -> Seq<u8> {
    seq![69u8, 88u8]
}

pub open spec fn spec_px_token() -> Seq<u8> {
    seq![80u8, 88u8]
}

pub open spec fn spec_exat_token() -> Seq<u8> {
    seq![69u8, 88u8, 65u8, 84u8]
}

pub open spec fn spec_pxat_token() -> Seq<u8> {
    seq![80u8, 88u8, 65u8, 84u8]
}

pub open spec fn spec_unknown_exp_pre() -> Seq<u8> {
    seq![85u8, 110u8, 107u8, 110u8, 111u8, 119u8, 110u8, 32u8, 101u8, 120u8, 112u8, 105u8, 114u8, 97u8, 116u8, 105u8, 111u8, 110u8, 32u8, 116u8, 121u8, 112u8, 101u8, 32u8]
}

/// What converting an option pair yields: the value must read as an
/// unsigned decimal, and the upper-cased name must be one of the four
/// expiration spellings.
pub open spec fn spec_from_pair(k: Seq<u8>, v: Seq<u8>) -> Result<Expiration, SpecCmdErr> {
    match spec_parse_u64(v) {
        None => Err(SpecCmdErr::ParseIntError),
        Some(n) => {
            let ku = ascii_upper(k);
            if ku == spec_ex_token() {
                Ok(Expiration::EX(n))
            } else if ku == spec_px_token() {
                Ok(Expiration::PX(n))
            } else if ku == spec_exat_token() {
                Ok(Expiration::EXAT(n))
            } else if ku == spec_pxat_token() {
                Ok(Expiration::PXAT(n))
            } else {
                Err(SpecCmdErr::InvalidCommandFormat(spec_unknown_exp_pre() + k))
            }
        },
    }
}

/// The relative ttl in milliseconds that the option asks for, as of
/// `now_ms`: seconds scale by a thousand, absolute instants subtract the
/// present, and everything saturates rather than wraps.
pub open spec fn spec_ttl_ms(e: Expiration, now_ms: u64) -> u64 {
    match e {
        Expiration::EX(s) => if s * 1000 > u64::MAX {
            u64::MAX
        } else {
            (s * 1000) as u64
        },
        Expiration::PX(ms) => ms,
        Expiration::EXAT(s) => {
            let at = if s * 1000 > u64::MAX {
                u64::MAX
            } else {
                (s * 1000) as u64
            };
            if at >= now_ms {
                (at - now_ms) as u64
            } else {
                0
            }
        },
        Expiration::PXAT(ms) => if ms >= now_ms {
            (ms - now_ms) as u64
        } else {
            0
        },
    }
}

pub(crate) fn token_eq(v: &Vec<u8>, a: u8, b: u8) -> (r: bool)
    ensures
        r == (v@ == seq![a, b]),
{
    let r = v.len() == 2 && v[0] == a && v[1] == b;
    proof {
        if r {
            assert(v@ =~= seq![a, b]);
        }
    }
    r
}

pub(crate) fn token_eq4(v: &Vec<u8>, a: u8, b: u8, c: u8, d: u8) -> (r: bool)
    ensures
        r == (v@ == seq![a, b, c, d]),
{
    let r = v.len() == 4 && v[0] == a && v[1] == b && v[2] == c && v[3] == d;
    proof {
        if r {
            assert(v@ =~= seq![a, b, c, d]);
        }
    }
    r
}

impl Expiration {
    /// Converts one option pair: the raw name token and its value token.
    pub fn from_pair(k: &StrArg, v: &StrArg) -> (r: Result<Expiration, CommandError>)
        ensures
            match r {
                Ok(e) => spec_from_pair(k@, v@) == Ok::<Expiration, SpecCmdErr>(e),
                Err(e) => spec_from_pair(k@, v@) == Err::<Expiration, SpecCmdErr>(e@),
            },
    {
        proof {
            assert(v.0@.subrange(0, v.0@.len() as int) =~= v.0@);
        }
        let n = match parse_u64(&v.0, 0, v.0.len()) {
            Some(n) => n,
            None => {
                return Err(CommandError::ParseIntError);
            },
        };
        let ku = to_upper(&k.0);
        if token_eq(&ku, 69, 88) {
            Ok(Expiration::EX(n))
        } else if token_eq(&ku, 80, 88) {
            Ok(Expiration::PX(n))
        } else if token_eq4(&ku, 69, 88, 65, 84) {
            Ok(Expiration::EXAT(n))
        } else if token_eq4(&ku, 80, 88, 65, 84) {
            Ok(Expiration::PXAT(n))
        } else {
            let mut m: Vec<u8> = Vec::new();
            m.push(85);
            m.push(110);
            m.push(107);
            m.push(110);
            m.push(111);
            m.push(119);
            m.push(110);
            m.push(32);
            m.push(101);
            m.push(120);
            m.push(112);
            m.push(105);
            m.push(114);
            m.push(97);
            m.push(116);
            m.push(105);
            m.push(111);
            m.push(110);
            m.push(32);
            m.push(116);
            m.push(121);
            m.push(112);
            m.push(101);
            m.push(32);
            assert(m@ =~= spec_unknown_exp_pre());
            push_all(&mut m, &k.0);
            Err(CommandError::InvalidCommandFormat(m))
        }
    }

    /// The relative ttl in milliseconds, as of `now_ms`.
    pub fn to_ttl_ms(self, now_ms: u64) -> (r: u64)
        ensures
            r == spec_ttl_ms(self, now_ms),
    {
        match self {
            Expiration::EX(s) => {
                if s > u64::MAX / 1000 {
                    proof {
                        assert(s * 1000 > u64::MAX) by (nonlinear_arith)
                            requires
                                s > u64::MAX / 1000,
                        ;
                    }
                    u64::MAX
                } else {
                    proof {
                        assert(s * 1000 <= (u64::MAX / 1000) * 1000) by (nonlinear_arith)
                            requires
                                s <= u64::MAX / 1000,
                        ;
                    }
                    s * 1000
                }
            },
            Expiration::PX(ms) => ms,
            Expiration::EXAT(s) => {
                let at = if s > u64::MAX / 1000 {
                    proof {
                        assert(s * 1000 > u64::MAX) by (nonlinear_arith)
                            requires
                                s > u64::MAX / 1000,
                        ;
                    }
                    u64::MAX
                } else {
                    proof {
                        assert(s * 1000 <= (u64::MAX / 1000) * 1000) by (nonlinear_arith)
                            requires
                                s <= u64::MAX / 1000,
                        ;
                    }
                    s * 1000
                };
                if at >= now_ms {
                    at - now_ms
                } else {
                    0
                }
            },
            Expiration::PXAT(ms) => {
                if ms >= now_ms {
                    ms - now_ms
                } else {
                    0
                }
            },
        }
    }
}

} // verus!
