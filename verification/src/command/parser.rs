//! The argument cursor: a forward-only reader that consumes the elements of
//! a request array and converts them to typed command fields.  The first
//! element is the command name; the rest are addressable arguments.

use vstd::prelude::*;

use crate::ascii::{ascii_lower, ascii_upper, is_utf8, to_lower, to_upper, utf8_check};
use crate::command::error::{CommandError, SpecCmdErr};
use crate::decimal::{parse_i64, spec_parse_i64};
use crate::protocol::{frame_view, frames_view, lemma_frames_view_index, Frame, SpecFrame};

verus! {

/// A textual argument: the verbatim bytes of a simple string, or the bytes
/// of a non-null, UTF-8-decodable bulk string.
#[derive(Debug, PartialEq, Eq)]
pub struct StrArg(pub Vec<u8>);

impl View for StrArg {
    type V = Seq<u8>;

    open spec fn view(&self) -> Seq<u8> {
        self.0@
    }
}

/// A typed conversion from one request element, with its exact meaning given
/// by `spec_from_frame`.
pub trait FrameConvert: Sized + View {
    spec fn spec_from_frame(f: SpecFrame) -> Result<Self::V, SpecCmdErr>;

    fn from_frame(f: Frame) -> (r: Result<Self, CommandError>)
        ensures
            match r {
                Ok(v) => Self::spec_from_frame(f@) == Ok::<Self::V, SpecCmdErr>(v@),
                Err(e) => Self::spec_from_frame(f@) == Err::<Self::V, SpecCmdErr>(e@),
            },
    ;
}

impl FrameConvert for StrArg {
    open spec fn spec_from_frame(f: SpecFrame) -> Result<Seq<u8>, SpecCmdErr> {
        match f {
            SpecFrame::SimpleString(s) => Ok(s),
            SpecFrame::BulkString(Some(b)) => if is_utf8(b) {
                Ok(b)
            } else {
                Err(SpecCmdErr::FromUtf8Error)
            },
            _ => Err(SpecCmdErr::WrongType),
        }
    }

    fn from_frame(f: Frame) -> (r: Result<StrArg, CommandError>) {
        match f {
            Frame::SimpleString(s) => Ok(StrArg(s)),
            Frame::BulkString(Some(b)) => if utf8_check(&b) {
                Ok(StrArg(b))
            } else {
                Err(CommandError::FromUtf8Error)
            },
            _ => Err(CommandError::WrongType),
        }
    }
}

impl FrameConvert for Vec<u8> {
    open spec fn spec_from_frame(f: SpecFrame) -> Result<Seq<u8>, SpecCmdErr> {
        match f {
            SpecFrame::BulkString(Some(b)) => Ok(b),
            _ => Err(SpecCmdErr::WrongType),
        }
    }

    fn from_frame(f: Frame) -> (r: Result<Vec<u8>, CommandError>) {
        match f {
            Frame::BulkString(Some(b)) => Ok(b),
            _ => Err(CommandError::WrongType),
        }
    }
}

impl FrameConvert for i64 {
    open spec fn spec_from_frame(f: SpecFrame) -> Result<i64, SpecCmdErr> {
        match f {
            SpecFrame::Integer(n) => Ok(n),
            SpecFrame::BulkString(Some(b)) => if !is_utf8(b) {
                Err(SpecCmdErr::FromUtf8Error)
            } else {
                match spec_parse_i64(b) {
                    Some(n) => Ok(n),
                    None => Err(SpecCmdErr::ParseIntError),
                }
            },
            _ => Err(SpecCmdErr::WrongType),
        }
    }

    fn from_frame(f: Frame) -> (r: Result<i64, CommandError>) {
        match f {
            Frame::Integer(n) => Ok(n),
            Frame::BulkString(Some(b)) => {
                if !utf8_check(&b) {
                    return Err(CommandError::FromUtf8Error);
                }
                proof {
                    assert(b@.subrange(0, b@.len() as int) =~= b@);
                }
                match parse_i64(&b, 0, b.len()) {
                    Some(n) => Ok(n),
                    None => Err(CommandError::ParseIntError),
                }
            },
            _ => Err(CommandError::WrongType),
        }
    }
}

/// The bytes of "TRUE".
pub open spec fn spec_true_token() -> Seq<u8> {
    seq![84u8, 82u8, 85u8, 69u8]
}

/// The bytes of "FALSE".
pub open spec fn spec_false_token() -> Seq<u8> {
    seq![70u8, 65u8, 76u8, 83u8, 69u8]
}

impl FrameConvert for bool {
    open spec fn spec_from_frame(f: SpecFrame) -> Result<bool, SpecCmdErr> {
        match f {
            SpecFrame::Integer(n) => if n == 0 {
                Ok(false)
            } else if n == 1 {
                Ok(true)
            } else {
                Err(SpecCmdErr::WrongType)
            },
            SpecFrame::SimpleString(s) => if ascii_upper(s) == spec_true_token() {
                Ok(true)
            } else if ascii_upper(s) == spec_false_token() {
                Ok(false)
            } else {
                Err(SpecCmdErr::WrongType)
            },
            _ => Err(SpecCmdErr::WrongType),
        }
    }

    fn from_frame(f: Frame) -> (r: Result<bool, CommandError>) {
        match f {
            Frame::Integer(n) => if n == 0 {
                Ok(false)
            } else if n == 1 {
                Ok(true)
            } else {
                Err(CommandError::WrongType)
            },
            Frame::SimpleString(s) => {
                let u = to_upper(&s);
                let r = if u.len() == 4 && u[0] == 84 && u[1] == 82 && u[2] == 85 && u[3] == 69 {
                    proof {
                        assert(ascii_upper(s@) =~= spec_true_token());
                    }
                    Ok(true)
                } else if u.len() == 5 && u[0] == 70 && u[1] == 65 && u[2] == 76 && u[3] == 83
                    && u[4] == 69 {
                    proof {
                        assert(ascii_upper(s@) =~= spec_false_token());
                        assert(ascii_upper(s@) != spec_true_token());
                    }
                    Ok(false)
                } else {
                    proof {
                        if ascii_upper(s@) == spec_true_token() {
                            assert(u@.len() == 4 && u@[0] == 84 && u@[1] == 82 && u@[2] == 85
                                && u@[3] == 69);
                        }
                        if ascii_upper(s@) == spec_false_token() {
                            assert(u@.len() == 5 && u@[0] == 70 && u@[1] == 65 && u@[2] == 76
                                && u@[3] == 83 && u@[4] == 69);
                        }
                    }
                    Err(CommandError::WrongType)
                };
                r
            },
            _ => Err(CommandError::WrongType),
        }
    }
}

/// The message of the empty-request error.
pub open spec fn spec_empty_cmd_msg() -> Seq<u8> {
    seq![69u8, 109u8, 112u8, 116u8, 121u8, 32u8, 99u8, 111u8, 109u8, 109u8, 97u8, 110u8, 100u8, 32u8, 97u8, 114u8, 114u8, 97u8, 121u8]
}

fn empty_cmd_msg() -> (r: Vec<u8>)
    ensures
        r@ == spec_empty_cmd_msg(),
{
    let mut m: Vec<u8> = Vec::new();
    m.push(69);
    m.push(109);
    m.push(112);
    m.push(116);
    m.push(121);
    m.push(32);
    m.push(99);
    m.push(111);
    m.push(109);
    m.push(109);
    m.push(97);
    m.push(110);
    m.push(100);
    m.push(32);
    m.push(97);
    m.push(114);
    m.push(114);
    m.push(97);
    m.push(121);
    assert(m@ =~= spec_empty_cmd_msg());
    m
}

/// The stateful forward-only reader over a request's elements.  The elements
/// not yet consumed sit in `rest`, in reverse order, so that consuming one is
/// a pop; `total` is the element count of the whole request array.
#[derive(Debug)]
pub struct Parser {
    cmd: Vec<u8>,
    rest: Vec<Frame>,
    total: usize,
}

impl Parser {
    /// The lower-cased command name, kept for error messages.
    pub closed spec fn spec_cmd(self) -> Seq<u8> {
        self.cmd@
    }

    /// The elements not yet consumed, in request order.
    pub closed spec fn spec_rest(self) -> Seq<SpecFrame> {
        frames_view(self.rest@.reverse())
    }

    /// The element count of the whole request array.
    pub closed spec fn spec_total(self) -> int {
        self.total as int
    }

    /// How many elements have been consumed so far.
    pub open spec fn spec_cursor(self) -> int {
        self.spec_total() - self.spec_rest().len()
    }

    /// The lower-cased command name, for error messages.
    pub fn cmd(&self) -> (r: Vec<u8>)
        ensures
            r@ == self.spec_cmd(),
    {
        let r = self.cmd.clone();
        assert(r@ =~= self.cmd@);
        r
    }

    /// Wraps a request: it must be a non-null, non-empty array whose first
    /// element is a simple string or a UTF-8-decodable bulk string -- the
    /// command name, case-folded for error messages.  No element is consumed
    /// yet.
    pub fn new(frame: Frame) -> (r: Result<Parser, CommandError>)
        ensures
            match r {
                Ok(p) => {
                    &&& frame@ matches SpecFrame::Array(Some(parts))
                    &&& parts.len() > 0
                    &&& p.spec_rest() == parts
                    &&& p.spec_total() == parts.len()
                    &&& match parts[0] {
                        SpecFrame::SimpleString(s) => p.spec_cmd() == ascii_lower(s),
                        SpecFrame::BulkString(Some(b)) => is_utf8(b) && p.spec_cmd()
                            == ascii_lower(b),
                        _ => false,
                    }
                },
                Err(e) => match frame@ {
                    SpecFrame::Array(Some(parts)) => if parts.len() == 0 {
                        e@ == SpecCmdErr::InvalidCommandFormat(spec_empty_cmd_msg())
                    } else {
                        match parts[0] {
                            SpecFrame::SimpleString(_) => false,
                            SpecFrame::BulkString(Some(b)) => !is_utf8(b) && e@
                                == SpecCmdErr::FromUtf8Error,
                            _ => e@ == SpecCmdErr::WrongType,
                        }
                    },
                    _ => e@ == SpecCmdErr::WrongType,
                },
            },
    {
        match frame {
            Frame::Array(Some(mut parts)) => {
                if parts.len() == 0 {
                    return Err(CommandError::InvalidCommandFormat(empty_cmd_msg()));
                }
                proof {
                    lemma_frames_view_index(parts@);
                }
                let cmd = match &parts[0] {
                    Frame::SimpleString(s) => to_lower(s),
                    Frame::BulkString(Some(d)) => {
                        if !utf8_check(d) {
                            return Err(CommandError::FromUtf8Error);
                        }
                        to_lower(d)
                    },
                    _ => {
                        return Err(CommandError::WrongType);
                    },
                };
                let total = parts.len();
                let ghost orig = parts@;
                let mut rest: Vec<Frame> = Vec::new();
                proof {
                    assert(parts@ + rest@.reverse() =~= orig);
                }
                while parts.len() > 0
                    invariant
                        parts@ + rest@.reverse() =~= orig,
                        rest@.len() + parts@.len() == orig.len(),
                    decreases parts@.len(),
                {
                    let ghost old_parts = parts@;
                    let ghost old_rest = rest@;
                    match parts.pop() {
                        Some(f) => {
                            rest.push(f);
                            proof {
                                assert(rest@.reverse() =~= seq![old_parts.last()]
                                    + old_rest.reverse());
                                assert(parts@ + rest@.reverse() =~= orig);
                            }
                        },
                        None => {
                        },
                    }
                }
                let p = Parser { cmd, rest, total };
                proof {
                    assert(p.rest@.reverse() =~= orig);
                    lemma_frames_view_index(orig);
                    assert(p.spec_rest() == frames_view(orig));
                    assert(frame_view(orig[0]) == frames_view(orig)[0]);
                }
                Ok(p)
            },
            Frame::Array(None) => Err(CommandError::WrongType),
            _ => Err(CommandError::WrongType),
        }
    }

    /// The remaining-length query: how many elements are left on the
    /// cursor.  Once the command name is consumed, this is the addressable
    /// argument count.
    pub fn len(&self) -> (r: usize)
        ensures
            r == self.spec_rest().len(),
    {
        proof {
            lemma_frames_view_index(self.rest@.reverse());
        }
        self.rest.len()
    }

    /// Whether an element is left to consume.
    pub fn has_next(&self) -> (r: bool)
        ensures
            r == (self.spec_rest().len() > 0),
    {
        proof {
            lemma_frames_view_index(self.rest@.reverse());
        }
        self.rest.len() > 0
    }

    /// Consumes the next element and converts it to `T`.  An exhausted
    /// cursor is a count error; a conversion failure is the conversion's own
    /// typed error.  Either way the element is consumed.
    pub fn next<T: FrameConvert>(&mut self) -> (r: Result<T, CommandError>)
        ensures
            final(self).spec_cmd() == old(self).spec_cmd(),
            final(self).spec_total() == old(self).spec_total(),
            old(self).spec_rest().len() == 0 ==> {
                &&& final(self).spec_rest() == old(self).spec_rest()
                &&& r matches Err(e) && e@ == SpecCmdErr::InvalidArgumentNumber(
                    old(self).spec_cmd(),
                    old(self).spec_cursor(),
                )
            },
            old(self).spec_rest().len() > 0 ==> {
                &&& final(self).spec_rest() == old(self).spec_rest().drop_first()
                &&& match r {
                    Ok(v) => T::spec_from_frame(old(self).spec_rest()[0]) == Ok::<
                        T::V,
                        SpecCmdErr,
                    >(v@),
                    Err(e) => T::spec_from_frame(old(self).spec_rest()[0]) == Err::<
                        T::V,
                        SpecCmdErr,
                    >(e@),
                }
            },
    {
        proof {
            lemma_frames_view_index(self.rest@.reverse());
        }
        match self.rest.pop() {
            None => {
                let c = self.cmd.clone();
                assert(c@ =~= self.cmd@);
                Err(CommandError::InvalidArgumentNumber(c, self.total))
            },
            Some(f) => {
                proof {
                    let oldrev = old(self).rest@.reverse();
                    assert(oldrev[0] == old(self).rest@[old(self).rest@.len() - 1]);
                    assert(f@ == frame_view(oldrev[0]));
                    assert(frame_view(oldrev[0]) == old(self).spec_rest()[0]);
                    assert(self.rest@.reverse() =~= oldrev.drop_first());
                    lemma_frames_view_index(self.rest@.reverse());
                    assert(frames_view(self.rest@.reverse()) =~= frames_view(
                        oldrev,
                    ).drop_first());
                }
                T::from_frame(f)
            },
        }
    }

    /// Consumes a name token and the value after it, as one option pair.
    pub fn next_pair<T: FrameConvert>(&mut self) -> (r: Result<(StrArg, T), CommandError>)
        ensures
            final(self).spec_cmd() == old(self).spec_cmd(),
            final(self).spec_total() == old(self).spec_total(),
            match r {
                Ok((k, v)) => {
                    &&& old(self).spec_rest().len() >= 2
                    &&& StrArg::spec_from_frame(old(self).spec_rest()[0]) == Ok::<
                        Seq<u8>,
                        SpecCmdErr,
                    >(k@)
                    &&& T::spec_from_frame(old(self).spec_rest()[1]) == Ok::<T::V, SpecCmdErr>(v@)
                    &&& final(self).spec_rest() == old(self).spec_rest().skip(2)
                },
                Err(e) => if old(self).spec_rest().len() == 0 {
                    &&& e@ == SpecCmdErr::InvalidArgumentNumber(
                        old(self).spec_cmd(),
                        old(self).spec_cursor(),
                    )
                    &&& final(self).spec_rest() == old(self).spec_rest()
                } else if StrArg::spec_from_frame(old(self).spec_rest()[0]) is Err {
                    &&& StrArg::spec_from_frame(old(self).spec_rest()[0]) == Err::<
                        Seq<u8>,
                        SpecCmdErr,
                    >(e@)
                    &&& final(self).spec_rest() == old(self).spec_rest().drop_first()
                } else if old(self).spec_rest().len() == 1 {
                    &&& e@ == SpecCmdErr::InvalidArgumentNumber(
                        old(self).spec_cmd(),
                        old(self).spec_cursor() + 1,
                    )
                    &&& final(self).spec_rest() == old(self).spec_rest().drop_first()
                } else {
                    &&& T::spec_from_frame(old(self).spec_rest()[1]) == Err::<T::V, SpecCmdErr>(
                        e@,
                    )
                    &&& final(self).spec_rest() == old(self).spec_rest().skip(2)
                },
            },
    {
        let ghost r0 = old(self).spec_rest();
        let k = match self.next::<StrArg>() {
            Ok(k) => k,
            Err(e) => {
                return Err(e);
            },
        };
        proof {
            if r0.len() >= 1 {
                assert(r0.drop_first()[0] == r0[1] || r0.len() == 1);
            }
        }
        let v = match self.next::<T>() {
            Ok(v) => v,
            Err(e) => {
                proof {
                    if r0.len() >= 2 {
                        assert(r0.drop_first()[0] == r0[1]);
                        assert(r0.drop_first().drop_first() =~= r0.skip(2));
                    }
                }
                return Err(e);
            },
        };
        proof {
            assert(r0.drop_first()[0] == r0[1]);
            assert(r0.drop_first().drop_first() =~= r0.skip(2));
        }
        Ok((k, v))
    }
}


/// The message prefix of the unknown-option error.
pub open spec fn spec_unknown_option_pre() -> Seq<u8> {
    seq![85u8, 110u8, 107u8, 110u8, 111u8, 119u8, 110u8, 32u8, 111u8, 112u8, 116u8, 105u8, 111u8, 110u8, 32u8]
}

/// The unknown-option error for the (upper-cased) token `ku`.
pub fn unknown_option_err(ku: Vec<u8>) -> (r: CommandError)
    ensures
        r@ == SpecCmdErr::InvalidCommandFormat(spec_unknown_option_pre() + ku@),
{
    let mut m: Vec<u8> = Vec::new();
    m.push(85);
    m.push(110);
    m.push(107);
    m.push(110);
    m.push(111);
    m.push(119);
    m.push(110);
    m.push(32);
    m.push(111);
    m.push(112);
    m.push(116);
    m.push(105);
    m.push(111);
    m.push(110);
    m.push(32);
    assert(m@ =~= spec_unknown_option_pre());
    crate::protocol::push_all(&mut m, &ku);
    CommandError::InvalidCommandFormat(m)
}

/// What a command without trailing options does with leftover elements: the
/// first leftover is an unknown option (or fails its own conversion).
pub open spec fn spec_reject_extras(rest: Seq<SpecFrame>) -> Option<SpecCmdErr> {
    if rest.len() == 0 {
        None
    } else {
        match StrArg::spec_from_frame(rest[0]) {
            Err(e) => Some(e),
            Ok(k) => Some(
                SpecCmdErr::InvalidCommandFormat(spec_unknown_option_pre() + ascii_upper(k)),
            ),
        }
    }
}

/// Rejects any element left on the cursor, as an unknown trailing option.
pub fn reject_extras(p: &mut Parser) -> (r: Option<CommandError>)
    ensures
        match r {
            None => spec_reject_extras(old(p).spec_rest()) == None::<SpecCmdErr>,
            Some(e) => spec_reject_extras(old(p).spec_rest()) == Some(e@),
        },
{
    if !p.has_next() {
        return None;
    }
    match p.next::<StrArg>() {
        Err(e) => Some(e),
        Ok(k) => {
            let ku = to_upper(&k.0);
            Some(unknown_option_err(ku))
        },
    }
}

} // verus!