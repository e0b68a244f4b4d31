//! The wire-protocol framer: a `Frame` is one structured protocol value, with
//! a byte-exact serializer and parser.  Each value is written as a lead byte
//! that selects the type, a CRLF-terminated header line, and, for bulk
//! strings, a raw payload followed by a CRLF terminator.  Arrays recurse.
//!
//! The ground truth is the pair of spec functions `spec_ser` and `spec_parse`;
//! the executable `serialize` and `parse` are proved to implement them, and
//! `lemma_parse_serialize` shows that parsing inverts serialization.

use vstd::prelude::*;

use crate::decimal::{
    all_digits, digits_val, i64_dec, is_digit, lemma_i64_dec_parse, lemma_u64_dec_val,
    spec_parse_i64, u64_dec,
};
use crate::decimal::{fmt_i64, fmt_u64, parse_i64};

verus! {

/// A structured wire-protocol value.  Buffers are raw bytes: the wire contract
/// is byte-exact, and bulk strings are binary-safe.
#[derive(Debug, PartialEq, Eq)]
pub enum Frame {
    SimpleString(Vec<u8>),
    Error(Vec<u8>),
    Integer(i64),
    BulkString(Option<Vec<u8>>),
    Array(Option<Vec<Frame>>),
    Null,
    Boolean(bool),
    Exit,
}

/// The mathematical shape of a `Frame`: buffers as sequences.
pub enum SpecFrame {
    SimpleString(Seq<u8>),
    Error(Seq<u8>),
    Integer(i64),
    BulkString(Option<Seq<u8>>),
    Array(Option<Seq<SpecFrame>>),
    Null,
    Boolean(bool),
    Exit,
}

pub open spec fn frames_view(s: Seq<Frame>) -> Seq<SpecFrame>
    decreases s,
{
    if s.len() == 0 {
        Seq::empty()
    } else {
        seq![frame_view(s[0])] + frames_view(s.drop_first())
    }
}

pub open spec fn frame_view(f: Frame) -> SpecFrame
    decreases f,
{
    match f {
        Frame::SimpleString(s) => SpecFrame::SimpleString(s@),
        Frame::Error(s) => SpecFrame::Error(s@),
        Frame::Integer(i) => SpecFrame::Integer(i),
        Frame::BulkString(o) => SpecFrame::BulkString(
            match o {
                Some(b) => Some(b@),
                None => None,
            },
        ),
        Frame::Array(o) => SpecFrame::Array(
            match o {
                Some(v) => Some(frames_view(v@)),
                None => None,
            },
        ),
        Frame::Null => SpecFrame::Null,
        Frame::Boolean(b) => SpecFrame::Boolean(b),
        Frame::Exit => SpecFrame::Exit,
    }
}

impl View for Frame {
    type V = SpecFrame;

    open spec fn view(&self) -> SpecFrame {
        frame_view(*self)
    }
}

pub proof fn lemma_frames_view_index(s: Seq<Frame>)
    ensures
        frames_view(s).len() == s.len(),
        forall|i: int| 0 <= i < s.len() ==> frames_view(s)[i] == frame_view(s[i]),
    decreases s,
{
    if s.len() > 0 {
        lemma_frames_view_index(s.drop_first());
    }
}

pub proof fn lemma_frames_view_push(s: Seq<Frame>, f: Frame)
    ensures
        frames_view(s.push(f)) == frames_view(s) + seq![frame_view(f)],
{
    lemma_frames_view_index(s.push(f));
    lemma_frames_view_index(s);
    assert(frames_view(s.push(f)) =~= frames_view(s) + seq![frame_view(f)]);
}

/// What can go wrong while reading one frame from a byte buffer.
#[derive(Clone, Copy, Debug, PartialEq, Eq, Structural)]
pub enum FrameError {
    /// Malformed grammar: a bare line feed, an empty header line, or a
    /// negative length other than the null marker.
    InvalidFormat,
    /// A lead byte that selects no known frame type.
    UnsupportedType(u8),
    /// The buffer ends before the frame does: a header line not yet
    /// terminated, or a declared bulk payload and its terminator still
    /// missing.  More bytes may complete the frame.
    IncompleteData { expected: usize, actual: usize },
    /// A declared bulk or array length above the configured maximum.
    ValueTooLong { length: usize, max: usize },
    /// A header that should carry a decimal number but does not.
    ParseIntError,
}

impl Frame {
    /// The name of the frame's type, as shown in diagnostics.
    pub fn kind_name(&self) -> (r: &'static str)
        ensures
            r@ == match self@ {
                SpecFrame::SimpleString(_) => "SimpleString"@,
                SpecFrame::Error(_) => "Error"@,
                SpecFrame::Integer(_) => "Integer"@,
                SpecFrame::BulkString(_) => "BulkString"@,
                SpecFrame::Array(_) => "Array"@,
                SpecFrame::Null => "Null"@,
                SpecFrame::Boolean(_) => "Boolean"@,
                SpecFrame::Exit => "Exit"@,
            },
    {
        match self {
            Frame::SimpleString(_) => "SimpleString",
            Frame::Error(_) => "Error",
            Frame::Integer(_) => "Integer",
            Frame::BulkString(_) => "BulkString",
            Frame::Array(_) => "Array",
            Frame::Null => "Null",
            Frame::Boolean(_) => "Boolean",
            Frame::Exit => "Exit",
        }
    }
}

pub open spec fn crlf() -> Seq<u8> {
    seq![13u8, 10u8]
}

/// Serialized form of a sequence of frames, in order.
pub open spec fn ser_seq(s: Seq<SpecFrame>) -> Seq<u8>
    decreases s,
{
    if s.len() == 0 {
        Seq::empty()
    } else {
        spec_ser(s[0]) + ser_seq(s.drop_first())
    }
}

/// The canonical wire form of a frame.
pub open spec fn spec_ser(f: SpecFrame) -> Seq<u8>
    decreases f,
{
    match f {
        SpecFrame::SimpleString(s) => seq![43u8] + s + crlf(),
        SpecFrame::Error(s) => seq![45u8] + s + crlf(),
        SpecFrame::Integer(i) => seq![58u8] + i64_dec(i as int) + crlf(),
        SpecFrame::BulkString(Some(b)) => seq![36u8] + u64_dec(b.len()) + crlf() + b + crlf(),
        SpecFrame::BulkString(None) => seq![36u8, 45u8, 49u8, 13u8, 10u8],
        SpecFrame::Array(Some(items)) => seq![42u8] + u64_dec(items.len()) + crlf() + ser_seq(
            items,
        ),
        SpecFrame::Array(None) => seq![42u8, 45u8, 49u8, 13u8, 10u8],
        SpecFrame::Null => seq![95u8, 13u8, 10u8],
        SpecFrame::Boolean(b) => if b {
            seq![35u8, 116u8, 13u8, 10u8]
        } else {
            seq![35u8, 102u8, 13u8, 10u8]
        },
        SpecFrame::Exit => seq![98u8, 121u8, 101u8, 13u8, 10u8],
    }
}

/// Index of the first line feed in `s`, if any.
pub open spec fn first_lf(s: Seq<u8>) -> Option<int>
    decreases s.len(),
{
    if s.len() == 0 {
        None
    } else if s[0] == 10 {
        Some(0)
    } else {
        match first_lf(s.drop_first()) {
            Some(i) => Some(i + 1),
            None => None,
        }
    }
}

pub proof fn lemma_first_lf_props(s: Seq<u8>)
    ensures
        match first_lf(s) {
            Some(i) => 0 <= i < s.len() && s[i] == 10 && (forall|j: int| 0 <= j < i ==> s[j] != 10),
            None => forall|j: int| 0 <= j < s.len() ==> s[j] != 10,
        },
    decreases s.len(),
{
    if s.len() > 0 && s[0] != 10 {
        let t = s.drop_first();
        lemma_first_lf_props(t);
        assert(forall|j: int| 0 <= j < t.len() ==> t[j] == s[j + 1]);
        match first_lf(t) {
            Some(i) => {
                assert(first_lf(s) == Some(i + 1));
                assert(s[i + 1] == t[i] && t[i] == 10);
                assert(forall|j: int| 1 <= j < i + 1 ==> s[j] == t[j - 1] && t[j - 1] != 10);
            },
            None => {
                assert(forall|j: int| 1 <= j < s.len() ==> s[j] == t[j - 1] && t[j - 1] != 10);
            },
        }
    }
}

pub proof fn lemma_first_lf_at(s: Seq<u8>, i: int)
    requires
        0 <= i < s.len(),
        s[i] == 10,
        forall|j: int| 0 <= j < i ==> s[j] != 10,
    ensures
        first_lf(s) == Some(i),
    decreases i,
{
    if i > 0 {
        lemma_first_lf_at(s.drop_first(), i - 1);
    }
}

/// One CRLF-terminated header line: the line's bytes without the terminator,
/// and the number of bytes consumed including it.  `None` when the buffer
/// holds no line feed, or the line feed is not preceded by a carriage return.
pub open spec fn spec_line(s: Seq<u8>) -> Option<(Seq<u8>, int)> {
    match first_lf(s) {
        Some(i) => if 1 <= i && i < s.len() && s[i - 1] == 13 {
            Some((s.subrange(0, i - 1), i + 1))
        } else {
            None
        },
        None => None,
    }
}

/// One frame read from the front of `s`, under the configured maximum bulk
/// and array length `max`: the frame and the number of bytes consumed, or the
/// error that aborts the current frame.
pub open spec fn spec_parse(s: Seq<u8>, max: int) -> Result<(SpecFrame, int), FrameError>
    decreases s.len(), 0int,
{
    match spec_line(s) {
        None => if first_lf(s) is None {
            // no line feed yet: the header line is incomplete, not malformed
            Err(
                FrameError::IncompleteData {
                    expected: if s.len() < usize::MAX {
                        (s.len() + 1) as usize
                    } else {
                        usize::MAX
                    },
                    actual: s.len() as usize,
                },
            )
        } else {
            Err(FrameError::InvalidFormat)
        },
        Some((line, ll)) => {
            if line.len() < 1 {
                Err(FrameError::InvalidFormat)
            } else {
                let lead = line[0];
                let content = line.drop_first();
                if lead == 43 {
                    Ok((SpecFrame::SimpleString(content), ll))
                } else if lead == 45 {
                    Ok((SpecFrame::Error(content), ll))
                } else if lead == 58 {
                    match spec_parse_i64(content) {
                        Some(i) => Ok((SpecFrame::Integer(i), ll)),
                        None => Err(FrameError::ParseIntError),
                    }
                } else if lead == 36 {
                    match spec_parse_i64(content) {
                        None => Err(FrameError::ParseIntError),
                        Some(len) => {
                            if len == -1 {
                                Ok((SpecFrame::BulkString(None), ll))
                            } else if len < -1 {
                                Err(FrameError::InvalidFormat)
                            } else if len > max {
                                Err(
                                    FrameError::ValueTooLong {
                                        length: len as usize,
                                        max: max as usize,
                                    },
                                )
                            } else if s.len() - ll < len + 2 {
                                Err(
                                    FrameError::IncompleteData {
                                        expected: (len + 2) as usize,
                                        actual: (s.len() - ll) as usize,
                                    },
                                )
                            } else if s[ll + len] != 13 || s[ll + len + 1] != 10 {
                                Err(FrameError::InvalidFormat)
                            } else {
                                Ok(
                                    (
                                        SpecFrame::BulkString(Some(s.subrange(ll, ll + len))),
                                        ll + len + 2,
                                    ),
                                )
                            }
                        },
                    }
                } else if lead == 42 {
                    match spec_parse_i64(content) {
                        None => Err(FrameError::ParseIntError),
                        Some(count) => {
                            if count == -1 {
                                Ok((SpecFrame::Array(None), ll))
                            } else if count < -1 {
                                Err(FrameError::InvalidFormat)
                            } else if count > max {
                                Err(
                                    FrameError::ValueTooLong {
                                        length: count as usize,
                                        max: max as usize,
                                    },
                                )
                            } else {
                                match spec_parse_n(
                                    s.subrange(ll, s.len() as int),
                                    count as nat,
                                    max,
                                ) {
                                    Ok((items, c)) => Ok((SpecFrame::Array(Some(items)), ll + c)),
                                    Err(e) => Err(e),
                                }
                            }
                        },
                    }
                } else {
                    Err(FrameError::UnsupportedType(lead))
                }
            }
        },
    }
}

/// Exactly `n` frames read from the front of `s`, each starting where the
/// previous one ended.
pub open spec fn spec_parse_n(s: Seq<u8>, n: nat, max: int) -> Result<
    (Seq<SpecFrame>, int),
    FrameError,
>
    decreases s.len(), n,
{
    if n == 0 {
        Ok((Seq::empty(), 0))
    } else {
        match spec_parse(s, max) {
            Err(e) => Err(e),
            Ok((f, c)) => {
                if 1 <= c <= s.len() {
                    match spec_parse_n(s.subrange(c, s.len() as int), (n - 1) as nat, max) {
                        Ok((fs, c2)) => Ok((seq![f] + fs, c + c2)),
                        Err(e) => Err(e),
                    }
                } else {
                    // never reached: a parsed frame consumes at least its header line
                    Err(FrameError::InvalidFormat)
                }
            },
        }
    }
}


/// Appends all of `data` to `out`.
pub(crate) fn push_all(out: &mut Vec<u8>, data: &Vec<u8>)
    ensures
        final(out)@ == old(out)@ + data@,
{
    let mut i: usize = 0;
    assert(out@ =~= old(out)@ + data@.take(0));
    while i < data.len()
        invariant
            i <= data@.len(),
            out@ == old(out)@ + data@.take(i as int),
        decreases data@.len() - i,
    {
        out.push(data[i]);
        i = i + 1;
        assert(out@ =~= old(out)@ + data@.take(i as int));
    }
    assert(out@ =~= old(out)@ + data@);
}

/// Copies `s[start..end]` into a fresh buffer.
pub(crate) fn copy_range(s: &Vec<u8>, start: usize, end: usize) -> (r: Vec<u8>)
    requires
        start <= end && end <= s@.len(),
    ensures
        r@ == s@.subrange(start as int, end as int),
{
    let mut r: Vec<u8> = Vec::new();
    let mut i: usize = start;
    assert(r@ =~= s@.subrange(start as int, start as int));
    while i < end
        invariant
            start <= i <= end <= s@.len(),
            r@ == s@.subrange(start as int, i as int),
        decreases end - i,
    {
        r.push(s[i]);
        i = i + 1;
        assert(r@ =~= s@.subrange(start as int, i as int));
    }
    r
}

/// Extending a serialized prefix by one more frame.
pub proof fn lemma_ser_seq_take(s: Seq<SpecFrame>, i: int)
    requires
        0 <= i < s.len(),
    ensures
        ser_seq(s.take(i + 1)) == ser_seq(s.take(i)) + spec_ser(s[i]),
    decreases i,
{
    if i == 0 {
        let t = s.take(1);
        assert(t.drop_first() =~= Seq::<SpecFrame>::empty());
        assert(s.take(0) =~= Seq::<SpecFrame>::empty());
        assert(ser_seq(t) == spec_ser(s[0]) + ser_seq(Seq::<SpecFrame>::empty()));
        assert(ser_seq(s.take(1)) =~= ser_seq(s.take(0)) + spec_ser(s[0]));
    } else {
        let d = s.drop_first();
        lemma_ser_seq_take(d, i - 1);
        let t1 = s.take(i + 1);
        let t0 = s.take(i);
        assert(t1.drop_first() =~= d.take(i));
        assert(t0.drop_first() =~= d.take(i - 1));
        assert(t1[0] == s[0] && t0[0] == s[0]);
        assert(ser_seq(t1) == spec_ser(s[0]) + ser_seq(d.take(i)));
        assert(ser_seq(t0) == spec_ser(s[0]) + ser_seq(d.take(i - 1)));
        assert(d[i - 1] == s[i]);
        assert(ser_seq(t1) =~= ser_seq(t0) + spec_ser(s[i]));
    }
}

/// Writes the canonical wire form of `f`.
#[verifier::loop_isolation(false)]
pub fn serialize(f: &Frame) -> (r: Vec<u8>)
    ensures
        r@ == spec_ser(f@),
    decreases *f,
{
    match f {
        Frame::SimpleString(s) => {
            let mut out: Vec<u8> = Vec::new();
            out.push(43);
            push_all(&mut out, s);
            out.push(13);
            out.push(10);
            assert(out@ =~= spec_ser(f@));
            out
        },
        Frame::Error(s) => {
            let mut out: Vec<u8> = Vec::new();
            out.push(45);
            push_all(&mut out, s);
            out.push(13);
            out.push(10);
            assert(out@ =~= spec_ser(f@));
            out
        },
        Frame::Integer(n) => {
            let mut out: Vec<u8> = Vec::new();
            out.push(58);
            let mut d = fmt_i64(*n);
            out.append(&mut d);
            out.push(13);
            out.push(10);
            assert(out@ =~= spec_ser(f@));
            out
        },
        Frame::BulkString(Some(b)) => {
            let mut out: Vec<u8> = Vec::new();
            out.push(36);
            let mut d = fmt_u64(b.len() as u64);
            out.append(&mut d);
            out.push(13);
            out.push(10);
            push_all(&mut out, b);
            out.push(13);
            out.push(10);
            assert(out@ =~= spec_ser(f@));
            out
        },
        Frame::BulkString(None) => {
            let mut out: Vec<u8> = Vec::new();
            out.push(36);
            out.push(45);
            out.push(49);
            out.push(13);
            out.push(10);
            assert(out@ =~= spec_ser(f@));
            out
        },
        Frame::Array(Some(v)) => {
            let mut out: Vec<u8> = Vec::new();
            out.push(42);
            let mut d = fmt_u64(v.len() as u64);
            out.append(&mut d);
            out.push(13);
            out.push(10);
            let ghost header = seq![42u8] + u64_dec(v@.len()) + crlf();
            assert(out@ =~= header);
            let ghost sv = frames_view(v@);
            proof {
                lemma_frames_view_index(v@);
                assert(sv.take(0) =~= Seq::<SpecFrame>::empty());
            }
            let mut i: usize = 0;
            while i < v.len()
                invariant
                    i <= v@.len(),
                    sv == frames_view(v@),
                    sv.len() == v@.len(),
                    forall|k: int| 0 <= k < v@.len() ==> sv[k] == frame_view(v@[k]),
                    header == seq![42u8] + u64_dec(v@.len()) + crlf(),
                    out@ == header + ser_seq(sv.take(i as int)),
                decreases v@.len() - i,
            {
                proof {
                    assert(decreases_to!(*f => f->Array_0));
                    assert(decreases_to!(f->Array_0 => f->Array_0->0));
                    assert(f->Array_0->0 == *v);
                    assert(decreases_to!(*v => v@));
                    assert(decreases_to!(v@ => v@[i as int]));
                    assert(decreases_to!(*f => v@[i as int]));
                }
                let e: &Frame = &v[i];
                let mut d2 = serialize(e);
                out.append(&mut d2);
                proof {
                    lemma_ser_seq_take(sv, i as int);
                    assert(out@ =~= header + ser_seq(sv.take(i + 1)));
                }
                i = i + 1;
            }
            proof {
                assert(sv.take(v@.len() as int) =~= sv);
                assert(out@ =~= spec_ser(f@));
            }
            out
        },
        Frame::Array(None) => {
            let mut out: Vec<u8> = Vec::new();
            out.push(42);
            out.push(45);
            out.push(49);
            out.push(13);
            out.push(10);
            assert(out@ =~= spec_ser(f@));
            out
        },
        Frame::Null => {
            let mut out: Vec<u8> = Vec::new();
            out.push(95);
            out.push(13);
            out.push(10);
            assert(out@ =~= spec_ser(f@));
            out
        },
        Frame::Boolean(b) => {
            let mut out: Vec<u8> = Vec::new();
            out.push(35);
            if *b {
                out.push(116);
            } else {
                out.push(102);
            }
            out.push(13);
            out.push(10);
            assert(out@ =~= spec_ser(f@));
            out
        },
        Frame::Exit => {
            let mut out: Vec<u8> = Vec::new();
            out.push(98);
            out.push(121);
            out.push(101);
            out.push(13);
            out.push(10);
            assert(out@ =~= spec_ser(f@));
            out
        },
    }
}


/// Finds the first line feed at or after `pos`.
fn find_lf(s: &Vec<u8>, pos: usize) -> (r: Option<usize>)
    requires
        pos <= s@.len(),
    ensures
        ({
            let sub = s@.subrange(pos as int, s@.len() as int);
            match r {
                Some(k) => pos <= k < s@.len() && s@[k as int] == 10 && first_lf(sub) == Some(
                    k - pos,
                ),
                None => first_lf(sub) == None::<int>,
            }
        }),
{
    let ghost sub = s@.subrange(pos as int, s@.len() as int);
    let mut k: usize = pos;
    while k < s.len()
        invariant
            pos <= k <= s@.len(),
            sub == s@.subrange(pos as int, s@.len() as int),
            forall|j: int| pos <= j < k ==> s@[j] != 10,
        decreases s@.len() - k,
    {
        if s[k] == 10 {
            proof {
                assert(sub[k - pos] == 10);
                assert(forall|j: int| 0 <= j < k - pos ==> sub[j] == s@[j + pos]);
                lemma_first_lf_at(sub, k - pos);
            }
            return Some(k);
        }
        k = k + 1;
    }
    proof {
        lemma_first_lf_props(sub);
        match first_lf(sub) {
            Some(x) => {
                assert(sub[x] == 10);
                assert(sub[x] == s@[x + pos]);
                assert(false);
            },
            None => {},
        }
    }
    None
}

/// Reads one frame starting at `pos`, exactly as `spec_parse` describes it on
/// the remaining bytes.  On success the returned index is the position just
/// past the frame.
#[verifier::loop_isolation(false)]
#[verifier::rlimit(30)]
pub fn parse_at(input: &Vec<u8>, pos: usize, max: usize) -> (r: Result<
    (Frame, usize),
    FrameError,
>)
    requires
        pos <= input@.len(),
        max <= usize::MAX - 2,
    ensures
        ({
            let sub = input@.subrange(pos as int, input@.len() as int);
            match r {
                Ok((f, end)) => pos < end <= input@.len() && spec_parse(sub, max as int)
                    == Ok::<(SpecFrame, int), FrameError>((f@, end - pos)),
                Err(e) => spec_parse(sub, max as int) == Err::<(SpecFrame, int), FrameError>(e),
            }
        }),
    decreases input@.len() - pos,
{
    let ghost sub = input@.subrange(pos as int, input@.len() as int);
    let ilen: usize = input.len();
    proof {
        assert(forall|j: int| 0 <= j < sub.len() ==> sub[j] == input@[pos + j]);
    }
    let lf_abs = match find_lf(input, pos) {
        None => {
            proof {
                assert(spec_line(sub) == None::<(Seq<u8>, int)>);
            }
            let avail = ilen - pos;
            let expected = if avail < usize::MAX {
                avail + 1
            } else {
                usize::MAX
            };
            proof {
                assert(sub.len() == avail);
            }
            return Err(FrameError::IncompleteData { expected, actual: avail });
        },
        Some(x) => x,
    };
    let ghost i = lf_abs - pos;
    if lf_abs == pos {
        assert(spec_line(sub) == None::<(Seq<u8>, int)>);
        return Err(FrameError::InvalidFormat);
    }
    if input[lf_abs - 1] != 13 {
        proof {
            assert(sub[i - 1] == input@[lf_abs - 1]);
            assert(spec_line(sub) == None::<(Seq<u8>, int)>);
        }
        return Err(FrameError::InvalidFormat);
    }
    let ghost line = sub.subrange(0, i - 1);
    proof {
        assert(sub[i - 1] == input@[lf_abs - 1]);
        assert(spec_line(sub) == Some((line, i + 1)));
    }
    if lf_abs - 1 == pos {
        assert(line.len() == 0);
        return Err(FrameError::InvalidFormat);
    }
    let lead = input[pos];
    let ghost content = line.drop_first();
    let cstart = pos + 1;
    let cend = lf_abs - 1;
    let nl_end = lf_abs + 1;
    proof {
        assert(line[0] == sub[0] && sub[0] == input@[pos as int]);
        assert(content =~= input@.subrange(cstart as int, cend as int));
        assert(nl_end - pos == i + 1);
    }
    if lead == 43 {
        let v = copy_range(input, cstart, cend);
        assert(frame_view(Frame::SimpleString(v)) == SpecFrame::SimpleString(content));
        Ok((Frame::SimpleString(v), nl_end))
    } else if lead == 45 {
        let v = copy_range(input, cstart, cend);
        Ok((Frame::Error(v), nl_end))
    } else if lead == 58 {
        match parse_i64(input, cstart, cend) {
            Some(n) => Ok((Frame::Integer(n), nl_end)),
            None => Err(FrameError::ParseIntError),
        }
    } else if lead == 36 {
        match parse_i64(input, cstart, cend) {
            None => Err(FrameError::ParseIntError),
            Some(len) => {
                if len == -1 {
                    Ok((Frame::BulkString(None), nl_end))
                } else if len < -1 {
                    Err(FrameError::InvalidFormat)
                } else if (len as u64) > (max as u64) {
                    Err(
                        FrameError::ValueTooLong {
                            length: #[verifier::truncate] (len as usize),
                            max,
                        },
                    )
                } else {
                    let len_us = len as usize;
                    {
                        let avail = input.len() - nl_end;
                        assert(avail == sub.len() - (i + 1));
                        if avail < len_us + 2 {
                            Err(FrameError::IncompleteData { expected: len_us + 2, actual: avail })
                        } else {
                            proof {
                                assert(len >= 0);
                                assert(len_us == len);
                                assert(avail >= len_us + 2);
                                assert(avail == sub.len() - (i + 1));
                                assert(i + 1 + len + 1 < sub.len());
                                assert(sub[i + 1 + len] == input@[pos + (i + 1 + len)]);
                                assert(pos + (i + 1 + len) == nl_end + len_us);
                                assert(sub[i + 1 + len + 1] == input@[pos + (i + 1 + len + 1)]);
                                assert(pos + (i + 1 + len + 1) == nl_end + len_us + 1);
                            }
                            if input[nl_end + len_us] != 13 || input[nl_end + len_us + 1] != 10 {
                                Err(FrameError::InvalidFormat)
                            } else {
                                let payload = copy_range(input, nl_end, nl_end + len_us);
                                proof {
                                    assert(payload@ =~= sub.subrange(i + 1, i + 1 + len));
                                }
                                Ok((Frame::BulkString(Some(payload)), nl_end + len_us + 2))
                            }
                        }
                    }
                }
            },
        }
    } else if lead == 42 {
        match parse_i64(input, cstart, cend) {
            None => Err(FrameError::ParseIntError),
            Some(count) => {
                if count == -1 {
                    Ok((Frame::Array(None), nl_end))
                } else if count < -1 {
                    Err(FrameError::InvalidFormat)
                } else if (count as u64) > (max as u64) {
                    Err(
                        FrameError::ValueTooLong {
                            length: #[verifier::truncate] (count as usize),
                            max,
                        },
                    )
                } else {
                    let count_us = count as usize;
                    {
                        let ghost sub2 = input@.subrange(nl_end as int, input@.len() as int);
                        proof {
                            assert(sub2 =~= sub.subrange(i + 1, sub.len() as int));
                            assert(count >= 0);
                            assert(count_us == count);
                            assert(spec_line(sub) == Some((line, i + 1)));
                            assert(line.len() >= 1);
                            assert(line[0] == 42);
                            assert(spec_parse_i64(content) == Some(count));
                            assert(spec_parse(sub, max as int) == (
                            match spec_parse_n(sub2, count_us as nat, max as int) {
                                Ok((fs, c)) => Ok::<(SpecFrame, int), FrameError>(
                                    (SpecFrame::Array(Some(fs)), (i + 1) + c),
                                ),
                                Err(e) => Err::<(SpecFrame, int), FrameError>(e),
                            }));
                        }
                        let mut items: Vec<Frame> = Vec::new();
                        let mut cur: usize = nl_end;
                        let mut j: usize = 0;
                        proof {
                            assert(frames_view(items@) =~= Seq::<SpecFrame>::empty());
                            assert(frames_view(items@) + Seq::<SpecFrame>::empty() =~= frames_view(
                                items@,
                            ));
                        }
                        while j < count_us
                            invariant
                                nl_end <= cur <= input@.len(),
                                j <= count_us,
                                items@.len() == j,
                                frames_view(items@).len() == j,
                                spec_parse_n(sub2, count_us as nat, max as int) == (
                                match spec_parse_n(
                                    input@.subrange(cur as int, input@.len() as int),
                                    (count_us - j) as nat,
                                    max as int,
                                ) {
                                    Ok((fs, c)) => Ok::<(Seq<SpecFrame>, int), FrameError>(
                                        (frames_view(items@) + fs, (cur - nl_end) + c),
                                    ),
                                    Err(e) => Err::<(Seq<SpecFrame>, int), FrameError>(e),
                                }),
                            decreases count_us - j,
                        {
                            let ghost subc = input@.subrange(cur as int, input@.len() as int);
                            let ghost m = (count_us - j) as nat;
                            match parse_at(input, cur, max) {
                                Err(e) => {
                                    proof {
                                        assert(spec_parse_n(subc, m, max as int) == Err::<
                                            (Seq<SpecFrame>, int),
                                            FrameError,
                                        >(e));
                                        assert(spec_parse_n(sub2, count_us as nat, max as int)
                                            == Err::<(Seq<SpecFrame>, int), FrameError>(e));
                                    }
                                    return Err(e);
                                },
                                Ok((fe, end2)) => {
                                    let ghost c = end2 - cur;
                                    proof {
                                        assert(subc.subrange(c, subc.len() as int)
                                            =~= input@.subrange(end2 as int, input@.len() as int));
                                        lemma_frames_view_push(items@, fe);
                                        let res2 = spec_parse_n(
                                            subc.subrange(c, subc.len() as int),
                                            (m - 1) as nat,
                                            max as int,
                                        );
                                        match res2 {
                                            Ok((fs, c2)) => {
                                                assert(spec_parse_n(subc, m, max as int) == Ok::<
                                                    (Seq<SpecFrame>, int),
                                                    FrameError,
                                                >((seq![fe@] + fs, c + c2)));
                                                assert(frames_view(items@) + (seq![fe@] + fs)
                                                    =~= frames_view(items@.push(fe)) + fs);
                                            },
                                            Err(e2) => {
                                                assert(spec_parse_n(subc, m, max as int) == Err::<
                                                    (Seq<SpecFrame>, int),
                                                    FrameError,
                                                >(e2));
                                            },
                                        }
                                    }
                                    items.push(fe);
                                    cur = end2;
                                    j = j + 1;
                                },
                            }
                        }
                        proof {
                            let subc = input@.subrange(cur as int, input@.len() as int);
                            assert(spec_parse_n(subc, 0, max as int) == Ok::<
                                (Seq<SpecFrame>, int),
                                FrameError,
                            >((Seq::empty(), 0)));
                            assert(frames_view(items@) + Seq::<SpecFrame>::empty() =~= frames_view(
                                items@,
                            ));
                            assert(spec_parse_n(sub2, count_us as nat, max as int) == Ok::<
                                (Seq<SpecFrame>, int),
                                FrameError,
                            >((frames_view(items@), cur - nl_end)));
                        }
                        Ok((Frame::Array(Some(items)), cur))
                    }
                }
            },
        }
    } else {
        Err(FrameError::UnsupportedType(lead))
    }
}

/// Reads one frame from the front of `input`: the frame and the index just
/// past it, or the error that aborts the frame.  `max` is the configured
/// maximum bulk-string and array length.
pub fn parse(input: &Vec<u8>, max: usize) -> (r: Result<(Frame, usize), FrameError>)
    requires
        max <= usize::MAX - 2,
    ensures
        match r {
            Ok((f, end)) => 0 < end <= input@.len() && spec_parse(input@, max as int) == Ok::<
                (SpecFrame, int),
                FrameError,
            >((f@, end as int)),
            Err(e) => spec_parse(input@, max as int) == Err::<(SpecFrame, int), FrameError>(e),
        },
{
    proof {
        assert(input@.subrange(0, input@.len() as int) =~= input@);
    }
    parse_at(input, 0, max)
}


/// Canonical decimal digits never hold a line feed.
proof fn lemma_u64_dec_no_lf(m: nat)
    ensures
        !u64_dec(m).contains(10u8),
{
    lemma_u64_dec_val(m);
    let d = u64_dec(m);
    if d.contains(10u8) {
        let k = choose|k: int| 0 <= k < d.len() && d[k] == 10u8;
        assert(is_digit(d[k]));
        assert(false);
    }
}

/// Canonical decimal text never holds a line feed.
proof fn lemma_i64_dec_no_lf(n: int)
    ensures
        !i64_dec(n).contains(10u8),
{
    if n >= 0 {
        lemma_u64_dec_no_lf(n as nat);
    } else {
        lemma_u64_dec_no_lf((-n) as nat);
        let d = i64_dec(n);
        let m = u64_dec((-n) as nat);
        if d.contains(10u8) {
            let k = choose|k: int| 0 <= k < d.len() && d[k] == 10u8;
            if k == 0 {
                assert(d[0] == 45);
            } else {
                assert(d[k] == m[k - 1]);
                assert(m.contains(10u8));
            }
            assert(false);
        }
    }
}

/// Every frame's wire form is at least one header line long.
proof fn lemma_ser_len(f: SpecFrame)
    ensures
        spec_ser(f).len() >= 3,
{
    match f {
        SpecFrame::Integer(i) => {
            if i >= 0 {
                lemma_u64_dec_val(i as nat);
            } else {
                lemma_u64_dec_val((-(i as int)) as nat);
            }
        },
        SpecFrame::BulkString(Some(b)) => {
            lemma_u64_dec_val(b.len());
        },
        SpecFrame::Array(Some(items)) => {
            lemma_u64_dec_val(items.len());
            assert(ser_seq(items).len() >= 0);
        },
        _ => {},
    }
}

/// A lead byte, a line-feed-free body, and a CRLF parse as one header line,
/// whatever follows.
proof fn lemma_line_of(lead: u8, content: Seq<u8>, tail: Seq<u8>)
    requires
        lead != 10,
        !content.contains(10u8),
    ensures
        ({
            let s = seq![lead] + content + crlf() + tail;
            spec_line(s) == Some((seq![lead] + content, content.len() as int + 3))
        }),
{
    let s = seq![lead] + content + crlf() + tail;
    let i: int = content.len() as int + 2;
    assert(s[i] == 10);
    assert forall|j: int| 0 <= j < i implies s[j] != 10 by {
        if j == 0 {
            assert(s[j] == lead);
        } else if j <= content.len() {
            assert(s[j] == content[j - 1]);
            if content[j - 1] == 10 {
                assert(content.contains(10u8));
            }
        } else {
            assert(s[j] == 13);
        }
    }
    lemma_first_lf_at(s, i);
    assert(s[i - 1] == 13);
    assert(s.subrange(0, i - 1) =~= seq![lead] + content);
}

/// A frame whose every part can come back off the wire: header bodies without
/// line feeds, and declared lengths within the configured maximum.  Null,
/// boolean and close-marker frames have a wire form the parser does not read
/// back.
pub open spec fn parseable(f: SpecFrame, max: int) -> bool
    decreases f,
{
    match f {
        SpecFrame::SimpleString(s) => !s.contains(10u8),
        SpecFrame::Error(s) => !s.contains(10u8),
        SpecFrame::Integer(_) => true,
        SpecFrame::BulkString(Some(b)) => b.len() <= max && b.len() < 0x8000_0000_0000_0000,
        SpecFrame::BulkString(None) => true,
        SpecFrame::Array(Some(items)) => items.len() <= max && items.len()
            < 0x8000_0000_0000_0000 && (forall|i: int|
            0 <= i < items.len() ==> parseable(#[trigger] items[i], max)),
        SpecFrame::Array(None) => true,
        SpecFrame::Null => false,
        SpecFrame::Boolean(_) => false,
        SpecFrame::Exit => false,
    }
}

/// Parsing inverts serialization: the serialized form of any parseable frame,
/// followed by anything at all, parses back to exactly that frame, consuming
/// exactly its serialized bytes.
pub proof fn lemma_parse_serialize(f: SpecFrame, rest: Seq<u8>, max: int)
    requires
        parseable(f, max),
    ensures
        spec_parse(spec_ser(f) + rest, max) == Ok::<(SpecFrame, int), FrameError>(
            (f, spec_ser(f).len() as int),
        ),
    decreases f,
{
    let s = spec_ser(f) + rest;
    match f {
        SpecFrame::SimpleString(c) => {
            assert(s =~= seq![43u8] + c + crlf() + rest);
            lemma_line_of(43, c, rest);
            assert((seq![43u8] + c).drop_first() =~= c);
        },
        SpecFrame::Error(c) => {
            assert(s =~= seq![45u8] + c + crlf() + rest);
            lemma_line_of(45, c, rest);
            assert((seq![45u8] + c).drop_first() =~= c);
        },
        SpecFrame::Integer(n) => {
            let c = i64_dec(n as int);
            lemma_i64_dec_no_lf(n as int);
            assert(s =~= seq![58u8] + c + crlf() + rest);
            lemma_line_of(58, c, rest);
            assert((seq![58u8] + c).drop_first() =~= c);
            lemma_i64_dec_parse(n);
        },
        SpecFrame::BulkString(Some(b)) => {
            let d = u64_dec(b.len());
            let tail = b + crlf() + rest;
            lemma_u64_dec_no_lf(b.len());
            lemma_u64_dec_val(b.len());
            assert(s =~= seq![36u8] + d + crlf() + tail);
            lemma_line_of(36, d, tail);
            assert((seq![36u8] + d).drop_first() =~= d);
            let n_i64 = b.len() as i64;
            assert(i64_dec(n_i64 as int) == d);
            lemma_i64_dec_parse(n_i64);
            let ll: int = d.len() as int + 3;
            let hd = seq![36u8] + d + crlf();
            assert(hd.len() == ll);
            assert(s =~= hd + tail);
            let blen = b.len() as int;
            assert(s.len() - ll == tail.len());
            assert(tail.len() >= blen + 2);
            assert(s[ll + blen] == tail[blen] && tail[blen] == 13);
            assert(s[ll + blen + 1] == tail[blen + 1] && tail[blen + 1] == 10);
            assert(s.subrange(ll, ll + blen) =~= b);
            assert(spec_ser(f).len() == ll + blen + 2);
        },
        SpecFrame::BulkString(None) => {
            assert(s =~= seq![36u8] + seq![45u8, 49u8] + crlf() + rest);
            lemma_line_of(36, seq![45u8, 49u8], rest);
            let c = (seq![36u8] + seq![45u8, 49u8]).drop_first();
            assert(c =~= seq![45u8, 49u8]);
            let ds = c.drop_first();
            assert(ds =~= seq![49u8]);
            assert(ds.drop_last() =~= Seq::<u8>::empty());
            assert(digits_val(Seq::<u8>::empty()) == 0);
            assert(ds.last() == 49u8);
            assert(digits_val(ds) == digits_val(ds.drop_last()) * 10 + 1);
            assert(spec_parse_i64(c) == Some(-1i64));
            assert(spec_ser(f).len() == 5);
        },
        SpecFrame::Array(Some(items)) => {
            let d = u64_dec(items.len());
            let tail = ser_seq(items) + rest;
            lemma_u64_dec_no_lf(items.len());
            lemma_u64_dec_val(items.len());
            assert(s =~= seq![42u8] + d + crlf() + tail);
            lemma_line_of(42, d, tail);
            assert((seq![42u8] + d).drop_first() =~= d);
            let n_i64 = items.len() as i64;
            assert(i64_dec(n_i64 as int) == d);
            lemma_i64_dec_parse(n_i64);
            let ll: int = d.len() as int + 3;
            let hd = seq![42u8] + d + crlf();
            assert(hd.len() == ll);
            assert(s =~= hd + tail);
            assert(s.subrange(ll, s.len() as int) =~= tail);
            assert(decreases_to!(f => f->Array_0));
            assert(decreases_to!(f->Array_0 => f->Array_0->0));
            assert(f->Array_0->0 == items);
            lemma_parse_serialize_seq(items, rest, max);
            assert(spec_ser(f).len() == ll + ser_seq(items).len());
        },
        SpecFrame::Array(None) => {
            assert(s =~= seq![42u8] + seq![45u8, 49u8] + crlf() + rest);
            lemma_line_of(42, seq![45u8, 49u8], rest);
            let c = (seq![42u8] + seq![45u8, 49u8]).drop_first();
            assert(c =~= seq![45u8, 49u8]);
            let ds = c.drop_first();
            assert(ds =~= seq![49u8]);
            assert(ds.drop_last() =~= Seq::<u8>::empty());
            assert(digits_val(Seq::<u8>::empty()) == 0);
            assert(ds.last() == 49u8);
            assert(digits_val(ds) == digits_val(ds.drop_last()) * 10 + 1);
            assert(spec_parse_i64(c) == Some(-1i64));
            assert(spec_ser(f).len() == 5);
        },
        SpecFrame::Null => {},
        SpecFrame::Boolean(_) => {},
        SpecFrame::Exit => {},
    }
}

/// A run of parseable frames, serialized back to back, parses back to exactly
/// those frames.
pub proof fn lemma_parse_serialize_seq(items: Seq<SpecFrame>, rest: Seq<u8>, max: int)
    requires
        forall|i: int| 0 <= i < items.len() ==> parseable(#[trigger] items[i], max),
    ensures
        spec_parse_n(ser_seq(items) + rest, items.len() as nat, max) == Ok::<
            (Seq<SpecFrame>, int),
            FrameError,
        >((items, ser_seq(items).len() as int)),
    decreases items,
{
    let s = ser_seq(items) + rest;
    if items.len() == 0 {
        assert(ser_seq(items) =~= Seq::<u8>::empty());
        assert(items =~= Seq::<SpecFrame>::empty());
    } else {
        let f0 = items[0];
        let t = items.drop_first();
        assert(ser_seq(items) == spec_ser(f0) + ser_seq(t));
        lemma_parse_serialize(f0, ser_seq(t) + rest, max);
        lemma_ser_len(f0);
        let c0 = spec_ser(f0).len() as int;
        assert(s =~= spec_ser(f0) + (ser_seq(t) + rest));
        assert(spec_parse(s, max) == Ok::<(SpecFrame, int), FrameError>((f0, c0)));
        assert(1 <= c0 <= s.len());
        assert(forall|i: int| 0 <= i < t.len() ==> parseable(#[trigger] t[i], max)) by {
            assert(forall|i: int| 0 <= i < t.len() ==> t[i] == items[i + 1]);
        }
        lemma_parse_serialize_seq(t, rest, max);
        assert(s.subrange(c0, s.len() as int) =~= ser_seq(t) + rest);
        assert(seq![f0] + t =~= items);
        assert(spec_ser(f0).len() + ser_seq(t).len() == ser_seq(items).len());
    }
}

/// A bulk string of declared length N consumes exactly its header line, N raw
/// payload bytes, and one two-byte terminator, whatever bytes the payload
/// holds -- embedded carriage returns and line feeds included.
pub proof fn lemma_bulk_reads_exact(payload: Seq<u8>, rest: Seq<u8>, max: int)
    requires
        payload.len() <= max,
        payload.len() < 0x8000_0000_0000_0000,
    ensures
        ({
            let f = SpecFrame::BulkString(Some(payload));
            let header_len: int = 1 + u64_dec(payload.len()).len() as int + 2;
            spec_parse(spec_ser(f) + rest, max) == Ok::<(SpecFrame, int), FrameError>(
                (f, header_len + payload.len() as int + 2),
            )
        }),
{
    let f = SpecFrame::BulkString(Some(payload));
    lemma_parse_serialize(f, rest, max);
    assert(spec_ser(f).len() == 1 + u64_dec(payload.len()).len() + 2 + payload.len() + 2);
}

/// The null bulk string is distinguishable from the empty bulk string, and
/// the null array from the empty array: their wire forms differ, and each
/// parses back to its own frame.
pub proof fn lemma_null_distinct_from_empty(rest: Seq<u8>, max: int)
    requires
        max >= 0,
    ensures
        spec_ser(SpecFrame::BulkString(None)) != spec_ser(
            SpecFrame::BulkString(Some(Seq::empty())),
        ),
        spec_ser(SpecFrame::Array(None)) != spec_ser(SpecFrame::Array(Some(Seq::empty()))),
        spec_parse(spec_ser(SpecFrame::BulkString(None)) + rest, max) == Ok::<
            (SpecFrame, int),
            FrameError,
        >((SpecFrame::BulkString(None), 5)),
        spec_parse(spec_ser(SpecFrame::BulkString(Some(Seq::empty()))) + rest, max) == Ok::<
            (SpecFrame, int),
            FrameError,
        >((SpecFrame::BulkString(Some(Seq::empty())), 6)),
        spec_parse(spec_ser(SpecFrame::Array(None)) + rest, max) == Ok::<
            (SpecFrame, int),
            FrameError,
        >((SpecFrame::Array(None), 5)),
        spec_parse(spec_ser(SpecFrame::Array(Some(Seq::empty()))) + rest, max) == Ok::<
            (SpecFrame, int),
            FrameError,
        >((SpecFrame::Array(Some(Seq::empty())), 4)),
{
    lemma_u64_dec_val(0);
    assert(u64_dec(0) =~= seq![48u8]);
    lemma_parse_serialize(SpecFrame::BulkString(None), rest, max);
    lemma_parse_serialize(SpecFrame::BulkString(Some(Seq::empty())), rest, max);
    lemma_parse_serialize(SpecFrame::Array(None), rest, max);
    lemma_parse_serialize(SpecFrame::Array(Some(Seq::empty())), rest, max);
    let nb = spec_ser(SpecFrame::BulkString(None));
    let eb = spec_ser(SpecFrame::BulkString(Some(Seq::empty())));
    assert(eb =~= seq![36u8] + seq![48u8] + crlf() + Seq::<u8>::empty() + crlf());
    assert(nb[1] == 45 && eb[1] == 48);
    let na = spec_ser(SpecFrame::Array(None));
    let ea = spec_ser(SpecFrame::Array(Some(Seq::empty())));
    assert(ea =~= seq![42u8] + seq![48u8] + crlf() + ser_seq(Seq::<SpecFrame>::empty()));
    assert(na[1] == 45 && ea[1] == 48);
    assert(ser_seq(Seq::<SpecFrame>::empty()) =~= Seq::<u8>::empty());
    assert(eb.len() == 6);
    assert(ea.len() == 4);
}

} // verus!
