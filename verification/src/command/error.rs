//! Command-level errors: always recoverable, always rendered as a
//! client-visible protocol error reply, never terminating the connection.

use vstd::prelude::*;

use crate::decimal::{fmt_u64, u64_dec};
use crate::protocol::push_all;

verus! {

/// What can go wrong while resolving or typing a command.
#[derive(Debug, PartialEq, Eq)]
pub enum CommandError {
    /// No handler is registered under the (upper-cased) name.
    InvalidCommand(Vec<u8>),
    /// The request shape is wrong: an empty request array, or an unknown
    /// trailing option token.
    InvalidCommandFormat(Vec<u8>),
    /// Too few arguments for the command; the count is checked once, up
    /// front, before any value is converted.
    InvalidArgumentNumber(Vec<u8>, usize),
    /// A value whose wire shape does not convert to the field's type.
    WrongType,
    /// A textual value whose bytes do not decode as UTF-8.
    FromUtf8Error,
    /// A value that should carry a decimal number but does not.
    ParseIntError,
}

/// The mathematical shape of a `CommandError`.
pub enum SpecCmdErr {
    InvalidCommand(Seq<u8>),
    InvalidCommandFormat(Seq<u8>),
    InvalidArgumentNumber(Seq<u8>, int),
    WrongType,
    FromUtf8Error,
    ParseIntError,
}

impl View for CommandError {
    type V = SpecCmdErr;

    open spec fn view(&self) -> SpecCmdErr {
        match self {
            CommandError::InvalidCommand(n) => SpecCmdErr::InvalidCommand(n@),
            CommandError::InvalidCommandFormat(s) => SpecCmdErr::InvalidCommandFormat(s@),
            CommandError::InvalidArgumentNumber(c, n) => SpecCmdErr::InvalidArgumentNumber(
                c@,
                *n as int,
            ),
            CommandError::WrongType => SpecCmdErr::WrongType,
            CommandError::FromUtf8Error => SpecCmdErr::FromUtf8Error,
            CommandError::ParseIntError => SpecCmdErr::ParseIntError,
        }
    }
}

pub open spec fn spec_invalid_cmd_pre() -> Seq<u8> {
    seq![73u8, 110u8, 118u8, 97u8, 108u8, 105u8, 100u8, 32u8, 99u8, 111u8, 109u8, 109u8, 97u8, 110u8, 100u8, 58u8, 32u8, 96u8]
}
pub open spec fn spec_backtick() -> Seq<u8> {
    seq![96u8]
}
pub open spec fn spec_invalid_fmt_pre() -> Seq<u8> {
    seq![73u8, 110u8, 118u8, 97u8, 108u8, 105u8, 100u8, 32u8, 102u8, 111u8, 114u8, 109u8, 97u8, 116u8, 32u8, 102u8, 111u8, 114u8, 32u8, 96u8]
}
pub open spec fn spec_invalid_fmt_post() -> Seq<u8> {
    seq![96u8, 32u8, 99u8, 111u8, 109u8, 109u8, 97u8, 110u8, 100u8]
}
pub open spec fn spec_arg_num_pre() -> Seq<u8> {
    seq![87u8, 114u8, 111u8, 110u8, 103u8, 32u8, 110u8, 117u8, 109u8, 98u8, 101u8, 114u8, 32u8, 111u8, 102u8, 32u8, 97u8, 114u8, 103u8, 117u8, 109u8, 101u8, 110u8, 116u8, 115u8, 32u8, 102u8, 111u8, 114u8, 32u8, 96u8]
}
pub open spec fn spec_arg_num_mid() -> Seq<u8> {
    seq![96u8, 32u8, 99u8, 111u8, 109u8, 109u8, 97u8, 110u8, 100u8, 44u8, 32u8, 101u8, 120u8, 112u8, 101u8, 99u8, 116u8, 32u8]
}
pub open spec fn spec_arg_num_post() -> Seq<u8> {
    seq![32u8, 118u8, 97u8, 108u8, 117u8, 101u8, 40u8, 115u8, 41u8]
}
pub open spec fn spec_wrong_type_msg() -> Seq<u8> {
    seq![79u8, 112u8, 101u8, 114u8, 97u8, 116u8, 105u8, 111u8, 110u8, 32u8, 97u8, 103u8, 97u8, 105u8, 110u8, 115u8, 116u8, 32u8, 97u8, 32u8, 107u8, 101u8, 121u8, 32u8, 104u8, 111u8, 108u8, 100u8, 105u8, 110u8, 103u8, 32u8, 116u8, 104u8, 101u8, 32u8, 119u8, 114u8, 111u8, 110u8, 103u8, 32u8, 107u8, 105u8, 110u8, 100u8, 32u8, 111u8, 102u8, 32u8, 118u8, 97u8, 108u8, 117u8, 101u8]
}
pub open spec fn spec_from_utf8_msg() -> Seq<u8> {
    seq![70u8, 114u8, 111u8, 109u8, 32u8, 85u8, 84u8, 70u8, 45u8, 56u8, 32u8, 101u8, 114u8, 114u8, 111u8, 114u8]
}
pub open spec fn spec_parse_int_msg() -> Seq<u8> {
    seq![86u8, 97u8, 108u8, 117u8, 101u8, 32u8, 105u8, 115u8, 32u8, 110u8, 111u8, 116u8, 32u8, 97u8, 110u8, 32u8, 105u8, 110u8, 116u8, 101u8, 103u8, 101u8, 114u8, 32u8, 111u8, 114u8, 32u8, 111u8, 117u8, 116u8, 32u8, 111u8, 102u8, 32u8, 114u8, 97u8, 110u8, 103u8, 101u8]
}

/// The client-visible message for each error.
pub open spec fn spec_msg(e: SpecCmdErr) -> Seq<u8> {
    match e {
        SpecCmdErr::InvalidCommand(name) => spec_invalid_cmd_pre() + name + spec_backtick(),
        SpecCmdErr::InvalidCommandFormat(s) => spec_invalid_fmt_pre() + s + spec_invalid_fmt_post(),
        SpecCmdErr::InvalidArgumentNumber(c, n) => spec_arg_num_pre() + c + spec_arg_num_mid()
            + u64_dec(n as nat) + spec_arg_num_post(),
        SpecCmdErr::WrongType => spec_wrong_type_msg(),
        SpecCmdErr::FromUtf8Error => spec_from_utf8_msg(),
        SpecCmdErr::ParseIntError => spec_parse_int_msg(),
    }
}

fn push_invalid_cmd_pre(out: &mut Vec<u8>)
    ensures
        final(out)@ == old(out)@ + spec_invalid_cmd_pre(),
{
    let ghost base = out@;
    out.push(73);
    out.push(110);
    out.push(118);
    out.push(97);
    out.push(108);
    out.push(105);
    out.push(100);
    out.push(32);
    out.push(99);
    out.push(111);
    out.push(109);
    out.push(109);
    out.push(97);
    out.push(110);
    out.push(100);
    out.push(58);
    out.push(32);
    out.push(96);
    assert(out@ =~= base + spec_invalid_cmd_pre());
}
fn push_backtick(out: &mut Vec<u8>)
    ensures
        final(out)@ == old(out)@ + spec_backtick(),
{
    let ghost base = out@;
    out.push(96);
    assert(out@ =~= base + spec_backtick());
}
fn push_invalid_fmt_pre(out: &mut Vec<u8>)
    ensures
        final(out)@ == old(out)@ + spec_invalid_fmt_pre(),
{
    let ghost base = out@;
    out.push(73);
    out.push(110);
    out.push(118);
    out.push(97);
    out.push(108);
    out.push(105);
    out.push(100);
    out.push(32);
    out.push(102);
    out.push(111);
    out.push(114);
    out.push(109);
    out.push(97);
    out.push(116);
    out.push(32);
    out.push(102);
    out.push(111);
    out.push(114);
    out.push(32);
    out.push(96);
    assert(out@ =~= base + spec_invalid_fmt_pre());
}
fn push_invalid_fmt_post(out: &mut Vec<u8>)
    ensures
        final(out)@ == old(out)@ + spec_invalid_fmt_post(),
{
    let ghost base = out@;
    out.push(96);
    out.push(32);
    out.push(99);
    out.push(111);
    out.push(109);
    out.push(109);
    out.push(97);
    out.push(110);
    out.push(100);
    assert(out@ =~= base + spec_invalid_fmt_post());
}
fn push_arg_num_pre(out: &mut Vec<u8>)
    ensures
        final(out)@ == old(out)@ + spec_arg_num_pre(),
{
    let ghost base = out@;
    out.push(87);
    out.push(114);
    out.push(111);
    out.push(110);
    out.push(103);
    out.push(32);
    out.push(110);
    out.push(117);
    out.push(109);
    out.push(98);
    out.push(101);
    out.push(114);
    out.push(32);
    out.push(111);
    out.push(102);
    out.push(32);
    out.push(97);
    out.push(114);
    out.push(103);
    out.push(117);
    out.push(109);
    out.push(101);
    out.push(110);
    out.push(116);
    out.push(115);
    out.push(32);
    out.push(102);
    out.push(111);
    out.push(114);
    out.push(32);
    out.push(96);
    assert(out@ =~= base + spec_arg_num_pre());
}
fn push_arg_num_mid(out: &mut Vec<u8>)
    ensures
        final(out)@ == old(out)@ + spec_arg_num_mid(),
{
    let ghost base = out@;
    out.push(96);
    out.push(32);
    out.push(99);
    out.push(111);
    out.push(109);
    out.push(109);
    out.push(97);
    out.push(110);
    out.push(100);
    out.push(44);
    out.push(32);
    out.push(101);
    out.push(120);
    out.push(112);
    out.push(101);
    out.push(99);
    out.push(116);
    out.push(32);
    assert(out@ =~= base + spec_arg_num_mid());
}
fn push_arg_num_post(out: &mut Vec<u8>)
    ensures
        final(out)@ == old(out)@ + spec_arg_num_post(),
{
    let ghost base = out@;
    out.push(32);
    out.push(118);
    out.push(97);
    out.push(108);
    out.push(117);
    out.push(101);
    out.push(40);
    out.push(115);
    out.push(41);
    assert(out@ =~= base + spec_arg_num_post());
}
fn push_wrong_type_msg(out: &mut Vec<u8>)
    ensures
        final(out)@ == old(out)@ + spec_wrong_type_msg(),
{
    let ghost base = out@;
    out.push(79);
    out.push(112);
    out.push(101);
    out.push(114);
    out.push(97);
    out.push(116);
    out.push(105);
    out.push(111);
    out.push(110);
    out.push(32);
    out.push(97);
    out.push(103);
    out.push(97);
    out.push(105);
    out.push(110);
    out.push(115);
    out.push(116);
    out.push(32);
    out.push(97);
    out.push(32);
    out.push(107);
    out.push(101);
    out.push(121);
    out.push(32);
    out.push(104);
    out.push(111);
    out.push(108);
    out.push(100);
    out.push(105);
    out.push(110);
    out.push(103);
    out.push(32);
    out.push(116);
    out.push(104);
    out.push(101);
    out.push(32);
    out.push(119);
    out.push(114);
    out.push(111);
    out.push(110);
    out.push(103);
    out.push(32);
    out.push(107);
    out.push(105);
    out.push(110);
    out.push(100);
    out.push(32);
    out.push(111);
    out.push(102);
    out.push(32);
    out.push(118);
    out.push(97);
    out.push(108);
    out.push(117);
    out.push(101);
    assert(out@ =~= base + spec_wrong_type_msg());
}
fn push_from_utf8_msg(out: &mut Vec<u8>)
    ensures
        final(out)@ == old(out)@ + spec_from_utf8_msg(),
{
    let ghost base = out@;
    out.push(70);
    out.push(114);
    out.push(111);
    out.push(109);
    out.push(32);
    out.push(85);
    out.push(84);
    out.push(70);
    out.push(45);
    out.push(56);
    out.push(32);
    out.push(101);
    out.push(114);
    out.push(114);
    out.push(111);
    out.push(114);
    assert(out@ =~= base + spec_from_utf8_msg());
}
fn push_parse_int_msg(out: &mut Vec<u8>)
    ensures
        final(out)@ == old(out)@ + spec_parse_int_msg(),
{
    let ghost base = out@;
    out.push(86);
    out.push(97);
    out.push(108);
    out.push(117);
    out.push(101);
    out.push(32);
    out.push(105);
    out.push(115);
    out.push(32);
    out.push(110);
    out.push(111);
    out.push(116);
    out.push(32);
    out.push(97);
    out.push(110);
    out.push(32);
    out.push(105);
    out.push(110);
    out.push(116);
    out.push(101);
    out.push(103);
    out.push(101);
    out.push(114);
    out.push(32);
    out.push(111);
    out.push(114);
    out.push(32);
    out.push(111);
    out.push(117);
    out.push(116);
    out.push(32);
    out.push(111);
    out.push(102);
    out.push(32);
    out.push(114);
    out.push(97);
    out.push(110);
    out.push(103);
    out.push(101);
    assert(out@ =~= base + spec_parse_int_msg());
}

impl CommandError {
    /// Renders the error as its client-visible message bytes.
    pub fn to_message(&self) -> (r: Vec<u8>)
        ensures
            r@ == spec_msg(self@),
    {
        let mut out: Vec<u8> = Vec::new();
        match self {
            CommandError::InvalidCommand(name) => {
                push_invalid_cmd_pre(&mut out);
                push_all(&mut out, name);
                push_backtick(&mut out);
            },
            CommandError::InvalidCommandFormat(s) => {
                push_invalid_fmt_pre(&mut out);
                push_all(&mut out, s);
                push_invalid_fmt_post(&mut out);
            },
            CommandError::InvalidArgumentNumber(c, n) => {
                push_arg_num_pre(&mut out);
                push_all(&mut out, c);
                push_arg_num_mid(&mut out);
                let mut d = fmt_u64(*n as u64);
                out.append(&mut d);
                push_arg_num_post(&mut out);
            },
            CommandError::WrongType => {
                push_wrong_type_msg(&mut out);
            },
            CommandError::FromUtf8Error => {
                push_from_utf8_msg(&mut out);
            },
            CommandError::ParseIntError => {
                push_parse_int_msg(&mut out);
            },
        }
        assert(out@ =~= spec_msg(self@));
        out
    }
}

} // verus!
