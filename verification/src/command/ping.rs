//! The connection-level PING command: replies with a plain PONG.

use vstd::prelude::*;

use crate::command::error::{CommandError, SpecCmdErr};
use crate::command::parser::{reject_extras, spec_reject_extras, Parser};
use crate::protocol::{Frame, SpecFrame};

verus! {

/// The PONG reply's bytes.
pub open spec fn spec_pong() -> Seq<u8> {
    seq![80u8, 79u8, 78u8, 71u8]
}

/// Takes no arguments; replies with the simple string PONG.
#[derive(PartialEq, Eq, Debug)]
pub struct Ping;

impl Ping {
    /// Consumes the cursor after the command name: PING takes nothing.
    pub fn from_parser(mut p: Parser) -> (r: Result<Ping, CommandError>)
        ensures
            match r {
                Ok(_) => spec_reject_extras(p.spec_rest()) == None::<SpecCmdErr>,
                Err(e) => spec_reject_extras(p.spec_rest()) == Some(e@),
            },
    {
        match reject_extras(&mut p) {
            None => Ok(Ping),
            Some(e) => Err(e),
        }
    }

    /// Replies PONG; the store is untouched.
    pub fn execute(self) -> (r: Result<Frame, CommandError>)
        ensures
            r matches Ok(f) && f@ == SpecFrame::SimpleString(spec_pong()),
    {
        let mut m: Vec<u8> = Vec::new();
        m.push(80);
        m.push(79);
        m.push(78);
        m.push(71);
        assert(m@ =~= spec_pong());
        Ok(Frame::SimpleString(m))
    }
}

} // verus!
