pub mod error;
pub mod option;
pub mod parser;
pub mod ping;
pub mod registry;
pub mod string;

use vstd::prelude::*;

use crate::ascii::{ascii_lower, ascii_upper, to_upper};
use crate::command::error::{spec_msg, CommandError, SpecCmdErr};
use crate::command::parser::{
    spec_empty_cmd_msg, spec_reject_extras, FrameConvert, Parser, StrArg,
};
use crate::command::ping::{spec_pong, Ping};
use crate::command::registry::{CommandHandler, Registry};
use crate::command::string::{
    spec_get_range, spec_obj_reply, spec_parse_get, spec_parse_getrange, spec_parse_getset,
    spec_parse_set, Get, GetRangeCommand, GetSetCommand, SetCommand,
};
use crate::database::{
    after_get_data, after_get_expires, map_present, sat_add, Database,
};
use crate::command::option::spec_ttl_ms;
use crate::object::RedisObject;
use crate::protocol::{Frame, SpecFrame};

verus! {

/// What resolving a request yields: the handler found under the upper-cased
/// name, the lower-cased name for error messages, the elements after the
/// name, and the element count of the request -- or the request-level error.
/// The name comes through the textual conversion: a simple string verbatim,
/// or a UTF-8-decodable bulk string.
pub open spec fn spec_resolve(f: SpecFrame, table: Map<Seq<u8>, CommandHandler>) -> Result<
    (CommandHandler, Seq<u8>, Seq<SpecFrame>, int),
    SpecCmdErr,
> {
    match f {
        SpecFrame::Array(Some(parts)) => {
            if parts.len() == 0 {
                Err(SpecCmdErr::InvalidCommandFormat(spec_empty_cmd_msg()))
            } else {
                match StrArg::spec_from_frame(parts[0]) {
                    Err(e) => Err(e),
                    Ok(name) => {
                        let up = ascii_upper(name);
                        if table.dom().contains(up) {
                            Ok(
                                (
                                    table[up],
                                    ascii_lower(name),
                                    parts.drop_first(),
                                    parts.len() as int,
                                ),
                            )
                        } else {
                            Err(SpecCmdErr::InvalidCommand(up))
                        }
                    },
                }
            }
        },
        _ => Err(SpecCmdErr::WrongType),
    }
}

/// The complete outcome of handing `rest` to the handler `h`: the reply
/// written back, and how the store moves from (`data0`, `exp0`) to
/// (`data1`, `exp1`).  A handler's business error becomes an error reply,
/// never a dropped connection.
pub open spec fn spec_outcome(
    h: CommandHandler,
    cmd: Seq<u8>,
    total: int,
    rest: Seq<SpecFrame>,
    data0: Map<Seq<u8>, RedisObject>,
    exp0: Map<Seq<u8>, u64>,
    now: u64,
    reply: SpecFrame,
    data1: Map<Seq<u8>, RedisObject>,
    exp1: Map<Seq<u8>, u64>,
) -> bool {
    match h {
        CommandHandler::Ping => {
            &&& reply == match spec_reject_extras(rest) {
                None => SpecFrame::SimpleString(spec_pong()),
                Some(e) => SpecFrame::Error(spec_msg(e)),
            }
            &&& data1 == data0
            &&& exp1 == exp0
        },
        CommandHandler::Get => match spec_parse_get(cmd, rest) {
            Err(e) => reply == SpecFrame::Error(spec_msg(e)) && data1 == data0 && exp1 == exp0,
            Ok(key) => {
                &&& reply == if map_present(data0, exp0, key, now) {
                    spec_obj_reply(data0[key])
                } else {
                    SpecFrame::BulkString(None::<Seq<u8>>)
                }
                &&& data1 == after_get_data(data0, exp0, key, now)
                &&& exp1 == after_get_expires(exp0, key, now)
            },
        },
        CommandHandler::SetCmd => match spec_parse_set(cmd, total, rest) {
            Err(e) => reply == SpecFrame::Error(spec_msg(e)) && data1 == data0 && exp1 == exp0,
            Ok((key, val, e2, _nx, _xx, kt, _g)) => {
                &&& reply == SpecFrame::Boolean(true)
                &&& data1 == data0.insert(key, data1[key])
                &&& data1[key].wf()
                &&& data1[key].header.spec_tag() == 0
                &&& data1[key].str_bytes() == val
                &&& (data1[key].ptr is EmbStr <==> val.len() <= 54)
                &&& (data1[key].ptr is Raw <==> val.len() > 54)
                &&& exp1 == if kt {
                    exp0
                } else {
                    match e2 {
                        Some(e) => exp0.insert(key, sat_add(now, spec_ttl_ms(e, now))),
                        None => exp0.remove(key),
                    }
                }
            },
        },
        CommandHandler::GetSet => match spec_parse_getset(cmd, rest) {
            Err(e) => reply == SpecFrame::Error(spec_msg(e)) && data1 == data0 && exp1 == exp0,
            Ok((key, val)) => {
                &&& reply == if map_present(data0, exp0, key, now) {
                    spec_obj_reply(data0[key])
                } else {
                    SpecFrame::Null
                }
                &&& data1 == data0.insert(key, data1[key])
                &&& data1[key].wf()
                &&& data1[key].header.spec_tag() == 0
                &&& data1[key].str_bytes() == val
                &&& (data1[key].ptr is EmbStr <==> val.len() <= 54)
                &&& (data1[key].ptr is Raw <==> val.len() > 54)
                &&& exp1 == exp0.remove(key)
            },
        },
        CommandHandler::GetRange => match spec_parse_getrange(cmd, rest) {
            Err(e) => reply == SpecFrame::Error(spec_msg(e)) && data1 == data0 && exp1 == exp0,
            Ok((key, start, end)) => {
                &&& data1 == after_get_data(data0, exp0, key, now)
                &&& exp1 == after_get_expires(exp0, key, now)
                &&& reply == if map_present(data0, exp0, key, now) {
                    if data0[key].header.spec_tag() != 0 {
                        SpecFrame::Error(spec_msg(SpecCmdErr::WrongType))
                    } else {
                        match spec_get_range(
                            data0[key].str_bytes().len() as int,
                            start as int,
                            end as int,
                        ) {
                            Some((a, b)) => SpecFrame::BulkString(
                                Some(data0[key].str_bytes().subrange(a, b)),
                            ),
                            None => SpecFrame::BulkString(None::<Seq<u8>>),
                        }
                    }
                } else {
                    SpecFrame::BulkString(None::<Seq<u8>>)
                }
            },
        },
    }
}

/// A resolved command: the handler it names, and the cursor over what
/// follows the name.  Created by a successful lookup, consumed once by
/// execution.
#[derive(Debug)]
pub struct Command {
    handler: CommandHandler,
    parser: Parser,
}

impl Command {
    pub closed spec fn spec_handler(self) -> CommandHandler {
        self.handler
    }

    pub closed spec fn spec_parser(self) -> Parser {
        self.parser
    }

    /// Resolves a request frame against the registry: wraps the request,
    /// consumes the first element as the command name, upper-cases it, and
    /// looks the handler up.  A miss is the unknown-command error, naming
    /// the command.
    pub fn parse(value: Frame, reg: &Registry) -> (r: Result<Command, CommandError>)
        ensures
            match r {
                Ok(c) => spec_resolve(value@, reg.spec_table()) == Ok::<
                    (CommandHandler, Seq<u8>, Seq<SpecFrame>, int),
                    SpecCmdErr,
                >(
                    (
                        c.spec_handler(),
                        c.spec_parser().spec_cmd(),
                        c.spec_parser().spec_rest(),
                        c.spec_parser().spec_total(),
                    ),
                ),
                Err(e) => spec_resolve(value@, reg.spec_table()) == Err::<
                    (CommandHandler, Seq<u8>, Seq<SpecFrame>, int),
                    SpecCmdErr,
                >(e@),
            },
    {
        let ghost fv = value@;
        let mut parser = match Parser::new(value) {
            Ok(p) => p,
            Err(e) => {
                return Err(e);
            },
        };
        let name: StrArg = match parser.next::<StrArg>() {
            Ok(n) => n,
            Err(e) => {
                proof {
                    assert(false);
                }
                return Err(e);
            },
        };
        let up = to_upper(&name.0);
        match reg.lookup(&up) {
            Some(h) => Ok(Command { handler: h, parser }),
            None => Err(CommandError::InvalidCommand(up)),
        }
    }

    /// Executes the resolved command: hands the remaining cursor to the
    /// handler, and renders any parse-level or business error as an error
    /// reply.  The connection goes on either way.
    pub fn execute(self, db: &mut Database, now_ms: u64) -> (r: Frame)
        requires
            old(db).wf(),
        ensures
            final(db).wf(),
            spec_outcome(
                self.spec_handler(),
                self.spec_parser().spec_cmd(),
                self.spec_parser().spec_total(),
                self.spec_parser().spec_rest(),
                old(db).spec_data(),
                old(db).spec_expires(),
                now_ms,
                r@,
                final(db).spec_data(),
                final(db).spec_expires(),
            ),
    {
        match self.handler {
            CommandHandler::Ping => match Ping::from_parser(self.parser) {
                Ok(c) => match c.execute() {
                    Ok(f) => f,
                    Err(e) => Frame::Error(e.to_message()),
                },
                Err(e) => Frame::Error(e.to_message()),
            },
            CommandHandler::Get => match Get::from_parser(self.parser) {
                Ok(c) => match c.execute(db, now_ms) {
                    Ok(f) => f,
                    Err(e) => Frame::Error(e.to_message()),
                },
                Err(e) => Frame::Error(e.to_message()),
            },
            CommandHandler::SetCmd => match SetCommand::from_parser(self.parser) {
                Ok(c) => match c.execute(db, now_ms) {
                    Ok(f) => f,
                    Err(e) => Frame::Error(e.to_message()),
                },
                Err(e) => Frame::Error(e.to_message()),
            },
            CommandHandler::GetSet => match GetSetCommand::from_parser(self.parser) {
                Ok(c) => match c.execute(db, now_ms) {
                    Ok(f) => f,
                    Err(e) => Frame::Error(e.to_message()),
                },
                Err(e) => Frame::Error(e.to_message()),
            },
            CommandHandler::GetRange => match GetRangeCommand::from_parser(self.parser) {
                Ok(c) => match c.execute(db, now_ms) {
                    Ok(f) => f,
                    Err(e) => Frame::Error(e.to_message()),
                },
                Err(e) => Frame::Error(e.to_message()),
            },
        }
    }
}

/// Serves one request frame: resolve, execute, and render request-level
/// errors as error replies.  Request-level and command-level failures never
/// end the connection; only the reply differs.
pub fn execute_request(frame: Frame, reg: &Registry, db: &mut Database, now_ms: u64) -> (r: Frame)
    requires
        old(db).wf(),
    ensures
        final(db).wf(),
        match spec_resolve(frame@, reg.spec_table()) {
            Err(e) => r@ == SpecFrame::Error(spec_msg(e)) && final(db).spec_data() == old(
                db,
            ).spec_data() && final(db).spec_expires() == old(db).spec_expires(),
            Ok((h, cmd, rest, total)) => spec_outcome(
                h,
                cmd,
                total,
                rest,
                old(db).spec_data(),
                old(db).spec_expires(),
                now_ms,
                r@,
                final(db).spec_data(),
                final(db).spec_expires(),
            ),
        },
{
    match Command::parse(frame, reg) {
        Ok(cmd) => cmd.execute(db, now_ms),
        Err(e) => Frame::Error(e.to_message()),
    }
}

/// The upper-cased names the built-in commands register under.
pub open spec fn spec_ping_name() -> Seq<u8> {
    seq![80u8, 73u8, 78u8, 71u8]
}

pub open spec fn spec_get_name() -> Seq<u8> {
    seq![71u8, 69u8, 84u8]
}

pub open spec fn spec_set_name() -> Seq<u8> {
    seq![83u8, 69u8, 84u8]
}

pub open spec fn spec_getset_name() -> Seq<u8> {
    seq![71u8, 69u8, 84u8, 83u8, 69u8, 84u8]
}

pub open spec fn spec_getrange_name() -> Seq<u8> {
    seq![71u8, 69u8, 84u8, 82u8, 65u8, 78u8, 71u8, 69u8]
}

/// The live table after the built-ins are drained into an empty registry.
pub open spec fn spec_builtin_table() -> Map<Seq<u8>, CommandHandler> {
    Map::empty().insert(spec_ping_name(), CommandHandler::Ping).insert(
        spec_get_name(),
        CommandHandler::Get,
    ).insert(spec_set_name(), CommandHandler::SetCmd).insert(
        spec_getset_name(),
        CommandHandler::GetSet,
    ).insert(spec_getrange_name(), CommandHandler::GetRange)
}

/// The startup routine: collects each command module's (name, handler) pair
/// into the queue and drains it, building the immutable registry before any
/// connection is served.
pub fn default_registry() -> (r: Registry)
    ensures
        r.spec_table() == spec_builtin_table(),
        (r.spec_pending() == Seq::<(Seq<u8>, CommandHandler)>::empty()),
{
    let mut reg = Registry::new();
    let mut n: Vec<u8> = Vec::new();
    n.push(80);
    n.push(73);
    n.push(78);
    n.push(71);
    proof {
        assert(ascii_upper(n@) =~= spec_ping_name());
    }
    reg.en_register_queue(&n, CommandHandler::Ping);
    let mut n: Vec<u8> = Vec::new();
    n.push(71);
    n.push(69);
    n.push(84);
    proof {
        assert(ascii_upper(n@) =~= spec_get_name());
    }
    reg.en_register_queue(&n, CommandHandler::Get);
    let mut n: Vec<u8> = Vec::new();
    n.push(83);
    n.push(69);
    n.push(84);
    proof {
        assert(ascii_upper(n@) =~= spec_set_name());
    }
    reg.en_register_queue(&n, CommandHandler::SetCmd);
    let mut n: Vec<u8> = Vec::new();
    n.push(71);
    n.push(69);
    n.push(84);
    n.push(83);
    n.push(69);
    n.push(84);
    proof {
        assert(ascii_upper(n@) =~= spec_getset_name());
    }
    reg.en_register_queue(&n, CommandHandler::GetSet);
    let mut n: Vec<u8> = Vec::new();
    n.push(71);
    n.push(69);
    n.push(84);
    n.push(82);
    n.push(65);
    n.push(78);
    n.push(71);
    n.push(69);
    proof {
        assert(ascii_upper(n@) =~= spec_getrange_name());
    }
    reg.en_register_queue(&n, CommandHandler::GetRange);
    reg.do_register();
    proof {
        let ents = reg.spec_entries();
        assert(ents.len() == 5);
        assert(ents[0] == (spec_ping_name(), CommandHandler::Ping));
        assert(ents[1] == (spec_get_name(), CommandHandler::Get));
        assert(ents[2] == (spec_set_name(), CommandHandler::SetCmd));
        assert(ents[3] == (spec_getset_name(), CommandHandler::GetSet));
        assert(ents[4] == (spec_getrange_name(), CommandHandler::GetRange));
        let e4 = ents.drop_last();
        let e3 = e4.drop_last();
        let e2 = e3.drop_last();
        let e1 = e2.drop_last();
        let e0 = e1.drop_last();
        assert(e4.len() == 4 && e4.last() == ents[3]);
        assert(e3.len() == 3 && e3.last() == ents[2]);
        assert(e2.len() == 2 && e2.last() == ents[1]);
        assert(e1.len() == 1 && e1.last() == ents[0]);
        assert(e0 =~= Seq::<(Seq<u8>, CommandHandler)>::empty());
        assert(crate::command::registry::assoc_map(e0) == Map::<
            Seq<u8>,
            CommandHandler,
        >::empty());
        assert(crate::command::registry::assoc_map(e1) == Map::<
            Seq<u8>,
            CommandHandler,
        >::empty().insert(spec_ping_name(), CommandHandler::Ping));
        assert(crate::command::registry::assoc_map(e2) == crate::command::registry::assoc_map(
            e1,
        ).insert(spec_get_name(), CommandHandler::Get));
        assert(crate::command::registry::assoc_map(e3) == crate::command::registry::assoc_map(
            e2,
        ).insert(spec_set_name(), CommandHandler::SetCmd));
        assert(crate::command::registry::assoc_map(e4) == crate::command::registry::assoc_map(
            e3,
        ).insert(spec_getset_name(), CommandHandler::GetSet));
        assert(crate::command::registry::assoc_map(ents) == crate::command::registry::assoc_map(
            e4,
        ).insert(spec_getrange_name(), CommandHandler::GetRange));
        assert(reg.spec_table() == spec_builtin_table());
    }
    reg
}

} // verus!
