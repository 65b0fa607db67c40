use vstd::prelude::*;
use crate::resp::RespV;
use crate::db::DbView;
use crate::utf8_text::uppercase;
use crate::command::command::{
    CommandKind, StepV, command_named, command_outcome, dispatch_outcome, request_outcome,
};
use crate::command::cmd_lpush::list_entry;
use crate::command::laws::{push_args, live_list, law_lpush_list, law_rpush_list};

verus! {

/// Each name of the table names its own command.
proof fn lemma_names()
    ensures
        command_named("PING"@) == Some(CommandKind::Ping),
        command_named("ECHO"@) == Some(CommandKind::Echo),
        command_named("SET"@) == Some(CommandKind::SetValue),
        command_named("GET"@) == Some(CommandKind::GetValue),
        command_named("RPUSH"@) == Some(CommandKind::Rpush),
        command_named("LPUSH"@) == Some(CommandKind::Lpush),
        command_named("LLEN"@) == Some(CommandKind::Llen),
        command_named("BLPOP"@) == Some(CommandKind::Blpop),
        command_named("LPOP"@) == Some(CommandKind::Lpop),
        command_named("LRANGE"@) == Some(CommandKind::Lrange),
{
    reveal_strlit("PING");
    reveal_strlit("ECHO");
    reveal_strlit("SET");
    reveal_strlit("GET");
    reveal_strlit("RPUSH");
    reveal_strlit("LPUSH");
    reveal_strlit("LLEN");
    reveal_strlit("BLPOP");
    reveal_strlit("LPOP");
    reveal_strlit("LRANGE");
    // names of one length differ in a letter
    assert("SET"@[0] != "GET"@[0]);
    assert("PING"@[0] != "ECHO"@[0]);
    assert("PING"@[0] != "LLEN"@[0]);
    assert("PING"@[0] != "LPOP"@[0]);
    assert("ECHO"@[0] != "LLEN"@[0]);
    assert("ECHO"@[0] != "LPOP"@[0]);
    assert("LLEN"@[1] != "LPOP"@[1]);
    assert("RPUSH"@[0] != "LPUSH"@[0]);
    assert("RPUSH"@[0] != "BLPOP"@[0]);
    assert("LPUSH"@[0] != "BLPOP"@[0]);
    assert("LPUSH"@.len() != "LLEN"@.len());
    assert("LPUSH"@.len() != "LPOP"@.len());
    assert("LPUSH"@.len() != "LRANGE"@.len());
}

/// A request is run by the command that its name names: `PING`, `ECHO`, `SET`, `GET`,
/// `RPUSH`, `LPUSH`, `LLEN`, `BLPOP`, `LPOP` and `LRANGE` each by its own command.
pub proof fn law_names_run_their_commands(m: DbView, args: Seq<RespV>, now: u64)
    ensures
        dispatch_outcome(m, "PING"@, args, now) == command_outcome(CommandKind::Ping, m, args, now),
        dispatch_outcome(m, "ECHO"@, args, now) == command_outcome(CommandKind::Echo, m, args, now),
        dispatch_outcome(m, "SET"@, args, now) == command_outcome(CommandKind::SetValue, m, args, now),
        dispatch_outcome(m, "GET"@, args, now) == command_outcome(CommandKind::GetValue, m, args, now),
        dispatch_outcome(m, "RPUSH"@, args, now) == command_outcome(CommandKind::Rpush, m, args, now),
        dispatch_outcome(m, "LPUSH"@, args, now) == command_outcome(CommandKind::Lpush, m, args, now),
        dispatch_outcome(m, "LLEN"@, args, now) == command_outcome(CommandKind::Llen, m, args, now),
        dispatch_outcome(m, "BLPOP"@, args, now) == command_outcome(CommandKind::Blpop, m, args, now),
        dispatch_outcome(m, "LPOP"@, args, now) == command_outcome(CommandKind::Lpop, m, args, now),
        dispatch_outcome(m, "LRANGE"@, args, now) == command_outcome(CommandKind::Lrange, m, args, now),
        dispatch_outcome(m, "PING"@, args, now).1 == StepV::Reply(RespV::Simple("PONG"@)),
{
    lemma_names();
}

/// A request `[name, key, v1 .. vn]` whose name upper-cases to `LPUSH` puts `vn .. v1` in
/// front of the list under the key; one whose name upper-cases to `RPUSH` puts `v1 .. vn`
/// after it. Either answers the new length.
pub proof fn law_push_requests(
    m: DbView,
    name: Seq<char>,
    key: Seq<char>,
    vals: Seq<Seq<char>>,
    now: u64,
)
    requires
        vals.len() >= 1,
        live_list(m, key, now) is Some,
    ensures
        ({
            let l = live_list(m, key, now)->Some_0;
            let req = RespV::Array(seq![RespV::BulkString(name)] + push_args(key, vals));
            let (m2, step) = request_outcome(m, req, now);
            &&& uppercase(name) == "LPUSH"@ ==> m2.contains_key(key)
                && m2[key] == list_entry(vals.reverse() + l, now)
                && step == Some(StepV::Reply(RespV::Int((vals.len() + l.len()) as i64)))
            &&& uppercase(name) == "RPUSH"@ ==> m2.contains_key(key)
                && m2[key] == list_entry(l + vals, now)
                && step == Some(StepV::Reply(RespV::Int((vals.len() + l.len()) as i64)))
        }),
{
    lemma_names();
    law_lpush_list(m, key, vals, now);
    law_rpush_list(m, key, vals, now);
    let req_items = seq![RespV::BulkString(name)] + push_args(key, vals);
    assert(req_items[0] == RespV::BulkString(name));
    assert(req_items.drop_first() =~= push_args(key, vals));
}

} // verus!
