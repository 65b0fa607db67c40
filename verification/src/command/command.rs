use vstd::prelude::*;
use vstd::hash_map::StringHashMap;
use crate::resp::{Resp, RespV, items_view, lemma_items_view};
use crate::db::{MemoryDb, DbEntryV, DbView, wrote};
use crate::clock::now_millis;
use crate::utf8_text::{to_uppercase, uppercase, is_ascii_text, ascii_upper};
use crate::command::common::{args_view, lemma_args_view};
use crate::command::cmd_ping::CommandPing;
use crate::command::cmd_echo::CommandEcho;
use crate::command::cmd_get_set::{CommandSet, CommandGet, set_outcome, get_outcome, set_write};
use crate::command::cmd_rpush::{CommandRpush, rpush_outcome, rpush_write};
use crate::command::cmd_lpush::{CommandLpush, lpush_outcome, lpush_write};
use crate::command::cmd_llen::{CommandLlen, llen_outcome};
use crate::command::cmd_blpop::{CommandBlpop, blpop_key};
use crate::command::cmd_lpop::{CommandLpop, lpop_outcome, lpop_write};
use crate::command::cmd_lrange::{CommandLrange, lrange_outcome};

verus! {

/// The commands the server knows.
#[derive(Clone, Copy, Debug, PartialEq, Eq, Structural)]
pub enum CommandKind {
    Ping,
    Echo,
    SetValue,
    GetValue,
    Rpush,
    Lpush,
    Llen,
    Blpop,
    Lpop,
    Lrange,
}

/// The names of the commands (upper case) and the commands they name.
pub open spec fn command_table() -> Map<Seq<char>, CommandKind> {
    map![
        "PING"@ => CommandKind::Ping,
        "ECHO"@ => CommandKind::Echo,
        "SET"@ => CommandKind::SetValue,
        "GET"@ => CommandKind::GetValue,
        "RPUSH"@ => CommandKind::Rpush,
        "LPUSH"@ => CommandKind::Lpush,
        "LLEN"@ => CommandKind::Llen,
        "BLPOP"@ => CommandKind::Blpop,
        "LPOP"@ => CommandKind::Lpop,
        "LRANGE"@ => CommandKind::Lrange,
    ]
}

/// The command that a name names.
pub open spec fn command_named(name: Seq<char>) -> Option<CommandKind> {
    if command_table().contains_key(name) {
        Some(command_table()[name])
    } else {
        None
    }
}

/// The commands of the server, by name.
pub struct CommandRegistry {
    commands: StringHashMap<CommandKind>,
}

impl View for CommandRegistry {
    type V = Map<Seq<char>, CommandKind>;

    closed spec fn view(&self) -> Map<Seq<char>, CommandKind> {
        self.commands@
    }
}

impl CommandRegistry {
    /// The registry holds the command table.
    #[verifier::type_invariant]
    spec fn holds_table(&self) -> bool {
        self@ == command_table()
    }

    /// The registry of all the commands.
    pub fn new() -> (r: Self)
        ensures
            r@ == command_table(),
    {
        let mut commands: StringHashMap<CommandKind> = StringHashMap::new();
        commands.insert("PING".to_owned(), CommandKind::Ping);
        commands.insert("ECHO".to_owned(), CommandKind::Echo);
        commands.insert("SET".to_owned(), CommandKind::SetValue);
        commands.insert("GET".to_owned(), CommandKind::GetValue);
        commands.insert("RPUSH".to_owned(), CommandKind::Rpush);
        commands.insert("LPUSH".to_owned(), CommandKind::Lpush);
        commands.insert("LLEN".to_owned(), CommandKind::Llen);
        commands.insert("BLPOP".to_owned(), CommandKind::Blpop);
        commands.insert("LPOP".to_owned(), CommandKind::Lpop);
        commands.insert("LRANGE".to_owned(), CommandKind::Lrange);
        assert(commands@ =~= command_table());
        CommandRegistry { commands }
    }

    /// The command named `name` (the name must be upper case).
    pub fn lookup(&self, name: &str) -> (r: Option<CommandKind>)
        ensures
            r == command_named(name@),
    {
        proof {
            use_type_invariant(self);
        }
        match self.commands.get(name) {
            Some(kind) => Some(*kind),
            None => None,
        }
    }
}

/// What handling a request leads to.
#[derive(Debug, PartialEq)]
pub enum Step {
    /// Send this reply.
    Reply(Resp),
    /// `BLPOP`: wait for the list under `key` (up to the timeout given as text), then finish
    /// with [`CommandBlpop::pop_front`].
    WaitForList { key: String, timeout: Option<String> },
}

/// The model of a [`Step`].
pub enum StepV {
    Reply(RespV),
    WaitForList(Seq<char>, Option<Seq<char>>),
}

impl View for Step {
    type V = StepV;

    open spec fn view(&self) -> StepV {
        match self {
            Step::Reply(r) => StepV::Reply(r@),
            Step::WaitForList { key, timeout } => StepV::WaitForList(
                key@,
                match timeout {
                    Some(t) => Some(t@),
                    None => None,
                },
            ),
        }
    }
}

/// The timeout text of `BLPOP`: its second argument, where that is a bulk string.
pub open spec fn timeout_text(args: Seq<RespV>) -> Option<Seq<char>> {
    if args.len() > 1 && args[1] is BulkString {
        Some(args[1]->BulkString_0)
    } else {
        None
    }
}

/// A reply step, with the database.
pub open spec fn reply_with(p: (DbView, RespV)) -> (DbView, StepV) {
    (p.0, StepV::Reply(p.1))
}

/// Running a command on its arguments at time `now`: the database afterwards and the step.
pub open spec fn command_outcome(kind: CommandKind, m: DbView, args: Seq<RespV>, now: u64) -> (DbView, StepV) {
    match kind {
        CommandKind::Ping => (m, StepV::Reply(RespV::Simple("PONG"@))),
        CommandKind::Echo => (m, StepV::Reply(if args.len() > 0 { args[0] } else { RespV::Simple(""@) })),
        CommandKind::SetValue => reply_with(set_outcome(m, args, now)),
        CommandKind::GetValue => reply_with(get_outcome(m, args, now)),
        CommandKind::Rpush => reply_with(rpush_outcome(m, args, now)),
        CommandKind::Lpush => reply_with(lpush_outcome(m, args, now)),
        CommandKind::Llen => reply_with(llen_outcome(m, args, now)),
        CommandKind::Lpop => reply_with(lpop_outcome(m, args, now)),
        CommandKind::Lrange => reply_with(lrange_outcome(m, args, now)),
        CommandKind::Blpop => match blpop_key(args) {
            None => (m, StepV::Reply(RespV::NullBulkString)),
            Some(k) => (m, StepV::WaitForList(k, timeout_text(args))),
        },
    }
}

/// Running the command named `name` an error reply for an unknown name.
pub open spec fn dispatch_outcome(m: DbView, name: Seq<char>, args: Seq<RespV>, now: u64) -> (DbView, StepV) {
    match command_named(name) {
        None => (m, StepV::Reply(RespV::Error("Command not implemented"@))),
        Some(kind) => command_outcome(kind, m, args, now),
    }
}

/// The write that running a command makes: the key and its new entry, if any.
pub open spec fn command_write(kind: CommandKind, m: DbView, args: Seq<RespV>, now: u64) -> Option<(Seq<char>, DbEntryV)> {
    match kind {
        CommandKind::SetValue => set_write(args, now),
        CommandKind::Rpush => rpush_write(m, args, now),
        CommandKind::Lpush => lpush_write(m, args, now),
        CommandKind::Lpop => lpop_write(m, args, now),
        _ => None,
    }
}

/// The write that running the command named `name` makes.
pub open spec fn dispatch_write(m: DbView, name: Seq<char>, args: Seq<RespV>, now: u64) -> Option<(Seq<char>, DbEntryV)> {
    match command_named(name) {
        None => None,
        Some(kind) => command_write(kind, m, args, now),
    }
}

/// The write that handling a request makes.
pub open spec fn request_write(m: DbView, req: RespV, now: u64) -> Option<(Seq<char>, DbEntryV)> {
    match req {
        RespV::Array(items) => {
            if items.len() > 0 && items[0] is BulkString {
                let upper = uppercase(items[0]->BulkString_0);
                let args = items.drop_first();
                if lacks_set_value(upper, args) { None } else { dispatch_write(m, upper, args, now) }
            } else {
                None
            }
        },
        _ => None,
    }
}

/// `SET` with only a key: reading its value would go past the end of the arguments.
pub open spec fn lacks_set_value(name: Seq<char>, args: Seq<RespV>) -> bool {
    command_named(name) == Some(CommandKind::SetValue) && args.len() == 1
}

/// Handling a request at time `now`: the database afterwards and the step; `None` for a `SET`
/// with only a key, which is refused (the database stays as it is).
pub open spec fn request_outcome(m: DbView, req: RespV, now: u64) -> (DbView, Option<StepV>) {
    match req {
        RespV::Array(items) => {
            if items.len() == 0 {
                (m, Some(StepV::Reply(RespV::Error("Don't know how to handle that array"@))))
            } else {
                match items[0] {
                    RespV::BulkString(name) => {
                        let upper = uppercase(name);
                        let args = items.drop_first();
                        if lacks_set_value(upper, args) {
                            (m, None)
                        } else {
                            let (m2, step) = dispatch_outcome(m, upper, args, now);
                            (m2, Some(step))
                        }
                    },
                    _ => (m, Some(StepV::Reply(RespV::Error("First element must be a BulkString"@)))),
                }
            }
        },
        _ => (m, Some(StepV::Reply(RespV::Error("Commands must be Arrays of BulkStrings"@)))),
    }
}

/// The command name of a request: the first element of an array, where that is a bulk
/// string.
pub open spec fn request_name(req: RespV) -> Option<Seq<char>> {
    match req {
        RespV::Array(items) => if items.len() > 0 && items[0] is BulkString {
            Some(items[0]->BulkString_0)
        } else {
            None
        },
        _ => None,
    }
}

/// The model of an optional step.
pub open spec fn step_opt_view(s: Option<Step>) -> Option<StepV> {
    match s {
        Some(x) => Some(x@),
        None => None,
    }
}

/// Runs the command `kind` on `args` at time `now`.
pub fn execute_command(kind: CommandKind, db: &mut MemoryDb, args: &[Resp], now: u64) -> (r: Step)
    requires
        kind == CommandKind::SetValue ==> args@.len() != 1,
    ensures
        (final(db)@, r@) == command_outcome(kind, old(db)@, args_view(args), now),
        wrote(*old(db), *final(db), command_write(kind, old(db)@, args_view(args), now)),
{
    proof {
        lemma_args_view(args);
    }
    match kind {
        CommandKind::Ping => Step::Reply(CommandPing {}.execute(db, args)),
        CommandKind::Echo => Step::Reply(CommandEcho {}.execute(db, args)),
        CommandKind::SetValue => Step::Reply(CommandSet {}.execute_at(db, args, now)),
        CommandKind::GetValue => Step::Reply(CommandGet {}.execute_at(db, args, now)),
        CommandKind::Rpush => Step::Reply(CommandRpush {}.execute_at(db, args, now)),
        CommandKind::Lpush => Step::Reply(CommandLpush {}.execute_at(db, args, now)),
        CommandKind::Llen => Step::Reply(CommandLlen {}.execute_at(db, args, now)),
        CommandKind::Lpop => Step::Reply(CommandLpop {}.execute_at(db, args, now)),
        CommandKind::Lrange => Step::Reply(CommandLrange {}.execute_at(db, args, now)),
        CommandKind::Blpop => match CommandBlpop::parse_key(args) {
            None => Step::Reply(Resp::NullBulkString),
            Some(key) => {
                let timeout = match CommandBlpop::timeout_arg(args) {
                    Some(t) => Some(t.clone()),
                    None => None,
                };
                Step::WaitForList { key: key.clone(), timeout }
            },
        },
    }
}

/// Runs the command named `upper` (already upper case) on `args` at time `now`; an error
/// reply where no command has that name.
pub fn dispatch(
    db: &mut MemoryDb,
    registry: &CommandRegistry,
    upper: &str,
    args: &[Resp],
    now: u64,
) -> (r: Step)
    requires
        !lacks_set_value(upper@, args_view(args)),
    ensures
        (final(db)@, r@) == dispatch_outcome(old(db)@, upper@, args_view(args), now),
        wrote(*old(db), *final(db), dispatch_write(old(db)@, upper@, args_view(args), now)),
{
    proof {
        lemma_args_view(args);
    }
    match registry.lookup(upper) {
        Some(kind) => execute_command(kind, db, args, now),
        None => Step::Reply(Resp::Error("Command not implemented".to_owned())),
    }
}

/// Handles a request: it must be an array whose first element is a bulk string naming a
/// command (in any case); the rest are the command's arguments. Gives `None`, and leaves the
/// database as it is, for a `SET` with only a key. An ASCII command name is upper-cased
/// letter by letter.
pub fn handle_command(db: &mut MemoryDb, registry: &CommandRegistry, resp: Resp) -> (r: Option<Step>)
    ensures
        exists|now: u64|
            (final(db)@, step_opt_view(r)) == request_outcome(old(db)@, resp@, now)
            && wrote(*old(db), *final(db), request_write(old(db)@, resp@, now)),
        match request_name(resp@) {
            Some(name) => is_ascii_text(name) ==> uppercase(name) == ascii_upper(name),
            None => true,
        },
{
    let ghost req = resp@;
    let ghost mut when: u64 = 0;
    let r = match resp {
        Resp::Array(resps) => {
            proof {
                lemma_items_view(resps@);
            }
            if resps.len() == 0 {
                Some(Step::Reply(Resp::Error("Don't know how to handle that array".to_owned())))
            } else {
                match &resps[0] {
                    Resp::BulkString(cmd_name) => {
                        let cmd_upper = to_uppercase(cmd_name.as_str());
                        assert(request_name(req) == Some(cmd_name@));
                        let args = vstd::slice::slice_subrange(resps.as_slice(), 1, resps.len());
                        proof {
                            lemma_args_view(args);
                            assert(args_view(args) =~= items_view(resps@).drop_first());
                        }
                        let refused = match registry.lookup(cmd_upper.as_str()) {
                            Some(CommandKind::SetValue) => args.len() == 1,
                            _ => false,
                        };
                        if refused {
                            None
                        } else {
                            let now = now_millis();
                            proof {
                                when = now;
                            }
                            Some(dispatch(db, registry, cmd_upper.as_str(), args, now))
                        }
                    },
                    _ => Some(Step::Reply(Resp::Error("First element must be a BulkString".to_owned()))),
                }
            }
        },
        _ => Some(Step::Reply(Resp::Error("Commands must be Arrays of BulkStrings".to_owned()))),
    };
    assert((db@, step_opt_view(r)) == request_outcome(old(db)@, req, when));
    assert(wrote(*old(db), *db, request_write(old(db)@, req, when)));
    r
}

} // verus!
