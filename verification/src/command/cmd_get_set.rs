use vstd::prelude::*;
use crate::resp::{Resp, RespV};
use crate::db::{MemoryDb, DbEntry, DbEntryV, DbView, RedisType, RedisTypeV, store_set, store_get, wrote};
use crate::clock::now_millis;
use crate::command::common::{args_view, lemma_args_view};

verus! {

/// The reply to reading a key that holds a list as a string.
pub open spec fn wrong_type_text() -> Seq<char> {
    "WRONGTYPE Operation against a key holding the wrong kind of value"@
}

/// The key and the value of `SET`, or the error text.
pub open spec fn set_args(args: Seq<RespV>) -> Result<(Seq<char>, Seq<char>), Seq<char>> {
    if args.len() == 0 {
        Err("No key and value supplied for SET"@)
    } else {
        match (args[0], args[1]) {
            (RespV::BulkString(k), RespV::BulkString(v)) => Ok((k, v)),
            _ => Err("Key and value must exist and be strings"@),
        }
    }
}

/// `SET` at time `now`: the database afterwards and the reply.
pub open spec fn set_outcome(m: DbView, args: Seq<RespV>, now: u64) -> (DbView, RespV) {
    match set_args(args) {
        Ok((k, v)) => (
            store_set(m, k, DbEntryV { value: RedisTypeV::String(v), px: None, created_at: now }),
            RespV::Simple("OK"@),
        ),
        Err(msg) => (m, RespV::Error(msg)),
    }
}

/// The write that `SET` at time `now` makes: the key and its new entry.
pub open spec fn set_write(args: Seq<RespV>, now: u64) -> Option<(Seq<char>, DbEntryV)> {
    match set_args(args) {
        Ok((k, v)) => Some((k, DbEntryV { value: RedisTypeV::String(v), px: None, created_at: now })),
        Err(_) => None,
    }
}

/// `GET` at time `now`: the database afterwards and the reply.
pub open spec fn get_outcome(m: DbView, args: Seq<RespV>, now: u64) -> (DbView, RespV) {
    if args.len() == 1 && args[0] is BulkString {
        let (m2, found) = store_get(m, args[0]->BulkString_0, now);
        (m2, match found {
            Some(e) => match e.value {
                RedisTypeV::String(s) => RespV::BulkString(s),
                RedisTypeV::List(_) => RespV::Error(wrong_type_text()),
            },
            None => RespV::NullBulkString,
        })
    } else {
        (m, RespV::Error("Wrong arguments for get"@))
    }
}

/// Reads the arguments of `SET`: a key and a value, both bulk strings; the entry is made
/// at time `now` and does not expire. Further arguments are not read. (A single argument
/// is left out: the value would be read past the end.)
pub fn parse_get_args(args: &[Resp], now: u64) -> (r: Result<(&String, DbEntry), String>)
    requires
        args@.len() != 1,
    ensures
        match set_args(args_view(args)) {
            Ok((k, v)) => r matches Ok((key, e)) && key@ == k
                && e@ == (DbEntryV { value: RedisTypeV::String(v), px: None, created_at: now }),
            Err(msg) => r matches Err(m) && m@ == msg,
        },
{
    proof {
        lemma_args_view(args);
    }
    if args.len() == 0 {
        return Err("No key and value supplied for SET".to_owned());
    }
    match (&args[0], &args[1]) {
        (Resp::BulkString(k), Resp::BulkString(v)) => {
            let entry = DbEntry::new_at(RedisType::String(v.clone()), now);
            Ok((k, entry))
        },
        _ => Err("Key and value must exist and be strings".to_owned()),
    }
}

/// `SET key value`: stores the string under the key.
pub struct CommandSet {}

impl CommandSet {
    /// `SET` at time `now`.
    pub fn execute_at(&self, db: &mut MemoryDb, args: &[Resp], now: u64) -> (r: Resp)
        requires
            args@.len() != 1,
        ensures
            (final(db)@, r@) == set_outcome(old(db)@, args_view(args), now),
            wrote(*old(db), *final(db), set_write(args_view(args), now)),
    {
        match parse_get_args(args, now) {
            Ok((key, entry)) => match db.set(key.as_str(), &entry) {
                Ok(_) => Resp::Simple("OK".to_owned()),
                Err(_) => Resp::Error("Could not set value".to_owned()),
            },
            Err(s) => Resp::Error(s),
        }
    }

    /// `SET`, with the entry made now (by the system clock).
    pub fn execute(&self, db: &mut MemoryDb, args: &[Resp]) -> (r: Resp)
        requires
            args@.len() != 1,
        ensures
            exists|now: u64|
                (final(db)@, r@) == set_outcome(old(db)@, args_view(args), now)
                && wrote(*old(db), *final(db), set_write(args_view(args), now)),
    {
        let now = now_millis();
        self.execute_at(db, args, now)
    }
}

/// `GET key`: the string stored under the key.
pub struct CommandGet {}

impl CommandGet {
    /// `GET` at time `now`.
    pub fn execute_at(&self, db: &mut MemoryDb, args: &[Resp], now: u64) -> (r: Resp)
        ensures
            (final(db)@, r@) == get_outcome(old(db)@, args_view(args), now),
            wrote(*old(db), *final(db), None),
    {
        proof {
            lemma_args_view(args);
        }
        if args.len() == 1 {
            match &args[0] {
                Resp::BulkString(key) => {
                    return match db.get_at(key.as_str(), now) {
                        Some(entry) => match entry.value {
                            RedisType::String(s) => Resp::BulkString(s),
                            RedisType::List(_) => Resp::Error(
                                "WRONGTYPE Operation against a key holding the wrong kind of value".to_owned(),
                            ),
                        },
                        None => Resp::NullBulkString,
                    };
                },
                _ => {},
            }
        }
        Resp::Error("Wrong arguments for get".to_owned())
    }

    /// `GET`, with expiry judged now (by the system clock).
    pub fn execute(&self, db: &mut MemoryDb, args: &[Resp]) -> (r: Resp)
        ensures
            exists|now: u64| (final(db)@, r@) == get_outcome(old(db)@, args_view(args), now),
            wrote(*old(db), *final(db), None),
    {
        let now = now_millis();
        self.execute_at(db, args, now)
    }
}

} // verus!
