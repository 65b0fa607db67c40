use vstd::prelude::*;
use crate::resp::{Resp, RespV, items_view, lemma_items_view};
use crate::db::{MemoryDb, DbEntry, DbEntryV, DbView, RedisType, RedisTypeV, store_set, strings_view, entry_opt_view, wrote};
use crate::command::common::{args_view, lemma_args_view};

verus! {

/// The key of `BLPOP`: its first argument, where that is a bulk string.
pub open spec fn blpop_key(args: Seq<RespV>) -> Option<Seq<char>> {
    if args.len() > 0 && args[0] is BulkString {
        Some(args[0]->BulkString_0)
    } else {
        None
    }
}

/// `BLPOP` once the entry of the key is known (`None` where none came before the wait
/// ended): the database afterwards and the reply.
pub open spec fn blpop_outcome(m: DbView, key: Seq<char>, found: Option<DbEntryV>) -> (DbView, RespV) {
    match found {
        None => (m, RespV::NullBulkString),
        Some(e) => match e.value {
            RedisTypeV::String(_) => (m, RespV::NullBulkString),
            RedisTypeV::List(items) => {
                if items.len() == 0 {
                    (m, RespV::NullBulkString)
                } else {
                    (
                        store_set(m, key, DbEntryV { value: RedisTypeV::List(items.skip(1)), ..e }),
                        RespV::Array(seq![RespV::BulkString(key), RespV::BulkString(items[0])]),
                    )
                }
            },
        },
    }
}

/// The write that `BLPOP` makes once the entry is known: the key and the entry with the rest
/// of the list; none where nothing is taken.
pub open spec fn blpop_write(key: Seq<char>, found: Option<DbEntryV>) -> Option<(Seq<char>, DbEntryV)> {
    match found {
        None => None,
        Some(e) => match e.value {
            RedisTypeV::String(_) => None,
            RedisTypeV::List(items) => {
                if items.len() == 0 {
                    None
                } else {
                    Some((key, DbEntryV { value: RedisTypeV::List(items.skip(1)), ..e }))
                }
            },
        },
    }
}

/// `BLPOP key timeout`: takes the first element of the list under the key, waiting (up to
/// the timeout in seconds, or without end where it is 0 or absent) for one to be pushed.
/// The waiting is done by the caller; this type reads the arguments and takes the element.
pub struct CommandBlpop {}

impl CommandBlpop {
    /// The key to wait on, or `None` where the first argument is no bulk string (the reply
    /// is then a null bulk string).
    pub fn parse_key(args: &[Resp]) -> (r: Option<&String>)
        ensures
            match blpop_key(args_view(args)) {
                Some(k) => r matches Some(s) && s@ == k,
                None => r is None,
            },
    {
        proof {
            lemma_args_view(args);
        }
        if args.len() > 0 {
            if let Resp::BulkString(s) = &args[0] {
                return Some(s);
            }
        }
        None
    }

    /// The text of the timeout: the second argument, where that is a bulk string.
    pub fn timeout_arg(args: &[Resp]) -> (r: Option<&String>)
        ensures
            match r {
                Some(s) => args@.len() > 1 && args_view(args)[1] == RespV::BulkString(s@),
                None => !(args@.len() > 1 && args_view(args)[1] is BulkString),
            },
    {
        proof {
            lemma_args_view(args);
        }
        if args.len() > 1 {
            if let Resp::BulkString(s) = &args[1] {
                return Some(s);
            }
        }
        None
    }

    /// Takes the first element of the list in `found`, the entry of `key` that the wait gave,
    /// writes the rest back and answers the key and the element.
    pub fn pop_front(&self, db: &mut MemoryDb, key: &String, found: Option<DbEntry>) -> (r: Resp)
        ensures
            (final(db)@, r@) == blpop_outcome(old(db)@, key@, entry_opt_view(found)),
            wrote(*old(db), *final(db), blpop_write(key@, entry_opt_view(found))),
    {
        let mut db_entry = match found {
            Some(entry) => entry,
            None => { return Resp::NullBulkString; },
        };
        let mut list = match db_entry.value {
            RedisType::List(list) => list,
            _ => { return Resp::NullBulkString; },
        };
        if list.len() == 0 {
            return Resp::NullBulkString;
        }
        let ghost items = strings_view(list@);
        let first = list.remove(0);
        assert(strings_view(list@) =~= items.skip(1));
        let mut reply: Vec<Resp> = Vec::new();
        reply.push(Resp::BulkString(key.clone()));
        reply.push(Resp::BulkString(first));
        proof {
            lemma_items_view(reply@);
            assert(items_view(reply@) =~= seq![RespV::BulkString(key@), RespV::BulkString(items[0])]);
        }
        let result_resp = Resp::Array(reply);
        db_entry.value = RedisType::List(list);
        match db.set(key.as_str(), &db_entry) {
            Ok(_) => result_resp,
            Err(_) => Resp::Error("Could not write modified list back".to_owned()),
        }
    }
}

} // verus!
