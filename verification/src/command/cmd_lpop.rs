use vstd::prelude::*;
use vstd::utf8::encode_utf8;
use crate::resp::{Resp, RespV};
use crate::db::{MemoryDb, DbEntryV, DbView, RedisType, RedisTypeV, store_get, store_set, strings_view, wrote};
use crate::clock::now_millis;
use crate::text::{parse_usize_text, parse_usize_bytes};
use crate::command::common::{args_view, lemma_args_view, bulk_strings, bulk_array};

verus! {

/// How many elements `LPOP` takes: the second argument read as a `usize`, where it is a bulk
/// string that reads as one.
pub open spec fn lpop_count(args: Seq<RespV>) -> Option<usize> {
    if args.len() > 1 && args[1] is BulkString {
        parse_usize_text(encode_utf8(args[1]->BulkString_0))
    } else {
        None
    }
}

/// How many elements `LPOP` takes from a list of `len` elements: one without a count, else
/// the count, at most `len`.
pub open spec fn lpop_taken(args: Seq<RespV>, len: int) -> int {
    match lpop_count(args) {
        None => 1,
        Some(c) => if c < len { c as int } else { len },
    }
}

/// The write that `LPOP` at time `now` makes: the key and its entry with the rest of the
/// list; none where nothing is taken.
pub open spec fn lpop_write(m: DbView, args: Seq<RespV>, now: u64) -> Option<(Seq<char>, DbEntryV)> {
    if !(args.len() > 0 && args[0] is BulkString) {
        None
    } else {
        let k = args[0]->BulkString_0;
        match store_get(m, k, now).1 {
            None => None,
            Some(e) => match e.value {
                RedisTypeV::String(_) => None,
                RedisTypeV::List(items) => {
                    if items.len() == 0 {
                        None
                    } else {
                        let n = lpop_taken(args, items.len() as int);
                        Some((k, DbEntryV { value: RedisTypeV::List(items.skip(n)), ..e }))
                    }
                },
            },
        }
    }
}

/// `LPOP` at time `now`: the database afterwards and the reply.
pub open spec fn lpop_outcome(m: DbView, args: Seq<RespV>, now: u64) -> (DbView, RespV) {
    if !(args.len() > 0 && args[0] is BulkString) {
        (m, RespV::NullBulkString)
    } else {
        let k = args[0]->BulkString_0;
        let (m2, found) = store_get(m, k, now);
        match found {
            None => (m2, RespV::NullBulkString),
            Some(e) => match e.value {
                RedisTypeV::String(_) => (m2, RespV::NullBulkString),
                RedisTypeV::List(items) => {
                    if items.len() == 0 {
                        (m2, RespV::NullBulkString)
                    } else {
                        let n = lpop_taken(args, items.len() as int);
                        let reply = match lpop_count(args) {
                            None => RespV::BulkString(items[0]),
                            Some(_) => RespV::Array(bulk_strings(items.take(n))),
                        };
                        (store_set(m2, k, DbEntryV { value: RedisTypeV::List(items.skip(n)), ..e }), reply)
                    }
                },
            },
        }
    }
}

/// `LPOP key [count]`: takes the first element of the list (or the first `count`, as an
/// array) and answers it; a null bulk string where there is no non-empty list.
pub struct CommandLpop {}

impl CommandLpop {
    /// `LPOP` at time `now`.
    pub fn execute_at(&self, db: &mut MemoryDb, args: &[Resp], now: u64) -> (r: Resp)
        ensures
            (final(db)@, r@) == lpop_outcome(old(db)@, args_view(args), now),
            wrote(*old(db), *final(db), lpop_write(old(db)@, args_view(args), now)),
    {
        proof {
            lemma_args_view(args);
        }
        let key = if args.len() > 0 {
            match &args[0] {
                Resp::BulkString(s) => s.clone(),
                _ => { return Resp::NullBulkString; },
            }
        } else {
            return Resp::NullBulkString;
        };
        let nr_elements = if args.len() > 1 {
            match &args[1] {
                Resp::BulkString(s) => parse_usize_bytes(s.as_str().as_bytes()),
                _ => None,
            }
        } else {
            None
        };
        let mut db_entry = match db.get_at(key.as_str(), now) {
            Some(entry) => entry,
            None => { return Resp::NullBulkString; },
        };
        let ghost e = db_entry@;
        let mut list = match db_entry.value {
            RedisType::List(list) => list,
            _ => { return Resp::NullBulkString; },
        };
        if list.len() == 0 {
            return Resp::NullBulkString;
        }
        let ghost items = strings_view(list@);
        let result_resp = match nr_elements {
            None => {
                let first = list.remove(0);
                assert(strings_view(list@) =~= items.skip(1));
                Resp::BulkString(first)
            },
            Some(n) => {
                let k = if n < list.len() { n } else { list.len() };
                let taken = bulk_array(&list, 0, k);
                let rest = list.split_off(k);
                list = rest;
                assert(strings_view(list@) =~= items.skip(k as int));
                assert(items.subrange(0, k as int) =~= items.take(k as int));
                Resp::Array(taken)
            },
        };
        db_entry.value = RedisType::List(list);
        match db.set(key.as_str(), &db_entry) {
            Ok(_) => result_resp,
            Err(_) => Resp::Error("Could not write modified list back".to_owned()),
        }
    }

    /// `LPOP`, with expiry judged now (by the system clock).
    pub fn execute(&self, db: &mut MemoryDb, args: &[Resp]) -> (r: Resp)
        ensures
            exists|now: u64|
                (final(db)@, r@) == lpop_outcome(old(db)@, args_view(args), now)
                && wrote(*old(db), *final(db), lpop_write(old(db)@, args_view(args), now)),
    {
        let now = now_millis();
        self.execute_at(db, args, now)
    }
}

} // verus!
