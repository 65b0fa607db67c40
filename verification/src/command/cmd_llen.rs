use vstd::prelude::*;
use crate::resp::{Resp, RespV};
use crate::db::{MemoryDb, DbView, RedisType, RedisTypeV, store_get, wrote};
use crate::clock::now_millis;
use crate::command::common::{args_view, lemma_args_view};

verus! {

/// `LLEN` at time `now`: the database afterwards and the reply.
pub open spec fn llen_outcome(m: DbView, args: Seq<RespV>, now: u64) -> (DbView, RespV) {
    if args.len() > 0 && args[0] is BulkString {
        let (m2, found) = store_get(m, args[0]->BulkString_0, now);
        (m2, match found {
            Some(e) => match e.value {
                RedisTypeV::List(items) => RespV::Int(items.len() as i64),
                RedisTypeV::String(_) => RespV::Int(0),
            },
            None => RespV::Int(0),
        })
    } else {
        (m, RespV::Int(0))
    }
}

/// `LLEN key`: the length of the list under the key; 0 where there is no list.
pub struct CommandLlen {}

impl CommandLlen {
    /// `LLEN` at time `now`.
    pub fn execute_at(&self, db: &mut MemoryDb, args: &[Resp], now: u64) -> (r: Resp)
        ensures
            (final(db)@, r@) == llen_outcome(old(db)@, args_view(args), now),
            wrote(*old(db), *final(db), None),
    {
        proof {
            lemma_args_view(args);
        }
        if args.len() > 0 {
            if let Resp::BulkString(key) = &args[0] {
                return match db.get_at(key.as_str(), now) {
                    Some(entry) => match entry.value {
                        RedisType::List(items) => Resp::Int(items.len() as i64),
                        _ => Resp::Int(0),
                    },
                    None => Resp::Int(0),
                };
            }
        }
        Resp::Int(0)
    }

    /// `LLEN`, with expiry judged now (by the system clock).
    pub fn execute(&self, db: &mut MemoryDb, args: &[Resp]) -> (r: Resp)
        ensures
            exists|now: u64| (final(db)@, r@) == llen_outcome(old(db)@, args_view(args), now),
            wrote(*old(db), *final(db), None),
    {
        let now = now_millis();
        self.execute_at(db, args, now)
    }
}

} // verus!
