use vstd::prelude::*;
use crate::resp::{Resp, RespV};
use crate::db::{MemoryDb, DbEntryV, DbView, wrote};
use crate::clock::now_millis;
use crate::command::common::args_view;
use crate::command::cmd_lpush::{push_outcome, push_write, list_args, parse_list_items, push_values};

verus! {

/// `RPUSH` at time `now`: the values go to the back, in order.
pub open spec fn rpush_outcome(m: DbView, args: Seq<RespV>, now: u64) -> (DbView, RespV) {
    push_outcome(m, args, now, |vals: Seq<Seq<char>>, existing: Seq<Seq<char>>| existing + vals)
}

/// The write of `RPUSH` at time `now`.
pub open spec fn rpush_write(m: DbView, args: Seq<RespV>, now: u64) -> Option<(Seq<char>, DbEntryV)> {
    push_write(m, args, now, |vals: Seq<Seq<char>>, existing: Seq<Seq<char>>| existing + vals)
}

/// `RPUSH key value...`: puts the values at the back of the list, in order; answers the
/// length of the list.
pub struct CommandRpush {}

impl CommandRpush {
    /// `RPUSH` at time `now`.
    pub fn execute_at(&self, db: &mut MemoryDb, args: &[Resp], now: u64) -> (r: Resp)
        ensures
            (final(db)@, r@) == rpush_outcome(old(db)@, args_view(args), now),
            wrote(*old(db), *final(db), rpush_write(old(db)@, args_view(args), now)),
    {
        let (key, new_elements) = match parse_list_items(args) {
            Ok((arg_key, arg_elements)) => (arg_key, arg_elements),
            Err(s) => { return Resp::Error(s); },
        };
        let r = push_values(db, key, new_elements, now, false);
        proof {
            let vals = list_args(args_view(args))->Ok_0.1;
            assert(Seq::<Seq<char>>::empty() + vals =~= vals);
        }
        r
    }

    /// `RPUSH`, with the entry made now (by the system clock).
    pub fn execute(&self, db: &mut MemoryDb, args: &[Resp]) -> (r: Resp)
        ensures
            exists|now: u64|
                (final(db)@, r@) == rpush_outcome(old(db)@, args_view(args), now)
                && wrote(*old(db), *final(db), rpush_write(old(db)@, args_view(args), now)),
    {
        let now = now_millis();
        self.execute_at(db, args, now)
    }
}

} // verus!
