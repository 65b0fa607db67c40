use vstd::prelude::*;
use vstd::utf8::encode_utf8;
use crate::resp::{Resp, RespV, items_view, lemma_items_view};
use crate::db::{MemoryDb, DbView, RedisType, RedisTypeV, store_get, strings_view, wrote};
use crate::clock::now_millis;
use crate::text::{parse_i64_text, parse_i64_bytes};
use crate::command::common::{args_view, lemma_args_view, bulk_strings, bulk_array};

verus! {

/// The arguments of `LRANGE`.
#[derive(PartialEq, Debug)]
pub struct LrangeArgs {
    pub key: String,
    pub start: i64,
    pub end: i64,
}

/// A number argument of `LRANGE`, or the error text.
pub open spec fn lrange_number(a: RespV, not_number: Seq<char>, not_bulk: Seq<char>) -> Result<i64, Seq<char>> {
    match a {
        RespV::BulkString(t) => match parse_i64_text(encode_utf8(t)) {
            Some(n) => Ok(n),
            None => Err(not_number),
        },
        _ => Err(not_bulk),
    }
}

/// The key, start and end of `LRANGE`, or the error text.
pub open spec fn lrange_args(args: Seq<RespV>) -> Result<(Seq<char>, i64, i64), Seq<char>> {
    if args.len() != 3 {
        Err("Exactly 3 arguments needed: LRANGE <key> <start> <end>"@)
    } else if !(args[0] is BulkString) {
        Err("The first parameter must be a BulkString"@)
    } else {
        match lrange_number(
            args[1],
            "The second parameter must be parseable as an i64"@,
            "The second parameter must be a BulkString"@,
        ) {
            Err(e) => Err(e),
            Ok(start) => match lrange_number(
                args[2],
                "The third parameter must be parseable as an i64"@,
                "The second parameter must be a BulkString"@,
            ) {
                Err(e) => Err(e),
                Ok(end) => Ok((args[0]->BulkString_0, start, end)),
            },
        }
    }
}

/// The first index that `LRANGE` takes from a list of `len` elements for the start `s`:
/// positions count from 0, negative ones from the back (-1 is the last element), and a
/// position before the first element is the first element.
pub open spec fn lrange_first(len: int, s: int) -> int {
    if s < 0 {
        if len + s < 0 { 0 } else { len + s }
    } else {
        s
    }
}

/// The last index that `LRANGE` takes from a list of `len` elements for the end `s`:
/// positions count from 0, negative ones from the back, and a position after the last
/// element is the last element.
pub open spec fn lrange_last(len: int, s: int) -> int {
    if s < 0 {
        len + s
    } else if s > len - 1 {
        len - 1
    } else {
        s
    }
}

/// The reply of `LRANGE` on a list: the elements from the first to the last index taken,
/// both included; none where the first comes after the last or lies past the end.
pub open spec fn lrange_reply(items: Seq<Seq<char>>, start: i64, end: i64) -> RespV {
    let len = items.len() as int;
    let a = lrange_first(len, start as int);
    let b = lrange_last(len, end as int);
    if a > b || a >= len {
        RespV::Array(Seq::empty())
    } else {
        RespV::Array(bulk_strings(items.subrange(a, b + 1)))
    }
}

/// `LRANGE` at time `now`: the database afterwards and the reply.
pub open spec fn lrange_outcome(m: DbView, args: Seq<RespV>, now: u64) -> (DbView, RespV) {
    match lrange_args(args) {
        Err(e) => (m, RespV::Error(e)),
        Ok((k, start, end)) => {
            let (m2, found) = store_get(m, k, now);
            (m2, match found {
                Some(e) => match e.value {
                    RedisTypeV::List(items) => lrange_reply(items, start, end),
                    RedisTypeV::String(_) => RespV::Array(Seq::empty()),
                },
                None => RespV::Array(Seq::empty()),
            })
        },
    }
}

/// The elements of `items` that `LRANGE start end` takes, as bulk strings.
pub fn extract_and_return_values(items: Vec<String>, start: &i64, end: &i64) -> (r: Resp)
    ensures
        r@ == lrange_reply(strings_view(items@), *start, *end),
{
    let empty: Vec<Resp> = Vec::new();
    proof {
        lemma_items_view(empty@);
        assert(items_view(empty@) =~= Seq::<RespV>::empty());
    }
    if items.len() == 0 {
        return Resp::Array(empty);
    }
    let items_len = items.len() as i128;
    let s = *start as i128;
    let slice_start: i128 = if s < 0 {
        if items_len + s < 0 { 0 } else { items_len + s }
    } else {
        s
    };
    let e = *end as i128;
    let slice_end: i128 = if e < 0 {
        items_len + e
    } else if e > items_len - 1 {
        items_len - 1
    } else {
        e
    };
    if slice_start > slice_end || slice_start >= items_len {
        return Resp::Array(empty);
    }
    let out = bulk_array(&items, slice_start as usize, (slice_end + 1) as usize);
    Resp::Array(out)
}

/// Reads a number argument of `LRANGE`.
fn parse_number_arg(a: &Resp, not_number: &str, not_bulk: &str) -> (r: Result<i64, String>)
    ensures
        match lrange_number(a@, not_number@, not_bulk@) {
            Ok(n) => r == Ok::<i64, String>(n),
            Err(m) => r matches Err(s) && s@ == m,
        },
{
    match a {
        Resp::BulkString(i) => match parse_i64_bytes(i.as_str().as_bytes()) {
            Some(n) => Ok(n),
            None => Err(not_number.to_owned()),
        },
        _ => Err(not_bulk.to_owned()),
    }
}

/// Reads the arguments of `LRANGE`: exactly a key, a start and an end, all bulk strings, the
/// numbers as `i64`.
pub fn parse_lrange_args(args: &[Resp]) -> (r: Result<LrangeArgs, String>)
    ensures
        match lrange_args(args_view(args)) {
            Ok((k, start, end)) => r matches Ok(a) && a.key@ == k && a.start == start && a.end == end,
            Err(msg) => r matches Err(m) && m@ == msg,
        },
{
    proof {
        lemma_args_view(args);
    }
    if args.len() != 3 {
        return Err("Exactly 3 arguments needed: LRANGE <key> <start> <end>".to_owned());
    }
    let key = match &args[0] {
        Resp::BulkString(s) => s.clone(),
        _ => { return Err("The first parameter must be a BulkString".to_owned()); },
    };
    let start = match parse_number_arg(
        &args[1],
        "The second parameter must be parseable as an i64",
        "The second parameter must be a BulkString",
    ) {
        Ok(n) => n,
        Err(e) => { return Err(e); },
    };
    let end = match parse_number_arg(
        &args[2],
        "The third parameter must be parseable as an i64",
        "The second parameter must be a BulkString",
    ) {
        Ok(n) => n,
        Err(e) => { return Err(e); },
    };
    Ok(LrangeArgs { key, start, end })
}

/// `LRANGE key start end`: a range of the list under the key.
pub struct CommandLrange {}

impl CommandLrange {
    /// `LRANGE` at time `now`.
    pub fn execute_at(&self, db: &mut MemoryDb, args: &[Resp], now: u64) -> (r: Resp)
        ensures
            (final(db)@, r@) == lrange_outcome(old(db)@, args_view(args), now),
            wrote(*old(db), *final(db), None),
    {
        match parse_lrange_args(args) {
            Ok(lrange_args) => {
                let empty: Vec<Resp> = Vec::new();
                proof {
                    lemma_items_view(empty@);
                    assert(items_view(empty@) =~= Seq::<RespV>::empty());
                }
                match db.get_at(lrange_args.key.as_str(), now) {
                    Some(entry) => match entry.value {
                        RedisType::List(items) => extract_and_return_values(
                            items,
                            &lrange_args.start,
                            &lrange_args.end,
                        ),
                        _ => Resp::Array(empty),
                    },
                    None => Resp::Array(empty),
                }
            },
            Err(e) => Resp::Error(e),
        }
    }

    /// `LRANGE`, with expiry judged now (by the system clock).
    pub fn execute(&self, db: &mut MemoryDb, args: &[Resp]) -> (r: Resp)
        ensures
            exists|now: u64| (final(db)@, r@) == lrange_outcome(old(db)@, args_view(args), now),
            wrote(*old(db), *final(db), None),
    {
        let now = now_millis();
        self.execute_at(db, args, now)
    }
}

} // verus!
