use vstd::prelude::*;
use vstd::utf8::encode_utf8;
use crate::resp::RespV;
use crate::db::{DbView, DbEntryV, RedisTypeV, store_get};
use crate::text::parse_usize_text;
use crate::command::common::bulk_strings;
use crate::command::cmd_lrange::lrange_reply;
use crate::command::cmd_lpop::lpop_outcome;
use crate::command::cmd_llen::llen_outcome;
use crate::command::cmd_get_set::{set_outcome, get_outcome};
use crate::command::cmd_lpush::lpush_outcome;
use crate::command::cmd_rpush::rpush_outcome;
use crate::command::laws::{push_args, law_lpush_list, law_rpush_list};

verus! {

/// What `LRANGE start end` answers on a list of `n` elements, for every start and end:
/// - for `0 <= start <= end < n`, exactly the elements at positions `start..=end`, in order
///   (so `LRANGE key 0 0` answers the first element alone);
/// - a negative position counts from the back: `-1` is the last element, `-n` the first;
/// - a start before the first element is the first element, an end after the last element
///   is the last element;
/// - a start past the end, an end before the first element, or an end before the start
///   gives no elements.
pub proof fn law_lrange_positions(items: Seq<Seq<char>>, start: i64, end: i64)
    requires
        items.len() <= i64::MAX,
    ensures
        ({
            let n = items.len() as int;
            &&& 0 <= start <= end < n ==> lrange_reply(items, start, end)
                == RespV::Array(bulk_strings(items.subrange(start as int, end + 1)))
            &&& -n <= start < 0 ==> lrange_reply(items, start, end)
                == lrange_reply(items, (start + n) as i64, end)
            &&& -n <= end < 0 ==> lrange_reply(items, start, end)
                == lrange_reply(items, start, (end + n) as i64)
            &&& start < -n ==> lrange_reply(items, start, end) == lrange_reply(items, 0i64, end)
            &&& n > 0 && end >= n ==> lrange_reply(items, start, end)
                == lrange_reply(items, start, (n - 1) as i64)
            &&& (start >= n || end < -n || 0 <= end < start) ==> lrange_reply(items, start, end)
                == RespV::Array(Seq::empty())
        }),
{
}

/// `LRANGE` answers each element of the range once, in list order: the reply to
/// `0 <= start <= end < n` has `end - start + 1` elements, the `i`-th being the element at
/// position `start + i`.
pub proof fn law_lrange_elements(items: Seq<Seq<char>>, start: i64, end: i64, i: int)
    requires
        items.len() <= i64::MAX,
        0 <= start <= end < items.len(),
        0 <= i <= end - start,
    ensures
        lrange_reply(items, start, end) matches RespV::Array(r)
            && r.len() == end - start + 1
            && r[i] == RespV::BulkString(items[start + i]),
{
}

/// `LLEN` answers the number of elements of the live list under the key.
pub proof fn law_llen_counts(m: DbView, key: Seq<char>, e: DbEntryV, l: Seq<Seq<char>>, now: u64)
    requires
        store_get(m, key, now).1 == Some(e),
        e.value == RedisTypeV::List(l),
        l.len() <= i64::MAX,
    ensures
        llen_outcome(m, seq![RespV::BulkString(key)], now).1 matches RespV::Int(x) && x == l.len(),
{
}

/// `LLEN` answers 0 where the key holds no live entry, or holds a string.
pub proof fn law_llen_no_list(m: DbView, key: Seq<char>, now: u64)
    requires
        !(store_get(m, key, now).1 matches Some(e) && e.value is List),
    ensures
        llen_outcome(m, seq![RespV::BulkString(key)], now).1 == RespV::Int(0),
{
}

/// After `RPUSH key v1 .. vn` or `LPUSH key v1 .. vn` on a key that holds nothing, `LLEN key`
/// answers `n`.
pub proof fn law_push_then_llen(m: DbView, key: Seq<char>, vals: Seq<Seq<char>>, now: u64)
    requires
        1 <= vals.len() <= i64::MAX,
        !m.contains_key(key),
    ensures
        llen_outcome(rpush_outcome(m, push_args(key, vals), now).0, seq![RespV::BulkString(key)], now).1
            == RespV::Int(vals.len() as i64),
        llen_outcome(lpush_outcome(m, push_args(key, vals), now).0, seq![RespV::BulkString(key)], now).1
            == RespV::Int(vals.len() as i64),
{
    law_rpush_list(m, key, vals, now);
    law_lpush_list(m, key, vals, now);
    assert(Seq::<Seq<char>>::empty() + vals =~= vals);
    assert(vals.reverse() + Seq::<Seq<char>>::empty() =~= vals.reverse());
}

/// `SET key value` answers `OK` and makes an entry without a time to live, so that `GET key`
/// answers `value` at any time after (until the key is written again); every other key keeps
/// its entry.
pub proof fn law_set_then_get(m: DbView, args: Seq<RespV>, key: Seq<char>, value: Seq<char>, now: u64, later: u64)
    requires
        args.len() >= 2,
        args[0] == RespV::BulkString(key),
        args[1] == RespV::BulkString(value),
    ensures
        set_outcome(m, args, now).1 == RespV::Simple("OK"@),
        set_outcome(m, args, now).0[key].px is None,
        get_outcome(set_outcome(m, args, now).0, seq![RespV::BulkString(key)], later).1
            == RespV::BulkString(value),
        forall|k: Seq<char>| k != key ==> #[trigger] set_outcome(m, args, now).0.contains_key(k)
            == m.contains_key(k) && (m.contains_key(k) ==> set_outcome(m, args, now).0[k] == m[k]),
{
}

/// `LPOP key count` on a list `l` of `n >= 1` elements answers the first `min(count, n)`
/// elements in order and leaves the others: the answer followed by what stays is `l`, and
/// the key is gone once every element was taken.
pub proof fn law_lpop_count(
    m: DbView,
    key: Seq<char>,
    e: DbEntryV,
    l: Seq<Seq<char>>,
    count_text: Seq<char>,
    count: usize,
    now: u64,
)
    requires
        store_get(m, key, now).1 == Some(e),
        e.value == RedisTypeV::List(l),
        l.len() >= 1,
        parse_usize_text(encode_utf8(count_text)) == Some(count),
    ensures
        ({
            let n = l.len() as int;
            let k = if count < n { count as int } else { n };
            let (m2, reply) = lpop_outcome(m, seq![RespV::BulkString(key), RespV::BulkString(count_text)], now);
            &&& reply == RespV::Array(bulk_strings(l.subrange(0, k)))
            &&& (k == n ==> !m2.contains_key(key))
            &&& (k < n ==> m2.contains_key(key) && m2[key].value == RedisTypeV::List(l.subrange(k, n))
                && l.subrange(0, k) + l.subrange(k, n) == l)
        }),
{
    let n = l.len() as int;
    let k = if count < n { count as int } else { n };
    assert(l.take(k) =~= l.subrange(0, k));
    assert(l.skip(k) =~= l.subrange(k, n));
    assert(l.subrange(0, k) + l.subrange(k, n) =~= l);
}

/// `LPOP key` on a list `l` of `n >= 1` elements answers its first element and leaves the
/// rest (the key is gone where that was the only element).
pub proof fn law_lpop_one(m: DbView, key: Seq<char>, e: DbEntryV, l: Seq<Seq<char>>, now: u64)
    requires
        store_get(m, key, now).1 == Some(e),
        e.value == RedisTypeV::List(l),
        l.len() >= 1,
    ensures
        ({
            let (m2, reply) = lpop_outcome(m, seq![RespV::BulkString(key)], now);
            &&& reply == RespV::BulkString(l[0])
            &&& (l.len() == 1 ==> !m2.contains_key(key))
            &&& (l.len() > 1 ==> m2.contains_key(key)
                && m2[key].value == RedisTypeV::List(l.subrange(1, l.len() as int)))
        }),
{
    assert(l.skip(1) =~= l.subrange(1, l.len() as int));
}

} // verus!
