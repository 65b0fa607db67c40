use vstd::prelude::*;
use crate::resp::RespV;
use crate::db::{DbView, DbEntryV, RedisTypeV, store_get, store_set, expired_at};
use crate::waiters::{WaitersView, Offer, notified, queue_of, with_queue};
use crate::command::cmd_blpop::blpop_outcome;
use tokio::sync::oneshot::Sender;
use crate::db::DbEntry;
use crate::command::common::bulk_strings;
use crate::command::cmd_lpush::{list_args, list_entry, lpush_outcome};
use crate::command::cmd_rpush::rpush_outcome;
use crate::command::cmd_lpop::lpop_outcome;
use crate::command::cmd_lrange::lrange_reply;

verus! {

/// The arguments `key value...` of a push.
pub open spec fn push_args(key: Seq<char>, vals: Seq<Seq<char>>) -> Seq<RespV> {
    seq![RespV::BulkString(key)] + bulk_strings(vals)
}

/// The list stored under `key` at time `now`: that of a live list entry, empty where the key
/// holds nothing (or only an expired entry).
pub open spec fn live_list(m: DbView, key: Seq<char>, now: u64) -> Option<Seq<Seq<char>>> {
    match store_get(m, key, now).1 {
        None => Some(Seq::empty()),
        Some(e) => match e.value {
            RedisTypeV::List(l) => Some(l),
            RedisTypeV::String(_) => None,
        },
    }
}

proof fn lemma_push_args(key: Seq<char>, vals: Seq<Seq<char>>)
    requires
        vals.len() >= 1,
    ensures
        list_args(push_args(key, vals)) == Ok::<(Seq<char>, Seq<Seq<char>>), Seq<char>>((key, vals)),
{
    let a = push_args(key, vals);
    assert forall|i: int| 1 <= i < a.len() implies (#[trigger] a[i]) is BulkString by {
        assert(a[i] == bulk_strings(vals)[i - 1]);
    }
    assert(Seq::new((a.len() - 1) as nat, |i: int| a[i + 1]->BulkString_0) =~= vals);
}

/// `LPUSH key v1 .. vn` (n >= 1) on a key that holds a list `l` (or nothing) leaves the list
/// `vn .. v1` followed by `l`, made at that time, and answers its length.
pub proof fn law_lpush_list(m: DbView, key: Seq<char>, vals: Seq<Seq<char>>, now: u64)
    requires
        vals.len() >= 1,
        live_list(m, key, now) is Some,
    ensures
        ({
            let l = vals.reverse() + live_list(m, key, now)->Some_0;
            let (m2, reply) = lpush_outcome(m, push_args(key, vals), now);
            &&& m2.contains_key(key)
            &&& m2[key] == list_entry(l, now)
            &&& reply == RespV::Int(l.len() as i64)
        }),
{
    lemma_push_args(key, vals);
    assert(vals.reverse().len() >= 1);
    assert(vals.reverse() + Seq::<Seq<char>>::empty() =~= vals.reverse());
}

/// `RPUSH key v1 .. vn` (n >= 1) on a key that holds a list `l` (or nothing) leaves `l`
/// followed by `v1 .. vn`, made at that time, and answers its length.
pub proof fn law_rpush_list(m: DbView, key: Seq<char>, vals: Seq<Seq<char>>, now: u64)
    requires
        vals.len() >= 1,
        live_list(m, key, now) is Some,
    ensures
        ({
            let l = live_list(m, key, now)->Some_0 + vals;
            let (m2, reply) = rpush_outcome(m, push_args(key, vals), now);
            &&& m2.contains_key(key)
            &&& m2[key] == list_entry(l, now)
            &&& reply == RespV::Int(l.len() as i64)
        }),
{
    lemma_push_args(key, vals);
    assert(Seq::<Seq<char>>::empty() + vals =~= vals);
}

/// A list is a queue under `RPUSH` and `LPOP`: after `RPUSH key v1 .. vn` on a key that
/// holds nothing, `LPOP key` answers `v1` and leaves `v2 .. vn`.
pub proof fn law_rpush_then_lpop(m: DbView, key: Seq<char>, vals: Seq<Seq<char>>, now: u64)
    requires
        vals.len() >= 1,
        !m.contains_key(key),
    ensures
        ({
            let (m2, _) = rpush_outcome(m, push_args(key, vals), now);
            let (m3, reply) = lpop_outcome(m2, seq![RespV::BulkString(key)], now);
            &&& reply == RespV::BulkString(vals[0])
            &&& (vals.len() > 1 ==> m3.contains_key(key) && m3[key].value == RedisTypeV::List(vals.drop_first()))
            &&& (vals.len() == 1 ==> !m3.contains_key(key))
        }),
{
    law_rpush_list(m, key, vals, now);
    assert(Seq::<Seq<char>>::empty() + vals =~= vals);
    assert(vals.skip(1) =~= vals.drop_first());
}

/// A list is a stack under `LPUSH` and `LPOP`: after `LPUSH key v1 .. vn` on a key that
/// holds nothing, `LPOP key` answers `vn`, the value pushed last.
pub proof fn law_lpush_then_lpop(m: DbView, key: Seq<char>, vals: Seq<Seq<char>>, now: u64)
    requires
        vals.len() >= 1,
        !m.contains_key(key),
    ensures
        ({
            let (m2, _) = lpush_outcome(m, push_args(key, vals), now);
            let (m3, reply) = lpop_outcome(m2, seq![RespV::BulkString(key)], now);
            reply == RespV::BulkString(vals.last())
        }),
{
    law_lpush_list(m, key, vals, now);
    assert((vals.reverse() + Seq::<Seq<char>>::empty())[0] == vals.last());
}

/// `LRANGE key 0 -1` gives the whole list.
pub proof fn law_lrange_whole(items: Seq<Seq<char>>)
    ensures
        lrange_reply(items, 0i64, -1i64) == RespV::Array(bulk_strings(items)),
{
    if items.len() > 0 {
        assert(items.subrange(0, items.len() as int) =~= items);
    } else {
        assert(bulk_strings(items) =~= Seq::<RespV>::empty());
    }
}

/// A blocked `BLPOP` is woken by the next write of a non-empty list to its key. Its client
/// `tx` waits in the queue of `key` behind the clients `front` (and before `back`, who came
/// later); a write of the list `x :: rest` under `key` offers the entry to the clients in queue
/// order. Where every client in `front` had left and `tx` still listens, the offers stop at
/// `tx`, which is handed the written entry, and the clients in `back` keep waiting. Finishing
/// the `BLPOP` with that entry answers `[key, x]` and leaves `rest` under the key (or
/// removes the key where `rest` is empty).
pub proof fn law_blpop_wakeup(
    m: DbView,
    w: WaitersView,
    key: Seq<char>,
    tx: Sender<DbEntry>,
    front: Seq<Sender<DbEntry>>,
    back: Seq<Sender<DbEntry>>,
    e: DbEntryV,
    w2: WaitersView,
    offers: Seq<Offer>,
)
    requires
        queue_of(w, key) == front.push(tx) + back,
        e.value matches RedisTypeV::List(items) && items.len() > 0,
        notified(w, w2, key, e, offers),
        forall|j: int| 0 <= j < front.len() && j < offers.len() ==> !(#[trigger] offers[j]).taken,
        offers.len() > front.len() ==> offers[front.len() as int].taken,
    ensures
        offers.len() == front.len() + 1,
        offers.last() == (Offer { to: tx, value: e, taken: true }),
        w2 == with_queue(w, key, back),
        ({
            let items = e.value->List_0;
            let m1 = store_set(m, key, e);
            let (m2, reply) = blpop_outcome(m1, key, Some(offers.last().value));
            &&& reply == RespV::Array(seq![RespV::BulkString(key), RespV::BulkString(items[0])])
            &&& (items.len() > 1 ==> m2.contains_key(key)
                && m2[key] == DbEntryV { value: RedisTypeV::List(items.drop_first()), ..e })
            &&& (items.len() == 1 ==> !m2.contains_key(key))
            &&& forall|k: Seq<char>| k != key ==> #[trigger] m2.contains_key(k) == m.contains_key(k)
                && (m.contains_key(k) ==> m2[k] == m[k])
        }),
{
    let q = queue_of(w, key);
    let n = front.len() as int;
    assert(q[n] == tx);
    if offers.len() <= n {
        assert(offers.len() < q.len());
        assert(!offers.last().taken);
    }
    assert(offers.len() == n + 1);
    let last = offers.last();
    assert(last == offers[n]);
    assert(last.to == q[n]);
    assert(q.skip(n + 1) =~= back);
    let items = e.value->List_0;
    assert(items.skip(1) =~= items.drop_first());
}

/// `BLPOP` on a key that holds nothing, then a write of the list `x :: rest` under it: the
/// client queues at the back of the waiters of the key; where every client queued before it
/// had left and it still listens, the write hands it the written entry, no client is left
/// waiting for the key, and finishing the `BLPOP` answers `[key, x]` and leaves `rest`.
pub proof fn law_blpop_waits_then_is_woken(
    m: DbView,
    w: WaitersView,
    key: Seq<char>,
    tx: Sender<DbEntry>,
    now: u64,
    e: DbEntryV,
    w2: WaitersView,
    offers: Seq<Offer>,
)
    requires
        store_get(m, key, now).1 is None,
        e.value matches RedisTypeV::List(items) && items.len() > 0,
        notified(w.insert(key, queue_of(w, key).push(tx)), w2, key, e, offers),
        forall|j: int| 0 <= j < queue_of(w, key).len() && j < offers.len() ==> !(#[trigger] offers[j]).taken,
        offers.len() > queue_of(w, key).len() ==> offers[queue_of(w, key).len() as int].taken,
    ensures
        offers.last() == (Offer { to: tx, value: e, taken: true }),
        !w2.contains_key(key),
        forall|k: Seq<char>| k != key ==> #[trigger] w2.contains_key(k) == w.contains_key(k)
            && (w.contains_key(k) ==> w2[k] == w[k]),
        ({
            let items = e.value->List_0;
            let m1 = store_set(store_get(m, key, now).0, key, e);
            let (m2, reply) = blpop_outcome(m1, key, Some(offers.last().value));
            &&& reply == RespV::Array(seq![RespV::BulkString(key), RespV::BulkString(items[0])])
            &&& (items.len() > 1 ==> m2.contains_key(key)
                && m2[key] == DbEntryV { value: RedisTypeV::List(items.drop_first()), ..e })
            &&& (items.len() == 1 ==> !m2.contains_key(key))
        }),
{
    let w1 = w.insert(key, queue_of(w, key).push(tx));
    let front = queue_of(w, key);
    assert(queue_of(w1, key) =~= front.push(tx) + Seq::<Sender<DbEntry>>::empty());
    law_blpop_wakeup(store_get(m, key, now).0, w1, key, tx, front, Seq::empty(), e, w2, offers);
    assert(w2 =~= w1.remove(key));
}

} // verus!
