use vstd::prelude::*;
use crate::resp::{Resp, RespV};
use crate::db::{MemoryDb, DbEntry, DbEntryV, DbView, RedisType, RedisTypeV, store_set, store_get, strings_view, wrote};
use crate::clock::now_millis;
use crate::command::common::{args_view, lemma_args_view};

verus! {

/// The key and the values of a push, or the error text: at least a key and one value, all
/// bulk strings.
pub open spec fn list_args(args: Seq<RespV>) -> Result<(Seq<char>, Seq<Seq<char>>), Seq<char>> {
    if args.len() < 2 {
        Err("No key and at least one value supplied for SET"@)
    } else if !(args[0] is BulkString) {
        Err("Key must be a BulkString"@)
    } else if exists|i: int| 1 <= i < args.len() && !(#[trigger] args[i] is BulkString) {
        Err("All values must be BulkStrings"@)
    } else {
        Ok((args[0]->BulkString_0, Seq::new((args.len() - 1) as nat, |i: int| args[i + 1]->BulkString_0)))
    }
}

/// A fresh list entry made at time `now`.
pub open spec fn list_entry(items: Seq<Seq<char>>, now: u64) -> DbEntryV {
    DbEntryV { value: RedisTypeV::List(items), px: None, created_at: now }
}

/// A push at time `now` that makes the new list from the values read and the list stored
/// under the key (empty where there is none): the database afterwards and the reply.
pub open spec fn push_outcome(
    m: DbView,
    args: Seq<RespV>,
    now: u64,
    combine: spec_fn(Seq<Seq<char>>, Seq<Seq<char>>) -> Seq<Seq<char>>,
) -> (DbView, RespV) {
    match list_args(args) {
        Err(msg) => (m, RespV::Error(msg)),
        Ok((k, vals)) => {
            let (m2, found) = store_get(m, k, now);
            match found {
                Some(e) => match e.value {
                    RedisTypeV::List(existing) => {
                        let l = combine(vals, existing);
                        (store_set(m2, k, list_entry(l, now)), RespV::Int(l.len() as i64))
                    },
                    RedisTypeV::String(_) => (m2, RespV::Error("Existing entry is not a list type"@)),
                },
                None => {
                    let l = combine(vals, Seq::empty());
                    (store_set(m2, k, list_entry(l, now)), RespV::Int(l.len() as i64))
                },
            }
        },
    }
}

/// The write that a push at time `now` makes (as in [`push_outcome`]): the key and the entry
/// of the new list; none where the arguments are wrong or the key holds a string.
pub open spec fn push_write(
    m: DbView,
    args: Seq<RespV>,
    now: u64,
    combine: spec_fn(Seq<Seq<char>>, Seq<Seq<char>>) -> Seq<Seq<char>>,
) -> Option<(Seq<char>, DbEntryV)> {
    match list_args(args) {
        Err(_) => None,
        Ok((k, vals)) => match store_get(m, k, now).1 {
            Some(e) => match e.value {
                RedisTypeV::List(existing) => Some((k, list_entry(combine(vals, existing), now))),
                RedisTypeV::String(_) => None,
            },
            None => Some((k, list_entry(combine(vals, Seq::empty()), now))),
        },
    }
}

/// The write of `LPUSH` at time `now`.
pub open spec fn lpush_write(m: DbView, args: Seq<RespV>, now: u64) -> Option<(Seq<char>, DbEntryV)> {
    push_write(m, args, now, |vals: Seq<Seq<char>>, existing: Seq<Seq<char>>| vals.reverse() + existing)
}

/// `LPUSH` at time `now`: the values go to the front, the last one first.
pub open spec fn lpush_outcome(m: DbView, args: Seq<RespV>, now: u64) -> (DbView, RespV) {
    push_outcome(m, args, now, |vals: Seq<Seq<char>>, existing: Seq<Seq<char>>| vals.reverse() + existing)
}

/// Reads the arguments of a push: a key and at least one value, all bulk strings.
pub fn parse_list_items(args: &[Resp]) -> (r: Result<(&String, Vec<String>), String>)
    ensures
        match list_args(args_view(args)) {
            Ok((k, vals)) => r matches Ok((key, items)) && key@ == k && strings_view(items@) == vals,
            Err(msg) => r matches Err(m) && m@ == msg,
        },
{
    proof {
        lemma_args_view(args);
    }
    if args.len() < 2 {
        return Err("No key and at least one value supplied for SET".to_owned());
    }
    let key = match &args[0] {
        Resp::BulkString(s) => s,
        _ => { return Err("Key must be a BulkString".to_owned()); },
    };
    let ghost av = args_view(args);
    let mut arg_strings: Vec<String> = Vec::new();
    let mut i: usize = 1;
    while i < args.len()
        invariant
            1 <= i <= args@.len(),
            2 <= args@.len(),
            av == args_view(args),
            av[0] is BulkString,
            av[0]->BulkString_0 == key@,
            av.len() == args@.len(),
            forall|j: int| 0 <= j < args@.len() ==> #[trigger] av[j] == args@[j]@,
            forall|j: int| 1 <= j < i ==> (#[trigger] av[j]) is BulkString,
            strings_view(arg_strings@) == Seq::new((i - 1) as nat, |j: int| av[j + 1]->BulkString_0),
        decreases args.len() - i,
    {
        match &args[i] {
            Resp::BulkString(s) => {
                assert(av[i as int] == RespV::BulkString(s@));
                let ghost old_view = strings_view(arg_strings@);
                let c = s.clone();
                arg_strings.push(c);
                assert(strings_view(arg_strings@) =~= old_view.push(c@));
            },
            _ => {
                assert(!(av[i as int] is BulkString));
                return Err("All values must be BulkStrings".to_owned());
            },
        }
        i = i + 1;
        assert(strings_view(arg_strings@) =~= Seq::new((i - 1) as nat, |j: int| av[j + 1]->BulkString_0));
    }
    Ok((key, arg_strings))
}

/// The strings of `v` in reverse order.
pub fn reversed_strings(v: Vec<String>) -> (r: Vec<String>)
    ensures
        strings_view(r@) == strings_view(v@).reverse(),
{
    let mut v = v;
    let mut out: Vec<String> = Vec::new();
    let ghost orig = v@;
    while v.len() > 0
        invariant
            v@ == orig.take(v@.len() as int),
            v@.len() <= orig.len(),
            strings_view(out@) == strings_view(orig).reverse().take(orig.len() - v@.len()),
        decreases v.len(),
    {
        let ghost before = v@;
        let ghost k = orig.len() - before.len();
        let s = v.pop().unwrap();
        assert(s == orig[before.len() - 1]);
        assert(strings_view(orig).reverse()[k] == orig[before.len() - 1]@);
        let ghost old_view = strings_view(out@);
        let ghost sv = s@;
        out.push(s);
        assert(strings_view(out@) =~= old_view.push(sv));
        assert(v@ =~= orig.take(v@.len() as int));
        assert(strings_view(out@) =~= strings_view(orig).reverse().take(orig.len() - v@.len()));
    }
    assert(strings_view(orig).reverse().take(orig.len() as int) =~= strings_view(orig).reverse());
    out
}

/// Pushes `new_elements` at the front or the back of the list under `key`, or answers an
/// error where the key holds a string.
pub(crate) fn push_values(
    db: &mut MemoryDb,
    key: &String,
    new_elements: Vec<String>,
    now: u64,
    at_front: bool,
) -> (r: Resp)
    ensures
        ({
            let (m2, found) = store_get(old(db)@, key@, now);
            let vals = strings_view(new_elements@);
            match found {
                Some(e) => match e.value {
                    RedisTypeV::List(existing) => {
                        let l = if at_front { vals + existing } else { existing + vals };
                        &&& final(db)@ == store_set(m2, key@, list_entry(l, now))
                        &&& r@ == RespV::Int(l.len() as i64)
                        &&& wrote(*old(db), *final(db), Some((key@, list_entry(l, now))))
                    },
                    RedisTypeV::String(_) => {
                        &&& final(db)@ == m2
                        &&& r@ == RespV::Error("Existing entry is not a list type"@)
                        &&& wrote(*old(db), *final(db), None)
                    },
                },
                None => {
                    &&& final(db)@ == store_set(m2, key@, list_entry(vals, now))
                    &&& r@ == RespV::Int(vals.len() as i64)
                    &&& wrote(*old(db), *final(db), Some((key@, list_entry(vals, now))))
                },
            }
        }),
{
    let ghost vals = strings_view(new_elements@);
    let mut new_elements = new_elements;
    match db.get_at(key.as_str(), now) {
        Some(existing_entry) => match existing_entry.value {
            RedisType::List(existing_vec) => {
                let mut existing_vec = existing_vec;
                let ghost ex = strings_view(existing_vec@);
                let mut list: Vec<String>;
                if at_front {
                    new_elements.append(&mut existing_vec);
                    list = new_elements;
                } else {
                    existing_vec.append(&mut new_elements);
                    list = existing_vec;
                }
                let nr_entries = list.len() as i64;
                proof {
                    assert(strings_view(list@) =~= if at_front { vals + ex } else { ex + vals });
                }
                let entry = DbEntry::new_at(RedisType::List(list), now);
                match db.set(key.as_str(), &entry) {
                    Ok(()) => Resp::Int(nr_entries),
                    Err(_) => Resp::Error("Could not insert value into database".to_owned()),
                }
            },
            _ => Resp::Error("Existing entry is not a list type".to_owned()),
        },
        None => {
            let nr_entries = new_elements.len() as i64;
            let entry = DbEntry::new_at(RedisType::List(new_elements), now);
            match db.set(key.as_str(), &entry) {
                Ok(()) => Resp::Int(nr_entries),
                Err(_) => Resp::Error("Could not insert value into database".to_owned()),
            }
        },
    }
}

/// `LPUSH key value...`: puts the values at the front of the list, one after another, so
/// that the last comes first; answers the length of the list.
pub struct CommandLpush {}

impl CommandLpush {
    /// `LPUSH` at time `now`.
    pub fn execute_at(&self, db: &mut MemoryDb, args: &[Resp], now: u64) -> (r: Resp)
        ensures
            (final(db)@, r@) == lpush_outcome(old(db)@, args_view(args), now),
            wrote(*old(db), *final(db), lpush_write(old(db)@, args_view(args), now)),
    {
        let (key, new_elements) = match parse_list_items(args) {
            Ok((arg_key, arg_elements)) => (arg_key, arg_elements),
            Err(s) => { return Resp::Error(s); },
        };
        let reversed = reversed_strings(new_elements);
        let r = push_values(db, key, reversed, now, true);
        proof {
            assert(Seq::<Seq<char>>::empty().reverse() + Seq::<Seq<char>>::empty() =~= Seq::<Seq<char>>::empty());
            let vals = list_args(args_view(args))->Ok_0.1;
            assert(vals.reverse() + Seq::<Seq<char>>::empty() =~= vals.reverse());
        }
        r
    }

    /// `LPUSH`, with the entry made now (by the system clock).
    pub fn execute(&self, db: &mut MemoryDb, args: &[Resp]) -> (r: Resp)
        ensures
            exists|now: u64|
                (final(db)@, r@) == lpush_outcome(old(db)@, args_view(args), now)
                && wrote(*old(db), *final(db), lpush_write(old(db)@, args_view(args), now)),
    {
        let now = now_millis();
        self.execute_at(db, args, now)
    }
}

} // verus!
