use vstd::prelude::*;
use vstd::hash_map::StringHashMap;
use crate::clock::now_millis;
use crate::waiters::{Waiters, WaitersView, Offer, queue_of, notified};
use tokio::sync::oneshot::Sender;

verus! {

/// A value that a key holds.
#[derive(Debug, PartialEq)]
pub enum RedisType {
    String(String),
    List(Vec<String>),
}

/// The model of a [`RedisType`].
pub enum RedisTypeV {
    String(Seq<char>),
    List(Seq<Seq<char>>),
}

/// The texts of a list of strings.
pub open spec fn strings_view(v: Seq<String>) -> Seq<Seq<char>> {
    v.map_values(|s: String| s@)
}

impl View for RedisType {
    type V = RedisTypeV;

    open spec fn view(&self) -> RedisTypeV {
        match self {
            RedisType::String(s) => RedisTypeV::String(s@),
            RedisType::List(items) => RedisTypeV::List(strings_view(items@)),
        }
    }
}

/// Copies a list of strings.
pub fn clone_strings(v: &Vec<String>) -> (r: Vec<String>)
    ensures
        r@ == v@,
{
    let mut out: Vec<String> = Vec::new();
    let mut i: usize = 0;
    while i < v.len()
        invariant
            i <= v@.len(),
            out@ == v@.take(i as int),
        decreases v.len() - i,
    {
        out.push(v[i].clone());
        i = i + 1;
        assert(out@ =~= v@.take(i as int));
    }
    assert(v@.take(i as int) =~= v@);
    out
}

impl Clone for RedisType {
    fn clone(&self) -> (r: Self)
        ensures
            r@ == self@,
    {
        match self {
            RedisType::String(s) => RedisType::String(s.clone()),
            RedisType::List(items) => RedisType::List(clone_strings(items)),
        }
    }
}

/// An entry of the database: a value, an optional time to live in milliseconds, and the
/// time (milliseconds since the Unix epoch) at which it was made.
#[derive(Debug, PartialEq)]
pub struct DbEntry {
    pub value: RedisType,
    pub px: Option<u64>,
    pub created_at: u64,
}

/// The model of a [`DbEntry`].
pub struct DbEntryV {
    pub value: RedisTypeV,
    pub px: Option<u64>,
    pub created_at: u64,
}

impl View for DbEntry {
    type V = DbEntryV;

    open spec fn view(&self) -> DbEntryV {
        DbEntryV { value: self.value@, px: self.px, created_at: self.created_at }
    }
}

impl Clone for DbEntry {
    fn clone(&self) -> (r: Self)
        ensures
            r@ == self@,
    {
        DbEntry { value: self.value.clone(), px: self.px, created_at: self.created_at }
    }
}

/// Whether an entry has lived longer than its time to live at time `now`.
pub open spec fn expired_at(e: DbEntryV, now: u64) -> bool {
    match e.px {
        Some(px) => now > e.created_at + px,
        None => false,
    }
}

impl DbEntry {
    /// An entry for `value`, made at time `now`, that does not expire.
    pub fn new_at(value: RedisType, now: u64) -> (r: Self)
        ensures
            r.value == value,
            r.px is None,
            r.created_at == now,
    {
        DbEntry { value, px: None, created_at: now }
    }

    /// An entry for `value`, made now (by the system clock; one set before the Unix epoch
    /// reads as 0), that does not expire.
    pub fn new(value: RedisType) -> (r: Self)
        ensures
            r.value == value,
            r.px is None,
    {
        let now = now_millis();
        DbEntry::new_at(value, now)
    }

    /// Whether the entry has expired at time `now`: it has a time to live, and `now` is later
    /// than its creation time plus that time to live.
    pub fn is_expired_at(&self, now: u64) -> (r: bool)
        ensures
            r == expired_at(self@, now),
    {
        match self.px {
            Some(px) => now > self.created_at && now - self.created_at > px,
            None => false,
        }
    }

    /// Whether the entry has expired now (by the system clock). An entry without a time to
    /// live never expires.
    pub fn is_expired(&self) -> (r: bool)
        ensures
            r ==> self.px is Some,
            exists|now: u64| r == expired_at(self@, now),
    {
        let now = now_millis();
        self.is_expired_at(now)
    }
}

/// The model of the database: the entry of each key.
pub type DbView = Map<Seq<char>, DbEntryV>;

/// Whether an entry holds the empty list.
pub open spec fn is_empty_list(e: DbEntryV) -> bool {
    e.value matches RedisTypeV::List(items) && items.len() == 0
}

/// The database after writing `e` under `key`: an empty list removes the key.
pub open spec fn store_set(m: DbView, key: Seq<char>, e: DbEntryV) -> DbView {
    if is_empty_list(e) {
        m.remove(key)
    } else {
        m.insert(key, e)
    }
}

/// Reading `key` at time `now`: the database afterwards and the entry read. An expired
/// entry is removed and not given.
pub open spec fn store_get(m: DbView, key: Seq<char>, now: u64) -> (DbView, Option<DbEntryV>) {
    if m.contains_key(key) {
        if expired_at(m[key], now) {
            (m.remove(key), None)
        } else {
            (m, Some(m[key]))
        }
    } else {
        (m, None)
    }
}

/// A read right after a write of the same key gives the written entry, unless that entry is
/// an empty list (writing one removes the key) or has expired at the time of the read; an
/// expired entry is then gone from the database.
pub proof fn law_get_after_set(m: DbView, key: Seq<char>, e: DbEntryV, now: u64)
    ensures
        store_get(store_set(m, key, e), key, now).1
            == (if is_empty_list(e) || expired_at(e, now) { None } else { Some(e) }),
        !store_get(store_set(m, key, e), key, now).0.contains_key(key)
            <==> (is_empty_list(e) || expired_at(e, now)),
{
}

/// Writing or reading one key leaves every other key as it was.
pub proof fn law_other_keys_unchanged(m: DbView, key: Seq<char>, other: Seq<char>, e: DbEntryV, now: u64)
    requires
        key != other,
    ensures
        store_set(m, key, e).contains_key(other) == m.contains_key(other),
        m.contains_key(other) ==> store_set(m, key, e)[other] == m[other],
        store_get(m, key, now).0.contains_key(other) == m.contains_key(other),
        m.contains_key(other) ==> store_get(m, key, now).0[other] == m[other],
{
}

/// An entry without a time to live never expires; an expired entry stays expired.
pub proof fn law_expiry(e: DbEntryV, now: u64, later: u64)
    requires
        now <= later,
    ensures
        e.px is None ==> !expired_at(e, now),
        expired_at(e, now) ==> expired_at(e, later),
{
}

/// Reading a key whose entry has not expired changes nothing.
pub proof fn law_get_keeps_live_entries(m: DbView, key: Seq<char>, now: u64)
    requires
        m.contains_key(key),
        !expired_at(m[key], now),
    ensures
        store_get(m, key, now) == (m, Some(m[key])),
{
}

/// The model of an optional entry.
pub open spec fn entry_opt_view(o: Option<DbEntry>) -> Option<DbEntryV> {
    match o {
        Some(e) => Some(e@),
        None => None,
    }
}

/// An in-memory key-value database, with the clients that wait for keys to be written.
pub struct MemoryDb {
    data: StringHashMap<DbEntry>,
    waiters: Waiters,
    /// The offers of the written value that the last write made to waiting clients.
    offers: Ghost<Seq<Offer>>,
}

/// What a write (or its absence) does to the waiting clients: `w0`, `o0` before (the waiters
/// and the last write's offers), `w1`, `o1` after. With no write nothing changes; writing an
/// empty list removes the key and offers nothing; any other write offers the value to the
/// clients waiting for its key in queue order, up to the first that takes it.
pub open spec fn write_effect(
    w0: WaitersView,
    o0: Seq<Offer>,
    w1: WaitersView,
    o1: Seq<Offer>,
    write: Option<(Seq<char>, DbEntryV)>,
) -> bool {
    match write {
        None => w1 == w0 && o1 == o0,
        Some((key, e)) => if is_empty_list(e) {
            w1 == w0 && o1 == Seq::<Offer>::empty()
        } else {
            notified(w0, w1, key, e, o1)
        },
    }
}

/// What a write (or its absence) did to the waiting clients of a database, from `before`
/// to `after` (see [`write_effect`]).
pub open spec fn wrote(before: MemoryDb, after: MemoryDb, write: Option<(Seq<char>, DbEntryV)>) -> bool {
    write_effect(before.waiting(), before.last_offers(), after.waiting(), after.last_offers(), write)
}

impl View for MemoryDb {
    type V = DbView;

    closed spec fn view(&self) -> DbView {
        self.data@.map_values(|e: DbEntry| e@)
    }
}

impl MemoryDb {
    /// An empty database.
    pub fn new() -> (r: Self)
        ensures
            r@ == Map::<Seq<char>, DbEntryV>::empty(),
            r.waiting() == Map::<Seq<char>, Seq<Sender<DbEntry>>>::empty(),
            r.last_offers() == Seq::<Offer>::empty(),
    {
        let r = MemoryDb { data: StringHashMap::new(), waiters: Waiters::new(), offers: Ghost(Seq::empty()) };
        assert(r@ =~= Map::<Seq<char>, DbEntryV>::empty());
        r
    }

    /// The clients waiting for keys.
    pub closed spec fn waiting(&self) -> WaitersView {
        self.waiters@
    }

    /// The offers that the last write made to waiting clients.
    pub closed spec fn last_offers(&self) -> Seq<Offer> {
        self.offers@
    }

    /// Writes `value` under `key`; writing an empty list removes the key. Otherwise the value
    /// is offered to the clients waiting for the key, the longest-waiting first, until one
    /// takes it.
    pub fn set(&mut self, key: &str, value: &DbEntry) -> (r: Result<(), std::io::Error>)
        ensures
            r is Ok,
            final(self)@ == store_set(old(self)@, key@, value@),
            write_effect(
                old(self).waiting(),
                old(self).last_offers(),
                final(self).waiting(),
                final(self).last_offers(),
                Some((key@, value@)),
            ),
    {
        match &value.value {
            RedisType::List(items) => {
                if items.len() == 0 {
                    self.data.remove(key);
                    self.offers = Ghost(Seq::empty());
                    assert(self@ =~= store_set(old(self)@, key@, value@));
                    return Ok(());
                }
            },
            _ => {},
        }
        self.data.insert(key.to_owned(), value.clone());
        assert(self@ =~= store_set(old(self)@, key@, value@));
        let (_woke, offers) = self.waiters.notify(key, value);
        self.offers = offers;
        Ok(())
    }

    /// Reads `key` at time `now`; an expired entry is removed and not given.
    pub fn get_at(&mut self, key: &str, now: u64) -> (r: Option<DbEntry>)
        ensures
            (final(self)@, entry_opt_view(r)) == store_get(old(self)@, key@, now),
            final(self).waiting() == old(self).waiting(),
            final(self).last_offers() == old(self).last_offers(),
    {
        let found = match self.data.get(key) {
            Some(e) => Some(e.clone()),
            None => None,
        };
        match found {
            Some(entry) => {
                if entry.is_expired_at(now) {
                    self.data.remove(key);
                    assert(self@ =~= old(self)@.remove(key@));
                    None
                } else {
                    Some(entry)
                }
            },
            None => None,
        }
    }

    /// Reads `key` now (by the system clock); an expired entry is removed and not given.
    pub fn get(&mut self, key: &str) -> (r: Option<DbEntry>)
        ensures
            exists|now: u64| (final(self)@, entry_opt_view(r)) == store_get(old(self)@, key@, now),
            old(self)@.contains_key(key@) && old(self)@[key@].px is None ==> entry_opt_view(r) == Some(old(self)@[key@]),
            final(self).waiting() == old(self).waiting(),
            final(self).last_offers() == old(self).last_offers(),
    {
        let now = now_millis();
        self.get_at(key, now)
    }

    /// Reads `key` at time `now`; where it holds nothing, `tx` joins the back of the queue of
    /// clients waiting for it (and is otherwise dropped).
    pub fn get_or_wait_at(&mut self, key: &str, tx: Sender<DbEntry>, now: u64) -> (r: Option<DbEntry>)
        ensures
            (final(self)@, entry_opt_view(r)) == store_get(old(self)@, key@, now),
            r is Some ==> final(self).waiting() == old(self).waiting(),
            r is None ==> final(self).waiting()
                == old(self).waiting().insert(key@, queue_of(old(self).waiting(), key@).push(tx)),
            final(self).last_offers() == old(self).last_offers(),
    {
        match self.get_at(key, now) {
            Some(entry) => Some(entry),
            None => {
                self.waiters.register(key, tx);
                None
            },
        }
    }

    /// [`MemoryDb::get_or_wait_at`] now (by the system clock).
    pub fn get_or_wait(&mut self, key: &str, tx: Sender<DbEntry>) -> (r: Option<DbEntry>)
        ensures
            exists|now: u64| (final(self)@, entry_opt_view(r)) == store_get(old(self)@, key@, now),
            r is Some ==> final(self).waiting() == old(self).waiting(),
            r is None ==> final(self).waiting()
                == old(self).waiting().insert(key@, queue_of(old(self).waiting(), key@).push(tx)),
            final(self).last_offers() == old(self).last_offers(),
    {
        let now = now_millis();
        self.get_or_wait_at(key, tx, now)
    }
}

} // verus!
