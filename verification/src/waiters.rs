use vstd::prelude::*;
use std::collections::VecDeque;
use tokio::sync::oneshot::Sender;
use crate::db::{DbEntry, DbEntryV};

verus! {

#[verifier::external_type_specification]
#[verifier::external_body]
#[verifier::reject_recursive_types(T)]
pub struct ExSender<T>(Sender<T>);

/// Calls `tokio::sync::oneshot::Sender::send`, which hands `value` to the receiving half,
/// or, where that half is gone, gives the value back unchanged. Whether it is gone is not
/// stated: that depends on the other task.
#[verifier::external_body]
fn send_entry(tx: Sender<DbEntry>, value: DbEntry) -> (r: Result<(), DbEntry>)
    ensures
        r matches Err(back) ==> back == value,
{
    tx.send(value)
}

/// The model of the waiting clients: for each key, the senders of the clients waiting for
/// it, the longest-waiting first.
pub type WaitersView = Map<Seq<char>, Seq<Sender<DbEntry>>>;

/// The waiting queues, by key.
pub open spec fn entries_view(e: Seq<(String, VecDeque<Sender<DbEntry>>)>) -> Seq<(Seq<char>, Seq<Sender<DbEntry>>)> {
    e.map_values(|p: (String, VecDeque<Sender<DbEntry>>)| (p.0@, p.1@))
}

/// The keys of the queues are distinct, and no queue is empty.
pub open spec fn entries_wf(s: Seq<(Seq<char>, Seq<Sender<DbEntry>>)>) -> bool {
    &&& forall|i: int, j: int| 0 <= i < s.len() && 0 <= j < s.len() && i != j ==> s[i].0 != s[j].0
    &&& forall|i: int| 0 <= i < s.len() ==> (#[trigger] s[i]).1.len() > 0
}

/// The map of the queues.
pub open spec fn entries_map(s: Seq<(Seq<char>, Seq<Sender<DbEntry>>)>) -> WaitersView {
    Map::new(
        |k: Seq<char>| exists|i: int| 0 <= i < s.len() && (#[trigger] s[i]).0 == k,
        |k: Seq<char>| s[choose|i: int| 0 <= i < s.len() && (#[trigger] s[i]).0 == k].1,
    )
}

/// The queue of `key`, empty where no client waits for it.
pub open spec fn queue_of(w: WaitersView, key: Seq<char>) -> Seq<Sender<DbEntry>> {
    if w.contains_key(key) { w[key] } else { Seq::empty() }
}

/// The waiters after `q` became the queue of `key`: an empty queue is dropped.
pub open spec fn with_queue(w: WaitersView, key: Seq<char>, q: Seq<Sender<DbEntry>>) -> WaitersView {
    if q.len() == 0 { w.remove(key) } else { w.insert(key, q) }
}

/// An offer of a written value to a waiting client: the client's sender, the value handed to
/// it, and whether the client took it (the send went through).
pub struct Offer {
    pub to: Sender<DbEntry>,
    pub value: DbEntryV,
    pub taken: bool,
}

/// The offers of `value` to the queue `q` follow the rule of a write: the clients are offered
/// the value in queue order, each refusing one is followed by the next, and the offers stop at
/// the first client that takes it (or when the queue is exhausted).
pub open spec fn offers_in_order(q: Seq<Sender<DbEntry>>, value: DbEntryV, offers: Seq<Offer>) -> bool {
    &&& offers.len() <= q.len()
    &&& forall|i: int| 0 <= i < offers.len() ==> (#[trigger] offers[i]).to == q[i] && offers[i].value == value
    &&& forall|i: int| 0 <= i < offers.len() - 1 ==> !(#[trigger] offers[i]).taken
    &&& offers.len() < q.len() ==> offers.len() > 0 && offers.last().taken
}

/// The waiters after `value` was written under `key`, with `offers` the offers made: they
/// follow the rule of a write, and the clients offered the value left the queue of `key`;
/// the queues of other keys stay.
pub open spec fn notified(
    before: WaitersView,
    after: WaitersView,
    key: Seq<char>,
    value: DbEntryV,
    offers: Seq<Offer>,
) -> bool {
    &&& offers_in_order(queue_of(before, key), value, offers)
    &&& after == with_queue(before, key, queue_of(before, key).skip(offers.len() as int))
}

/// Whether one of the offers was taken (only the last one can be).
pub open spec fn some_taken(offers: Seq<Offer>) -> bool {
    offers.len() > 0 && offers.last().taken
}

/// A write wakes at most one client, the earliest-queued one that still listens, and that
/// client is handed the written value; every client before it in the queue had left.
pub proof fn law_one_client_takes(q: Seq<Sender<DbEntry>>, value: DbEntryV, offers: Seq<Offer>, i: int)
    requires
        offers_in_order(q, value, offers),
        0 <= i < offers.len(),
        offers[i].taken,
    ensures
        i == offers.len() - 1,
        offers[i].to == q[i],
        offers[i].value == value,
        forall|j: int| 0 <= j < i ==> !(#[trigger] offers[j]).taken,
{
}

/// The clients waiting for keys to be written. (The queues are kept in a list of pairs: a
/// queue must be taken out to be changed, and vstd's `StringHashMap` neither lends a value
/// mutably nor gives it back on removal, while a queue of senders cannot be copied.)
pub struct Waiters {
    queues: Vec<(String, VecDeque<Sender<DbEntry>>)>,
}

impl View for Waiters {
    type V = WaitersView;

    closed spec fn view(&self) -> WaitersView {
        entries_map(entries_view(self.queues@))
    }
}

/// The map of a sequence of queues with the entry `i` removed and `(k, q)` added at the end.
proof fn lemma_replace_entry(
    s: Seq<(Seq<char>, Seq<Sender<DbEntry>>)>,
    i: int,
    q: Seq<Sender<DbEntry>>,
)
    requires
        entries_wf(s),
        0 <= i < s.len(),
        q.len() > 0,
    ensures
        entries_wf(s.remove(i).push((s[i].0, q))),
        entries_map(s.remove(i).push((s[i].0, q))) == entries_map(s).insert(s[i].0, q),
        entries_wf(s.remove(i)),
        entries_map(s.remove(i)) == entries_map(s).remove(s[i].0),
        entries_map(s).contains_key(s[i].0),
        entries_map(s)[s[i].0] == s[i].1,
{
    assert(s[i].0 == s[i].0);
    let ci = choose|j: int| 0 <= j < s.len() && (#[trigger] s[j]).0 == s[i].0;
    assert(ci == i);
    let k = s[i].0;
    let r = s.remove(i);
    let t = r.push((k, q));
    assert forall|a: int| 0 <= a < r.len() implies (#[trigger] r[a]).0 != k by {
        if a < i {
            assert(r[a] == s[a]);
        } else {
            assert(r[a] == s[a + 1]);
        }
    }
    assert forall|a: int, b: int| 0 <= a < r.len() && 0 <= b < r.len() && a != b implies r[a].0 != r[b].0 by {
        let sa = if a < i { a } else { a + 1 };
        let sb = if b < i { b } else { b + 1 };
        assert(r[a] == s[sa]);
        assert(r[b] == s[sb]);
    }
    assert forall|a: int| 0 <= a < r.len() implies (#[trigger] r[a]).1.len() > 0 by {
        if a < i {
            assert(r[a] == s[a]);
        } else {
            assert(r[a] == s[a + 1]);
        }
    }
    assert forall|a: int| 0 <= a < t.len() implies (#[trigger] t[a]).1.len() > 0 by {
        if a < r.len() {
            assert(t[a] == r[a]);
        }
    }
    assert forall|a: int, b: int| 0 <= a < t.len() && 0 <= b < t.len() && a != b implies t[a].0 != t[b].0 by {
        if a < r.len() && b < r.len() {
            assert(t[a] == r[a]);
            assert(t[b] == r[b]);
        } else if a < r.len() {
            assert(t[a] == r[a]);
        } else {
            assert(t[b] == r[b]);
        }
    }
    // the map without entry `i`
    assert forall|key: Seq<char>| #[trigger] entries_map(r).contains_key(key) == entries_map(s).remove(k).contains_key(key) by {
        if entries_map(s).remove(k).contains_key(key) {
            let j = choose|j: int| 0 <= j < s.len() && (#[trigger] s[j]).0 == key;
            assert(j != i);
            let rj = if j < i { j } else { j - 1 };
            assert(r[rj] == s[j]);
        }
        if entries_map(r).contains_key(key) {
            let j = choose|j: int| 0 <= j < r.len() && (#[trigger] r[j]).0 == key;
            let sj = if j < i { j } else { j + 1 };
            assert(r[j] == s[sj]);
        }
    }
    assert forall|key: Seq<char>| #[trigger] entries_map(r).contains_key(key) implies entries_map(r)[key] == entries_map(s)[key] by {
        let j = choose|j: int| 0 <= j < r.len() && (#[trigger] r[j]).0 == key;
        let sj = if j < i { j } else { j + 1 };
        assert(r[j] == s[sj]);
        let js = choose|js: int| 0 <= js < s.len() && (#[trigger] s[js]).0 == key;
        assert(js == sj);
    }
    assert(entries_map(r) =~= entries_map(s).remove(k));
    // the map with `(k, q)` added
    assert forall|key: Seq<char>| #[trigger] entries_map(t).contains_key(key) == entries_map(r).insert(k, q).contains_key(key) by {
        if entries_map(r).contains_key(key) {
            let j = choose|j: int| 0 <= j < r.len() && (#[trigger] r[j]).0 == key;
            assert(t[j] == r[j]);
        }
        if key == k {
            assert(t[r.len() as int].0 == k);
        }
        if entries_map(t).contains_key(key) {
            let j = choose|j: int| 0 <= j < t.len() && (#[trigger] t[j]).0 == key;
            if j < r.len() {
                assert(t[j] == r[j]);
            }
        }
    }
    assert forall|key: Seq<char>| #[trigger] entries_map(t).contains_key(key) implies entries_map(t)[key] == entries_map(r).insert(k, q)[key] by {
        let j = choose|j: int| 0 <= j < t.len() && (#[trigger] t[j]).0 == key;
        if key == k {
            assert(t[r.len() as int].0 == k);
            assert(j == r.len());
        } else {
            assert(j < r.len());
            assert(t[j] == r[j]);
            let jr = choose|jr: int| 0 <= jr < r.len() && (#[trigger] r[jr]).0 == key;
            assert(t[jr] == r[jr]);
            assert(jr == j);
        }
    }
    assert(entries_map(t) =~= entries_map(r).insert(k, q));
}

/// The map of a sequence of queues with `(k, q)` added for a new key `k`.
proof fn lemma_add_entry(s: Seq<(Seq<char>, Seq<Sender<DbEntry>>)>, k: Seq<char>, q: Seq<Sender<DbEntry>>)
    requires
        entries_wf(s),
        !entries_map(s).contains_key(k),
        q.len() > 0,
    ensures
        entries_wf(s.push((k, q))),
        entries_map(s.push((k, q))) == entries_map(s).insert(k, q),
{
    let t = s.push((k, q));
    assert forall|a: int| 0 <= a < s.len() implies (#[trigger] s[a]).0 != k by {
        if s[a].0 == k {
            assert(entries_map(s).contains_key(k));
        }
    }
    assert forall|a: int| 0 <= a < t.len() implies (#[trigger] t[a]).1.len() > 0 by {
        if a < s.len() {
            assert(t[a] == s[a]);
        }
    }
    assert forall|a: int, b: int| 0 <= a < t.len() && 0 <= b < t.len() && a != b implies t[a].0 != t[b].0 by {
        if a < s.len() {
            assert(t[a] == s[a]);
        }
        if b < s.len() {
            assert(t[b] == s[b]);
        }
    }
    assert forall|key: Seq<char>| #[trigger] entries_map(t).contains_key(key) == entries_map(s).insert(k, q).contains_key(key) by {
        if entries_map(s).contains_key(key) {
            let j = choose|j: int| 0 <= j < s.len() && (#[trigger] s[j]).0 == key;
            assert(t[j] == s[j]);
        }
        if key == k {
            assert(t[s.len() as int].0 == k);
        }
        if entries_map(t).contains_key(key) {
            let j = choose|j: int| 0 <= j < t.len() && (#[trigger] t[j]).0 == key;
            if j < s.len() {
                assert(t[j] == s[j]);
            }
        }
    }
    assert forall|key: Seq<char>| #[trigger] entries_map(t).contains_key(key) implies entries_map(t)[key] == entries_map(s).insert(k, q)[key] by {
        let j = choose|j: int| 0 <= j < t.len() && (#[trigger] t[j]).0 == key;
        if key == k {
            assert(t[s.len() as int].0 == k);
            assert(j == s.len());
        } else {
            assert(j < s.len());
            assert(t[j] == s[j]);
            let js = choose|js: int| 0 <= js < s.len() && (#[trigger] s[js]).0 == key;
            assert(t[js] == s[js]);
            assert(js == j);
        }
    }
    assert(entries_map(t) =~= entries_map(s).insert(k, q));
}

impl Waiters {
    #[verifier::type_invariant]
    spec fn wf(&self) -> bool {
        entries_wf(entries_view(self.queues@))
    }

    /// No client waits.
    pub fn new() -> (r: Self)
        ensures
            r@ == Map::<Seq<char>, Seq<Sender<DbEntry>>>::empty(),
    {
        let r = Waiters { queues: Vec::new() };
        assert(entries_view(r.queues@) =~= Seq::empty());
        assert(r@ =~= Map::<Seq<char>, Seq<Sender<DbEntry>>>::empty());
        r
    }

    /// The position of the queue of `key`.
    fn find(&self, key: &str) -> (r: Option<usize>)
        ensures
            match r {
                Some(i) => i < self.queues@.len() && self.queues@[i as int].0@ == key@,
                None => !self@.contains_key(key@),
            },
    {
        let mut i: usize = 0;
        while i < self.queues.len()
            invariant
                i <= self.queues@.len(),
                forall|j: int| 0 <= j < i ==> self.queues@[j].0@ != key@,
            decreases self.queues.len() - i,
        {
            if crate::text::bytes_equal(self.queues[i].0.as_str().as_bytes(), key.as_bytes()) {
                proof {
                    vstd::utf8::encode_utf8_decode_utf8(self.queues@[i as int].0@);
                    vstd::utf8::encode_utf8_decode_utf8(key@);
                }
                return Some(i);
            }
            proof {
                if self.queues@[i as int].0@ == key@ {
                    assert(false);
                }
            }
            i = i + 1;
        }
        proof {
            let s = entries_view(self.queues@);
            assert forall|j: int| 0 <= j < s.len() implies (#[trigger] s[j]).0 != key@ by {
                assert(s[j].0 == self.queues@[j].0@);
            }
        }
        None
    }

    /// Adds `tx` at the back of the queue of `key`.
    pub fn register(&mut self, key: &str, tx: Sender<DbEntry>)
        ensures
            final(self)@ == old(self)@.insert(key@, queue_of(old(self)@, key@).push(tx)),
    {
        proof {
            use_type_invariant(&*self);
        }
        let ghost s = entries_view(self.queues@);
        match self.find(key) {
            Some(i) => {
                proof {
                    assert(s[i as int].0 == key@);
                    lemma_replace_entry(s, i as int, s[i as int].1.push(tx));
                    assert(entries_view(self.queues@.remove(i as int)) =~= s.remove(i as int));
                }
                let mut queues: Vec<(String, VecDeque<Sender<DbEntry>>)> = Vec::new();
                std::mem::swap(&mut queues, &mut self.queues);
                let (k, mut q) = queues.remove(i);
                q.push_back(tx);
                queues.push((k, q));
                proof {
                    assert(entries_view(queues@) =~= s.remove(i as int).push((s[i as int].0, s[i as int].1.push(tx))));
                }
                self.queues = queues;
            },
            None => {
                let mut q: VecDeque<Sender<DbEntry>> = VecDeque::new();
                q.push_back(tx);
                let k = key.to_owned();
                proof {
                    assert(q@ =~= seq![tx]);
                    lemma_add_entry(s, key@, q@);
                    assert(queue_of(old(self)@, key@).push(tx) =~= q@);
                }
                let mut queues: Vec<(String, VecDeque<Sender<DbEntry>>)> = Vec::new();
                std::mem::swap(&mut queues, &mut self.queues);
                queues.push((k, q));
                proof {
                    assert(entries_view(queues@) =~= s.push((key@, q@)));
                }
                self.queues = queues;
            },
        }
    }

    /// Hands `value` to the longest-waiting client of `key` that still listens: clients are
    /// taken from the front of the queue and offered a copy of the value, until one takes it or
    /// the queue is empty. Gives whether one took it, and the offers made.
    pub fn notify(&mut self, key: &str, value: &DbEntry) -> (r: (bool, Ghost<Seq<Offer>>))
        ensures
            notified(old(self)@, final(self)@, key@, value@, r.1@),
            r.0 == some_taken(r.1@),
    {
        proof {
            use_type_invariant(&*self);
        }
        let ghost s = entries_view(self.queues@);
        match self.find(key) {
            None => {
                assert(queue_of(old(self)@, key@).skip(0) =~= Seq::<Sender<DbEntry>>::empty());
                assert(self@ =~= old(self)@.remove(key@));
                (false, Ghost(Seq::empty()))
            },
            Some(i) => {
                let ghost orig = s[i as int].1;
                proof {
                    assert(s[i as int].0 == key@);
                    lemma_replace_entry(s, i as int, orig);
                    assert(entries_view(self.queues@.remove(i as int)) =~= s.remove(i as int));
                }
                let mut queues: Vec<(String, VecDeque<Sender<DbEntry>>)> = Vec::new();
                std::mem::swap(&mut queues, &mut self.queues);
                let (k, mut q) = queues.remove(i);
                proof {
                    assert(entries_view(queues@) =~= s.remove(i as int));
                }
                let mut woke = false;
                let ghost mut n: int = 0;
                let ghost mut offers: Seq<Offer> = Seq::empty();
                while !woke && q.len() > 0
                    invariant
                        0 <= n <= orig.len(),
                        q@ == orig.skip(n),
                        offers.len() == n,
                        forall|j: int| 0 <= j < n ==> (#[trigger] offers[j]).to == orig[j] && offers[j].value == value@,
                        forall|j: int| 0 <= j < n - 1 ==> !(#[trigger] offers[j]).taken,
                        woke == some_taken(offers),
                        0 <= i < s.len(),
                        entries_view(queues@) == s.remove(i as int),
                    decreases q@.len(),
                {
                    let tx = q.pop_front().unwrap();
                    let ghost to = tx;
                    proof {
                        assert(to == orig[n]);
                        n = n + 1;
                        assert(q@ =~= orig.skip(n));
                    }
                    let copy = value.clone();
                    let sent = send_entry(tx, copy);
                    proof {
                        offers = offers.push(Offer { to, value: value@, taken: sent is Ok });
                    }
                    match sent {
                        Ok(()) => { woke = true; },
                        Err(_) => {},
                    }
                }
                proof {
                    assert(offers_in_order(orig, value@, offers));
                }
                if q.len() > 0 {
                    proof {
                        lemma_replace_entry(s, i as int, q@);
                    }
                    queues.push((k, q));
                    proof {
                        assert(entries_view(queues@) =~= s.remove(i as int).push((s[i as int].0, orig.skip(n))));
                    }
                } else {
                    proof {
                        assert(orig.skip(n) =~= Seq::<Sender<DbEntry>>::empty());
                    }
                }
                self.queues = queues;
                proof {
                    assert(queue_of(old(self)@, key@) == orig);
                    assert(self@ == with_queue(old(self)@, key@, queue_of(old(self)@, key@).skip(n)));
                }
                (woke, Ghost(offers))
            },
        }
    }
}

} // verus!
