use vstd::prelude::*;

use crate::text::same_text;

verus! {

/// A cached value and the instant, in milliseconds, after which it is stale.
pub struct CacheEntry<T> {
    pub data: T,
    pub expires_at: i64,
}

impl<T> CacheEntry<T> {
    /// An entry that stays fresh for `ttl_seconds` from `now` (in
    /// milliseconds).
    pub fn new(data: T, ttl_seconds: i64, now: i64) -> (r: CacheEntry<T>)
        requires
            i64::MIN <= now + ttl_seconds * 1000 <= i64::MAX,
            i64::MIN <= ttl_seconds * 1000 <= i64::MAX,
        ensures
            r.data == data,
            r.expires_at == now + ttl_seconds * 1000,
    {
        CacheEntry { data, expires_at: now + ttl_seconds * 1000 }
    }

    /// Whether the entry is stale at `now`.
    pub fn is_expired(&self, now: i64) -> (r: bool)
        ensures
            r == (now > self.expires_at),
    {
        now > self.expires_at
    }
}

pub open spec fn lookup_entry<V>(e: Seq<(String, CacheEntry<V>)>, key: Seq<char>) -> Option<
    CacheEntry<V>,
>
    decreases e.len(),
{
    if e.len() == 0 {
        None
    } else if e.last().0@ == key {
        Some(e.last().1)
    } else {
        lookup_entry(e.drop_last(), key)
    }
}

pub open spec fn keys_unique<V>(e: Seq<(String, CacheEntry<V>)>) -> bool {
    forall|i: int, j: int| 0 <= i < e.len() && 0 <= j < e.len() && i != j ==> #[trigger] e[i].0@ != #[trigger] e[j].0@
}

proof fn lemma_lookup_absent<V>(e: Seq<(String, CacheEntry<V>)>, key: Seq<char>)
    requires
        forall|i: int| 0 <= i < e.len() ==> #[trigger] e[i].0@ != key,
    ensures
        lookup_entry(e, key) is None,
    decreases e.len(),
{
    if e.len() > 0 {
        assert(e.last() == e[e.len() - 1]);
        assert forall|i: int| 0 <= i < e.drop_last().len() implies #[trigger] e.drop_last()[i].0@ != key by {
            assert(e.drop_last()[i] == e[i]);
        }
        lemma_lookup_absent(e.drop_last(), key);
    }
}

proof fn lemma_lookup_some<V>(e: Seq<(String, CacheEntry<V>)>, key: Seq<char>)
    requires
        lookup_entry(e, key) is Some,
    ensures
        exists|j: int| 0 <= j < e.len() && #[trigger] e[j].0@ == key,
    decreases e.len(),
{
    if e.last().0@ == key {
        assert(e[e.len() - 1].0@ == key);
    } else {
        lemma_lookup_some(e.drop_last(), key);
        let j = choose|j: int| 0 <= j < e.drop_last().len() && #[trigger] e.drop_last()[j].0@ == key;
        assert(e[j] == e.drop_last()[j]);
    }
}

proof fn lemma_lookup_at<V>(e: Seq<(String, CacheEntry<V>)>, i: int)
    requires
        keys_unique(e),
        0 <= i < e.len(),
    ensures
        lookup_entry(e, e[i].0@) == Some(e[i].1),
    decreases e.len(),
{
    if i < e.len() - 1 {
        let d = e.drop_last();
        assert(d[i] == e[i]);
        assert(e.last() == e[e.len() - 1]);
        assert(e[e.len() - 1].0@ != e[i].0@);
        assert forall|a: int, b: int| 0 <= a < d.len() && 0 <= b < d.len() && a != b implies #[trigger] d[a].0@ != #[trigger] d[b].0@ by {
            assert(d[a] == e[a] && d[b] == e[b]);
        }
        lemma_lookup_at(d, i);
    }
}

proof fn lemma_lookup_remove<V>(e: Seq<(String, CacheEntry<V>)>, i: int, key: Seq<char>)
    requires
        keys_unique(e),
        0 <= i < e.len(),
    ensures
        keys_unique(e.remove(i)),
        lookup_entry(e.remove(i), key) == if key == e[i].0@ {
            None
        } else {
            lookup_entry(e, key)
        },
    decreases e.len(),
{
    let r = e.remove(i);
    assert forall|a: int, b: int| 0 <= a < r.len() && 0 <= b < r.len() && a != b implies #[trigger] r[a].0@ != #[trigger] r[b].0@ by {
        let a2 = if a < i { a } else { a + 1 };
        let b2 = if b < i { b } else { b + 1 };
        assert(r[a] == e[a2] && r[b] == e[b2]);
    }
    if key == e[i].0@ {
        assert forall|j: int| 0 <= j < r.len() implies #[trigger] r[j].0@ != key by {
            let j2 = if j < i { j } else { j + 1 };
            assert(r[j] == e[j2]);
        }
        lemma_lookup_absent(r, key);
    } else if i == e.len() - 1 {
        assert(r == e.drop_last());
        assert(e.last() == e[i]);
    } else {
        let d = e.drop_last();
        assert forall|a: int, b: int| 0 <= a < d.len() && 0 <= b < d.len() && a != b implies #[trigger] d[a].0@ != #[trigger] d[b].0@ by {
            assert(d[a] == e[a] && d[b] == e[b]);
        }
        assert(d[i] == e[i]);
        lemma_lookup_remove(d, i, key);
        assert(r.drop_last() == d.remove(i));
        assert(r.last() == e.last());
    }
}

/// A map from keys to values that go stale after a time to live, kept as a
/// list of entries with distinct keys: the standard hash map's specification
/// gives nothing for `String` keys, so no lookup in it could be proved.
pub struct TtlCache<V> {
    entries: Vec<(String, CacheEntry<V>)>,
}

impl<V> TtlCache<V> {
    pub closed spec fn wf(&self) -> bool {
        keys_unique(self.entries@)
    }

    /// The entry stored under `key`, if any.
    pub closed spec fn entry(&self, key: Seq<char>) -> Option<CacheEntry<V>> {
        lookup_entry(self.entries@, key)
    }

    pub fn new() -> (r: TtlCache<V>)
        ensures
            r.wf(),
            forall|k: Seq<char>| r.entry(k) is None,
    {
        TtlCache { entries: Vec::new() }
    }

    fn position(&self, key: &str) -> (r: Option<usize>)
        requires
            self.wf(),
        ensures
            r matches Some(i) ==> i < self.entries@.len() && self.entries@[i as int].0@ == key@,
            r is None ==> forall|i: int| 0 <= i < self.entries@.len() ==> #[trigger] self.entries@[i].0@ != key@,
    {
        let mut i: usize = 0;
        while i < self.entries.len()
            invariant
                i <= self.entries@.len(),
                forall|j: int| 0 <= j < i ==> #[trigger] self.entries@[j].0@ != key@,
            decreases self.entries.len() - i,
        {
            if same_text(self.entries[i].0.as_str(), key) {
                return Some(i);
            }
            i = i + 1;
        }
        None
    }

    fn remove_key(&mut self, key: &str)
        requires
            old(self).wf(),
        ensures
            final(self).wf(),
            final(self).entry(key@) is None,
            forall|k: Seq<char>| k != key@ ==> final(self).entry(k) == old(self).entry(k),
    {
        match self.position(key) {
            Some(i) => {
                proof {
                    assert forall|k: Seq<char>| #[trigger] lookup_entry(self.entries@.remove(i as int), k)
                        == if k == self.entries@[i as int].0@ {
                        None
                    } else {
                        lookup_entry(self.entries@, k)
                    } by {
                        lemma_lookup_remove(self.entries@, i as int, k);
                    }
                    lemma_lookup_remove(self.entries@, i as int, key@);
                }
                self.entries.remove(i);
            },
            None => {
                proof {
                    lemma_lookup_absent(self.entries@, key@);
                }
            },
        }
    }

    /// Stores `data` under `key`, fresh for `ttl_seconds` from `now`.
    pub fn put(&mut self, key: String, data: V, ttl_seconds: i64, now: i64)
        requires
            old(self).wf(),
            i64::MIN <= now + ttl_seconds * 1000 <= i64::MAX,
            i64::MIN <= ttl_seconds * 1000 <= i64::MAX,
        ensures
            final(self).wf(),
            final(self).entry(key@) is Some,
            final(self).entry(key@)->0.data == data,
            final(self).entry(key@)->0.expires_at == now + ttl_seconds * 1000,
            forall|k: Seq<char>| k != key@ ==> final(self).entry(k) == old(self).entry(k),
    {
        self.remove_key(key.as_str());
        let ghost before = self.entries@;
        let ghost k0 = key@;
        proof {
            assert forall|i: int| 0 <= i < before.len() implies #[trigger] before[i].0@ != k0 by {
                if before[i].0@ == k0 {
                    lemma_lookup_at(before, i);
                }
            }
        }
        let entry = CacheEntry::new(data, ttl_seconds, now);
        self.entries.push((key, entry));
        assert(self.entries@.drop_last() == before);
        assert forall|a: int, b: int| 0 <= a < self.entries@.len() && 0 <= b < self.entries@.len() && a != b implies #[trigger] self.entries@[a].0@ != #[trigger] self.entries@[b].0@ by {
            if a < before.len() && b < before.len() {
                assert(self.entries@[a] == before[a] && self.entries@[b] == before[b]);
            } else if a < before.len() {
                assert(self.entries@[a] == before[a]);
            } else if b < before.len() {
                assert(self.entries@[b] == before[b]);
            }
        }
    }

    /// The value under `key` while it is fresh at `now`.
    pub fn fresh(&self, key: &str, now: i64) -> (r: Option<&V>)
        requires
            self.wf(),
        ensures
            match self.entry(key@) {
                Some(e) => if now > e.expires_at {
                    r is None
                } else {
                    r == Some(&e.data)
                },
                None => r is None,
            },
    {
        match self.position(key) {
            Some(i) => {
                proof {
                    lemma_lookup_at(self.entries@, i as int);
                }
                if self.entries[i].1.is_expired(now) {
                    None
                } else {
                    Some(&self.entries[i].1.data)
                }
            },
            None => {
                proof {
                    lemma_lookup_absent(self.entries@, key@);
                }
                None
            },
        }
    }

    /// Drops the entry under `key` when it is stale at `now`.
    pub fn remove_if_expired(&mut self, key: &str, now: i64)
        requires
            old(self).wf(),
        ensures
            final(self).wf(),
            forall|k: Seq<char>| k != key@ ==> final(self).entry(k) == old(self).entry(k),
            final(self).entry(key@) == match old(self).entry(key@) {
                Some(e) => if now > e.expires_at {
                    None
                } else {
                    Some(e)
                },
                None => None,
            },
    {
        let stale = match self.fresh_or_stale(key, now) {
            Some(s) => s,
            None => false,
        };
        if stale {
            self.remove_key(key);
        }
    }

    fn fresh_or_stale(&self, key: &str, now: i64) -> (r: Option<bool>)
        requires
            self.wf(),
        ensures
            match self.entry(key@) {
                Some(e) => r == Some(now > e.expires_at),
                None => r is None,
            },
    {
        match self.position(key) {
            Some(i) => {
                proof {
                    lemma_lookup_at(self.entries@, i as int);
                }
                Some(self.entries[i].1.is_expired(now))
            },
            None => {
                proof {
                    lemma_lookup_absent(self.entries@, key@);
                }
                None
            },
        }
    }

    /// Drops every entry.
    pub fn clear(&mut self)
        ensures
            final(self).wf(),
            forall|k: Seq<char>| final(self).entry(k) is None,
    {
        self.entries.clear();
    }

    /// Drops every entry that is stale at `now` and keeps the others.
    pub fn cleanup_expired(&mut self, now: i64)
        requires
            old(self).wf(),
        ensures
            final(self).wf(),
            forall|k: Seq<char>| #[trigger] final(self).entry(k) == match old(self).entry(k) {
                Some(e) => if now > e.expires_at {
                    None
                } else {
                    Some(e)
                },
                None => None,
            },
    {
        let ghost initial = *self;
        let mut i: usize = 0;
        proof {
            assert forall|k: Seq<char>| #[trigger] initial.entry(k) matches Some(e) && now > e.expires_at && self.entry(k) is Some
                implies exists|j: int| 0 <= j < self.entries@.len() && #[trigger] self.entries@[j].0@ == k by {
                lemma_lookup_some(self.entries@, k);
            }
        }
        while i < self.entries.len()
            invariant
                self.wf(),
                i <= self.entries@.len(),
                forall|j: int| 0 <= j < i ==> !(now > #[trigger] self.entries@[j].1.expires_at),
                forall|k: Seq<char>| #[trigger] self.entry(k) is Some ==> self.entry(k) == initial.entry(k),
                forall|k: Seq<char>| #[trigger] initial.entry(k) matches Some(e) && !(now > e.expires_at) ==> self.entry(k) == initial.entry(k),
                forall|k: Seq<char>| #[trigger] initial.entry(k) is None ==> self.entry(k) is None,
                forall|k: Seq<char>| #[trigger] initial.entry(k) matches Some(e) && now > e.expires_at && self.entry(k) is Some
                    ==> exists|j: int| i <= j < self.entries@.len() && #[trigger] self.entries@[j].0@ == k,
            decreases self.entries.len() - i,
        {
            if self.entries[i].1.is_expired(now) {
                let ghost gone = self.entries@[i as int].0@;
                proof {
                    lemma_lookup_at(self.entries@, i as int);
                    assert forall|k: Seq<char>| #[trigger] lookup_entry(self.entries@.remove(i as int), k)
                        == if k == gone {
                        None
                    } else {
                        lookup_entry(self.entries@, k)
                    } by {
                        lemma_lookup_remove(self.entries@, i as int, k);
                    }
                    lemma_lookup_remove(self.entries@, i as int, gone);
                }
                assert(initial.entry(gone) == Some(self.entries@[i as int].1));
                let ghost before = self.entries@;
                self.entries.remove(i);
                proof {
                    assert forall|j: int| 0 <= j < i implies !(now > #[trigger] self.entries@[j].1.expires_at) by {
                        assert(self.entries@[j] == before[j]);
                    }
                    assert forall|k: Seq<char>| #[trigger] initial.entry(k) matches Some(e) && now > e.expires_at && self.entry(k) is Some
                        implies exists|j: int| i <= j < self.entries@.len() && #[trigger] self.entries@[j].0@ == k by {
                        let j0 = choose|j: int| i <= j < before.len() && #[trigger] before[j].0@ == k;
                        assert(j0 != i);
                        assert(self.entries@[j0 - 1] == before[j0]);
                    }
                }
            } else {
                proof {
                    lemma_lookup_at(self.entries@, i as int);
                    assert forall|k: Seq<char>| #[trigger] initial.entry(k) matches Some(e) && now > e.expires_at && self.entry(k) is Some
                        implies exists|j: int| i + 1 <= j < self.entries@.len() && #[trigger] self.entries@[j].0@ == k by {
                        let j0 = choose|j: int| i <= j < self.entries@.len() && #[trigger] self.entries@[j].0@ == k;
                        if j0 == i {
                            assert(self.entry(k) == Some(self.entries@[i as int].1));
                        }
                    }
                }
                i = i + 1;
            }
        }
        proof {
            assert forall|k: Seq<char>| #[trigger] initial.entry(k) matches Some(e) && now > e.expires_at implies self.entry(k) is None by {
                if self.entry(k) is Some {
                    let j0 = choose|j: int| i <= j < self.entries@.len() && #[trigger] self.entries@[j].0@ == k;
                }
            }
        }
    }
}

} // verus!
