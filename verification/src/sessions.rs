//! Interactive session stores: keyed, TTL-bounded maps that recover
//! multi-step UI context from a short token.
//!
//! One generic store carries the shared discipline — keyed insertion,
//! consume-once removal, non-destructive lookup, and an age sweep — and the
//! three concrete stores expose only the retrieval discipline their flow
//! uses: quality selection consumes once, search results stay clickable,
//! and the playlist flow mutates its entry across several taps before one
//! final consume.
use vstd::prelude::*;

use crate::util::str_eq;

verus! {

/// One stored session: the short key, the payload, and the stamp (seconds)
/// the entry was created at.
pub struct Entry<T> {
    pub key: String,
    pub value: T,
    pub created_at: u64,
}

/// Whether an entry stamped `stamp` is still fresh at time `now` under the
/// time-to-live `ttl`: its age, in whole seconds, is below `ttl`.
pub open spec fn fresh(stamp: u64, ttl: u64, now: u64) -> bool {
    (if now >= stamp {
        now - stamp
    } else {
        0int
    }) < ttl
}

/// The entries among the first `n` of `s` that are fresh at `now`.
pub open spec fn retained<T>(s: Seq<Entry<T>>, n: int, ttl: u64, now: u64) -> Seq<Entry<T>>
    decreases n,
{
    if n <= 0 {
        Seq::empty()
    } else {
        let pre = retained(s, n - 1, ttl, now);
        if fresh(s[n - 1].created_at, ttl, now) {
            pre.push(s[n - 1])
        } else {
            pre
        }
    }
}

/// A keyed, TTL-bounded session store.
pub struct SessionStore<T> {
    entries: Vec<Entry<T>>,
}

impl<T> SessionStore<T> {
    /// The stored entries, in insertion order.
    pub closed spec fn entries_seq(&self) -> Seq<Entry<T>> {
        self.entries@
    }

    /// Number of stored entries.
    pub open spec fn store_len(&self) -> nat {
        self.entries_seq().len()
    }

    /// Whether an entry with key `k` is stored.
    pub open spec fn contains_key(&self, k: Seq<char>) -> bool {
        exists|i: int| 0 <= i < self.entries_seq().len() && self.entries_seq()[i].key@ == k
    }

    /// The index of the entry with key `k`; meaningful only while
    /// `contains_key(k)` holds, since keys are unique.
    pub open spec fn key_index(&self, k: Seq<char>) -> int {
        choose|i: int| 0 <= i < self.entries_seq().len() && self.entries_seq()[i].key@ == k
    }

    /// The payload stored under `k`; meaningful only while `contains_key(k)`.
    pub open spec fn value_of(&self, k: Seq<char>) -> T {
        self.entries_seq()[self.key_index(k)].value
    }

    /// The creation stamp of the entry under `k`; meaningful only while
    /// `contains_key(k)`.
    pub open spec fn stamp_of(&self, k: Seq<char>) -> u64 {
        self.entries_seq()[self.key_index(k)].created_at
    }

    /// Well-formedness: stored keys are unique.
    pub open spec fn wf(&self) -> bool {
        forall|i: int, j: int|
            0 <= i < j < self.entries_seq().len() ==> self.entries_seq()[i].key@
                != self.entries_seq()[j].key@
    }

    /// An empty store.
    pub fn new() -> (s: SessionStore<T>)
        ensures
            s.wf(),
            s.store_len() == 0,
            forall|k: Seq<char>| !s.contains_key(k),
    {
        SessionStore { entries: Vec::new() }
    }

    /// Index of the entry with key `key`, if stored.
    fn find_index(&self, key: &str) -> (r: Option<usize>)
        ensures
            match r {
                Some(i) => i < self.entries_seq().len() && self.entries_seq()[i as int].key@
                    == key@,
                None => !self.contains_key(key@),
            },
    {
        let n = self.entries.len();
        let mut i: usize = 0;
        while i < n
            invariant
                n == self.entries_seq().len(),
                0 <= i <= n,
                forall|j: int| 0 <= j < i ==> self.entries_seq()[j].key@ != key@,
            decreases n - i,
        {
            if str_eq(self.entries[i].key.as_str(), key) {
                return Some(i);
            }
            i = i + 1;
        }
        None
    }

    /// Insert `value` under `key` with creation stamp `stamp`, replacing any
    /// entry already stored under that key.
    pub fn store_at(&mut self, key: String, value: T, stamp: u64)
        requires
            old(self).wf(),
        ensures
            final(self).wf(),
            final(self).contains_key(key@),
            final(self).value_of(key@) == value,
            final(self).stamp_of(key@) == stamp,
            forall|x: Seq<char>|
                x != key@ ==> final(self).contains_key(x) == old(self).contains_key(x),
            forall|x: Seq<char>|
                x != key@ && old(self).contains_key(x) ==> final(self).value_of(x) == old(
                    self,
                ).value_of(x) && final(self).stamp_of(x) == old(self).stamp_of(x),
            final(self).store_len() == old(self).store_len() + (if old(self).contains_key(key@) {
                0int
            } else {
                1int
            }),
    {
        let ghost k = key@;
        let entry = Entry { key, value, created_at: stamp };
        match self.find_index(entry.key.as_str()) {
            Some(j) => {
                self.entries.set(j, entry);
                proof {
                    assert forall|i: int, j2: int|
                        0 <= i < j2 < self.entries_seq().len() implies self.entries_seq()[i].key@
                        != self.entries_seq()[j2].key@ by {
                        assert(self.entries_seq()[i].key@ == old(self).entries_seq()[i].key@);
                        assert(self.entries_seq()[j2].key@ == old(self).entries_seq()[j2].key@);
                    }
                    self.lemma_key_index_is(k, j as int);
                    assert forall|x: Seq<char>| x != k implies self.contains_key(x) == old(
                        self,
                    ).contains_key(x) by {
                        if self.contains_key(x) {
                            let i = choose|i: int|
                                0 <= i < self.entries_seq().len() && self.entries_seq()[i].key@ == x;
                            assert(i != j);
                            assert(old(self).entries_seq()[i].key@ == x);
                        }
                        if old(self).contains_key(x) {
                            let i = choose|i: int|
                                0 <= i < old(self).entries_seq().len() && old(self).entries_seq()[i].key@
                                    == x;
                            assert(i != j);
                            assert(self.entries_seq()[i].key@ == x);
                        }
                    }
                    assert forall|x: Seq<char>| x != k && old(self).contains_key(x) implies self
                        .value_of(x) == old(self).value_of(x) && self.stamp_of(x) == old(
                        self,
                    ).stamp_of(x) by {
                        let i = choose|i: int|
                            0 <= i < old(self).entries_seq().len() && old(self).entries_seq()[i].key@ == x;
                        assert(i != j);
                        assert(self.entries_seq()[i].key@ == x);
                        old(self).lemma_key_index_is(x, i);
                        self.lemma_key_index_is(x, i);
                    }
                }
            }
            None => {
                self.entries.push(entry);
                proof {
                    let n = old(self).entries_seq().len() as int;
                    assert(self.entries_seq()[n].key@ == k);
                    assert forall|i: int, j2: int|
                        0 <= i < j2 < self.entries_seq().len() implies self.entries_seq()[i].key@
                        != self.entries_seq()[j2].key@ by {
                        if j2 == n {
                            assert(self.entries_seq()[i] == old(self).entries_seq()[i]);
                        }
                    }
                    self.lemma_key_index_is(k, n);
                    assert forall|x: Seq<char>| x != k implies self.contains_key(x) == old(
                        self,
                    ).contains_key(x) by {
                        if self.contains_key(x) {
                            let i = choose|i: int|
                                0 <= i < self.entries_seq().len() && self.entries_seq()[i].key@ == x;
                            assert(i != n);
                            assert(old(self).entries_seq()[i].key@ == x);
                        }
                        if old(self).contains_key(x) {
                            let i = choose|i: int|
                                0 <= i < old(self).entries_seq().len() && old(self).entries_seq()[i].key@
                                    == x;
                            assert(self.entries_seq()[i].key@ == x);
                        }
                    }
                    assert forall|x: Seq<char>| x != k && old(self).contains_key(x) implies self
                        .value_of(x) == old(self).value_of(x) && self.stamp_of(x) == old(
                        self,
                    ).stamp_of(x) by {
                        let i = choose|i: int|
                            0 <= i < old(self).entries_seq().len() && old(self).entries_seq()[i].key@ == x;
                        assert(self.entries_seq()[i].key@ == x);
                        old(self).lemma_key_index_is(x, i);
                        self.lemma_key_index_is(x, i);
                    }
                }
            }
        }
    }

    /// Remove the entry under `key` and hand its payload out: the
    /// consume-once retrieval. A second call for the same key finds nothing.
    pub fn take(&mut self, key: &str) -> (r: Option<T>)
        requires
            old(self).wf(),
        ensures
            final(self).wf(),
            match r {
                Some(v) => old(self).contains_key(key@) && v == old(self).value_of(key@),
                None => !old(self).contains_key(key@),
            },
            !old(self).contains_key(key@) ==> *final(self) == *old(self),
            !final(self).contains_key(key@),
            forall|x: Seq<char>|
                x != key@ ==> final(self).contains_key(x) == old(self).contains_key(x),
            forall|x: Seq<char>|
                x != key@ && old(self).contains_key(x) ==> final(self).value_of(x) == old(
                    self,
                ).value_of(x) && final(self).stamp_of(x) == old(self).stamp_of(x),
            final(self).store_len() == old(self).store_len() - (if old(self).contains_key(key@) {
                1int
            } else {
                0int
            }),
    {
        match self.find_index(key) {
            Some(j) => {
                let entry = self.entries.remove(j);
                proof {
                    old(self).lemma_key_index_is(key@, j as int);
                    let olds = old(self).entries_seq();
                    let news = self.entries_seq();
                    let ji = j as int;
                    assert forall|k2: int| 0 <= k2 < news.len() implies news[k2].key@ != key@ by {
                        if k2 < ji {
                            assert(news[k2] == olds[k2]);
                            assert(olds[k2].key@ != olds[ji].key@);
                        } else {
                            assert(news[k2] == olds[k2 + 1]);
                            assert(olds[ji].key@ != olds[k2 + 1].key@);
                        }
                    }
                    assert forall|a: int, b: int| 0 <= a < b < news.len() implies news[a].key@
                        != news[b].key@ by {
                        let a2 = if a < ji {
                            a
                        } else {
                            a + 1
                        };
                        let b2 = if b < ji {
                            b
                        } else {
                            b + 1
                        };
                        assert(news[a] == olds[a2]);
                        assert(news[b] == olds[b2]);
                    }
                    assert forall|x: Seq<char>| x != key@ implies self.contains_key(x) == old(
                        self,
                    ).contains_key(x) by {
                        if self.contains_key(x) {
                            let k2 = choose|k2: int|
                                0 <= k2 < news.len() && news[k2].key@ == x;
                            if k2 < ji {
                                assert(olds[k2].key@ == x);
                            } else {
                                assert(olds[k2 + 1].key@ == x);
                            }
                        }
                        if old(self).contains_key(x) {
                            let k2 = choose|k2: int|
                                0 <= k2 < olds.len() && olds[k2].key@ == x;
                            assert(k2 != ji);
                            if k2 < ji {
                                assert(news[k2].key@ == x);
                            } else {
                                assert(news[k2 - 1].key@ == x);
                            }
                        }
                    }
                    assert forall|x: Seq<char>| x != key@ && old(self).contains_key(x) implies self
                        .value_of(x) == old(self).value_of(x) && self.stamp_of(x) == old(
                        self,
                    ).stamp_of(x) by {
                        let k2 = choose|k2: int| 0 <= k2 < olds.len() && olds[k2].key@ == x;
                        assert(k2 != ji);
                        old(self).lemma_key_index_is(x, k2);
                        if k2 < ji {
                            assert(news[k2] == olds[k2]);
                            self.lemma_key_index_is(x, k2);
                        } else {
                            assert(news[k2 - 1] == olds[k2]);
                            self.lemma_key_index_is(x, k2 - 1);
                        }
                    }
                }
                Some(entry.value)
            }
            None => None,
        }
    }

    /// Borrow the payload under `key` without removing it: the
    /// non-destructive retrieval. Repeated calls keep returning the same
    /// stored payload until a sweep or a take removes it.
    pub fn peek(&self, key: &str) -> (r: Option<&T>)
        requires
            self.wf(),
        ensures
            match r {
                Some(v) => self.contains_key(key@) && *v == self.value_of(key@),
                None => !self.contains_key(key@),
            },
    {
        match self.find_index(key) {
            Some(j) => {
                proof {
                    self.lemma_key_index_is(key@, j as int);
                }
                Some(&self.entries[j].value)
            }
            None => None,
        }
    }

    /// Remove every entry whose age has reached the time-to-live,
    /// regardless of use; fresh entries are kept untouched.
    pub fn cleanup_expired(&mut self, ttl_secs: u64, now: u64)
        requires
            old(self).wf(),
        ensures
            final(self).wf(),
            final(self).entries_seq() == retained(
                old(self).entries_seq(),
                old(self).entries_seq().len() as int,
                ttl_secs,
                now,
            ),
            forall|x: Seq<char>|
                final(self).contains_key(x) == (old(self).contains_key(x) && fresh(
                    old(self).stamp_of(x),
                    ttl_secs,
                    now,
                )),
            forall|x: Seq<char>|
                final(self).contains_key(x) ==> final(self).value_of(x) == old(self).value_of(x)
                    && final(self).stamp_of(x) == old(self).stamp_of(x),
    {
        let ghost orig = self.entries_seq();
        let ghost n = self.entries_seq().len() as int;
        let ghost mut upto: int = 0;
        let mut i: usize = 0;
        while i < self.entries.len()
            invariant
                0 <= i <= upto <= n,
                orig.len() == n,
                i as int == retained(orig, upto, ttl_secs, now).len(),
                self.entries_seq() =~= retained(orig, upto, ttl_secs, now) + orig.subrange(
                    upto,
                    n,
                ),
            decreases n - upto,
        {
            proof {
                assert(self.entries_seq()[i as int] == orig[upto]);
            }
            let age = now.saturating_sub(self.entries[i].created_at);
            if age < ttl_secs {
                i = i + 1;
            } else {
                self.entries.remove(i);
                proof {
                    assert(self.entries_seq() =~= retained(orig, upto + 1, ttl_secs, now)
                        + orig.subrange(upto + 1, n));
                }
            }
            proof {
                upto = upto + 1;
                assert(self.entries_seq() =~= retained(orig, upto, ttl_secs, now) + orig.subrange(
                    upto,
                    n,
                ));
            }
        }
        proof {
            assert(self.entries_seq() =~= retained(orig, n, ttl_secs, now));
            lemma_retained_unique(orig, n, ttl_secs, now);
            let news = self.entries_seq();
            assert forall|x: Seq<char>| self.contains_key(x) == (old(self).contains_key(x)
                && fresh(old(self).stamp_of(x), ttl_secs, now)) && (self.contains_key(x)
                ==> self.value_of(x) == old(self).value_of(x) && self.stamp_of(x) == old(
                self,
            ).stamp_of(x)) by {
                if self.contains_key(x) {
                    let k2 = choose|k2: int| 0 <= k2 < news.len() && news[k2].key@ == x;
                    assert(news[k2] == retained(orig, n, ttl_secs, now)[k2]);
                    lemma_retained_member(orig, n, ttl_secs, now, k2);
                    let j = choose|j: int|
                        0 <= j < n && retained(orig, n, ttl_secs, now)[k2] == orig[j] && fresh(
                            orig[j].created_at,
                            ttl_secs,
                            now,
                        );
                    assert(orig[j].key@ == x);
                    old(self).lemma_key_index_is(x, j);
                    self.lemma_key_index_is(x, k2);
                }
                if old(self).contains_key(x) && fresh(old(self).stamp_of(x), ttl_secs, now) {
                    let j = choose|j: int| 0 <= j < n && orig[j].key@ == x;
                    old(self).lemma_key_index_is(x, j);
                    lemma_retained_keeps(orig, n, ttl_secs, now, j);
                    let k2 = choose|k2: int|
                        0 <= k2 < retained(orig, n, ttl_secs, now).len() && retained(
                            orig,
                            n,
                            ttl_secs,
                            now,
                        )[k2] == orig[j];
                    assert(news[k2].key@ == x);
                }
            }
        }
    }

    /// Replace the payload under `key` while keeping the creation stamp:
    /// the staged-mutation step of the playlist flow. Returns `false` and
    /// changes nothing if no entry is stored under `key`.
    fn set_value_at(&mut self, key: &str, value: T) -> (r: bool)
        requires
            old(self).wf(),
        ensures
            final(self).wf(),
            r == old(self).contains_key(key@),
            !r ==> *final(self) == *old(self),
            forall|x: Seq<char>| final(self).contains_key(x) == old(self).contains_key(x),
            final(self).store_len() == old(self).store_len(),
            r ==> final(self).value_of(key@) == value && final(self).stamp_of(key@) == old(
                self,
            ).stamp_of(key@),
            forall|x: Seq<char>|
                x != key@ && old(self).contains_key(x) ==> final(self).value_of(x) == old(
                    self,
                ).value_of(x) && final(self).stamp_of(x) == old(self).stamp_of(x),
    {
        match self.find_index(key) {
            Some(j) => {
                let e = &self.entries[j];
                let updated = Entry { key: e.key.clone(), value, created_at: e.created_at };
                self.entries.set(j, updated);
                proof {
                    assert forall|i: int, j2: int|
                        0 <= i < j2 < self.entries_seq().len() implies self.entries_seq()[i].key@
                        != self.entries_seq()[j2].key@ by {
                        assert(self.entries_seq()[i].key@ == old(self).entries_seq()[i].key@);
                        assert(self.entries_seq()[j2].key@ == old(self).entries_seq()[j2].key@);
                    }
                    old(self).lemma_key_index_is(key@, j as int);
                    self.lemma_key_index_is(key@, j as int);
                    assert forall|x: Seq<char>| self.contains_key(x) == old(self).contains_key(
                        x,
                    ) by {
                        if self.contains_key(x) {
                            let i = choose|i: int|
                                0 <= i < self.entries_seq().len() && self.entries_seq()[i].key@
                                    == x;
                            assert(old(self).entries_seq()[i].key@ == x);
                        }
                        if old(self).contains_key(x) {
                            let i = choose|i: int|
                                0 <= i < old(self).entries_seq().len() && old(
                                    self,
                                ).entries_seq()[i].key@ == x;
                            assert(self.entries_seq()[i].key@ == x);
                        }
                    }
                    assert forall|x: Seq<char>| x != key@ && old(self).contains_key(x) implies self
                        .value_of(x) == old(self).value_of(x) && self.stamp_of(x) == old(
                        self,
                    ).stamp_of(x) by {
                        let i = choose|i: int|
                            0 <= i < old(self).entries_seq().len() && old(
                                self,
                            ).entries_seq()[i].key@ == x;
                        assert(i != j);
                        assert(self.entries_seq()[i].key@ == x);
                        old(self).lemma_key_index_is(x, i);
                        self.lemma_key_index_is(x, i);
                    }
                }
                true
            }
            None => false,
        }
    }

    /// With unique keys, any index whose entry carries key `k` is the index
    /// `key_index(k)` resolves to.
    proof fn lemma_key_index_is(&self, k: Seq<char>, i: int)
        requires
            self.wf(),
            0 <= i < self.entries_seq().len(),
            self.entries_seq()[i].key@ == k,
        ensures
            self.key_index(k) == i,
            self.contains_key(k),
    {
        let j = self.key_index(k);
        if j != i {
            let a = self.entries_seq()[i].key@;
            let b = self.entries_seq()[j].key@;
            assert(a != b || b != a);
        }
    }
}

/// The retained entry at position `k` comes from the source prefix and is
/// fresh.
proof fn lemma_retained_member<T>(s: Seq<Entry<T>>, n: int, ttl: u64, now: u64, k: int)
    requires
        0 <= n <= s.len(),
        0 <= k < retained(s, n, ttl, now).len(),
    ensures
        exists|j: int|
            0 <= j < n && retained(s, n, ttl, now)[k] == #[trigger] s[j] && fresh(
                s[j].created_at,
                ttl,
                now,
            ),
    decreases n,
{
    if n > 0 {
        let pre = retained(s, n - 1, ttl, now);
        let cur = retained(s, n, ttl, now);
        if k < pre.len() {
            lemma_retained_member(s, n - 1, ttl, now, k);
            let j = choose|j: int|
                0 <= j < n - 1 && retained(s, n - 1, ttl, now)[k] == s[j] && fresh(
                    s[j].created_at,
                    ttl,
                    now,
                );
            assert(cur[k] == s[j]);
        } else {
            assert(cur[k] == s[n - 1]);
            assert(fresh(s[n - 1].created_at, ttl, now));
        }
    }
}

/// With unique keys in the source, the retained keys stay unique.
proof fn lemma_retained_unique<T>(s: Seq<Entry<T>>, n: int, ttl: u64, now: u64)
    requires
        0 <= n <= s.len(),
        forall|i: int, j: int| 0 <= i < j < s.len() ==> s[i].key@ != s[j].key@,
    ensures
        forall|a: int, b: int| #![trigger retained(s, n, ttl, now)[a], retained(s, n, ttl, now)[b]]
            0 <= a < b < retained(s, n, ttl, now).len() ==> retained(s, n, ttl, now)[a].key@
                != retained(s, n, ttl, now)[b].key@,
    decreases n,
{
    if n > 0 {
        lemma_retained_unique(s, n - 1, ttl, now);
        let pre = retained(s, n - 1, ttl, now);
        let cur = retained(s, n, ttl, now);
        assert forall|a: int, b: int| #![trigger retained(s, n, ttl, now)[a], retained(s, n, ttl, now)[b]]
            0 <= a < b < retained(s, n, ttl, now).len() implies retained(s, n, ttl, now)[a].key@
            != retained(s, n, ttl, now)[b].key@ by {
            if b < pre.len() {
                assert(cur[a] == pre[a]);
                assert(cur[b] == pre[b]);
                assert(pre[a].key@ != pre[b].key@);
            } else {
                assert(cur[b] == s[n - 1]);
                assert(cur[a] == pre[a]);
                lemma_retained_member(s, n - 1, ttl, now, a);
                let ja = choose|j: int|
                    0 <= j < n - 1 && retained(s, n - 1, ttl, now)[a] == s[j] && fresh(
                        s[j].created_at,
                        ttl,
                        now,
                    );
                assert(s[ja].key@ != s[n - 1].key@);
            }
        }
    }
}

/// A fresh entry of the source prefix appears among the retained entries.
proof fn lemma_retained_keeps<T>(s: Seq<Entry<T>>, n: int, ttl: u64, now: u64, j: int)
    requires
        0 <= j < n <= s.len(),
        fresh(s[j].created_at, ttl, now),
    ensures
        exists|k: int|
            0 <= k < retained(s, n, ttl, now).len() && retained(s, n, ttl, now)[k]
                == #[trigger] s[j],
    decreases n,
{
    let cur = retained(s, n, ttl, now);
    if j == n - 1 {
        assert(cur[cur.len() - 1] == s[j]);
    } else {
        lemma_retained_keeps(s, n - 1, ttl, now, j);
        let pre = retained(s, n - 1, ttl, now);
        let k = choose|k: int| 0 <= k < pre.len() && pre[k] == s[j];
        assert(cur[k] == s[j]);
    }
}

/// One selectable download format shown on a quality keyboard.
#[derive(Debug)]
pub struct FormatOption {
    pub format_id: String,
    pub label: String,
    pub extract_audio: bool,
    pub audio_format: Option<String>,
    pub audio_quality: Option<String>,
}

/// Quality-selection context held while the user views the format keyboard.
#[derive(Debug)]
pub struct PendingSelection {
    pub chat_id: i64,
    pub url: String,
    pub message_id: i32,
    pub formats: Vec<FormatOption>,
    pub title: String,
}

/// One search hit offered as a tappable button.
#[derive(Debug)]
pub struct SearchResultItem {
    pub url: String,
    pub title: String,
}

/// Search-result context: the ordered hits behind one results keyboard.
#[derive(Debug)]
pub struct SearchPending {
    pub results: Vec<SearchResultItem>,
}

/// Playlist-flow context, mutated across several taps (scope, then limit,
/// then format) before one final consume-once retrieval.
#[derive(Debug)]
pub struct PlaylistPending {
    pub chat_id: i64,
    pub url: String,
    pub message_id: i32,
    pub is_single: bool,
    pub limit: Option<u32>,
}

/// Store for pending quality selections; retrieval is consume-once, so a
/// tap after use or expiry finds nothing.
pub struct CallbackStateStore {
    inner: SessionStore<PendingSelection>,
}

impl CallbackStateStore {
    /// The underlying keyed store.
    pub closed spec fn sessions(&self) -> SessionStore<PendingSelection> {
        self.inner
    }

    /// Well-formedness of the underlying store.
    pub open spec fn wf(&self) -> bool {
        self.sessions().wf()
    }

    /// An empty store.
    pub fn new() -> (s: CallbackStateStore)
        ensures
            s.wf(),
            s.sessions().store_len() == 0,
            forall|k: Seq<char>| !s.sessions().contains_key(k),
    {
        CallbackStateStore { inner: SessionStore::new() }
    }

    /// Store a pending selection under a short key, stamped `now`.
    pub fn store(&mut self, key: String, selection: PendingSelection, now: u64)
        requires
            old(self).wf(),
        ensures
            final(self).wf(),
            final(self).sessions().contains_key(key@),
            final(self).sessions().value_of(key@) == selection,
            final(self).sessions().stamp_of(key@) == now,
            forall|x: Seq<char>|
                x != key@ ==> final(self).sessions().contains_key(x) == old(
                    self,
                ).sessions().contains_key(x),
            forall|x: Seq<char>|
                x != key@ && old(self).sessions().contains_key(x) ==> final(self).sessions().value_of(x) == old(self).sessions().value_of(x) && final(self).sessions().stamp_of(x) == old(self).sessions().stamp_of(x),
    {
        self.inner.store_at(key, selection, now);
    }

    /// Remove and return the selection under `key`: consume-once, so a
    /// second take for the same key returns nothing.
    pub fn take(&mut self, key: &str) -> (r: Option<PendingSelection>)
        requires
            old(self).wf(),
        ensures
            final(self).wf(),
            match r {
                Some(v) => old(self).sessions().contains_key(key@) && v == old(
                    self,
                ).sessions().value_of(key@),
                None => !old(self).sessions().contains_key(key@),
            },
            !final(self).sessions().contains_key(key@),
            forall|x: Seq<char>|
                x != key@ ==> final(self).sessions().contains_key(x) == old(
                    self,
                ).sessions().contains_key(x),
            forall|x: Seq<char>|
                x != key@ && old(self).sessions().contains_key(x) ==> final(self).sessions().value_of(x) == old(self).sessions().value_of(x) && final(self).sessions().stamp_of(x) == old(self).sessions().stamp_of(x),
    {
        self.inner.take(key)
    }

    /// Sweep out entries whose age has reached `ttl_secs`.
    pub fn cleanup_expired(&mut self, ttl_secs: u64, now: u64)
        requires
            old(self).wf(),
        ensures
            final(self).wf(),
            forall|x: Seq<char>|
                final(self).sessions().contains_key(x) == (old(self).sessions().contains_key(x)
                    && fresh(old(self).sessions().stamp_of(x), ttl_secs, now)),
            forall|x: Seq<char>|
                final(self).sessions().contains_key(x) ==> final(self).sessions().value_of(x)
                    == old(self).sessions().value_of(x) && final(self).sessions().stamp_of(x)
                    == old(self).sessions().stamp_of(x),
    {
        self.inner.cleanup_expired(ttl_secs, now);
    }
}

/// Store for pending search results; retrieval is a non-destructive peek,
/// so every button of a results keyboard stays clickable until the TTL
/// sweep removes the entry.
pub struct SearchStateStore {
    inner: SessionStore<SearchPending>,
}

impl SearchStateStore {
    /// The underlying keyed store.
    pub closed spec fn sessions(&self) -> SessionStore<SearchPending> {
        self.inner
    }

    /// Well-formedness of the underlying store.
    pub open spec fn wf(&self) -> bool {
        self.sessions().wf()
    }

    /// An empty store.
    pub fn new() -> (s: SearchStateStore)
        ensures
            s.wf(),
            s.sessions().store_len() == 0,
            forall|k: Seq<char>| !s.sessions().contains_key(k),
    {
        SearchStateStore { inner: SessionStore::new() }
    }

    /// Store pending search results under a short key, stamped `now`.
    pub fn store(&mut self, key: String, pending: SearchPending, now: u64)
        requires
            old(self).wf(),
        ensures
            final(self).wf(),
            final(self).sessions().contains_key(key@),
            final(self).sessions().value_of(key@) == pending,
            final(self).sessions().stamp_of(key@) == now,
            forall|x: Seq<char>|
                x != key@ ==> final(self).sessions().contains_key(x) == old(
                    self,
                ).sessions().contains_key(x),
            forall|x: Seq<char>|
                x != key@ && old(self).sessions().contains_key(x) ==> final(self).sessions().value_of(x) == old(self).sessions().value_of(x) && final(self).sessions().stamp_of(x) == old(self).sessions().stamp_of(x),
    {
        self.inner.store_at(key, pending, now);
    }

    /// Borrow the results under `key` without removing them. Repeated
    /// peeks keep returning the identical stored payload until a sweep
    /// removes it.
    pub fn peek(&self, key: &str) -> (r: Option<&SearchPending>)
        requires
            self.wf(),
        ensures
            match r {
                Some(v) => self.sessions().contains_key(key@) && *v == self.sessions().value_of(
                    key@,
                ),
                None => !self.sessions().contains_key(key@),
            },
    {
        self.inner.peek(key)
    }

    /// Sweep out entries whose age has reached `ttl_secs`.
    pub fn cleanup_expired(&mut self, ttl_secs: u64, now: u64)
        requires
            old(self).wf(),
        ensures
            final(self).wf(),
            forall|x: Seq<char>|
                final(self).sessions().contains_key(x) == (old(self).sessions().contains_key(x)
                    && fresh(old(self).sessions().stamp_of(x), ttl_secs, now)),
            forall|x: Seq<char>|
                final(self).sessions().contains_key(x) ==> final(self).sessions().value_of(x)
                    == old(self).sessions().value_of(x) && final(self).sessions().stamp_of(x)
                    == old(self).sessions().stamp_of(x),
    {
        self.inner.cleanup_expired(ttl_secs, now);
    }
}

/// Store for playlist flows; entries are mutated in place across taps and
/// consumed once when the flow completes.
pub struct PlaylistStateStore {
    inner: SessionStore<PlaylistPending>,
}

impl PlaylistStateStore {
    /// The underlying keyed store.
    pub closed spec fn sessions(&self) -> SessionStore<PlaylistPending> {
        self.inner
    }

    /// Well-formedness of the underlying store.
    pub open spec fn wf(&self) -> bool {
        self.sessions().wf()
    }

    /// An empty store.
    pub fn new() -> (s: PlaylistStateStore)
        ensures
            s.wf(),
            s.sessions().store_len() == 0,
            forall|k: Seq<char>| !s.sessions().contains_key(k),
    {
        PlaylistStateStore { inner: SessionStore::new() }
    }

    /// Store a playlist flow under a short key, stamped `now`.
    pub fn store(&mut self, key: String, pending: PlaylistPending, now: u64)
        requires
            old(self).wf(),
        ensures
            final(self).wf(),
            final(self).sessions().contains_key(key@),
            final(self).sessions().value_of(key@) == pending,
            final(self).sessions().stamp_of(key@) == now,
            forall|x: Seq<char>|
                x != key@ ==> final(self).sessions().contains_key(x) == old(
                    self,
                ).sessions().contains_key(x),
            forall|x: Seq<char>|
                x != key@ && old(self).sessions().contains_key(x) ==> final(self).sessions().value_of(x) == old(self).sessions().value_of(x) && final(self).sessions().stamp_of(x) == old(self).sessions().stamp_of(x),
    {
        self.inner.store_at(key, pending, now);
    }

    /// Borrow the flow under `key` without removing it.
    pub fn get(&self, key: &str) -> (r: Option<&PlaylistPending>)
        requires
            self.wf(),
        ensures
            match r {
                Some(v) => self.sessions().contains_key(key@) && *v == self.sessions().value_of(
                    key@,
                ),
                None => !self.sessions().contains_key(key@),
            },
    {
        self.inner.peek(key)
    }

    /// Remove and return the flow under `key`: the final consume-once
    /// retrieval that triggers submission.
    pub fn take(&mut self, key: &str) -> (r: Option<PlaylistPending>)
        requires
            old(self).wf(),
        ensures
            final(self).wf(),
            match r {
                Some(v) => old(self).sessions().contains_key(key@) && v == old(
                    self,
                ).sessions().value_of(key@),
                None => !old(self).sessions().contains_key(key@),
            },
            !final(self).sessions().contains_key(key@),
            forall|x: Seq<char>|
                x != key@ ==> final(self).sessions().contains_key(x) == old(
                    self,
                ).sessions().contains_key(x),
            forall|x: Seq<char>|
                x != key@ && old(self).sessions().contains_key(x) ==> final(self).sessions().value_of(x) == old(self).sessions().value_of(x) && final(self).sessions().stamp_of(x) == old(self).sessions().stamp_of(x),
    {
        self.inner.take(key)
    }

    /// Set the single-video flag of the flow under `key`, keeping the rest
    /// of the entry and its stamp. A no-op for unknown keys.
    pub fn set_single(&mut self, key: &str, single: bool) -> (r: bool)
        requires
            old(self).wf(),
        ensures
            final(self).wf(),
            r == old(self).sessions().contains_key(key@),
            !r ==> *final(self) == *old(self),
            forall|x: Seq<char>|
                final(self).sessions().contains_key(x) == old(self).sessions().contains_key(x),
            r ==> final(self).sessions().value_of(key@) == (PlaylistPending {
                is_single: single,
                ..old(self).sessions().value_of(key@)
            }) && final(self).sessions().stamp_of(key@) == old(self).sessions().stamp_of(key@),
            forall|x: Seq<char>|
                x != key@ && old(self).sessions().contains_key(x) ==> final(self).sessions().value_of(x) == old(self).sessions().value_of(x) && final(self).sessions().stamp_of(x) == old(self).sessions().stamp_of(x),
    {
        match self.inner.peek(key) {
            Some(p) => {
                let updated = PlaylistPending {
                    chat_id: p.chat_id,
                    url: p.url.clone(),
                    message_id: p.message_id,
                    is_single: single,
                    limit: p.limit,
                };
                self.inner.set_value_at(key, updated)
            }
            None => false,
        }
    }

    /// Set the track limit of the flow under `key`, keeping the rest of
    /// the entry and its stamp. A no-op for unknown keys.
    pub fn set_limit(&mut self, key: &str, limit: Option<u32>) -> (r: bool)
        requires
            old(self).wf(),
        ensures
            final(self).wf(),
            r == old(self).sessions().contains_key(key@),
            !r ==> *final(self) == *old(self),
            forall|x: Seq<char>|
                final(self).sessions().contains_key(x) == old(self).sessions().contains_key(x),
            r ==> final(self).sessions().value_of(key@) == (PlaylistPending {
                limit,
                ..old(self).sessions().value_of(key@)
            }) && final(self).sessions().stamp_of(key@) == old(self).sessions().stamp_of(key@),
            forall|x: Seq<char>|
                x != key@ && old(self).sessions().contains_key(x) ==> final(self).sessions().value_of(x) == old(self).sessions().value_of(x) && final(self).sessions().stamp_of(x) == old(self).sessions().stamp_of(x),
    {
        match self.inner.peek(key) {
            Some(p) => {
                let updated = PlaylistPending {
                    chat_id: p.chat_id,
                    url: p.url.clone(),
                    message_id: p.message_id,
                    is_single: p.is_single,
                    limit,
                };
                self.inner.set_value_at(key, updated)
            }
            None => false,
        }
    }

    /// Sweep out entries whose age has reached `ttl_secs`.
    pub fn cleanup_expired(&mut self, ttl_secs: u64, now: u64)
        requires
            old(self).wf(),
        ensures
            final(self).wf(),
            forall|x: Seq<char>|
                final(self).sessions().contains_key(x) == (old(self).sessions().contains_key(x)
                    && fresh(old(self).sessions().stamp_of(x), ttl_secs, now)),
            forall|x: Seq<char>|
                final(self).sessions().contains_key(x) ==> final(self).sessions().value_of(x)
                    == old(self).sessions().value_of(x) && final(self).sessions().stamp_of(x)
                    == old(self).sessions().stamp_of(x),
    {
        self.inner.cleanup_expired(ttl_secs, now);
    }
}

/// A format-list element describes an option: it carries a string format
/// id and a string label.
pub open spec fn describes_option(v: serde_json::Value) -> bool {
    crate::jsonval::str_field_of(v, "format_id"@) is Some && crate::jsonval::str_field_of(
        v,
        "label"@,
    ) is Some
}

/// The option `o` reads the element `v`: id and label are its strings,
/// the audio flag defaults to false, and the audio hints are carried when
/// the element holds them as strings.
pub open spec fn option_reads(v: serde_json::Value, o: FormatOption) -> bool {
    &&& crate::jsonval::str_field_of(v, "format_id"@) == Some(o.format_id@)
    &&& crate::jsonval::str_field_of(v, "label"@) == Some(o.label@)
    &&& o.extract_audio == (match crate::jsonval::bool_field_of(v, "extract_audio"@) {
        Some(b) => b,
        None => false,
    })
    &&& match crate::jsonval::str_field_of(v, "audio_format"@) {
        Some(s) => o.audio_format matches Some(x) && x@ == s,
        None => o.audio_format is None,
    }
    &&& match crate::jsonval::str_field_of(v, "audio_quality"@) {
        Some(s) => o.audio_quality matches Some(x) && x@ == s,
        None => o.audio_quality is None,
    }
}

/// `out` is the option list read from the first `n` elements of `vs`:
/// one option, in input order, for every element that describes one, and
/// nothing for the elements that do not.
pub open spec fn options_read(vs: Seq<serde_json::Value>, n: int, out: Seq<FormatOption>) -> bool
    decreases n,
{
    if n <= 0 {
        out.len() == 0
    } else if describes_option(vs[n - 1]) {
        out.len() > 0 && options_read(vs, n - 1, out.drop_last()) && option_reads(
            vs[n - 1],
            out.last(),
        )
    } else {
        options_read(vs, n - 1, out)
    }
}

/// Read the format options out of a worker format-list response: each
/// element with a string format id and label becomes one option, in input
/// order, with its audio hints carried along; the other elements are left
/// out, without error.
pub fn parse_format_options(formats: &Vec<serde_json::Value>) -> (r: Vec<FormatOption>)
    ensures
        options_read(formats@, formats@.len() as int, r@),
{
    let mut out: Vec<FormatOption> = Vec::new();
    let mut i: usize = 0;
    while i < formats.len()
        invariant
            0 <= i <= formats@.len(),
            options_read(formats@, i as int, out@),
        decreases formats@.len() - i,
    {
        let f = &formats[i];
        let format_id = match crate::jsonval::value_get(f, "format_id") {
            Some(v) => crate::jsonval::value_as_string(v),
            None => None,
        };
        let label = match crate::jsonval::value_get(f, "label") {
            Some(v) => crate::jsonval::value_as_string(v),
            None => None,
        };
        match (format_id, label) {
            (Some(format_id), Some(label)) => {
                let extract_audio = match crate::jsonval::value_get(f, "extract_audio") {
                    Some(v) => match crate::jsonval::value_as_bool(v) {
                        Some(b) => b,
                        None => false,
                    },
                    None => false,
                };
                let audio_format = match crate::jsonval::value_get(f, "audio_format") {
                    Some(v) => crate::jsonval::value_as_string(v),
                    None => None,
                };
                let audio_quality = match crate::jsonval::value_get(f, "audio_quality") {
                    Some(v) => crate::jsonval::value_as_string(v),
                    None => None,
                };
                let ghost before = out@;
                out.push(
                    FormatOption { format_id, label, extract_audio, audio_format, audio_quality },
                );
                proof {
                    assert(out@.drop_last() =~= before);
                }
            }
            _ => {}
        }
        i = i + 1;
    }
    out
}

} // verus!
