//! The cache of per-secret MCP services: entries live for an hour, and the
//! cache holds at most a thousand of them, the oldest going first.
use vstd::prelude::*;
use crate::text::{owned, str_eq};

verus! {

/// Maximum number of cached services, to bound memory.
pub const MAX_CACHE: usize = 1000;

/// Cached-service time to live, in seconds (one hour).
pub const TTL_SECS: i64 = 3600;

/// One cached service, created at a UNIX timestamp.
pub struct CacheEntry<S> {
    pub secret: String,
    pub service: S,
    pub created_at: i64,
}

/// Services cached per secret.
pub struct ServiceCache<S> {
    entries: Vec<CacheEntry<S>>,
}

/// An entry created at `created` is still fresh at `now`.
pub open spec fn is_fresh(created: int, now: int) -> bool {
    now - created < TTL_SECS
}

/// The secret-to-(service, creation time) map of a list of entries.
pub open spec fn entries_map<S>(v: Seq<CacheEntry<S>>) -> Map<Seq<char>, (S, int)>
    decreases v.len(),
{
    if v.len() == 0 {
        Map::empty()
    } else {
        entries_map(v.drop_last()).insert(v.last().secret@, (v.last().service, v.last().created_at as int))
    }
}

/// No secret occurs twice.
pub open spec fn unique_secrets<S>(v: Seq<CacheEntry<S>>) -> bool {
    forall|i: int, j: int| 0 <= i < j < v.len() ==> v[i].secret@ != v[j].secret@
}

proof fn lemma_entries_map<S>(v: Seq<CacheEntry<S>>)
    requires
        unique_secrets(v),
    ensures
        forall|k: Seq<char>| entries_map(v).contains_key(k) <==> exists|i: int| 0 <= i < v.len() && v[i].secret@ == k,
        forall|i: int| 0 <= i < v.len() ==> #[trigger] entries_map(v)[v[i].secret@] == (v[i].service, v[i].created_at as int),
        entries_map(v).dom().finite(),
        entries_map(v).len() == v.len(),
    decreases v.len(),
{
    if v.len() > 0 {
        let w = v.drop_last();
        assert(unique_secrets(w));
        lemma_entries_map(w);
        let k0 = v.last().secret@;
        assert(!entries_map(w).contains_key(k0)) by {
            if entries_map(w).contains_key(k0) {
                let i = choose|i: int| 0 <= i < w.len() && w[i].secret@ == k0;
                assert(v[i].secret@ == v[v.len() - 1].secret@);
            }
        }
        assert forall|k: Seq<char>| entries_map(v).contains_key(k) <==> exists|i: int| 0 <= i < v.len() && v[i].secret@ == k by {
            if entries_map(v).contains_key(k) && k != k0 {
                let i = choose|i: int| 0 <= i < w.len() && w[i].secret@ == k;
                assert(v[i].secret@ == k);
            }
            if exists|i: int| 0 <= i < v.len() && v[i].secret@ == k {
                let i = choose|i: int| 0 <= i < v.len() && v[i].secret@ == k;
                if i < v.len() - 1 {
                    assert(w[i].secret@ == k);
                }
            }
        }
        assert forall|i: int| 0 <= i < v.len() implies #[trigger] entries_map(v)[v[i].secret@] == (v[i].service, v[i].created_at as int) by {
            if i < v.len() - 1 {
                assert(w[i] == v[i]);
                assert(entries_map(w)[w[i].secret@] == (w[i].service, w[i].created_at as int));
            }
        }
    }
}

/// The entries of `m` still fresh at `now`.
pub open spec fn fresh_part<S>(m: Map<Seq<char>, (S, int)>, now: int) -> Map<Seq<char>, (S, int)> {
    m.restrict(m.dom().filter(|k: Seq<char>| is_fresh(m[k].1, now)))
}

proof fn lemma_unique_remove<S>(v: Seq<CacheEntry<S>>, i: int)
    requires
        unique_secrets(v),
        0 <= i < v.len(),
    ensures
        unique_secrets(v.remove(i)),
{
    let after = v.remove(i);
    assert forall|a: int, b: int| 0 <= a < b < after.len() implies after[a].secret@ != after[b].secret@ by {
        let a0 = if a < i { a } else { a + 1 };
        let b0 = if b < i { b } else { b + 1 };
        assert(after[a] == v[a0]);
        assert(after[b] == v[b0]);
    }
}

proof fn lemma_map_remove<S>(v: Seq<CacheEntry<S>>, i: int)
    requires
        unique_secrets(v),
        0 <= i < v.len(),
    ensures
        unique_secrets(v.remove(i)),
        entries_map(v.remove(i)) == entries_map(v).remove(v[i].secret@),
{
    let after = v.remove(i);
    lemma_unique_remove(v, i);
    lemma_entries_map(v);
    lemma_entries_map(after);
    let target = entries_map(v).remove(v[i].secret@);
    assert forall|k: Seq<char>| #![auto] entries_map(after).contains_key(k) <==> target.contains_key(k) by {
        if entries_map(after).contains_key(k) {
            let j = choose|j: int| 0 <= j < after.len() && after[j].secret@ == k;
            let j0 = if j < i { j } else { j + 1 };
            assert(after[j] == v[j0]);
        }
        if target.contains_key(k) {
            let j = choose|j: int| 0 <= j < v.len() && v[j].secret@ == k;
            assert(j != i);
            let j1 = if j < i { j } else { j - 1 };
            assert(after[j1] == v[j]);
        }
    }
    assert forall|k: Seq<char>| #[trigger] entries_map(after).contains_key(k) implies entries_map(after)[k] == target[k] by {
        let j = choose|j: int| 0 <= j < after.len() && after[j].secret@ == k;
        let j0 = if j < i { j } else { j + 1 };
        assert(after[j] == v[j0]);
        assert(entries_map(v)[v[j0].secret@] == (v[j0].service, v[j0].created_at as int));
    }
    assert(entries_map(after) =~= target);
}

proof fn lemma_map_update<S>(v: Seq<CacheEntry<S>>, i: int, e: CacheEntry<S>)
    requires
        unique_secrets(v),
        0 <= i < v.len(),
        v[i].secret@ == e.secret@,
    ensures
        unique_secrets(v.update(i, e)),
        entries_map(v.update(i, e)) == entries_map(v).insert(e.secret@, (e.service, e.created_at as int)),
{
    let after = v.update(i, e);
    assert forall|a: int, b: int| 0 <= a < b < after.len() implies after[a].secret@ != after[b].secret@ by {
        assert(after[a].secret@ == v[a].secret@);
        assert(after[b].secret@ == v[b].secret@);
    }
    lemma_entries_map(v);
    lemma_entries_map(after);
    let target = entries_map(v).insert(e.secret@, (e.service, e.created_at as int));
    assert forall|k: Seq<char>| #![auto] entries_map(after).contains_key(k) <==> target.contains_key(k) by {
        if entries_map(after).contains_key(k) {
            let j = choose|j: int| 0 <= j < after.len() && after[j].secret@ == k;
            assert(after[j].secret@ == v[j].secret@);
        }
        if target.contains_key(k) {
            if k == e.secret@ {
                assert(after[i].secret@ == k);
            } else {
                let j = choose|j: int| 0 <= j < v.len() && v[j].secret@ == k;
                assert(after[j] == v[j]);
            }
        }
    }
    assert forall|k: Seq<char>| #[trigger] entries_map(after).contains_key(k) implies entries_map(after)[k] == target[k] by {
        let j = choose|j: int| 0 <= j < after.len() && after[j].secret@ == k;
        assert(entries_map(after)[after[j].secret@] == (after[j].service, after[j].created_at as int));
        if j != i {
            assert(after[j] == v[j]);
            assert(entries_map(v)[v[j].secret@] == (v[j].service, v[j].created_at as int));
        }
    }
    assert(entries_map(after) =~= target);
}

proof fn lemma_map_push<S>(v: Seq<CacheEntry<S>>, e: CacheEntry<S>)
    requires
        unique_secrets(v),
        forall|i: int| 0 <= i < v.len() ==> v[i].secret@ != e.secret@,
    ensures
        unique_secrets(v.push(e)),
        entries_map(v.push(e)) == entries_map(v).insert(e.secret@, (e.service, e.created_at as int)),
{
    let after = v.push(e);
    assert forall|a: int, b: int| 0 <= a < b < after.len() implies after[a].secret@ != after[b].secret@ by {
        assert(after[a] == v[a]);
        if b < v.len() {
            assert(after[b] == v[b]);
        }
    }
    assert(after.drop_last() =~= v);
}

/// What looking `secret` up at `now` gives: its service while the entry is fresh.
pub open spec fn lookup_result<S>(m: Map<Seq<char>, (S, int)>, secret: Seq<char>, now: int) -> Option<S> {
    if m.contains_key(secret) && is_fresh(m[secret].1, now) {
        Some(m[secret].0)
    } else {
        None
    }
}

/// `r` is what is left of `f` once its oldest entries went, one at a time,
/// while it held `MAX_CACHE` or more of them.
pub open spec fn evicted_to_fit<S>(f: Map<Seq<char>, (S, int)>, r: Map<Seq<char>, (S, int)>) -> bool {
    &&& forall|k: Seq<char>| #[trigger] r.contains_key(k) ==> f.contains_key(k) && r[k] == f[k]
    &&& f.len() < MAX_CACHE ==> r == f
    &&& r.len() == if f.len() < MAX_CACHE { f.len() as int } else { MAX_CACHE - 1 }
    &&& forall|k: Seq<char>, k2: Seq<char>| #[trigger] f.contains_key(k) && !r.contains_key(k)
        && #[trigger] r.contains_key(k2) ==> f[k].1 <= r[k2].1
}

/// A service just cached is found when looked up at the same instant.
pub proof fn law_cached_service_is_found<S>(r: Map<Seq<char>, (S, int)>, secret: Seq<char>, service: S, now: int)
    ensures
        lookup_result(r.insert(secret, (service, now)), secret, now) == Some(service),
{
}

/// A dropped secret is never served again.
pub proof fn law_invalidated_secret_is_gone<S>(m: Map<Seq<char>, (S, int)>, secret: Seq<char>, now: int)
    ensures
        lookup_result(m.remove(secret), secret, now) == None::<S>,
{
}

/// Caching a service keeps only entries that were cached before, unchanged
/// and still fresh, besides the new one.
pub proof fn law_insert_keeps_only_fresh<S>(
    m: Map<Seq<char>, (S, int)>,
    r: Map<Seq<char>, (S, int)>,
    secret: Seq<char>,
    service: S,
    now: int,
)
    requires
        evicted_to_fit(fresh_part(m, now), r),
    ensures
        forall|k: Seq<char>| #[trigger] r.insert(secret, (service, now)).contains_key(k) && k != secret ==> {
            &&& m.contains_key(k)
            &&& is_fresh(m[k].1, now)
            &&& r.insert(secret, (service, now))[k] == m[k]
        },
{
    assert forall|k: Seq<char>| #[trigger] r.insert(secret, (service, now)).contains_key(k) && k != secret implies {
        &&& m.contains_key(k)
        &&& is_fresh(m[k].1, now)
        &&& r.insert(secret, (service, now))[k] == m[k]
    } by {
        assert(r.contains_key(k));
        assert(fresh_part(m, now).contains_key(k));
    }
}

/// Serving a secret: while its cached service is fresh, a lookup gives that
/// service (and the cache is not touched); otherwise the service built for it
/// is cached at `now`, after which every entry is fresh, the cache holds at
/// most `MAX_CACHE` entries, the secret maps to the new service and a lookup
/// gives it, and each fresh entry that went was not newer than any entry kept
/// besides the new one. (For a cache `c`, `c.lemma_view_finite()` gives the
/// finiteness of `c.view()`.)
pub proof fn law_get_or_create<S>(
    m: Map<Seq<char>, (S, int)>,
    r: Map<Seq<char>, (S, int)>,
    secret: Seq<char>,
    service: S,
    now: int,
)
    requires
        m.dom().finite(),
        evicted_to_fit(fresh_part(m, now), r),
    ensures
        lookup_result(m, secret, now) matches Some(s) ==> m.contains_key(secret) && m[secret].0 == s && is_fresh(
            m[secret].1,
            now,
        ),
        lookup_result(m, secret, now) is None ==> {
            let c = r.insert(secret, (service, now));
            &&& forall|k: Seq<char>| #[trigger] c.contains_key(k) ==> is_fresh(c[k].1, now)
            &&& c.len() <= MAX_CACHE
            &&& c.contains_key(secret) && c[secret] == (service, now)
            &&& lookup_result(c, secret, now) == Some(service)
            &&& forall|k: Seq<char>, k2: Seq<char>|
                #![trigger m.contains_key(k), c.contains_key(k2)]
                m.contains_key(k) && is_fresh(m[k].1, now) && !c.contains_key(k) && c.contains_key(k2) && k2 != secret
                    ==> m[k].1 <= c[k2].1
        },
{
    broadcast use vstd::set_lib::lemma_set_subset_finite;
    let f = fresh_part(m, now);
    let c = r.insert(secret, (service, now));
    assert(f.dom().subset_of(m.dom()));
    assert(f.dom().finite());
    assert(r.dom().subset_of(f.dom()));
    assert(r.dom().finite());
    assert(r.len() <= MAX_CACHE - 1);
    assert(c.dom() =~= r.dom().insert(secret));
    assert(c.len() <= MAX_CACHE);
    assert forall|k: Seq<char>| #[trigger] c.contains_key(k) implies is_fresh(c[k].1, now) by {
        if k != secret {
            assert(r.contains_key(k));
            assert(f.contains_key(k));
        }
    }
    assert forall|k: Seq<char>, k2: Seq<char>|
        #![trigger m.contains_key(k), c.contains_key(k2)]
        m.contains_key(k) && is_fresh(m[k].1, now) && !c.contains_key(k) && c.contains_key(k2) && k2 != secret
            implies m[k].1 <= c[k2].1 by {
        assert(f.contains_key(k));
        assert(r.contains_key(k2));
        assert(!r.contains_key(k));
    }
}

impl<S> ServiceCache<S> {
    /// The cached services: secret to (service, creation time).
    pub closed spec fn view(&self) -> Map<Seq<char>, (S, int)> {
        entries_map(self.entries@)
    }

    /// The cache invariant: nothing twice and at most `MAX_CACHE` entries.
    pub closed spec fn wf(&self) -> bool {
        unique_secrets(self.entries@) && self.entries@.len() <= MAX_CACHE
    }

    /// A valid cache holds finitely many entries, at most `MAX_CACHE`.
    pub proof fn lemma_view_finite(&self)
        requires
            self.wf(),
        ensures
            self.view().dom().finite(),
            self.view().len() <= MAX_CACHE,
    {
        lemma_entries_map(self.entries@);
    }

    /// An empty cache.
    pub fn new() -> (r: Self)
        ensures
            r.wf(),
            r.view() == Map::<Seq<char>, (S, int)>::empty(),
    {
        ServiceCache { entries: Vec::new() }
    }

    /// Number of cached services.
    pub fn len(&self) -> (r: usize)
        requires
            self.wf(),
        ensures
            r == self.view().len(),
            r <= MAX_CACHE,
    {
        proof {
            lemma_entries_map(self.entries@);
        }
        self.entries.len()
    }

    fn position(&self, secret: &str) -> (r: Option<usize>)
        requires
            self.wf(),
        ensures
            match r {
                Some(i) => i < self.entries@.len() && self.entries@[i as int].secret@ == secret@,
                None => forall|i: int| 0 <= i < self.entries@.len() ==> self.entries@[i].secret@ != secret@,
            },
    {
        let mut i: usize = 0;
        while i < self.entries.len()
            invariant
                i <= self.entries@.len(),
                forall|k: int| 0 <= k < i ==> self.entries@[k].secret@ != secret@,
            decreases self.entries@.len() - i,
        {
            if str_eq(self.entries[i].secret.as_str(), secret) {
                return Some(i);
            }
            i += 1;
        }
        None
    }

    /// The service cached for `secret`, when it is still fresh at `now`.
    pub fn lookup(&self, secret: &str, now: i64) -> (r: Option<&S>)
        requires
            self.wf(),
        ensures
            match r {
                Some(s) => lookup_result(self.view(), secret@, now as int) == Some(*s),
                None => lookup_result(self.view(), secret@, now as int) == None::<S>,
            },
    {
        proof {
            lemma_entries_map(self.entries@);
        }
        match self.position(secret) {
            Some(i) => {
                let e = &self.entries[i];
                if (now as i128) - (e.created_at as i128) < (TTL_SECS as i128) {
                    Some(&e.service)
                } else {
                    None
                }
            },
            None => None,
        }
    }

    /// The position of the oldest entry (the first, where several are equally old).
    fn oldest(&self) -> (m: usize)
        requires
            self.entries@.len() > 0,
        ensures
            m < self.entries@.len(),
            forall|t: int| 0 <= t < self.entries@.len() ==> self.entries@[m as int].created_at <= #[trigger] self.entries@[t].created_at,
    {
        let mut m: usize = 0;
        let mut j: usize = 1;
        while j < self.entries.len()
            invariant
                1 <= j <= self.entries@.len(),
                m < self.entries@.len(),
                forall|t: int| 0 <= t < j ==> self.entries@[m as int].created_at <= #[trigger] self.entries@[t].created_at,
            decreases self.entries@.len() - j,
        {
            if self.entries[j].created_at < self.entries[m].created_at {
                m = j;
            }
            j += 1;
        }
        m
    }

    /// Drops every entry that is no longer fresh at `now`.
    fn retain_fresh(&mut self, now: i64)
        requires
            old(self).wf(),
        ensures
            final(self).wf(),
            final(self).view() == fresh_part(old(self).view(), now as int),
    {
        let ghost m0 = self.view();
        let mut i: usize = 0;
        while i < self.entries.len()
            invariant
                unique_secrets(self.entries@),
                self.entries@.len() <= MAX_CACHE,
                i <= self.entries@.len(),
                forall|t: int| 0 <= t < i ==> is_fresh(#[trigger] self.entries@[t].created_at as int, now as int),
                fresh_part(entries_map(self.entries@), now as int) == fresh_part(m0, now as int),
            decreases self.entries@.len() - i,
        {
            if (now as i128) - (self.entries[i].created_at as i128) < (TTL_SECS as i128) {
                i += 1;
            } else {
                let ghost before = self.entries@;
                self.entries.remove(i);
                proof {
                    lemma_map_remove(before, i as int);
                    lemma_entries_map(before);
                    let k = before[i as int].secret@;
                    let mb = entries_map(before);
                    assert(mb[k] == (before[i as int].service, before[i as int].created_at as int));
                    assert(fresh_part(mb.remove(k), now as int) =~= fresh_part(mb, now as int));
                    assert forall|t: int| 0 <= t < i implies is_fresh(#[trigger] self.entries@[t].created_at as int, now as int) by {
                        assert(self.entries@[t] == before[t]);
                    }
                }
            }
        }
        proof {
            let v = self.entries@;
            lemma_entries_map(v);
            let mv = entries_map(v);
            assert forall|k: Seq<char>| #[trigger] mv.contains_key(k) implies is_fresh(mv[k].1, now as int) by {
                let t = choose|t: int| 0 <= t < v.len() && v[t].secret@ == k;
                assert(mv[v[t].secret@] == (v[t].service, v[t].created_at as int));
                assert(is_fresh(v[t].created_at as int, now as int));
            }
            assert(fresh_part(mv, now as int) =~= mv);
        }
    }

    /// While the cache is full, drops its oldest entry.
    fn evict_to_fit(&mut self)
        requires
            old(self).wf(),
        ensures
            final(self).wf(),
            evicted_to_fit(old(self).view(), final(self).view()),
    {
        let ghost f = self.view();
        proof {
            lemma_entries_map(self.entries@);
        }
        let ghost target: int = if f.len() < MAX_CACHE { f.len() as int } else { MAX_CACHE - 1 };
        while self.entries.len() >= MAX_CACHE
            invariant
                unique_secrets(self.entries@),
                self.entries@.len() <= MAX_CACHE,
                f.dom().finite(),
                f.len() <= MAX_CACHE,
                target == if f.len() < MAX_CACHE { f.len() as int } else { MAX_CACHE - 1 },
                self.entries@.len() >= target,
                f.len() < MAX_CACHE ==> entries_map(self.entries@) == f,
                forall|k: Seq<char>| #[trigger] entries_map(self.entries@).contains_key(k) ==> f.contains_key(k)
                    && entries_map(self.entries@)[k] == f[k],
                forall|k: Seq<char>, k2: Seq<char>| #[trigger] f.contains_key(k) && !entries_map(self.entries@).contains_key(k)
                    && #[trigger] entries_map(self.entries@).contains_key(k2) ==> f[k].1 <= entries_map(self.entries@)[k2].1,
            decreases self.entries@.len(),
        {
            let m = self.oldest();
            let ghost before = self.entries@;
            proof {
                lemma_entries_map(before);
                assert(f.len() >= MAX_CACHE) by {
                    assert(entries_map(before).dom().subset_of(f.dom()));
                    vstd::set_lib::lemma_len_subset(entries_map(before).dom(), f.dom());
                }
            }
            self.entries.remove(m);
            proof {
                let mb = entries_map(before);
                let km = before[m as int].secret@;
                lemma_map_remove(before, m as int);
                let ma = entries_map(self.entries@);
                assert(ma == mb.remove(km));
                assert(mb[km] == (before[m as int].service, before[m as int].created_at as int));
                assert forall|k: Seq<char>, k2: Seq<char>| #[trigger] f.contains_key(k) && !ma.contains_key(k)
                    && #[trigger] ma.contains_key(k2) implies f[k].1 <= ma[k2].1 by {
                    let t = choose|t: int| 0 <= t < before.len() && before[t].secret@ == k2;
                    assert(mb[before[t].secret@] == (before[t].service, before[t].created_at as int));
                    if k != km {
                        assert(mb.contains_key(k2));
                    }
                }
            }
        }
        proof {
            lemma_entries_map(self.entries@);
        }
    }

    /// Caches `service` for `secret`, created at `now`: stale entries go
    /// first, then, while the cache is full, the oldest entries, so that the
    /// new entry fits.
    pub fn insert(&mut self, secret: &str, service: S, now: i64)
        requires
            old(self).wf(),
        ensures
            final(self).wf(),
            exists|r: Map<Seq<char>, (S, int)>| #[trigger] evicted_to_fit(fresh_part(old(self).view(), now as int), r)
                && final(self).view() == r.insert(secret@, (service, now as int)),
    {
        self.retain_fresh(now);
        self.evict_to_fit();
        let ghost r = self.view();
        proof {
            lemma_entries_map(self.entries@);
        }
        let entry = CacheEntry { secret: owned(secret), service, created_at: now };
        let ghost ev = entry;
        match self.position(secret) {
            Some(i) => {
                let ghost before = self.entries@;
                self.entries.set(i, entry);
                proof {
                    lemma_map_update(before, i as int, ev);
                }
            },
            None => {
                let ghost before = self.entries@;
                self.entries.push(entry);
                proof {
                    lemma_map_push(before, ev);
                }
            },
        }
        proof {
            lemma_entries_map(self.entries@);
        }
    }

    /// Drops the service of a rotated or revoked secret; idempotent.
    pub fn invalidate(&mut self, secret: &str)
        requires
            old(self).wf(),
        ensures
            final(self).wf(),
            final(self).view() == old(self).view().remove(secret@),
    {
        proof {
            lemma_entries_map(self.entries@);
        }
        match self.position(secret) {
            Some(i) => {
                let ghost before = self.entries@;
                self.entries.remove(i);
                proof {
                    lemma_map_remove(before, i as int);
                }
            },
            None => {
                proof {
                    assert(entries_map(self.entries@).remove(secret@) =~= entries_map(self.entries@));
                }
            },
        }
    }
}

} // verus!
