//! The content cache and downloader model: resources are keyed by their
//! URL together with the expected digest, concurrent requests for one key
//! share a single transfer, and a failed integrity check never reaches
//! the cache.

use vstd::prelude::*;
use crate::digest::{digest_eq, digest_view};

verus! {

/// Failures of the download layer, surfaced distinctly.
#[derive(Debug, Clone, PartialEq, Eq)]
pub enum Error {
    /// The downloaded content did not match the expected digest.
    Sha256Mismatch,
    /// The network transfer failed.
    NetworkError(String),
    /// Writing the downloaded bytes to disk failed.
    IoError(String),
}

impl Error {
    /// The human-readable description of this failure.
    pub open spec fn message_spec(self) -> Seq<char> {
        match self {
            Error::Sha256Mismatch => "downloaded content failed integrity check"@,
            Error::NetworkError(_) => "network failure during download"@,
            Error::IoError(_) => "disk write failure during download"@,
        }
    }

    /// A human-readable description of this failure.
    pub fn message(&self) -> (r: String)
        ensures
            r@ == self.message_spec(),
    {
        match self {
            Error::Sha256Mismatch => "downloaded content failed integrity check".to_owned(),
            Error::NetworkError(_) => "network failure during download".to_owned(),
            Error::IoError(_) => "disk write failure during download".to_owned(),
        }
    }
}

/// The identity a resource is cached under: its URL, and the digest it
/// is pinned to when one is expected, so that differently pinned
/// resources for one URL do not collide.
#[derive(Debug)]
pub struct CacheKey {
    pub url: String,
    pub digest: Option<[u8; 32]>,
}

/// Two keys denote the same resource.
pub open spec fn key_matches(a: CacheKey, b: CacheKey) -> bool {
    a.url@ == b.url@ && digest_view(a.digest) == digest_view(b.digest)
}

/// Compare two cache keys.
pub fn key_eq(a: &CacheKey, b: &CacheKey) -> (r: bool)
    ensures
        r == key_matches(*a, *b),
{
    if !(a.url == b.url) {
        return false;
    }
    match (&a.digest, &b.digest) {
        (Option::None, Option::None) => true,
        (Option::Some(x), Option::Some(y)) => digest_eq(x, y),
        _ => false,
    }
}

/// Copy a cache key.
pub fn clone_key(k: &CacheKey) -> (r: CacheKey)
    ensures
        r == *k,
{
    CacheKey { url: k.url.clone(), digest: k.digest }
}

/// Position `i` of the cache holds `k`.
pub open spec fn entry_for(e: Seq<(CacheKey, String)>, k: CacheKey, i: int) -> bool {
    0 <= i < e.len() && key_matches(e[i].0, k)
}

/// The cache holds an entry for `k`.
pub open spec fn is_cached(e: Seq<(CacheKey, String)>, k: CacheKey) -> bool {
    exists|i: int| entry_for(e, k, i)
}

/// Position `i` of the in-flight list holds `k`.
pub open spec fn inflight_at(fl: Seq<CacheKey>, k: CacheKey, i: int) -> bool {
    0 <= i < fl.len() && key_matches(fl[i], k)
}

/// A transfer for `k` is in flight.
pub open spec fn is_inflight(fl: Seq<CacheKey>, k: CacheKey) -> bool {
    exists|i: int| inflight_at(fl, k, i)
}

/// No two cache entries share a key.
pub open spec fn unique_entries(e: Seq<(CacheKey, String)>) -> bool {
    forall|i: int, j: int|
        0 <= i < j < e.len() ==> !key_matches(#[trigger] e[i].0, #[trigger] e[j].0)
}

/// No two in-flight transfers share a key.
pub open spec fn unique_inflight(fl: Seq<CacheKey>) -> bool {
    forall|i: int, j: int|
        0 <= i < j < fl.len() ==> !key_matches(#[trigger] fl[i], #[trigger] fl[j])
}

/// What a fetch decides after consulting the cache and the in-flight
/// transfers.
#[derive(Debug)]
pub enum FetchDecision {
    /// The resource is cached at this local path; no network is touched.
    Cached(String),
    /// A transfer for this key is already running; wait for its result.
    Join,
    /// No entry and no transfer: this caller performs the one transfer.
    Start,
}

/// The content cache: committed entries mapping keys to local paths, and
/// the keys whose single transfer is currently in flight.
///
/// At most one transfer is ever in flight per key, keys are cached at
/// most once, and a key is never both cached and in flight.
pub struct CacheRegistry {
    entries: Vec<(CacheKey, String)>,
    inflight: Vec<CacheKey>,
}

impl CacheRegistry {
    /// The committed cache entries.
    pub closed spec fn entries(self) -> Seq<(CacheKey, String)> {
        self.entries@
    }

    /// The keys with a transfer in flight.
    pub closed spec fn inflight(self) -> Seq<CacheKey> {
        self.inflight@
    }

    /// Keys are unique on both sides and never cached while in flight.
    pub closed spec fn inv(self) -> bool {
        &&& unique_entries(self.entries@)
        &&& unique_inflight(self.inflight@)
        &&& forall|i: int|
            0 <= i < self.inflight@.len() ==> !is_cached(self.entries@, #[trigger] self.inflight@[i])
    }

    /// An empty cache with no transfer in flight.
    pub fn new() -> (r: Self)
        ensures
            r.inv(),
            r.entries() == Seq::<(CacheKey, String)>::empty(),
            r.inflight() == Seq::<CacheKey>::empty(),
    {
        Self { entries: Vec::new(), inflight: Vec::new() }
    }

    /// Find the cache entry for `k`, if any.
    fn find_entry(&self, k: &CacheKey) -> (r: Option<usize>)
        ensures
            match r {
                Some(i) => entry_for(self.entries(), *k, i as int),
                None => !is_cached(self.entries(), *k),
            },
    {
        let mut i: usize = 0;
        while i < self.entries.len()
            invariant
                0 <= i <= self.entries@.len(),
                forall|j: int| 0 <= j < i ==> !entry_for(self.entries@, *k, j),
            decreases self.entries@.len() - i,
        {
            if key_eq(&self.entries[i].0, k) {
                return Some(i);
            }
            i = i + 1;
        }
        None
    }

    /// Find the in-flight transfer for `k`, if any.
    fn find_inflight(&self, k: &CacheKey) -> (r: Option<usize>)
        ensures
            match r {
                Some(i) => inflight_at(self.inflight(), *k, i as int),
                None => !is_inflight(self.inflight(), *k),
            },
    {
        let mut i: usize = 0;
        while i < self.inflight.len()
            invariant
                0 <= i <= self.inflight@.len(),
                forall|j: int| 0 <= j < i ==> !inflight_at(self.inflight@, *k, j),
            decreases self.inflight@.len() - i,
        {
            if key_eq(&self.inflight[i], k) {
                return Some(i);
            }
            i = i + 1;
        }
        None
    }

    /// Serve a cache hit without touching the network or the registry.
    pub fn cached_lookup(&self, k: &CacheKey) -> (r: Option<String>)
        ensures
            match r {
                Some(p) => exists|i: int|
                    #[trigger] entry_for(self.entries(), *k, i) && p@ == self.entries()[i].1@,
                None => !is_cached(self.entries(), *k),
            },
    {
        match self.find_entry(k) {
            Some(i) => {
                let ghost gi: int = i as int;
                let p = self.entries[i].1.clone();
                proof {
                    assert(entry_for(self.entries(), *k, gi) && p@ == self.entries()[gi].1@);
                }
                Some(p)
            },
            None => None,
        }
    }

    /// Decide how a fetch for `k` proceeds. A cached key is served at
    /// once; a key whose transfer is in flight joins that transfer; any
    /// other key starts the single transfer, which marks it in flight.
    pub fn begin_fetch(&mut self, k: &CacheKey) -> (d: FetchDecision)
        requires
            old(self).inv(),
        ensures
            final(self).inv(),
            final(self).entries() == old(self).entries(),
            is_cached(old(self).entries(), *k) ==> d is Cached && final(self).inflight() == old(
                self,
            ).inflight(),
            d matches FetchDecision::Cached(p) ==> exists|i: int|
                #[trigger] entry_for(old(self).entries(), *k, i) && p@ == old(self).entries()[i].1@,
            !is_cached(old(self).entries(), *k) && is_inflight(old(self).inflight(), *k) ==> d
                is Join && final(self).inflight() == old(self).inflight(),
            !is_cached(old(self).entries(), *k) && !is_inflight(old(self).inflight(), *k) ==> d
                is Start && final(self).inflight() == old(self).inflight().push(*k),
    {
        match self.find_entry(k) {
            Some(i) => {
                let ghost gi: int = i as int;
                let p = self.entries[i].1.clone();
                proof {
                    assert(entry_for(self.entries(), *k, gi) && p@ == self.entries()[gi].1@);
                }
                FetchDecision::Cached(p)
            },
            None => {
                match self.find_inflight(k) {
                    Some(_) => FetchDecision::Join,
                    None => {
                        let ghost pre: Seq<CacheKey> = self.inflight@;
                        self.inflight.push(clone_key(k));
                        proof {
                            assert forall|i: int, j: int|
                                0 <= i < j < self.inflight@.len() implies !key_matches(
                                #[trigger] self.inflight@[i],
                                #[trigger] self.inflight@[j],
                            ) by {
                                if j < pre.len() as int {
                                    assert(self.inflight@[i] == pre[i]);
                                    assert(self.inflight@[j] == pre[j]);
                                } else {
                                    assert(self.inflight@[i] == pre[i]);
                                    assert(self.inflight@[j] == *k);
                                    assert(!inflight_at(pre, *k, i));
                                }
                            }
                            assert forall|i: int|
                                0 <= i < self.inflight@.len() implies !is_cached(
                                self.entries@,
                                #[trigger] self.inflight@[i],
                            ) by {
                                if i < pre.len() as int {
                                    assert(self.inflight@[i] == pre[i]);
                                } else {
                                    assert(self.inflight@[i] == *k);
                                    if is_cached(self.entries@, *k) {
                                        let e = choose|e: int| entry_for(self.entries@, *k, e);
                                        assert(entry_for(self.entries@, *k, e));
                                    }
                                }
                            }
                        }
                        FetchDecision::Start
                    },
                }
            },
        }
    }

    /// Take `k` out of the in-flight list; every other key keeps its
    /// in-flight status.
    fn remove_inflight(&mut self, k: &CacheKey)
        requires
            old(self).inv(),
            is_inflight(old(self).inflight(), *k),
        ensures
            final(self).inv(),
            final(self).entries() == old(self).entries(),
            forall|k2: CacheKey|
                #[trigger] is_inflight(final(self).inflight(), k2) <==> (is_inflight(
                    old(self).inflight(),
                    k2,
                ) && !key_matches(k2, *k)),
    {
        let idx = match self.find_inflight(k) {
            Some(i) => i,
            None => {
                proof {
                    assert(false);
                }
                0
            },
        };
        let ghost pre: Seq<CacheKey> = self.inflight@;
        let ghost gi: int = idx as int;
        self.inflight.remove(idx);
        proof {
            let post = self.inflight@;
            assert(post == pre.remove(gi));
            assert forall|i: int, j: int|
                0 <= i < j < post.len() implies !key_matches(
                #[trigger] post[i],
                #[trigger] post[j],
            ) by {
                let i0 = if i < gi { i } else { i + 1 };
                let j0 = if j < gi { j } else { j + 1 };
                assert(post[i] == pre[i0]);
                assert(post[j] == pre[j0]);
            }
            assert forall|i: int|
                0 <= i < post.len() implies !is_cached(self.entries@, #[trigger] post[i]) by {
                let i0 = if i < gi { i } else { i + 1 };
                assert(post[i] == pre[i0]);
            }
            assert forall|k2: CacheKey|
                #[trigger] is_inflight(post, k2) implies (is_inflight(pre, k2) && !key_matches(
                    k2,
                    *k,
                )) by {
                let j = choose|j: int| inflight_at(post, k2, j);
                let j0 = if j < gi { j } else { j + 1 };
                assert(post[j] == pre[j0]);
                assert(inflight_at(pre, k2, j0));
                if key_matches(k2, *k) {
                    assert(key_matches(pre[j0], pre[gi]));
                    if j0 < gi {
                        assert(!key_matches(pre[j0], pre[gi]));
                    } else {
                        assert(!key_matches(pre[gi], pre[j0]));
                    }
                }
            }
            assert forall|k2: CacheKey|
                is_inflight(pre, k2) && !key_matches(k2, *k) implies #[trigger] is_inflight(
                    post,
                    k2,
                ) by {
                let j0 = choose|j0: int| inflight_at(pre, k2, j0);
                assert(key_matches(pre[gi], *k));
                assert(j0 != gi);
                if j0 < gi {
                    assert(post[j0] == pre[j0]);
                    assert(inflight_at(post, k2, j0));
                } else {
                    assert(post[j0 - 1] == pre[j0]);
                    assert(inflight_at(post, k2, j0 - 1));
                }
            }
        }
    }

    /// The single transfer for `k` completed and its bytes hashed to
    /// `computed`. If `k` pins a digest and it differs, the download
    /// fails and the cache is left untouched, so the key can be fetched
    /// again; otherwise the artifact at `path` is committed and every
    /// waiter on this transfer receives that one path.
    pub fn finish_download(&mut self, k: &CacheKey, computed: &[u8; 32], path: String) -> (r:
        Result<String, Error>)
        requires
            old(self).inv(),
            is_inflight(old(self).inflight(), *k),
        ensures
            final(self).inv(),
            forall|k2: CacheKey|
                #[trigger] is_inflight(final(self).inflight(), k2) <==> (is_inflight(
                    old(self).inflight(),
                    k2,
                ) && !key_matches(k2, *k)),
            match k.digest {
                Some(e) => e@ != computed@ ==> r == Err::<String, Error>(Error::Sha256Mismatch)
                    && final(self).entries() == old(self).entries(),
                None => true,
            },
            (match k.digest {
                Some(e) => e@ == computed@,
                None => true,
            }) ==> r == Ok::<String, Error>(path) && final(self).entries() == old(
                self,
            ).entries().push((*k, path)),
    {
        self.remove_inflight(k);
        let ok = match &k.digest {
            Some(e) => digest_eq(e, computed),
            None => true,
        };
        if ok {
            let ghost pre: Seq<(CacheKey, String)> = self.entries@;
            let stored = path.clone();
            let key_copy = clone_key(k);
            proof {
                // the key just left the in-flight list, and was never cached
                assert(!is_inflight(self.inflight(), *k));
                let i0 = choose|i0: int| inflight_at(old(self).inflight(), *k, i0);
                assert(!is_cached(old(self).entries(), old(self).inflight()[i0]));
                if is_cached(pre, *k) {
                    let e = choose|e: int| entry_for(pre, *k, e);
                    assert(key_matches(pre[e].0, *k));
                    assert(entry_for(pre, old(self).inflight()[i0], e));
                }
                assert(!is_cached(pre, *k));
            }
            self.entries.push((key_copy, stored));
            proof {
                assert(self.entries@ =~= pre.push((*k, path)));
                assert forall|i: int, j: int|
                    0 <= i < j < self.entries@.len() implies !key_matches(
                    #[trigger] self.entries@[i].0,
                    #[trigger] self.entries@[j].0,
                ) by {
                    if j < pre.len() as int {
                        assert(self.entries@[i] == pre[i]);
                        assert(self.entries@[j] == pre[j]);
                    } else {
                        assert(self.entries@[i] == pre[i]);
                        assert(self.entries@[j].0 == *k);
                        if key_matches(pre[i].0, *k) {
                            assert(entry_for(pre, *k, i));
                        }
                    }
                }
                assert forall|i: int|
                    0 <= i < self.inflight@.len() implies !is_cached(
                    self.entries@,
                    #[trigger] self.inflight@[i],
                ) by {
                    let fl = self.inflight();
                    assert(is_inflight(fl, fl[i])) by {
                        assert(inflight_at(fl, fl[i], i));
                    }
                    assert(is_inflight(old(self).inflight(), fl[i]) && !key_matches(fl[i], *k));
                    let j0 = choose|j0: int| inflight_at(old(self).inflight(), fl[i], j0);
                    assert(!is_cached(old(self).entries(), old(self).inflight()[j0]));
                    if is_cached(self.entries@, fl[i]) {
                        let e = choose|e: int| entry_for(self.entries@, fl[i], e);
                        if e < pre.len() as int {
                            assert(entry_for(pre, old(self).inflight()[j0], e));
                        } else {
                            assert(key_matches(self.entries@[e].0, fl[i]));
                            assert(self.entries@[e].0 == *k);
                            assert(key_matches(fl[i], *k));
                        }
                    }
                }
            }
            Ok(path)
        } else {
            Err(Error::Sha256Mismatch)
        }
    }

    /// The single transfer for `k` failed on the network or the disk:
    /// the key stops being in flight and the cache is left untouched, so
    /// a later fetch attempts the network again. The failure itself
    /// propagates to every waiter on this transfer.
    pub fn fetch_failed(&mut self, k: &CacheKey)
        requires
            old(self).inv(),
            is_inflight(old(self).inflight(), *k),
        ensures
            final(self).inv(),
            final(self).entries() == old(self).entries(),
            forall|k2: CacheKey|
                #[trigger] is_inflight(final(self).inflight(), k2) <==> (is_inflight(
                    old(self).inflight(),
                    k2,
                ) && !key_matches(k2, *k)),
    {
        self.remove_inflight(k);
    }
}

/// Law: concurrent fetches for one key share a single transfer. From a
/// state where `k1` is neither cached nor in flight, a fetch for `k1`
/// starts the one transfer and marks the key in flight; in the resulting
/// state a fetch for any matching key `k2` finds the transfer in flight
/// and still nothing in the cache, so it joins instead of starting a
/// second transfer.
pub proof fn lemma_single_flight(
    entries: Seq<(CacheKey, String)>,
    inflight: Seq<CacheKey>,
    k1: CacheKey,
    k2: CacheKey,
)
    requires
        key_matches(k1, k2),
        !is_cached(entries, k1),
        !is_inflight(inflight, k1),
    ensures
        is_inflight(inflight.push(k1), k2),
        !is_cached(entries, k2),
{
    assert(inflight_at(inflight.push(k1), k2, inflight.len() as int));
    if is_cached(entries, k2) {
        let i = choose|i: int| entry_for(entries, k2, i);
        assert(entry_for(entries, k1, i));
    }
}

/// Law: with unique keys, any two cache hits for matching keys are the
/// same entry, so every waiter on one transfer receives the same path.
pub proof fn lemma_cached_path_unique(
    entries: Seq<(CacheKey, String)>,
    k1: CacheKey,
    k2: CacheKey,
    i: int,
    j: int,
)
    requires
        unique_entries(entries),
        key_matches(k1, k2),
        entry_for(entries, k1, i),
        entry_for(entries, k2, j),
    ensures
        i == j,
        entries[i].1 == entries[j].1,
{
    if i < j {
        assert(!key_matches(entries[i].0, entries[j].0));
    }
    if j < i {
        assert(!key_matches(entries[j].0, entries[i].0));
    }
}

/// Law: a download whose digest check failed never reaches the cache,
/// and the next fetch for the key starts the network transfer again
/// rather than finding a poisoned entry.
pub proof fn lemma_failed_download_retries(
    entries: Seq<(CacheKey, String)>,
    inflight: Seq<CacheKey>,
    k: CacheKey,
    i: int,
)
    requires
        unique_inflight(inflight),
        !is_cached(entries, k),
        inflight_at(inflight, k, i),
    ensures
        !is_cached(entries, k),
        !is_inflight(inflight.remove(i), k),
{
    let post = inflight.remove(i);
    if is_inflight(post, k) {
        let j = choose|j: int| inflight_at(post, k, j);
        let j0 = if j < i { j } else { j + 1 };
        assert(post[j] == inflight[j0]);
        assert(key_matches(inflight[j0], inflight[i]));
        if j0 < i {
            assert(!key_matches(inflight[j0], inflight[i]));
        } else {
            assert(!key_matches(inflight[i], inflight[j0]));
        }
    }
}

} // verus!
