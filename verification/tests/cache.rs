use bb_imager::download::{CacheKey, CacheRegistry, Error, FetchDecision};
use sha2::{Digest, Sha256};

fn digest_of(data: &[u8]) -> [u8; 32] {
    let mut h = Sha256::new();
    h.update(data);
    h.finalize().into()
}

fn key(url: &str, digest: Option<[u8; 32]>) -> CacheKey {
    CacheKey {
        url: url.to_string(),
        digest,
    }
}

#[test]
fn single_flight_one_transfer() {
    // two concurrent fetches for one key cause exactly one transfer and
    // both end up with the same path
    let body = b"remote artifact".to_vec();
    let sha = digest_of(&body);
    let mut reg = CacheRegistry::new();
    let k = key("https://example.org/a.img", Some(sha));

    // first caller starts the single transfer
    let d1 = reg.begin_fetch(&k);
    assert!(matches!(d1, FetchDecision::Start));

    // a second caller arriving mid-transfer joins it
    let d2 = reg.begin_fetch(&k);
    assert!(matches!(d2, FetchDecision::Join));

    // the transfer finishes; its digest matches, so the path is committed
    let committed = reg.finish_download(&k, &digest_of(&body), "/cache/a.img".to_string());
    assert_eq!(committed, Ok("/cache/a.img".to_string()));

    // both callers (and any later one) are served the same path
    let p1 = reg.cached_lookup(&k);
    let p2 = reg.cached_lookup(&k);
    assert_eq!(p1, Some("/cache/a.img".to_string()));
    assert_eq!(p1, p2);
    match reg.begin_fetch(&k) {
        FetchDecision::Cached(p) => assert_eq!(p, "/cache/a.img"),
        _ => panic!("a committed key must be served from the cache"),
    }
}

#[test]
fn failed_download_not_cached() {
    // a digest mismatch fails before the cache is updated; the next fetch
    // for the same key re-attempts the network
    let body = b"corrupted bytes".to_vec();
    let expected = digest_of(b"what was promised");
    let mut reg = CacheRegistry::new();
    let k = key("https://example.org/b.img", Some(expected));

    assert!(matches!(reg.begin_fetch(&k), FetchDecision::Start));
    let r = reg.finish_download(&k, &digest_of(&body), "/cache/b.img".to_string());
    assert_eq!(r, Err(Error::Sha256Mismatch));

    // nothing poisoned: no cache entry, and a new fetch starts a transfer
    assert_eq!(reg.cached_lookup(&k), None);
    assert!(matches!(reg.begin_fetch(&k), FetchDecision::Start));
}

#[test]
fn network_failure_releases_key() {
    let mut reg = CacheRegistry::new();
    let k = key("https://example.org/c.img", None);
    assert!(matches!(reg.begin_fetch(&k), FetchDecision::Start));
    reg.fetch_failed(&k);
    assert_eq!(reg.cached_lookup(&k), None);
    assert!(matches!(reg.begin_fetch(&k), FetchDecision::Start));
}

#[test]
fn differently_pinned_urls_do_not_collide() {
    // the same URL pinned to two digests forms two distinct keys
    let d1 = digest_of(b"one");
    let d2 = digest_of(b"two");
    let url = "https://example.org/same.img";
    let mut reg = CacheRegistry::new();
    let k1 = key(url, Some(d1));
    let k2 = key(url, Some(d2));
    let k3 = key(url, None);

    assert!(matches!(reg.begin_fetch(&k1), FetchDecision::Start));
    assert!(matches!(reg.begin_fetch(&k2), FetchDecision::Start));
    assert!(matches!(reg.begin_fetch(&k3), FetchDecision::Start));
    assert!(matches!(reg.begin_fetch(&k2), FetchDecision::Join));

    assert_eq!(
        reg.finish_download(&k1, &d1, "/cache/one".to_string()),
        Ok("/cache/one".to_string())
    );
    // the other pins are unaffected
    assert!(matches!(reg.begin_fetch(&k2), FetchDecision::Join));
    assert_eq!(reg.cached_lookup(&k2), None);
    assert_eq!(reg.cached_lookup(&k1), Some("/cache/one".to_string()));
}

#[test]
fn unpinned_download_commits_without_check() {
    let mut reg = CacheRegistry::new();
    let k = key("https://example.org/icon.png", None);
    assert!(matches!(reg.begin_fetch(&k), FetchDecision::Start));
    let r = reg.finish_download(&k, &digest_of(b"whatever came"), "/cache/icon".to_string());
    assert_eq!(r, Ok("/cache/icon".to_string()));
    assert_eq!(reg.cached_lookup(&k), Some("/cache/icon".to_string()));
}
