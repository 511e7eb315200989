use biyard_kit::service_cache::{ServiceCache, MAX_CACHE, TTL_SECS};

#[test]
fn cached_service_is_found_at_the_same_instant() {
    let mut c: ServiceCache<u32> = ServiceCache::new();
    c.insert("hsec_a", 7, 1_000);
    assert_eq!(c.lookup("hsec_a", 1_000), Some(&7));
    assert_eq!(c.len(), 1);
}

#[test]
fn entry_expires_after_the_ttl() {
    let mut c: ServiceCache<u32> = ServiceCache::new();
    c.insert("s", 1, 0);
    assert_eq!(c.lookup("s", TTL_SECS - 1), Some(&1));
    assert_eq!(c.lookup("s", TTL_SECS), None);
}

#[test]
fn unknown_secret_is_not_found() {
    let c: ServiceCache<u32> = ServiceCache::new();
    assert_eq!(c.lookup("nope", 0), None);
}

#[test]
fn insert_replaces_the_service_of_a_secret() {
    let mut c: ServiceCache<u32> = ServiceCache::new();
    c.insert("s", 1, 10);
    c.insert("s", 2, 20);
    assert_eq!(c.lookup("s", 20), Some(&2));
    assert_eq!(c.len(), 1);
}

#[test]
fn insert_drops_stale_entries() {
    let mut c: ServiceCache<u32> = ServiceCache::new();
    c.insert("old", 1, 0);
    c.insert("new", 2, TTL_SECS + 5);
    assert_eq!(c.len(), 1);
    assert_eq!(c.lookup("old", TTL_SECS + 5), None);
}

#[test]
fn invalidated_secret_is_gone_and_invalidate_is_idempotent() {
    let mut c: ServiceCache<u32> = ServiceCache::new();
    c.insert("a", 1, 0);
    c.insert("b", 2, 0);
    c.invalidate("a");
    c.invalidate("a");
    assert_eq!(c.lookup("a", 0), None);
    assert_eq!(c.lookup("b", 0), Some(&2));
    assert_eq!(c.len(), 1);
}

#[test]
fn full_cache_evicts_the_oldest() {
    let mut c: ServiceCache<usize> = ServiceCache::new();
    for i in 0..MAX_CACHE {
        c.insert(&format!("s{i}"), i, i as i64);
    }
    assert_eq!(c.len(), MAX_CACHE);
    c.insert("extra", 9999, 2000);
    assert_eq!(c.len(), MAX_CACHE);
    assert_eq!(c.lookup("s0", 2000), None);
    assert_eq!(c.lookup("s1", 2000), Some(&1));
    assert_eq!(c.lookup("extra", 2000), Some(&9999));
}

#[test]
fn get_or_create_hits_then_rebuilds_after_expiry() {
    let mut c: ServiceCache<u32> = ServiceCache::new();
    assert_eq!(c.lookup("k", 0), None);
    c.insert("k", 1, 0);
    assert_eq!(c.lookup("k", 10), Some(&1));
    assert_eq!(c.len(), 1);
    assert_eq!(c.lookup("k", TTL_SECS), None);
    c.insert("other", 5, 1);
    c.insert("k", 2, TTL_SECS);
    assert_eq!(c.lookup("k", TTL_SECS), Some(&2));
    assert_eq!(c.lookup("other", TTL_SECS), Some(&5));
    assert_eq!(c.len(), 2);
}
