use moon_reader::cache::{CacheEntry, TtlCache};

#[test]
fn test_memory_cache_basic_operations() {
    let mut cache: TtlCache<Vec<String>> = TtlCache::new();
    let now = 1_700_000_000_000;
    let kbs: Vec<String> = vec![];
    cache.put("all".to_string(), kbs.clone(), 60, now);
    cache.remove_if_expired("all", now);
    let cached_kbs = cache.fresh("all", now);
    assert!(cached_kbs.is_some());
    assert_eq!(cached_kbs.unwrap().len(), 0);
    let missing = cache.fresh("missing", now);
    assert!(missing.is_none());
}

#[test]
fn test_cache_expiration() {
    let mut cache: TtlCache<String> = TtlCache::new();
    let now = 1_700_000_000_000;
    cache.put("test-doc".to_string(), "test content".to_string(), 1, now);
    let content = cache.fresh("test-doc", now);
    assert!(content.is_some());
    assert_eq!(content.unwrap(), "test content");
    let later = now + 2_000;
    cache.remove_if_expired("test-doc", later);
    let expired_content = cache.fresh("test-doc", later);
    assert!(expired_content.is_none());
    cache.remove_if_expired("test-doc", now);
    assert!(cache.fresh("test-doc", now).is_none());
}

#[test]
fn entries_expire_strictly_after_their_deadline() {
    let e = CacheEntry::new(7u8, 5, 1_000);
    assert_eq!(e.expires_at, 6_000);
    assert!(!e.is_expired(6_000));
    assert!(e.is_expired(6_001));
}

#[test]
fn cleanup_keeps_fresh_entries_only() {
    let mut cache: TtlCache<u32> = TtlCache::new();
    cache.put("a".to_string(), 1, 1, 0);
    cache.put("b".to_string(), 2, 10, 0);
    cache.put("c".to_string(), 3, 1, 0);
    cache.put("a".to_string(), 4, 100, 0);
    cache.cleanup_expired(5_000);
    assert_eq!(cache.fresh("a", 5_000), Some(&4));
    assert_eq!(cache.fresh("b", 5_000), Some(&2));
    assert_eq!(cache.fresh("c", 0), None);
    cache.clear();
    assert_eq!(cache.fresh("a", 0), None);
}
