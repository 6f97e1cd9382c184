use graph_store::cache::LruCache;
use graph_store::query::QueryKey;

fn key(pk: &str, labels: &[&str]) -> QueryKey {
    QueryKey::new(pk.to_string(), labels.iter().map(|l| l.to_string()).collect())
}

#[test]
fn cache_finds_by_normalised_key() {
    let mut c: LruCache<u32> = LruCache::new(4);
    c.insert(key("User#1", &["b", "a"]), 1);
    assert_eq!(c.peek(&key("User#1", &["a", "b"])), Some(&1));
    assert_eq!(c.peek(&key("User#1", &["a"])), None);
    c.insert(key("User#1", &["a", "b"]), 2);
    assert_eq!(c.len(), 1);
    assert_eq!(c.peek(&key("User#1", &["b", "a"])), Some(&2));
}

#[test]
fn cache_forgets_least_recently_used() {
    let mut c: LruCache<u32> = LruCache::new(2);
    c.insert(key("User#1", &[]), 1);
    c.insert(key("User#2", &[]), 2);
    assert!(c.touch(&key("User#1", &[])));
    c.insert(key("User#3", &[]), 3);
    assert_eq!(c.len(), 2);
    assert_eq!(c.peek(&key("User#2", &[])), None);
    assert_eq!(c.peek(&key("User#1", &[])), Some(&1));
    assert_eq!(c.peek(&key("User#3", &[])), Some(&3));
    assert!(!c.touch(&key("User#2", &[])));
}

#[test]
fn missing_keys_are_distinct_and_uncached() {
    let mut c: LruCache<u32> = LruCache::new(4);
    c.insert(key("User#1", &[]), 1);
    let keys = vec![key("User#2", &["a", "b"]), key("User#1", &[]), key("User#2", &["b", "a"]), key("User#3", &[])];
    let m = c.missing_keys(&keys);
    assert_eq!(m, vec![key("User#2", &["a", "b"]), key("User#3", &[])]);
}
