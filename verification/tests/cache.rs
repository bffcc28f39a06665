use kctx::cache::{NamespaceCache, CACHE_TTL_SECS};
use kctx::error::KctxError;

#[test]
fn test_cache_save_and_load() {
    let context = "test-context";
    let namespaces = vec!["ns1".to_string(), "ns2".to_string()];
    let path = NamespaceCache::get_cache_path("/tmp/cache", context);
    assert_eq!(path, "/tmp/cache/test-context.json");

    let saved = NamespaceCache::save(namespaces.clone(), 1_700_000_000);
    let loaded = NamespaceCache::load(Some(saved), 1_700_000_010);

    assert!(loaded.is_some());
    assert_eq!(loaded.unwrap(), namespaces);
}

#[test]
fn test_cache_expiration() {
    let namespaces = vec!["ns1".to_string()];
    let cache = NamespaceCache { namespaces, timestamp: 0 };
    let loaded = NamespaceCache::load(Some(cache), 1_700_000_000);
    assert!(loaded.is_none());
}

#[test]
fn test_cache_isolation() {
    let p1 = NamespaceCache::get_cache_path("/tmp/cache", "ctx1");
    let p2 = NamespaceCache::get_cache_path("/tmp/cache", "ctx2");
    assert_ne!(p1, p2);

    let load1 = NamespaceCache::load(Some(NamespaceCache::save(vec!["ns1".to_string()], 10)), 10).unwrap();
    let load2 = NamespaceCache::load(Some(NamespaceCache::save(vec!["ns2".to_string()], 10)), 10).unwrap();
    assert_eq!(load1, vec!["ns1"]);
    assert_eq!(load2, vec!["ns2"]);
}

#[test]
fn cache_is_fresh_up_to_the_time_to_live() {
    let at_limit = NamespaceCache::save(vec!["a".to_string()], 100);
    assert!(!at_limit.is_expired(100 + CACHE_TTL_SECS));
    assert!(at_limit.is_expired(101 + CACHE_TTL_SECS));
    assert_eq!(NamespaceCache::load(Some(at_limit), 400), Some(vec!["a".to_string()]));
    let stale = NamespaceCache::save(vec!["a".to_string()], 100);
    assert_eq!(NamespaceCache::load(Some(stale), 401), None);
    assert_eq!(NamespaceCache::load(None, 5), None);
}

#[test]
fn cache_file_names_are_sanitised() {
    assert_eq!(NamespaceCache::cache_file_name("arn:aws:eks/prod"), "arn_aws_eks_prod.json");
    assert_eq!(NamespaceCache::get_cache_path("/c/", "a/b"), "/c/a_b.json");
    assert_eq!(NamespaceCache::get_cache_path("", "x"), "x.json");
}

#[test]
fn cache_dir_choice() {
    assert_eq!(
        NamespaceCache::get_cache_dir(Some("/override".to_string()), Some("/home/u/.cache".to_string())).unwrap(),
        "/override"
    );
    assert_eq!(
        NamespaceCache::get_cache_dir(None, Some("/home/u/.cache".to_string())).unwrap(),
        "/home/u/.cache/kctx"
    );
    let e = NamespaceCache::get_cache_dir(None, None).unwrap_err();
    assert!(matches!(e, KctxError::CacheDirNotFound));
    assert_eq!(e.message(), "Could not find cache directory");
}

#[test]
fn cache_entry_stamped_in_the_future_is_fresh() {
    let ahead = NamespaceCache { namespaces: vec!["ns1".to_string()], timestamp: 2_000 };
    assert!(!ahead.is_expired(1_000));
    assert_eq!(NamespaceCache::load(Some(ahead), 1_000), Some(vec!["ns1".to_string()]));
}

#[test]
fn cache_names_that_sanitise_alike_share_a_file() {
    assert_eq!(
        NamespaceCache::get_cache_path("/c", "a/b"),
        NamespaceCache::get_cache_path("/c", "a:b")
    );
    assert_ne!(
        NamespaceCache::get_cache_path("/c", "a/b"),
        NamespaceCache::get_cache_path("/c", "a/c")
    );
}
