use invite_tracker::cache::InviteCache;
use invite_tracker::record::InviteRecord;

fn codes(cache: &InviteCache) -> Vec<String> {
    cache.snapshot().into_iter().map(|record| record.code).collect()
}

#[test]
fn new_cache_is_empty() {
    let cache = InviteCache::new();
    assert!(cache.is_empty());
    assert_eq!(cache.len(), 0);
    assert!(cache.snapshot().is_empty());
    assert_eq!(cache.get("abc"), None);
    assert!(!cache.contains("abc"));
}

#[test]
fn put_then_get_returns_a_copy() {
    let mut cache = InviteCache::new();
    cache.put(InviteRecord::new("abc", vec![1, 2], 7));
    assert!(cache.contains("abc"));
    assert_eq!(cache.len(), 1);
    assert!(!cache.is_empty());
    assert_eq!(cache.get("abc"), Some(InviteRecord::new("abc", vec![1, 2], 7)));
    assert_eq!(cache.get("abd"), None);
    assert_eq!(cache.get("ab"), None);
    assert_eq!(cache.get(""), None);
}

#[test]
fn a_copy_that_is_changed_leaves_the_cache_alone() {
    let mut cache = InviteCache::new();
    cache.put(InviteRecord::new("abc", vec![1], 1));
    let mut copy = cache.get("abc").unwrap();
    copy.roles.push(9);
    copy.uses = 100;
    assert_eq!(cache.get("abc"), Some(InviteRecord::new("abc", vec![1], 1)));
}

#[test]
fn put_replaces_in_place_and_appends_new_codes() {
    let mut cache = InviteCache::new();
    cache.put(InviteRecord::new("a", vec![], 0));
    cache.put(InviteRecord::new("b", vec![5], 1));
    cache.put(InviteRecord::new("c", vec![], 2));
    cache.put(InviteRecord::new("b", vec![6, 7], 9));
    assert_eq!(
        cache.snapshot(),
        vec![
            InviteRecord::new("a", vec![], 0),
            InviteRecord::new("b", vec![6, 7], 9),
            InviteRecord::new("c", vec![], 2),
        ]
    );
    assert_eq!(cache.len(), 3);
}

#[test]
fn upsert_inserts_where_the_code_is_absent() {
    let mut cache = InviteCache::new();
    cache.upsert("abc", |existing| {
        assert_eq!(existing, None);
        InviteRecord::new("abc", vec![4], 2)
    });
    assert_eq!(cache.get("abc"), Some(InviteRecord::new("abc", vec![4], 2)));
}

#[test]
fn upsert_hands_the_stored_record_to_the_update() {
    let mut cache = InviteCache::new();
    cache.put(InviteRecord::new("abc", vec![4], 2));
    cache.put(InviteRecord::new("xyz", vec![8], 3));
    cache.upsert("abc", |existing| {
        let mut record = existing.expect("stored before");
        assert_eq!(record, InviteRecord::new("abc", vec![4], 2));
        record.roles.push(5);
        record.uses += 1;
        record
    });
    assert_eq!(cache.get("abc"), Some(InviteRecord::new("abc", vec![4, 5], 3)));
    assert_eq!(cache.get("xyz"), Some(InviteRecord::new("xyz", vec![8], 3)));
    assert_eq!(codes(&cache), vec!["abc".to_string(), "xyz".to_string()]);
}

#[test]
fn upsert_stores_under_the_code_it_was_called_with() {
    let mut cache = InviteCache::new();
    cache.upsert("abc", |_| InviteRecord::new("other", vec![1], 1));
    assert_eq!(cache.get("abc"), Some(InviteRecord::new("abc", vec![1], 1)));
    assert_eq!(cache.get("other"), None);
    assert_eq!(cache.len(), 1);
}

#[test]
fn remove_drops_the_entry_and_keeps_the_order_of_the_rest() {
    let mut cache = InviteCache::new();
    cache.put(InviteRecord::new("a", vec![1], 1));
    cache.put(InviteRecord::new("b", vec![2], 2));
    cache.put(InviteRecord::new("c", vec![3], 3));
    cache.remove("b");
    assert_eq!(cache.get("b"), None);
    assert_eq!(
        cache.snapshot(),
        vec![InviteRecord::new("a", vec![1], 1), InviteRecord::new("c", vec![3], 3)]
    );
    cache.remove("a");
    cache.remove("c");
    assert!(cache.is_empty());
}

#[test]
fn remove_of_an_absent_code_changes_nothing() {
    let mut cache = InviteCache::new();
    cache.put(InviteRecord::new("a", vec![1], 1));
    cache.remove("b");
    cache.remove("");
    assert_eq!(cache.snapshot(), vec![InviteRecord::new("a", vec![1], 1)]);
}

#[test]
fn removed_code_comes_back_at_the_end() {
    let mut cache = InviteCache::new();
    cache.put(InviteRecord::new("a", vec![], 1));
    cache.put(InviteRecord::new("b", vec![], 2));
    cache.remove("a");
    cache.put(InviteRecord::new("a", vec![], 3));
    assert_eq!(codes(&cache), vec!["b".to_string(), "a".to_string()]);
}

#[test]
fn observe_starts_without_roles_and_never_overwrites() {
    let mut cache = InviteCache::new();
    cache.observe("a", 4);
    assert_eq!(cache.get("a"), Some(InviteRecord::new("a", vec![], 4)));
    cache.put(InviteRecord::new("a", vec![9], 6));
    cache.observe("a", 0);
    cache.observe("a", 100);
    assert_eq!(cache.get("a"), Some(InviteRecord::new("a", vec![9], 6)));
    assert_eq!(cache.len(), 1);
}

#[test]
fn snapshot_has_each_code_once() {
    let mut cache = InviteCache::new();
    for code in ["a", "b", "a", "c", "b", "a"] {
        cache.observe(code, 1);
        cache.put(InviteRecord::new(code, vec![], 2));
    }
    assert_eq!(codes(&cache), vec!["a".to_string(), "b".to_string(), "c".to_string()]);
}

#[test]
fn codes_are_told_apart_by_case_and_by_length() {
    let mut cache = InviteCache::new();
    cache.observe("abc", 1);
    cache.observe("ABC", 2);
    cache.observe("abcd", 3);
    assert_eq!(cache.len(), 3);
    assert_eq!(cache.get("ABC").unwrap().uses, 2);
    assert_eq!(cache.get("abcd").unwrap().uses, 3);
}
