use sphinx_ultra::cache::{estimate_document_size, BuildCache, PersistedEntry};
use sphinx_ultra::document::Document;
use sphinx_ultra::error::BuildError;
use sphinx_ultra::fingerprint::{cache_file_name, fingerprint};

fn doc(path: &str, html: &str) -> Document {
    let mut d = Document::new_at(path.to_string(), format!("{}.html", path), 1000);
    d.set_html_at(html.to_string(), 1000);
    d
}

#[test]
fn fingerprint_is_repeatable() {
    let a = fingerprint(b"hello world", Some(1_700_000_000));
    let b = fingerprint(b"hello world", Some(1_700_000_000));
    assert_eq!(a, b);
    assert_eq!(a.len(), 64);
    assert!(a.chars().all(|c| c.is_ascii_hexdigit() && !c.is_ascii_uppercase()));
}

#[test]
fn fingerprint_changes_with_content_or_mtime() {
    let base = fingerprint(b"hello world", Some(10));
    assert_ne!(base, fingerprint(b"hello world!", Some(10)));
    assert_ne!(base, fingerprint(b"hello world", Some(11)));
    assert_ne!(base, fingerprint(b"hello world", None));
}

#[test]
fn fingerprint_matches_blake3_of_bytes_then_le_mtime() {
    let mut data = b"abc".to_vec();
    data.extend_from_slice(&7u64.to_le_bytes());
    assert_eq!(fingerprint(b"abc", Some(7)), blake3::hash(&data).to_hex().to_string());
    assert_eq!(fingerprint(b"abc", None), blake3::hash(b"abc").to_hex().to_string());
}

#[test]
fn cache_file_name_is_digest_of_path() {
    let name = cache_file_name("docs/index.rst");
    assert_eq!(name, format!("{}.json", blake3::hash(b"docs/index.rst").to_hex()));
    assert_ne!(name, cache_file_name("docs/guide.rst"));
}

#[test]
fn size_estimate_counts_text_and_overhead() {
    let d = doc("a.rst", "<p>x</p>");
    // html 8, title 0, source 5, output 10, overhead 1024
    assert_eq!(estimate_document_size(&d), 8 + 5 + 10 + 1024);
}

#[test]
fn store_then_lookup_is_a_hit() {
    let mut cache = BuildCache::new("cache".to_string());
    let d = doc("a.rst", "<p>a</p>");
    let h = fingerprint(b"a", Some(1));
    cache.store_document_at("a.rst", d.clone(), h.clone(), 5000);
    let got = cache.get_document_at("a.rst", &h, 5000).unwrap();
    assert_eq!(got.html, d.html);
    assert_eq!(got.source_path, d.source_path);
    assert_eq!(cache.hit_count(), 1);
    assert_eq!(cache.miss_count(), 0);
    assert_eq!(cache.entry("a.rst").unwrap().access_count, 2);
}

#[test]
fn changed_content_is_a_miss() {
    let mut cache = BuildCache::new("cache".to_string());
    let h1 = fingerprint(b"first", Some(1));
    let h2 = fingerprint(b"second", Some(1));
    cache.store_document_at("a.rst", doc("a.rst", "x"), h1, 5000);
    match cache.get_document_at("a.rst", &h2, 5000) {
        Err(BuildError::Cache(m)) => assert_eq!(m, "Document not found in cache"),
        other => panic!("expected a miss, got {:?}", other.map(|d| d.source_path)),
    }
    assert_eq!(cache.miss_count(), 1);
    assert_eq!(cache.hit_count(), 0);
    assert!(cache.entry("a.rst").is_none());
}

#[test]
fn expired_entry_is_a_miss() {
    let mut cache = BuildCache::with_limits("cache".to_string(), 1 << 20, 100);
    let h = fingerprint(b"x", None);
    cache.store_document_at("a.rst", doc("a.rst", "x"), h.clone(), 1000);
    assert!(cache.get_document_at("a.rst", &h, 1100).is_ok());
    assert!(cache.get_document_at("a.rst", &h, 1101).is_err());
    assert_eq!(cache.hit_count(), 1);
    assert_eq!(cache.miss_count(), 1);
}

#[test]
fn unknown_path_is_a_miss() {
    let mut cache = BuildCache::new("cache".to_string());
    assert!(cache.get_document_at("nope.rst", "00", 0).is_err());
    assert_eq!(cache.miss_count(), 1);
    assert_eq!(cache.len(), 0);
}

#[test]
fn eviction_keeps_total_within_budget() {
    // each document below is estimated at 1024 + 5 + 10 + html bytes
    let budget = 3 * 1100;
    let mut cache = BuildCache::with_limits("cache".to_string(), budget, 86400);
    for i in 0..10 {
        let p = format!("{}.rst", i);
        cache.store_document_at(&p, doc(&p, &"y".repeat(50)), format!("{}", i), 0);
        assert!(cache.size_bytes() <= budget as u128);
    }
    assert_eq!(cache.len(), 3);
    assert!(cache.entry("9.rst").is_some());
    assert!(cache.entry("0.rst").is_none());
}

#[test]
fn eviction_prefers_least_accessed_then_oldest() {
    let budget = 3 * 1100;
    let mut cache = BuildCache::with_limits("cache".to_string(), budget, 86400);
    for p in ["a.rst", "b.rst", "c.rst"] {
        cache.store_document_at(p, doc(p, &"y".repeat(50)), p.to_string(), 0);
    }
    // "a.rst" is looked up, so "b.rst" becomes the least accessed, oldest entry
    assert!(cache.get_document_at("a.rst", "a.rst", 0).is_ok());
    cache.store_document_at("d.rst", doc("d.rst", &"y".repeat(50)), "d".to_string(), 0);
    assert!(cache.entry("a.rst").is_some());
    assert!(cache.entry("b.rst").is_none());
    assert!(cache.entry("c.rst").is_some());
    assert!(cache.entry("d.rst").is_some());
}

#[test]
fn invalidate_and_clear() {
    let mut cache = BuildCache::new("cache".to_string());
    cache.store_document_at("a.rst", doc("a.rst", "x"), "h".to_string(), 0);
    cache.store_document_at("b.rst", doc("b.rst", "x"), "h".to_string(), 0);
    let _ = cache.get_document_at("a.rst", "h", 0);
    cache.invalidate("a.rst");
    assert!(cache.entry("a.rst").is_none());
    assert_eq!(cache.len(), 1);
    cache.clear();
    assert_eq!(cache.len(), 0);
    assert_eq!(cache.hit_count(), 0);
    assert_eq!(cache.size_bytes(), 0);
}

fn persisted(cache: &BuildCache, path: &str, current: Option<&str>) -> Option<PersistedEntry> {
    Some(PersistedEntry { entry: cache.entry(path).unwrap(), current_hash: current.map(|s| s.to_string()) })
}

#[test]
fn reload_restores_unchanged_and_drops_deleted() {
    let mut first = BuildCache::new("cache".to_string());
    for (p, h) in [("a.rst", "ha"), ("b.rst", "hb"), ("c.rst", "hc")] {
        first.store_document_at(p, doc(p, "x"), h.to_string(), 100);
    }
    let records = vec![
        persisted(&first, "a.rst", Some("ha")),
        persisted(&first, "b.rst", None),
        persisted(&first, "c.rst", Some("hc")),
    ];
    drop(first);
    let mut second = BuildCache::new("cache".to_string());
    second.load_entries_at(records, 200);
    assert_eq!(second.len(), 2);
    assert!(second.entry("a.rst").is_some());
    assert!(second.entry("b.rst").is_none());
    assert!(second.get_document_at("c.rst", "hc", 200).is_ok());
}

#[test]
fn corrupt_record_is_skipped() {
    let mut first = BuildCache::new("cache".to_string());
    first.store_document_at("a.rst", doc("a.rst", "x"), "ha".to_string(), 100);
    first.store_document_at("b.rst", doc("b.rst", "x"), "hb".to_string(), 100);
    let records = vec![persisted(&first, "a.rst", Some("ha")), None, persisted(&first, "b.rst", Some("hb"))];
    let mut second = BuildCache::new("cache".to_string());
    second.load_entries_at(records, 100);
    assert_eq!(second.len(), 2);
}

#[test]
fn stale_or_expired_records_are_not_restored() {
    let mut first = BuildCache::new("cache".to_string());
    first.store_document_at("a.rst", doc("a.rst", "x"), "ha".to_string(), 0);
    let records = vec![persisted(&first, "a.rst", Some("changed"))];
    let mut second = BuildCache::new("cache".to_string());
    second.load_entries_at(records, 0);
    assert_eq!(second.len(), 0);
    let records = vec![persisted(&first, "a.rst", Some("ha"))];
    let mut third = BuildCache::new("cache".to_string());
    third.load_entries_at(records, 86401);
    assert_eq!(third.len(), 0);
}

#[test]
fn store_and_lookup_at_the_current_time() {
    let mut cache = BuildCache::new("cache".to_string());
    let h = fingerprint(b"now", None);
    cache.store_document("a.rst", doc("a.rst", "x"), h.clone());
    assert!(cache.get_document("a.rst", &h).is_ok());
    assert!(cache.get_document("a.rst", "other").is_err());
    assert_eq!(cache.hit_count(), 1);
    assert_eq!(cache.miss_count(), 1);
}

#[test]
fn oversized_document_is_not_cached() {
    let mut cache = BuildCache::with_limits("cache".to_string(), 2000, 86400);
    cache.store_document_at("a.rst", doc("a.rst", "x"), "h1".to_string(), 0);
    assert_eq!(cache.len(), 1);
    // this document alone is estimated above the budget
    cache.store_document_at("a.rst", doc("a.rst", &"y".repeat(3000)), "h2".to_string(), 0);
    assert!(cache.entry("a.rst").is_none());
    cache.store_document_at("b.rst", doc("b.rst", &"y".repeat(3000)), "h3".to_string(), 0);
    assert_eq!(cache.len(), 0);
    assert!(cache.size_bytes() <= 2000);
}
