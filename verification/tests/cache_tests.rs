use folder_summary::analyzer::CodeAnalysis;
use folder_summary::cache::Cache;

fn sample_analysis(tag: &str) -> CodeAnalysis {
    CodeAnalysis {
        imports: vec![tag.to_string()],
        functions: Vec::new(),
        types: Vec::new(),
        exports: Vec::new(),
    }
}

#[test]
fn cache_round_trip_same_mtime() {
    let mut cache = Cache::new("cache.json");
    cache.set("src/a.js".to_string(), 100, sample_analysis("a"));
    let hit = cache.get("src/a.js", Some(100));
    assert!(hit.is_some());
    assert_eq!(hit.unwrap().imports, vec!["a"]);
}

#[test]
fn cache_miss_on_changed_mtime() {
    // Touching the file between set and get makes the lookup a miss.
    let mut cache = Cache::new("cache.json");
    cache.set("src/a.js".to_string(), 100, sample_analysis("a"));
    assert!(cache.get("src/a.js", Some(101)).is_none());
}

#[test]
fn cache_miss_on_unreadable_mtime() {
    let mut cache = Cache::new("cache.json");
    cache.set("src/a.js".to_string(), 100, sample_analysis("a"));
    assert!(cache.get("src/a.js", None).is_none());
}

#[test]
fn cache_miss_on_unknown_path() {
    let mut cache = Cache::new("cache.json");
    cache.set("src/a.js".to_string(), 100, sample_analysis("a"));
    assert!(cache.get("src/b.js", Some(100)).is_none());
}

#[test]
fn cache_set_overwrites() {
    let mut cache = Cache::new("cache.json");
    cache.set("src/a.js".to_string(), 100, sample_analysis("old"));
    cache.set("src/a.js".to_string(), 200, sample_analysis("new"));
    assert!(cache.get("src/a.js", Some(100)).is_none());
    let hit = cache.get("src/a.js", Some(200)).unwrap();
    assert_eq!(hit.imports, vec!["new"]);
    // the overwritten record is gone from the persisted table too
    assert_eq!(cache.entries().len(), 1);
}

#[test]
fn cache_starts_empty_with_path() {
    let cache = Cache::new("store.json");
    assert_eq!(cache.cache_file(), "store.json");
    assert!(cache.entries().is_empty());
}
