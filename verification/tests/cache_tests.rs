use devclean_core::ai::ai_assessment_from_reply;
use devclean_core::cache::{
    cache_path, get_cached_assessment, hash_bytes, root_cache_path, set_cached_assessment,
    CacheFile,
};
use devclean_core::types::{RiskClass, RiskSource};

#[test]
fn default_cache_is_empty_version_one() {
    let cache = CacheFile::default();
    assert_eq!(cache.version, 1);
    assert!(cache.entries.is_empty());
    assert!(get_cached_assessment(&cache, "/p", "abc").is_none());
}

#[test]
fn store_then_lookup_same_hash_round_trips() {
    let mut cache = CacheFile::default();
    let stored = ai_assessment_from_reply(9, vec![String::from("critical service")]);
    set_cached_assessment(&mut cache, "/projects/shop", "hash-1", stored);
    let got = get_cached_assessment(&cache, "/projects/shop", "hash-1")
        .expect("identical hash must hit");
    assert_eq!(got.score, 9);
    assert!(matches!(got.class_name, RiskClass::Critical));
    assert!(matches!(got.source, RiskSource::Ai));
    assert_eq!(got.reasons, vec![String::from("critical service")]);
}

#[test]
fn lookup_with_other_hash_misses() {
    let mut cache = CacheFile::default();
    let stored = ai_assessment_from_reply(9, vec![]);
    set_cached_assessment(&mut cache, "/projects/shop", "hash-1", stored);
    assert!(get_cached_assessment(&cache, "/projects/shop", "hash-2").is_none());
    assert!(get_cached_assessment(&cache, "/projects/other", "hash-1").is_none());
}

#[test]
fn store_overwrites_prior_entry_for_same_identity() {
    let mut cache = CacheFile::default();
    set_cached_assessment(&mut cache, "/p", "h1", ai_assessment_from_reply(2, vec![]));
    set_cached_assessment(&mut cache, "/p", "h2", ai_assessment_from_reply(8, vec![]));
    assert_eq!(cache.entries.len(), 1);
    assert!(get_cached_assessment(&cache, "/p", "h1").is_none());
    let got = get_cached_assessment(&cache, "/p", "h2").expect("new hash must hit");
    assert_eq!(got.score, 8);
}

#[test]
fn hash_bytes_is_sha256_hex() {
    assert_eq!(
        hash_bytes(b"abc"),
        "ba7816bf8f01cfea414140de5dae2223b00361a396177a9cb410ff61f20015ad"
    );
    assert_eq!(
        hash_bytes(b""),
        "e3b0c44298fc1c149afbf4c8996fb92427ae41e4649b934ca495991b7852b855"
    );
}

#[test]
fn cache_path_is_local_file_under_root() {
    assert_eq!(cache_path("/work/repo"), "/work/repo/.devclean-cache.json");
    assert_eq!(root_cache_path("/work/repo"), "/work/repo/.devclean-cache.json");
}
