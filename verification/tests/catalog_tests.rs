use nelius_core::catalog::{CatalogCache, Manifest, VersionType};
use nelius_core::errors::{JsonField, LauncherError};

fn sample_manifest_text() -> String {
    let mut s = String::new();
    s.push_str("{\"latest\":{\"release\":\"1.21\",\"snapshot\":\"1.21-rc1\"},");
    s.push_str("\"versions\":[");
    s.push_str("{\"id\":\"1.21\",\"type\":\"release\",\"url\":\"https://example.invalid/1.21.json\"},");
    s.push_str("{\"id\":\"1.21-rc1\",\"type\":\"snapshot\",\"url\":\"https://example.invalid/rc1.json\"},");
    s.push_str("{\"id\":\"odd\",\"type\":\"experiment\",\"url\":\"https://example.invalid/odd.json\"}");
    s.push_str("]}");
    s
}

fn sample_manifest() -> Manifest {
    nelius_core::catalog::manifest_from_bytes(sample_manifest_text().as_bytes()).unwrap()
}

#[test]
fn manifest_parses_fields() {
    let m = sample_manifest();
    assert_eq!(m.latest_release, "1.21");
    assert_eq!(m.latest_snapshot, "1.21-rc1");
    assert_eq!(m.versions.len(), 3);
    assert_eq!(m.versions[0].version_id, "1.21");
    assert_eq!(m.versions[0].version_type, VersionType::Release);
    assert_eq!(m.versions[0].details_url, "https://example.invalid/1.21.json");
    assert_eq!(m.versions[1].version_type, VersionType::Snapshot);
    assert_eq!(m.versions[2].version_type, VersionType::Unknown);
}

#[test]
fn manifest_rejects_non_json() {
    let e = nelius_core::catalog::manifest_from_bytes(b"this is not json").unwrap_err();
    assert!(matches!(e, LauncherError::MalformedDocument));
}

#[test]
fn manifest_requires_versions_array() {
    let e = nelius_core::catalog::manifest_from_bytes(b"{\"latest\":{}}").unwrap_err();
    assert!(matches!(e, LauncherError::MissingField(JsonField::Versions)));
}

#[test]
fn manifest_requires_latest_release() {
    let text = "{\"versions\":[],\"latest\":{\"snapshot\":\"s\"}}";
    let e = nelius_core::catalog::manifest_from_bytes(text.as_bytes()).unwrap_err();
    assert!(matches!(e, LauncherError::MissingField(JsonField::LatestRelease)));
    assert_eq!(
        e.describe(),
        "bad json: missing or mistyped field latest.release"
    );
}

#[test]
fn manifest_names_broken_version_entry() {
    let text = "{\"latest\":{\"release\":\"r\",\"snapshot\":\"s\"},\"versions\":[{\"id\":\"x\",\"type\":\"release\"}]}";
    let e = nelius_core::catalog::manifest_from_bytes(text.as_bytes()).unwrap_err();
    assert!(matches!(e, LauncherError::MissingField(JsonField::VersionUrl)));
}

#[test]
fn lookup_is_case_and_whitespace_insensitive() {
    let m = sample_manifest();
    let plain = m.find_version("1.21-rc1").expect("plain id");
    let padded = m.find_version(" 1.21-rc1 ").expect("padded id");
    let upper = m.find_version("1.21-RC1").expect("uppercased id");
    assert_eq!(plain.version_id, "1.21-rc1");
    assert_eq!(padded.version_id, plain.version_id);
    assert_eq!(upper.version_id, plain.version_id);
    assert_eq!(padded.details_url, plain.details_url);
    assert_eq!(upper.details_url, plain.details_url);
}

#[test]
fn lookup_misses_unknown_version() {
    let m = sample_manifest();
    assert!(m.find_version("2.0").is_none());
    let e = m.resolve_version("2.0").unwrap_err();
    match e {
        LauncherError::VersionNotFound(id) => assert_eq!(id, "2.0"),
        other => panic!("wrong error: {}", other.describe()),
    }
}

#[test]
fn catalog_is_fetched_exactly_once() {
    let text = sample_manifest_text();
    let mut cache = CatalogCache::new();
    let mut fetches: usize = 0;
    let mut seen: Vec<Vec<String>> = Vec::new();
    for _round in 0..3 {
        if cache.needs_fetch() {
            fetches += 1;
            cache.fill_from_document(text.as_bytes()).unwrap();
        }
        let versions = cache.get_versions().expect("cache is filled");
        seen.push(versions.iter().map(|v| v.version_id.clone()).collect());
    }
    assert_eq!(fetches, 1);
    assert_eq!(seen[0], seen[1]);
    assert_eq!(seen[1], seen[2]);
    assert_eq!(seen[0], vec!["1.21", "1.21-rc1", "odd"]);
}

#[test]
fn failed_fetch_leaves_cache_empty_for_retry() {
    let mut cache = CatalogCache::new();
    let e = cache.fill_from_document(b"{\"versions\":7}").unwrap_err();
    assert!(matches!(e, LauncherError::MissingField(JsonField::Versions)));
    assert!(cache.needs_fetch());
    assert!(cache.get_manifest().is_none());
    cache.fill_from_document(sample_manifest_text().as_bytes()).unwrap();
    assert!(!cache.needs_fetch());
    assert_eq!(cache.get_manifest().unwrap().latest_release, "1.21");
}

#[test]
fn filled_cache_ignores_later_documents() {
    let mut cache = CatalogCache::new();
    cache.fill_from_document(sample_manifest_text().as_bytes()).unwrap();
    cache.fill_from_document(b"garbage that would not parse").unwrap();
    assert_eq!(cache.get_versions().unwrap().len(), 3);
}
