use kawaii_launcher::manifest::{find_version, versions_types};
use kawaii_launcher::model::{Latest, VersionManifest, Versions};
use kawaii_launcher::order::text_less;

fn entry(id: &str, kind: &str, url: &str) -> Versions {
    Versions {
        id: id.to_string(),
        version_type: kind.to_string(),
        url: url.to_string(),
        time: "2023-06-12T12:00:00+00:00".to_string(),
        release_time: "2023-06-12T12:00:00+00:00".to_string(),
        sha1: "abc".to_string(),
        compliance_level: 1,
    }
}

fn manifest(entries: Vec<Versions>) -> VersionManifest {
    VersionManifest {
        latest: Latest { release: "1.20.1".to_string(), snapshot: "23w31a".to_string() },
        versions: entries,
    }
}

#[test]
fn find_version_gives_first_match() {
    let m = manifest(vec![
        entry("23w31a", "snapshot", "u1"),
        entry("1.20.1", "release", "u2"),
        entry("1.20.1", "release", "u3"),
    ]);
    let v = find_version(&m, &"1.20.1".to_string()).unwrap();
    assert_eq!(v.url, "u2");
    assert!(find_version(&m, &"1.7.10".to_string()).is_none());
}

#[test]
fn versions_types_sorted_without_repeats() {
    let m = manifest(vec![
        entry("23w31a", "snapshot", "u"),
        entry("1.20.1", "release", "u"),
        entry("b1.8", "old_beta", "u"),
        entry("1.19", "release", "u"),
        entry("a1.0", "old_alpha", "u"),
        entry("23w30a", "snapshot", "u"),
    ]);
    assert_eq!(versions_types(&m), vec!["old_alpha", "old_beta", "release", "snapshot"]);
}

#[test]
fn versions_types_of_empty_manifest() {
    assert_eq!(versions_types(&manifest(Vec::new())), Vec::<String>::new());
}

#[test]
fn versions_types_order_does_not_matter() {
    let a = manifest(vec![entry("1", "b", "u"), entry("2", "a", "u"), entry("3", "b", "u")]);
    let b = manifest(vec![entry("1", "a", "u"), entry("2", "b", "u")]);
    assert_eq!(versions_types(&a), versions_types(&b));
}

#[test]
fn versions_types_use_byte_order() {
    let m = manifest(vec![entry("1", "b", "u"), entry("2", "B", "u"), entry("3", "é", "u"), entry("4", "ab", "u"), entry("5", "a", "u")]);
    assert_eq!(versions_types(&m), vec!["B", "a", "ab", "b", "é"]);
}

#[test]
fn text_less_is_byte_order() {
    assert!(text_less("a", "b"));
    assert!(text_less("a", "ab"));
    assert!(!text_less("ab", "a"));
    assert!(!text_less("a", "a"));
    assert!(text_less("Z", "a"));
    assert!(text_less("z", "é"));
    assert!(!text_less("", ""));
    assert!(text_less("", "x"));
}
