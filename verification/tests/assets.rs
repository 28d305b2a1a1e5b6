use pyaket::assets::AssetBundle;
use pyaket::assets::AssetError;

fn bundle_of(entries: &[(&str, &[u8])]) -> AssetBundle {
    let mut bundle = AssetBundle::new();
    for (path, data) in entries {
        bundle.insert(path.to_string(), data.to_vec());
    }
    bundle
}

#[test]
fn exact_lookup() {
    let bundle = bundle_of(&[("pkg.whl", b"wheel"), ("notes.txt", b"text")]);
    assert!(bundle.contains_path("pkg.whl"));
    assert!(!bundle.contains_path("missing.whl"));
    assert_eq!(bundle.read("notes.txt"), Some(b"text".to_vec()));
    assert_eq!(bundle.read("missing.whl"), None);
    assert_eq!(bundle.len(), 2);
}

#[test]
fn insert_replaces_existing_content() {
    let mut bundle = bundle_of(&[("pkg.whl", b"old")]);
    bundle.insert("pkg.whl".to_string(), b"new".to_vec());
    assert_eq!(bundle.read("pkg.whl"), Some(b"new".to_vec()));
    assert_eq!(bundle.len(), 1);
}

#[test]
fn glob_filters_and_orders_lexically() {
    // Inserted out of order on purpose: queries must come back sorted.
    let bundle = bundle_of(&[
        ("zeta.whl", b"z"),
        ("alpha.whl", b"a"),
        ("readme.md", b"r"),
        ("mid.whl", b"m"),
    ]);
    let files = bundle.glob_files("*.whl").unwrap();
    assert_eq!(files, vec!["alpha.whl", "mid.whl", "zeta.whl"]);
    let data = bundle.glob_data("*.whl").unwrap();
    assert_eq!(data, vec![b"a".to_vec(), b"m".to_vec(), b"z".to_vec()]);
    let pairs = bundle.glob("*.md").unwrap();
    assert_eq!(pairs, vec![("readme.md".to_string(), b"r".to_vec())]);
}

#[test]
fn glob_matches_the_full_path_case_sensitively() {
    let bundle = bundle_of(&[("deep/path/a.whl", b"a"), ("b.whl", b"b")]);
    let scoped = bundle.glob_files("deep/*/*.whl").unwrap();
    assert_eq!(scoped, vec!["deep/path/a.whl"]);
    let upper = bundle.glob_files("B.WHL").unwrap();
    assert!(upper.is_empty());
    let exact = bundle.glob_files("b.whl").unwrap();
    assert_eq!(exact, vec!["b.whl"]);
}

#[test]
fn malformed_pattern_is_rejected() {
    let bundle = bundle_of(&[("pkg.whl", b"wheel")]);
    assert_eq!(bundle.glob_files("a**b").unwrap_err(), AssetError::BadPattern);
}
