use cpm::cargo_lock::{parse_crate_list, registry_packages, split_package_path, LockFile, Package, SOURCE_CRATES_IO};
use cpm::control::ClientError;

fn package(name: &str, version: &str, source: Option<&str>) -> Package {
    Package {
        name: name.to_string(),
        version: version.to_string(),
        source: source.map(|s| s.to_string()),
        checksum: None,
        dependancies: None,
    }
}

#[test]
fn only_registry_packages_are_checked() {
    let lock = LockFile {
        version: 3,
        package: vec![
            package("serde", "1.0.0", Some(SOURCE_CRATES_IO)),
            package("local", "0.1.0", None),
            package("forked", "2.0.0", Some("git+https://example.com/forked")),
            package("tokio", "1.2.3", Some("registry+https://github.com/rust-lang/crates.io-index")),
        ],
    };
    let ids: Vec<String> = registry_packages(&lock).iter().map(|p| p.to_string()).collect();
    assert_eq!(ids, vec!["serde/1.0.0", "tokio/1.2.3"]);
}

#[test]
fn archive_paths_split_at_first_slash() {
    assert_eq!(split_package_path("foo/1.0.0"), Ok(("foo".to_string(), "1.0.0".to_string())));
    assert_eq!(split_package_path("foo/1.0/x"), Ok(("foo".to_string(), "1.0/x".to_string())));
    assert_eq!(split_package_path("foo"), Err(ClientError::BadTarFileName));
}

#[test]
fn package_list_lines_are_trimmed() {
    let list = parse_crate_list("foo/1.0.0\n\n  bar / 2.0.0 \r\n").unwrap();
    assert_eq!(list.len(), 2);
    assert_eq!(list[0].name, "foo");
    assert_eq!(list[0].version, "1.0.0");
    assert_eq!(list[0].path, "foo/1.0.0");
    assert_eq!(list[0].url, "https://crates.io/api/v1/crates/foo/1.0.0/download");
    assert_eq!(list[1].name, "bar");
    assert_eq!(list[1].version, "2.0.0");
    assert_eq!(list[1].path, "bar / 2.0.0");
    assert!(parse_crate_list("").unwrap().is_empty());
}

#[test]
fn malformed_package_list_is_refused() {
    assert_eq!(parse_crate_list("foo/1.0.0\nbar\n").err(), Some(ClientError::IllegalCrateListFormat));
}
