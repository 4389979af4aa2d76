use pam::runtime_catalog::{check_php_series, check_runtime_catalog, resolve_runtime_release, RuntimeCatalog, RuntimeRelease};

fn release(php: &str) -> RuntimeRelease {
    RuntimeRelease {
        php_version: php.to_owned(),
        runtime_revision: 1,
        source_url: "https://php.net/php.tar.xz".to_owned(),
        source_sha256: "ab".repeat(32),
        android_api: 26,
        ndk_version: "27.0".to_owned(),
        extensions: vec!["json".to_owned()],
    }
}

fn catalog() -> RuntimeCatalog {
    RuntimeCatalog {
        schema_version: 1,
        default: "8.5".to_owned(),
        channels: vec![("8.4".to_owned(), "php-8.4.3-r1".to_owned()), ("8.5".to_owned(), "php-8.5.0-r2".to_owned())],
        releases: vec![("php-8.4.3-r1".to_owned(), release("8.4.3")), ("php-8.5.0-r2".to_owned(), release("8.5.0"))],
    }
}

#[test]
fn runtime_catalogs_are_checked() {
    assert_eq!(check_runtime_catalog(&catalog()), Ok(()));
    let mut other = catalog();
    other.schema_version = 2;
    assert_eq!(check_runtime_catalog(&other).unwrap_err(), "unsupported runtime catalog schema 2; expected 1");
    let mut other = catalog();
    other.default = "9.0".to_owned();
    assert_eq!(check_runtime_catalog(&other).unwrap_err(), "runtime catalog default does not name a channel");
}

#[test]
fn php_series_pick_their_release() {
    let c = catalog();
    let (id, index) = resolve_runtime_release(&c, "8.4", "stable").unwrap();
    assert_eq!((id.as_str(), index), ("php-8.4.3-r1", 0));
    assert_eq!(c.releases[index].1.php_version, "8.4.3");
    assert_eq!(
        resolve_runtime_release(&c, "8.3", "stable").unwrap_err(),
        "PHP 8.3 has no stable runtime in this Pam Native SDK"
    );
    let mut broken = catalog();
    broken.releases.pop();
    assert_eq!(
        resolve_runtime_release(&broken, "8.5", "stable").unwrap_err(),
        "runtime catalog points to missing release php-8.5.0-r2"
    );
    assert_eq!(check_php_series("8.5"), Ok(()));
    assert_eq!(check_php_series("7.4").unwrap_err(), "PHP runtime must be 8.4 or 8.5");
}
