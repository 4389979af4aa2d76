use pam::dev_bundle::{
    bundle_order, dev_bundle_version, encode_dev_bundle, hot_reload_response_head, observe_project, route_request,
    route_request_text, HotReloadRoute, ReloadWatch,
};

fn file(path: &str, contents: &[u8]) -> (String, Result<Vec<u8>, String>) {
    (path.to_owned(), Ok(contents.to_vec()))
}

#[test]
fn bundles_list_files_by_path_with_lengths() {
    let bytes = encode_dev_bundle(&vec![file("b.php", b"xy"), file("a\\c.txt", b"z")]).unwrap();
    let mut expected = b"PNA1".to_vec();
    expected.extend_from_slice(&2u32.to_le_bytes());
    expected.extend_from_slice(&7u16.to_le_bytes());
    expected.extend_from_slice(b"a/c.txt");
    expected.extend_from_slice(&1u32.to_le_bytes());
    expected.extend_from_slice(b"z");
    expected.extend_from_slice(&5u16.to_le_bytes());
    expected.extend_from_slice(b"b.php");
    expected.extend_from_slice(&2u32.to_le_bytes());
    expected.extend_from_slice(b"xy");
    assert_eq!(bytes, expected);
    assert_eq!(encode_dev_bundle(&Vec::new()).unwrap(), b"PNA1\0\0\0\0".to_vec());
}

#[test]
fn bundle_order_is_a_stable_sort_by_path() {
    let paths = vec!["z".to_owned(), "a/b".to_owned(), "a\\b".to_owned(), "m".to_owned()];
    assert_eq!(bundle_order(&paths), vec![1, 2, 3, 0]);
}

#[test]
fn bundle_refusals_come_in_bundle_order() {
    let files = vec![("b".to_owned(), Err("cannot read b".to_owned())), ("a".to_owned(), Err("cannot read a".to_owned()))];
    assert_eq!(encode_dev_bundle(&files).unwrap_err(), "cannot read a");
    let long = "p".repeat(65_536);
    assert_eq!(encode_dev_bundle(&vec![file(&long, b"")]).unwrap_err(), "hot reload path is too long");
}

#[test]
fn bundle_versions_are_sha256_hex() {
    assert_eq!(
        dev_bundle_version(&b"abc".to_vec()).unwrap(),
        "ba7816bf8f01cfea414140de5dae2223b00361a396177a9cb410ff61f20015ad"
    );
    assert_eq!(
        dev_bundle_version(&vec![0u8; 16 * 1024 * 1024 + 1]).unwrap_err(),
        "hot reload bundle exceeds 16 MiB; reduce development assets"
    );
}

#[test]
fn hot_reload_requests_are_routed_by_path() {
    assert_eq!(route_request_text("GET /status HTTP/1.1\r\nHost: x\r\n\r\n"), HotReloadRoute::Status);
    assert_eq!(route_request_text("GET /bundle?v=2 HTTP/1.1\r\n"), HotReloadRoute::Bundle);
    assert_eq!(route_request_text("GET /other HTTP/1.1\r\n"), HotReloadRoute::NotFound);
    assert_eq!(route_request_text(""), HotReloadRoute::NotFound);
    assert_eq!(route_request(b"GET /status HTTP/1.1\r\n\xff"), HotReloadRoute::Status);
    assert_eq!(
        hot_reload_response_head("text/plain", 5),
        "HTTP/1.1 200 OK\r\nContent-Type: text/plain\r\nContent-Length: 5\r\nCache-Control: no-store\r\nConnection: close\r\n\r\n"
    );
}

#[test]
fn changes_are_rebuilt_once_they_settle() {
    let watch = ReloadWatch { built: (1, 10), pending: None };
    let (watch, rebuild) = observe_project(watch, (2, 20), 1_000);
    assert!(!rebuild);
    assert_eq!(watch.pending, Some(((2, 20), 1_000)));
    let (watch, rebuild) = observe_project(watch, (2, 20), 1_200);
    assert!(!rebuild);
    let (watch, rebuild) = observe_project(watch, (2, 20), 1_400);
    assert!(rebuild);
    assert_eq!((watch.built, watch.pending), ((2, 20), None));
    let (watch, _) = observe_project(watch, (3, 30), 2_000);
    let (watch, rebuild) = observe_project(watch, (4, 40), 2_500);
    assert!(!rebuild);
    assert_eq!(watch.pending, Some(((4, 40), 2_500)));
    let (watch, _) = observe_project(watch, (2, 20), 2_600);
    assert_eq!(watch.pending, None);
}
