use pam::prometheus::label;
use pam::protocol::{parse_binary_http_response, parse_dispatch_envelope};
use pam::resource_monitor::{process_tree, stat_parent, status_value, ProcEntry};

#[test]
fn escapes_prometheus_label_control_characters_in_order() {
    assert_eq!(
        label("web\\blue\"}\npam_injected 1"),
        "web\\\\blue\\\"}\\npam_injected 1"
    );
}

#[test]
fn parses_parent_after_names_containing_spaces_and_parentheses() {
    assert_eq!(stat_parent("42 (php worker (blue)) S 7 42 42 0"), Some(7));
}

#[test]
fn stat_lines_without_a_parent_field_are_rejected() {
    assert_eq!(stat_parent("42 (php) S"), None);
    assert_eq!(stat_parent("no parenthesis here"), None);
    assert_eq!(stat_parent("1 (x) S 4294967296 0"), None);
    assert_eq!(stat_parent("1 (x) S +12 0"), Some(12));
}

#[test]
fn status_values_come_from_the_first_keyed_line() {
    let status = "Name:\tphp\nVmRSS:\t  2048 kB\r\nThreads:\t3\nVmRSS:\t1 kB\n";
    assert_eq!(status_value(status, "VmRSS:"), 2048);
    assert_eq!(status_value(status, "Threads:"), 3);
    assert_eq!(status_value(status, "Missing:"), 0);
    assert_eq!(status_value("VmRSS:\tlots\n", "VmRSS:"), 0);
}

#[test]
fn process_trees_sum_every_descendant_once() {
    let entry = |pid: u32, parent: u32, rss: u64, threads: u64| ProcEntry {
        pid,
        stat: format!("{pid} (worker) S {parent} 0 0"),
        status: Some(format!("VmRSS:\t{rss} kB\nThreads:\t{threads}\n")),
    };
    let entries = vec![
        entry(10, 1, 100, 2),
        entry(11, 10, 10, 1),
        entry(12, 11, 1, 1),
        entry(13, 1, 1_000, 9),
    ];
    let snapshot = process_tree(10, &entries);
    assert!(snapshot.observed);
    assert_eq!(snapshot.processes, 3);
    assert_eq!(snapshot.tasks, 4);
    assert_eq!(snapshot.rss_bytes, 111 * 1024);
    let missing = process_tree(99, &entries);
    assert!(!missing.observed);
    assert_eq!(missing.processes, 0);
}

#[test]
fn native_response_parser_accepts_binary_bodies() {
    let mut payload = vec![0x89, b'P', b'A', b'M', 1];
    payload.extend_from_slice(&200_u16.to_be_bytes());
    payload.extend_from_slice(&1_u16.to_be_bytes());
    payload.extend_from_slice(&12_u16.to_be_bytes());
    payload.extend_from_slice(b"content-type");
    payload.extend_from_slice(&1_u16.to_be_bytes());
    payload.extend_from_slice(&24_u32.to_be_bytes());
    payload.extend_from_slice(b"application/octet-stream");
    payload.extend_from_slice(&4_u32.to_be_bytes());
    payload.extend_from_slice(&[0, 0xff, b'P', b'A']);
    payload.extend_from_slice(&0_u32.to_be_bytes());

    let envelope = parse_dispatch_envelope(&payload).unwrap().unwrap();
    let response = envelope.response.unwrap();
    assert_eq!(response.status, 200);
    assert_eq!(response.body.as_ref(), &[0, 0xff, b'P', b'A']);
}

#[test]
fn malformed_dispatch_payloads_never_panic() {
    let mut state = 0x9e37_79b9_7f4a_7c15_u64;
    for length in 0..10_000_usize {
        let mut payload = Vec::with_capacity(length % 257);
        for _ in 0..payload.capacity() {
            state ^= state << 13;
            state ^= state >> 7;
            state ^= state << 17;
            payload.push(state as u8);
        }
        let _ = parse_dispatch_envelope(&payload);
    }
}

#[test]
fn native_response_parser_rejects_unbounded_chunk_allocation() {
    let mut payload = vec![0x89, b'P', b'A', b'M', 1];
    payload.extend_from_slice(&200_u16.to_be_bytes());
    payload.extend_from_slice(&0_u16.to_be_bytes());
    payload.extend_from_slice(&0_u32.to_be_bytes());
    payload.extend_from_slice(&u32::MAX.to_be_bytes());

    assert_eq!(
        parse_dispatch_envelope(&payload).unwrap_err().message(),
        "native HTTP response contains too many chunks",
    );
}

#[test]
fn binary_responses_without_framing_are_left_to_json() {
    assert!(parse_dispatch_envelope(b"{\"stateCode\":1}").unwrap().is_none());
    assert!(parse_binary_http_response(&[0, 200]).is_err());
}

#[test]
fn metadata_that_is_not_utf8_reports_where_decoding_stopped() {
    let error = parse_binary_http_response(&[0, 200, 0, 1, 0, 2, b'x', 0xff]).unwrap_err();
    assert_eq!(
        error.message(),
        "native HTTP metadata is not UTF-8: invalid utf-8 sequence of 1 bytes from index 1"
    );
}
