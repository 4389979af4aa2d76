use pam::cli::Argument;
use pam::wasi_command::{check_wasi_response, parse_wasi_arguments, WasiResponse, DEFAULT_FUEL, DEFAULT_MEMORY_BYTES};

fn args(items: &[&str]) -> Vec<Argument> {
    items.iter().map(|item| Argument { text: item.to_string(), utf8: true }).collect()
}

#[test]
fn wasi_arguments_take_four_positionals_and_defaults() {
    let options = parse_wasi_arguments(&args(&["pam.rpc.json", "guest.wasm", "Ping", "request.json"])).unwrap();
    assert_eq!(options.manifest, "pam.rpc.json");
    assert_eq!(options.module, "guest.wasm");
    assert_eq!(options.method, "Ping");
    assert_eq!(options.request, "request.json");
    assert_eq!(options.contracts, None);
    assert_eq!(options.fuel, DEFAULT_FUEL);
    assert_eq!(options.memory_bytes, DEFAULT_MEMORY_BYTES);
    assert_eq!(options.request_id, None);
}

#[test]
fn wasi_options_are_read_and_checked() {
    let options = parse_wasi_arguments(&args(&[
        "m.json", "g.wasm", "Ping", "r.json", "--contracts", "c.json", "--fuel", "+5", "--memory-bytes", "65536",
        "--request-id", "req-1:a",
    ]))
    .unwrap();
    assert_eq!(options.contracts.as_deref(), Some("c.json"));
    assert_eq!((options.fuel, options.memory_bytes), (5, 65536));
    assert_eq!(options.request_id.as_deref(), Some("req-1:a"));
    let base = ["m.json", "g.wasm", "Ping", "r.json"];
    let failing = |extra: &[&str]| {
        let mut all: Vec<&str> = base.to_vec();
        all.extend_from_slice(extra);
        parse_wasi_arguments(&args(&all)).unwrap_err()
    };
    assert_eq!(failing(&["--fuel", "0"]), "--fuel must be between 1 and 18446744073709551615");
    assert_eq!(failing(&["--fuel", "x"]), "--fuel requires an integer");
    assert_eq!(failing(&["--fuel"]), "--fuel requires an integer");
    assert_eq!(failing(&["--memory-bytes", "1024"]), "--memory-bytes must be between 65536 and 2147483648");
    assert_eq!(failing(&["--request-id", "a b"]), "--request-id must contain 1-128 safe ASCII identifier characters");
    assert_eq!(failing(&["--contracts"]), "--contracts requires a JSON file");
    assert_eq!(failing(&["--verbose"]), "unknown rpc wasi option: --verbose");
    assert_eq!(
        parse_wasi_arguments(&args(&["m.json", "g.wasm"])).unwrap_err(),
        "rpc wasi requires a method"
    );
    let mut bad = args(&["m.json", "g.wasm", "Ping", "r.json"]);
    bad[1].utf8 = false;
    assert_eq!(parse_wasi_arguments(&bad).unwrap_err(), "RPC arguments must be valid UTF-8");
}

fn fields(items: &[&str]) -> Vec<String> {
    items.iter().map(|item| item.to_string()).collect()
}

fn success() -> WasiResponse {
    WasiResponse {
        protocol_version: Some(1),
        id: Some("req-1".to_owned()),
        kind: Some(2),
        fields: fields(&["protocolVersion", "id", "kind", "result"]),
        error_fields: None,
        error_code: None,
        error_message: None,
    }
}

#[test]
fn guest_replies_are_checked_against_their_request() {
    assert!(check_wasi_response(&success(), "req-1").is_ok());
    assert_eq!(check_wasi_response(&success(), "req-2").unwrap_err(), "RPC response id does not match its request");
    let old = WasiResponse { protocol_version: Some(2), ..success() };
    assert_eq!(check_wasi_response(&old, "req-1").unwrap_err(), "RPC protocolVersion must be 1");
    let extra = WasiResponse { fields: fields(&["protocolVersion", "id", "kind", "result", "debug"]), ..success() };
    assert_eq!(
        check_wasi_response(&extra, "req-1").unwrap_err(),
        "successful RPC response contains missing or unknown fields"
    );
    let unknown = WasiResponse { kind: Some(9), ..success() };
    assert_eq!(check_wasi_response(&unknown, "req-1").unwrap_err(), "RPC response kind must be 2 or 3");
    let failure = WasiResponse {
        kind: Some(3),
        fields: fields(&["protocolVersion", "id", "kind", "error"]),
        error_fields: Some(fields(&["message", "code"])),
        error_code: Some(42),
        error_message: Some("quota exceeded".to_owned()),
        ..success()
    };
    assert_eq!(check_wasi_response(&failure, "req-1").unwrap_err(), "RPC guest error 42: quota exceeded");
    let zero = WasiResponse { error_code: Some(0), ..failure.clone() };
    assert_eq!(check_wasi_response(&zero, "req-1").unwrap_err(), "RPC error code must be a positive integer");
}
