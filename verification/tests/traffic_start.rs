use pam::cli::Argument;
use pam::traffic_start::{parse_traffic_start_arguments, start_endpoints};

fn args(items: &[&str]) -> (Vec<Argument>, Vec<bool>) {
    let arguments = items.iter().map(|item| Argument { text: item.to_string(), utf8: true }).collect();
    // The addresses these tests use are all of the form 127.0.0.1:PORT.
    let sockets = items.iter().map(|item| item.starts_with("127.0.0.1:")).collect();
    (arguments, sockets)
}

#[test]
fn traffic_start_reads_its_name_addresses_and_rollout() {
    let (given, sockets) = args(&[
        "edge", "--listen", "127.0.0.1:8080", "--stable", "127.0.0.1:9000", "--candidate", "127.0.0.1:9001",
        "--weight-bps", "500", "--deadline-seconds", "60", "--tls-cert", "cert.pem", "--json",
    ]);
    let request = parse_traffic_start_arguments(&given, &sockets).unwrap();
    assert_eq!(request.name, "edge");
    assert_eq!(request.candidate.as_deref(), Some("127.0.0.1:9001"));
    assert_eq!((request.weight_basis_points, request.deadline_seconds, request.json), (500, 60, true));
    assert_eq!(request.tls_certificate.as_deref(), Some("cert.pem"));
    assert_eq!(request.tls_private_key, None);
    assert_eq!(
        start_endpoints(&request).unwrap(),
        ("127.0.0.1:8080".to_owned(), "127.0.0.1:9000".to_owned())
    );
}

#[test]
fn traffic_start_refusals_come_in_argument_order() {
    let refusal = |items: &[&str]| {
        let (given, sockets) = args(items);
        parse_traffic_start_arguments(&given, &sockets).unwrap_err()
    };
    assert_eq!(refusal(&["edge", "--listen", "localhost"]), "--listen requires IP:port");
    assert_eq!(refusal(&["edge", "--stable"]), "--stable requires a value");
    assert_eq!(refusal(&["edge", "--mode", "x"]), "unknown traffic:start option: --mode");
    assert_eq!(refusal(&["edge", "other"]), "traffic:start accepts one name");
    assert_eq!(refusal(&["--json"]), "traffic:start requires a name");
    assert_eq!(refusal(&["bad name"]), "application name must contain 1-64 ASCII letters, digits, '.', '-' or '_'");
    let (given, sockets) = args(&["edge", "--stable", "127.0.0.1:9000"]);
    let request = parse_traffic_start_arguments(&given, &sockets).unwrap();
    assert_eq!((request.weight_basis_points, request.deadline_seconds), (0, 300));
    assert_eq!(start_endpoints(&request).unwrap_err(), "traffic:start requires --listen");
}
