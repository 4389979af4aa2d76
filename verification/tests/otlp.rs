use pam::otlp::{parse_headers, percent_decode};
use pam::otlp_config::{
    accept_endpoint, endpoint_candidate, exporter_endpoint_source, exporter_settings, ExporterSettings, OtlpEnvironment,
};

fn value<'a>(headers: &'a [(String, String)], name: &str) -> &'a str {
    headers.iter().rev().find(|(key, _)| key.eq_ignore_ascii_case(name)).map(|(_, value)| value.as_str()).unwrap()
}

#[test]
fn headers_decode_percent_encoding() {
    let headers = parse_headers("authorization=Bearer%20secret,x-tenant=pam").unwrap();
    assert_eq!(value(&headers, "authorization"), "Bearer secret");
    assert_eq!(value(&headers, "x-tenant"), "pam");
}

#[test]
fn header_entries_are_trimmed_checked_and_decoded() {
    let headers = parse_headers(" a = 1 , ,b=%41%62").unwrap();
    assert_eq!(headers, vec![("a".to_owned(), "1".to_owned()), ("b".to_owned(), "Ab".to_owned())]);
    assert_eq!(parse_headers("novalue").err().unwrap(), "OTLP headers must use key=value entries");
    assert_eq!(parse_headers("bad name=1").err().unwrap(), "OTLP headers contain an invalid name");
    assert_eq!(parse_headers("a=%0A").err().unwrap(), "OTLP headers contain an invalid value");
    assert_eq!(parse_headers("a=%4").err().unwrap(), "OTLP header contains invalid percent encoding");
    assert_eq!(percent_decode("%zz").err().unwrap(), "OTLP header contains invalid percent encoding");
    assert_eq!(percent_decode("%ff").err().unwrap(), "OTLP header is not valid UTF-8");
    assert_eq!(percent_decode("caf%C3%A9").unwrap(), "café");
    assert_eq!(parse_headers("").unwrap(), vec![]);
}

fn endpoint(raw: &str, append_traces_path: bool) -> Result<String, String> {
    let candidate = endpoint_candidate(raw, append_traces_path)?;
    // The IP loopback test is the caller's; the addresses used here are plain.
    let loopback_ip = candidate.host.starts_with("127.") || candidate.host == "[::1]";
    accept_endpoint(candidate, loopback_ip)
}

#[test]
fn endpoint_requires_secure_remote_transport() {
    assert!(endpoint("http://collector.example/v1/traces", false).is_err());
    assert!(endpoint("http://127.0.0.1:4318", true).unwrap().to_string().ends_with("/v1/traces"));
    assert!(endpoint("https://collector.example/v1/traces", false).is_ok());
}

#[test]
fn endpoint_text_is_trimmed_and_completed() {
    assert_eq!(endpoint(" https://collector.example// ", true).unwrap(), "https://collector.example/v1/traces");
    assert_eq!(endpoint("http://LocalHost:4318/x", false).unwrap(), "http://LocalHost:4318/x");
    let candidate = endpoint_candidate("http://127.0.0.1:4318", true).unwrap();
    assert_eq!((candidate.scheme.as_str(), candidate.host.as_str()), ("http", "127.0.0.1"));
    assert_eq!(
        accept_endpoint(candidate, false).unwrap_err(),
        "OTLP endpoint must use HTTPS; HTTP is allowed only for loopback collectors"
    );
}

#[test]
fn endpoint_refusals_name_the_missing_part() {
    assert_eq!(endpoint("https://user@collector.example", false).unwrap_err(), "OTLP endpoint must not contain user information");
    assert_eq!(endpoint("/v1/traces", false).unwrap_err(), "OTLP endpoint requires a scheme");
    assert_eq!(endpoint("not a uri", false).unwrap_err(), "OTLP endpoint is not a valid URI");
}

fn environment() -> OtlpEnvironment {
    OtlpEnvironment {
        traces_endpoint: None,
        endpoint: Some("https://collector.example".to_owned()),
        traces_protocol: None,
        protocol: Some("http/json".to_owned()),
        traces_headers: None,
        headers: Some("x-tenant=pam".to_owned()),
        max_queue_size: None,
        max_export_batch_size: None,
        schedule_delay: None,
        traces_timeout: None,
        timeout: None,
        service_name: None,
    }
}

fn settings(env: &OtlpEnvironment) -> Result<Option<ExporterSettings>, String> {
    let endpoint_result = match exporter_endpoint_source(env) {
        Some((raw, append)) => endpoint(&raw, append),
        None => Ok(String::new()),
    };
    exporter_settings(env, endpoint_result)
}

#[test]
fn exporter_defaults_follow_the_environment() {
    let s = settings(&environment()).unwrap().unwrap();
    assert_eq!(s.endpoint, "https://collector.example/v1/traces");
    assert_eq!(s.headers, vec![("x-tenant".to_owned(), "pam".to_owned())]);
    assert_eq!(s.service_name, "pam");
    assert_eq!((s.queue_size, s.batch_size, s.delay_ms, s.timeout_ms), (2048, 512, 5000, 10_000));

    let mut env = environment();
    env.max_queue_size = Some("100".to_owned());
    env.timeout = Some("2500".to_owned());
    env.traces_endpoint = Some("https://traces.example/custom".to_owned());
    let s = settings(&env).unwrap().unwrap();
    assert_eq!(s.endpoint, "https://traces.example/custom");
    assert_eq!((s.queue_size, s.batch_size, s.timeout_ms), (100, 100, 2500));

    let mut none = environment();
    none.endpoint = None;
    assert!(settings(&none).unwrap().is_none());
}

#[test]
fn exporter_settings_are_checked() {
    let mut env = environment();
    env.protocol = None;
    assert_eq!(
        settings(&env).err().unwrap(),
        "OTLP endpoint requires OTEL_EXPORTER_OTLP_TRACES_PROTOCOL=http/json (got \"http/protobuf\")"
    );
    let mut env = environment();
    env.max_queue_size = Some("0".to_owned());
    assert_eq!(settings(&env).err().unwrap(), "OTEL_BSP_MAX_QUEUE_SIZE must be between 1 and 65536");
    let mut env = environment();
    env.max_export_batch_size = Some("x".to_owned());
    assert_eq!(settings(&env).err().unwrap(), "OTEL_BSP_MAX_EXPORT_BATCH_SIZE must be an integer");
    let mut env = environment();
    env.service_name = Some("bad\u{7}name".to_owned());
    assert_eq!(settings(&env).err().unwrap(), "OTEL_SERVICE_NAME must contain 1..128 printable characters");
    let mut env = environment();
    env.endpoint = Some("http://collector.example".to_owned());
    assert_eq!(
        settings(&env).err().unwrap(),
        "OTLP endpoint must use HTTPS; HTTP is allowed only for loopback collectors"
    );
}
