use pam::dashboard::{
    after_read, http_response_head, live_dashboard_credential, route_dashboard_request, DashboardReply, ReadProgress,
};
use sha2::{Digest, Sha256};

fn digest(token: &str) -> [u8; 32] {
    Sha256::digest(token.as_bytes()).into()
}

#[test]
fn reading_stops_at_the_blank_line_or_the_size_limit() {
    assert_eq!(after_read(b"GET / HTTP/1.1\r\nHost: x\r\n"), ReadProgress::Incomplete);
    assert_eq!(after_read(b"GET / HTTP/1.1\r\n\r\n"), ReadProgress::Complete);
    assert_eq!(after_read(&vec![b'a'; 16 * 1024 + 1]), ReadProgress::TooLarge);
}

#[test]
fn credentials_come_from_bearer_or_basic_pam_user() {
    assert_eq!(live_dashboard_credential("Bearer secret").as_deref(), Some("secret"));
    assert_eq!(live_dashboard_credential("Basic cGFtOnNlY3JldA==").as_deref(), Some("secret"));
    assert_eq!(live_dashboard_credential("Basic cm9vdDpzZWNyZXQ="), None);
    assert_eq!(live_dashboard_credential("Basic !!!"), None);
    assert_eq!(live_dashboard_credential("Digest x"), None);
}

#[test]
fn requests_are_routed_after_authentication() {
    let expected = digest("secret");
    let route = |request: &str| route_dashboard_request(request, &expected);
    assert_eq!(route("GET / HTTP/1.1\r\nauthorization: Bearer secret\r\n\r\n"), DashboardReply::Page);
    assert_eq!(route("GET /health HTTP/1.1\r\nAuthorization:  Basic cGFtOnNlY3JldA== \r\n\r\n"), DashboardReply::Health);
    assert_eq!(route("GET /x HTTP/1.1\r\nAuthorization: Bearer secret\r\n\r\n"), DashboardReply::NotFound);
    assert_eq!(route("POST / HTTP/1.1\r\nAuthorization: Bearer secret\r\n\r\n"), DashboardReply::MethodNotAllowed);
    assert_eq!(route("GET / HTTP/1.1\r\nAuthorization: Bearer wrong\r\n\r\n"), DashboardReply::Unauthorized);
    assert_eq!(route("GET / HTTP/1.1\r\n\r\n"), DashboardReply::Unauthorized);
    assert_eq!(route("GET / HTTP/1.0\r\nAuthorization: Bearer secret\r\n\r\n"), DashboardReply::BadRequest);
    assert_eq!(route("GET / HTTP/1.1 extra\r\n\r\n"), DashboardReply::BadRequest);
}

#[test]
fn response_heads_carry_the_security_headers() {
    let head = http_response_head("401 Unauthorized", "text/plain; charset=utf-8", 12, &vec!["Allow: GET"]);
    assert!(head.starts_with("HTTP/1.1 401 Unauthorized\r\nContent-Type: text/plain; charset=utf-8\r\nContent-Length: 12\r\nConnection: close\r\n"));
    assert!(head.contains("X-Frame-Options: DENY\r\n"));
    assert!(head.ends_with("form-action 'none'\r\nAllow: GET\r\n\r\n"));
    assert_eq!(DashboardReply::MethodNotAllowed.status(), "405 Method Not Allowed");
    assert_eq!(DashboardReply::Health.content_type(), "application/json; charset=utf-8");
    assert_eq!(DashboardReply::Unauthorized.extra_header(), Some("WWW-Authenticate: Basic realm=\"PAM manager\", charset=\"UTF-8\""));
}
