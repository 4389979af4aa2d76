//! Where an OTLP trace exporter sends its batches and how it batches them,
//! decided from the OpenTelemetry environment variables.

use vstd::prelude::*;
use vstd::utf8::encode_utf8;
use crate::text::{chars_of, string_of, str_eq, split_on, parse_unsigned, parse_u64_chars, decimal_text, push_decimal_text, byte_len, quoted, debug_quoted};
use crate::otlp::{headers_from, pair_views, parse_headers};
use crate::dashboard::{ascii_lowercase, trimmed, trim_range};

verus! {

/// The text of an optional string.
pub open spec fn opt_text(o: Option<String>) -> Option<Seq<char>> {
    match o {
        Some(s) => Some(s@),
        None => None,
    }
}

/// What `http::Uri` makes of a text: `None` where it refuses it, else the
/// scheme and, where there is one, the authority with its host.
pub uninterp spec fn uri_parts(text: Seq<char>) -> Option<(Option<Seq<char>>, Option<(Seq<char>, Seq<char>)>)>;

/// The parts of a URI that the endpoint checks read.
pub struct UriParts {
    pub scheme: Option<String>,
    pub authority: Option<(String, String)>,
}

/// The view of parsed URI parts.
pub open spec fn parts_view(p: UriParts) -> (Option<Seq<char>>, Option<(Seq<char>, Seq<char>)>) {
    (
        opt_text(p.scheme),
        match p.authority {
            Some((a, h)) => Some((a@, h@)),
            None => None,
        },
    )
}

/// The view of optional parsed URI parts.
pub open spec fn opt_parts_view(o: Option<UriParts>) -> Option<(Option<Seq<char>>, Option<(Seq<char>, Seq<char>)>)> {
    match o {
        Some(p) => Some(parts_view(p)),
        None => None,
    }
}

/// Parses `text` as an `http::Uri` (its `FromStr`) and reads `scheme_str`,
/// then `authority` with the authority's `as_str` and `host`. The contract
/// states only that the outcome is `uri_parts` of the text: the URI grammar
/// itself is not restated here.
#[verifier::external_body]
fn parse_uri_parts(text: &str) -> (r: Option<UriParts>)
    ensures
        opt_parts_view(r) == uri_parts(text@),
{
    match text.parse::<http::Uri>() {
        Ok(uri) => Some(
            UriParts {
                scheme: uri.scheme_str().map(str::to_owned),
                authority: match uri.authority() {
                    Some(authority) => Some((authority.as_str().to_owned(), authority.host().to_owned())),
                    None => None,
                },
            },
        ),
        Err(_) => None,
    }
}

/// The text without any `/` at its end.
pub open spec fn without_trailing_slashes(v: Seq<char>) -> Seq<char>
    decreases v.len(),
{
    if v.len() > 0 && v.last() == '/' {
        without_trailing_slashes(v.drop_last())
    } else {
        v
    }
}

/// The endpoint text: the configured value, trimmed, and with `/v1/traces`
/// put after it where the value is a collector's base address.
pub open spec fn endpoint_text(raw: Seq<char>, append_traces_path: bool) -> Seq<char> {
    if append_traces_path {
        without_trailing_slashes(trimmed(raw)) + "/v1/traces"@
    } else {
        trimmed(raw)
    }
}

fn endpoint_text_of(raw: &str, append_traces_path: bool) -> (r: String)
    ensures
        r@ == endpoint_text(raw@, append_traces_path),
{
    let chars = chars_of(raw);
    proof {
        assert(chars@.subrange(0, chars@.len() as int) =~= raw@);
    }
    let value = trim_range(&chars, 0, chars.len());
    if !append_traces_path {
        return value;
    }
    let v = chars_of(value.as_str());
    let mut end = v.len();
    proof {
        assert(v@.take(end as int) =~= v@);
    }
    while end > 0 && v[end - 1] == '/'
        invariant
            end <= v@.len(),
            without_trailing_slashes(v@.take(end as int)) == without_trailing_slashes(v@),
        decreases end,
    {
        proof {
            assert(v@.take(end as int).drop_last() =~= v@.take(end - 1));
        }
        end = end - 1;
    }
    proof {
        assert(v@.subrange(0, end as int) =~= v@.take(end as int));
    }
    let mut out = string_of(&v, 0, end);
    out.append("/v1/traces");
    out
}

/// The endpoint before its transport is judged: its text, scheme and host.
pub struct EndpointCandidate {
    pub text: String,
    pub scheme: String,
    pub host: String,
}

/// What the endpoint checks make of the parsed parts of `text`: the
/// candidate's text, scheme and host, or why it is refused.
pub open spec fn candidate_from(text: Seq<char>, parts: Option<(Option<Seq<char>>, Option<(Seq<char>, Seq<char>)>)>) -> Result<
    (Seq<char>, Seq<char>, Seq<char>),
    Seq<char>,
> {
    match parts {
        None => Err("OTLP endpoint is not a valid URI"@),
        Some((None, _)) => Err("OTLP endpoint requires a scheme"@),
        Some((Some(_), None)) => Err("OTLP endpoint requires an authority"@),
        Some((Some(scheme), Some((authority, host)))) => if authority.contains('@') {
            Err("OTLP endpoint must not contain user information"@)
        } else {
            Ok((text, scheme, host))
        },
    }
}

/// The view of a candidate.
pub open spec fn candidate_view(c: EndpointCandidate) -> (Seq<char>, Seq<char>, Seq<char>) {
    (c.text@, c.scheme@, c.host@)
}

/// Checks the parsed parts of an endpoint text: it needs a scheme and an
/// authority without user information.
#[verifier::loop_isolation(false)]
pub fn endpoint_from_parts(text: String, parts: Option<UriParts>) -> (r: Result<EndpointCandidate, String>)
    ensures
        match (r, candidate_from(text@, opt_parts_view(parts))) {
            (Ok(c), Ok(v)) => candidate_view(c) == v,
            (Err(e), Err(m)) => e@ == m,
            _ => false,
        },
{
    let ghost view = opt_parts_view(parts);
    let p = match parts {
        None => {
            return Err(String::from_str("OTLP endpoint is not a valid URI"));
        },
        Some(p) => p,
    };
    let scheme = match p.scheme {
        None => {
            return Err(String::from_str("OTLP endpoint requires a scheme"));
        },
        Some(s) => s,
    };
    let (authority, host) = match p.authority {
        None => {
            return Err(String::from_str("OTLP endpoint requires an authority"));
        },
        Some(pair) => pair,
    };
    let a = chars_of(authority.as_str());
    let mut i: usize = 0;
    while i < a.len()
        invariant
            i <= a@.len(),
            a@ == authority@,
            forall|k: int| 0 <= k < i ==> a@[k] != '@',
        decreases a.len() - i,
    {
        if a[i] == '@' {
            proof {
                assert(authority@.contains('@')) by {
                    assert(authority@[i as int] == '@');
                }
                assert(view == Some((Some(scheme@), Some((authority@, host@)))));
            }
            return Err(String::from_str("OTLP endpoint must not contain user information"));
        }
        i = i + 1;
    }
    Ok(EndpointCandidate { text, scheme, host })
}

/// Reads the configured endpoint (trimmed; with `/v1/traces` added where
/// `append_traces_path`), parses it as a URI and checks its parts.
pub fn endpoint_candidate(raw: &str, append_traces_path: bool) -> (r: Result<EndpointCandidate, String>)
    ensures
        match (r, candidate_from(
            endpoint_text(raw@, append_traces_path),
            uri_parts(endpoint_text(raw@, append_traces_path)),
        )) {
            (Ok(c), Ok(v)) => candidate_view(c) == v,
            (Err(e), Err(m)) => e@ == m,
            _ => false,
        },
{
    let text = endpoint_text_of(raw, append_traces_path);
    let parts = parse_uri_parts(text.as_str());
    endpoint_from_parts(text, parts)
}

/// The host is `localhost` in any ASCII case.
pub open spec fn is_localhost(host: Seq<char>) -> bool {
    let l = "localhost"@;
    host.len() == l.len() && forall|i: int| 0 <= i < l.len() ==> #[trigger] ascii_lowercase(host[i]) == l[i]
}

fn localhost(host: &str) -> (r: bool)
    ensures
        r == is_localhost(host@),
{
    let h = chars_of(host);
    let l = chars_of("localhost");
    proof {
        reveal_strlit("localhost");
    }
    if h.len() != l.len() {
        return false;
    }
    let mut i: usize = 0;
    while i < l.len()
        invariant
            h@.len() == l@.len(),
            l@ == "localhost"@,
            h@ == host@,
            i <= l@.len(),
            forall|k: int| 0 <= k < i ==> #[trigger] ascii_lowercase(h@[k]) == l@[k],
        decreases l.len() - i,
    {
        let c = h[i];
        let lower = if 'A' <= c && c <= 'Z' {
            ((c as u8) + 32) as char
        } else {
            c
        };
        assert(lower == ascii_lowercase(c));
        if lower != l[i] {
            return false;
        }
        i = i + 1;
    }
    true
}

/// The transport rule: HTTPS, or plain HTTP to a loopback collector, which
/// is `localhost` or an IP address that is a loopback address.
pub open spec fn transport_allowed(scheme: Seq<char>, host: Seq<char>, host_is_loopback_ip: bool) -> bool {
    scheme == "https"@ || (scheme == "http"@ && (is_localhost(host) || host_is_loopback_ip))
}

/// Accepts an endpoint candidate whose transport is allowed; the caller says
/// whether its host parses as a loopback IP address. Returns the endpoint's
/// text.
pub fn accept_endpoint(candidate: EndpointCandidate, host_is_loopback_ip: bool) -> (r: Result<String, String>)
    ensures
        match r {
            Ok(t) => transport_allowed(candidate.scheme@, candidate.host@, host_is_loopback_ip) && t@
                == candidate.text@,
            Err(e) => !transport_allowed(candidate.scheme@, candidate.host@, host_is_loopback_ip) && e@
                == "OTLP endpoint must use HTTPS; HTTP is allowed only for loopback collectors"@,
        },
{
    let secure = str_eq(candidate.scheme.as_str(), "https");
    let plain = str_eq(candidate.scheme.as_str(), "http");
    if secure || (plain && (localhost(candidate.host.as_str()) || host_is_loopback_ip)) {
        Ok(candidate.text)
    } else {
        Err(String::from_str("OTLP endpoint must use HTTPS; HTTP is allowed only for loopback collectors"))
    }
}

/// The OpenTelemetry variables the exporter reads; `None` where a variable
/// is unset or not Unicode.
pub struct OtlpEnvironment {
    /// `OTEL_EXPORTER_OTLP_TRACES_ENDPOINT`
    pub traces_endpoint: Option<String>,
    /// `OTEL_EXPORTER_OTLP_ENDPOINT`
    pub endpoint: Option<String>,
    /// `OTEL_EXPORTER_OTLP_TRACES_PROTOCOL`
    pub traces_protocol: Option<String>,
    /// `OTEL_EXPORTER_OTLP_PROTOCOL`
    pub protocol: Option<String>,
    /// `OTEL_EXPORTER_OTLP_TRACES_HEADERS`
    pub traces_headers: Option<String>,
    /// `OTEL_EXPORTER_OTLP_HEADERS`
    pub headers: Option<String>,
    /// `OTEL_BSP_MAX_QUEUE_SIZE`
    pub max_queue_size: Option<String>,
    /// `OTEL_BSP_MAX_EXPORT_BATCH_SIZE`
    pub max_export_batch_size: Option<String>,
    /// `OTEL_BSP_SCHEDULE_DELAY`
    pub schedule_delay: Option<String>,
    /// `OTEL_EXPORTER_OTLP_TRACES_TIMEOUT`
    pub traces_timeout: Option<String>,
    /// `OTEL_EXPORTER_OTLP_TIMEOUT`
    pub timeout: Option<String>,
    /// `OTEL_SERVICE_NAME`
    pub service_name: Option<String>,
}

/// How the exporter is set up.
pub struct ExporterSettings {
    pub endpoint: String,
    pub headers: Vec<(String, String)>,
    pub service_name: String,
    pub queue_size: usize,
    pub batch_size: usize,
    pub delay_ms: u64,
    pub timeout_ms: u64,
}

/// The first of two variables that is set.
pub open spec fn first_set(a: Option<String>, b: Option<String>) -> Option<Seq<char>> {
    match a {
        Some(x) => Some(x@),
        None => opt_text(b),
    }
}

/// The endpoint variable in force, and whether `/v1/traces` goes after it
/// (only the general endpoint names a collector's base address).
pub open spec fn endpoint_source(env: OtlpEnvironment) -> Option<(Seq<char>, bool)> {
    match env.traces_endpoint {
        Some(t) => Some((t@, false)),
        None => match env.endpoint {
            Some(g) => Some((g@, true)),
            None => None,
        },
    }
}

/// The endpoint variable in force, and whether `/v1/traces` goes after it.
pub fn exporter_endpoint_source(env: &OtlpEnvironment) -> (r: Option<(String, bool)>)
    ensures
        match (r, endpoint_source(*env)) {
            (Some((t, a)), Some((u, b))) => t@ == u && a == b,
            (None, None) => true,
            _ => false,
        },
{
    match &env.traces_endpoint {
        Some(t) => Some((t.clone(), false)),
        None => match &env.endpoint {
            Some(g) => Some((g.clone(), true)),
            None => None,
        },
    }
}

/// The transport protocol asked for; `http/protobuf` where none is.
pub open spec fn protocol_of(env: OtlpEnvironment) -> Seq<char> {
    match first_set(env.traces_protocol, env.protocol) {
        Some(p) => p,
        None => "http/protobuf"@,
    }
}

/// The headers variable in force; empty where none is.
pub open spec fn headers_text(env: OtlpEnvironment) -> Seq<char> {
    match first_set(env.traces_headers, env.headers) {
        Some(h) => h,
        None => Seq::empty(),
    }
}

/// The headers come from `OTEL_EXPORTER_OTLP_TRACES_HEADERS` whenever it
/// is set, whatever `OTEL_EXPORTER_OTLP_HEADERS` holds; from the latter only
/// when the former is unset; and there are none when both are unset.
pub proof fn lemma_trace_headers_take_precedence(env: OtlpEnvironment, other: Option<String>, endpoint: Result<String, String>)
    ensures
        env.traces_headers matches Some(t) ==> headers_text(env) == t@,
        env.traces_headers is Some ==> headers_text(OtlpEnvironment { headers: other, ..env }) == headers_text(env),
        env.traces_headers is Some ==> settings_refusal(OtlpEnvironment { headers: other, ..env }, endpoint)
            == settings_refusal(env, endpoint),
        env.traces_headers is None ==> (env.headers matches Some(h) ==> headers_text(env) == h@),
        env.traces_headers is None && env.headers is None ==> headers_text(env) == Seq::<char>::empty(),
{
}

/// A numeric setting: its default where unset, else an unsigned integer no
/// larger than `limit` (as `str::parse` reads it) between the bounds.
pub open spec fn number_setting(
    name: Seq<char>,
    raw: Option<Seq<char>>,
    default: int,
    minimum: int,
    maximum: int,
    limit: int,
) -> Result<int, Seq<char>> {
    match raw {
        None => Ok(default),
        Some(t) => match parse_unsigned(t, limit) {
            None => Err(name + " must be an integer"@),
            Some(v) => if minimum <= v <= maximum {
                Ok(v)
            } else {
                Err(name + " must be between "@ + decimal_text(minimum as nat) + " and "@ + decimal_text(
                    maximum as nat,
                ))
            },
        },
    }
}

fn number_from(name: &str, raw: &Option<String>, default: u64, minimum: u64, maximum: u64, limit: u64) -> (r: Result<
    u64,
    String,
>)
    ensures
        match (r, number_setting(name@, opt_text(*raw), default as int, minimum as int, maximum as int, limit as int)) {
            (Ok(v), Ok(w)) => v == w,
            (Err(e), Err(m)) => e@ == m,
            _ => false,
        },
{
    let text = match raw {
        None => {
            return Ok(default);
        },
        Some(t) => t,
    };
    let chars = chars_of(text.as_str());
    proof {
        assert(chars@.subrange(0, chars@.len() as int) =~= chars@);
    }
    let parsed = parse_u64_chars(&chars, 0, chars.len());
    let value = match parsed {
        Some(v) if v <= limit => v,
        _ => {
            let mut e = String::from_str(name);
            e.append(" must be an integer");
            return Err(e);
        },
    };
    if minimum <= value && value <= maximum {
        Ok(value)
    } else {
        let mut e = String::from_str(name);
        e.append(" must be between ");
        push_decimal_text(&mut e, minimum);
        e.append(" and ");
        push_decimal_text(&mut e, maximum);
        Err(e)
    }
}

/// The queue size setting.
pub open spec fn queue_size_of(env: OtlpEnvironment) -> Result<int, Seq<char>> {
    number_setting("OTEL_BSP_MAX_QUEUE_SIZE"@, opt_text(env.max_queue_size), 2048, 1, 65536, usize::MAX as int)
}

/// The batch size setting, for a queue of `queue` spans.
pub open spec fn batch_size_of(env: OtlpEnvironment, queue: int) -> Result<int, Seq<char>> {
    number_setting(
        "OTEL_BSP_MAX_EXPORT_BATCH_SIZE"@,
        opt_text(env.max_export_batch_size),
        if queue < 512 {
            queue
        } else {
            512
        },
        1,
        queue,
        usize::MAX as int,
    )
}

/// The export delay setting, in milliseconds.
pub open spec fn delay_of(env: OtlpEnvironment) -> Result<int, Seq<char>> {
    number_setting("OTEL_BSP_SCHEDULE_DELAY"@, opt_text(env.schedule_delay), 5000, 1, 60000, u64::MAX as int)
}

/// The export timeout setting, in milliseconds.
pub open spec fn timeout_of(env: OtlpEnvironment) -> Result<int, Seq<char>> {
    number_setting(
        "OTEL_EXPORTER_OTLP_TRACES_TIMEOUT"@,
        first_set(env.traces_timeout, env.timeout),
        10000,
        1,
        120000,
        u64::MAX as int,
    )
}

/// The service name; `pam` where none is set.
pub open spec fn service_name_of(env: OtlpEnvironment) -> Seq<char> {
    match env.service_name {
        Some(s) => s@,
        None => "pam"@,
    }
}

/// A control character (`char::is_control`: Unicode category Cc).
pub open spec fn is_control(c: char) -> bool {
    c <= '\u{1f}' || ('\u{7f}' <= c <= '\u{9f}')
}

/// A service name has 1 to 128 bytes and no control character.
pub open spec fn service_name_valid(n: Seq<char>) -> bool {
    n.len() > 0 && encode_utf8(n).len() <= 128 && forall|i: int| 0 <= i < n.len() ==> !is_control(#[trigger] n[i])
}

/// Why the exporter cannot be set up from `env` with the given endpoint
/// outcome, checked in order; `None` where it can, or where no endpoint is set.
pub open spec fn settings_refusal(env: OtlpEnvironment, endpoint: Result<String, String>) -> Option<Seq<char>> {
    if endpoint_source(env) is None {
        None
    } else if protocol_of(env) != "http/json"@ {
        Some(
            "OTLP endpoint requires OTEL_EXPORTER_OTLP_TRACES_PROTOCOL=http/json (got "@ + debug_quoted(
                protocol_of(env),
            ) + ")"@,
        )
    } else if endpoint is Err {
        Some(endpoint->Err_0@)
    } else if headers_from(split_on(headers_text(env), ','), 0, Seq::empty()) is Err {
        Some(headers_from(split_on(headers_text(env), ','), 0, Seq::empty())->Err_0)
    } else if queue_size_of(env) is Err {
        Some(queue_size_of(env)->Err_0)
    } else if batch_size_of(env, queue_size_of(env)->Ok_0) is Err {
        Some(batch_size_of(env, queue_size_of(env)->Ok_0)->Err_0)
    } else if delay_of(env) is Err {
        Some(delay_of(env)->Err_0)
    } else if timeout_of(env) is Err {
        Some(timeout_of(env)->Err_0)
    } else if !service_name_valid(service_name_of(env)) {
        Some("OTEL_SERVICE_NAME must contain 1..128 printable characters"@)
    } else {
        None
    }
}

fn name_has_control(name: &str) -> (r: bool)
    ensures
        r == exists|i: int| 0 <= i < name@.len() && is_control(#[trigger] name@[i]),
{
    let chars = chars_of(name);
    let mut i: usize = 0;
    while i < chars.len()
        invariant
            chars@ == name@,
            i <= chars@.len(),
            forall|k: int| 0 <= k < i ==> !is_control(#[trigger] chars@[k]),
        decreases chars.len() - i,
    {
        let c = chars[i];
        if c <= '\u{1f}' || ('\u{7f}' <= c && c <= '\u{9f}') {
            assert(is_control(chars@[i as int]));
            return true;
        }
        i = i + 1;
    }
    false
}

/// Sets the exporter up from the OpenTelemetry environment, given what the
/// endpoint checks made of the endpoint variable in force: nothing where no
/// endpoint is set; else the endpoint, headers, queue and batch sizes,
/// delay, timeout and service name, or the first reason they cannot be used.
#[verifier::rlimit(60)]
pub fn exporter_settings(env: &OtlpEnvironment, endpoint: Result<String, String>) -> (r: Result<
    Option<ExporterSettings>,
    String,
>)
    ensures
        match r {
            Ok(None) => endpoint_source(*env) is None,
            Ok(Some(s)) => {
                &&& endpoint_source(*env) is Some
                &&& settings_refusal(*env, endpoint) is None
                &&& endpoint matches Ok(e) && s.endpoint@ == e@
                &&& pair_views(s.headers@) == headers_from(split_on(headers_text(*env), ','), 0, Seq::empty())->Ok_0
                &&& s.queue_size == queue_size_of(*env)->Ok_0
                &&& s.batch_size == batch_size_of(*env, queue_size_of(*env)->Ok_0)->Ok_0
                &&& s.delay_ms == delay_of(*env)->Ok_0
                &&& s.timeout_ms == timeout_of(*env)->Ok_0
                &&& s.service_name@ == service_name_of(*env)
            },
            Err(e) => settings_refusal(*env, endpoint) == Some(e@),
        },
{
    if exporter_endpoint_source(env).is_none() {
        return Ok(None);
    }
    let protocol = match &env.traces_protocol {
        Some(p) => p.clone(),
        None => match &env.protocol {
            Some(p) => p.clone(),
            None => String::from_str("http/protobuf"),
        },
    };
    if !str_eq(protocol.as_str(), "http/json") {
        let mut e = String::from_str("OTLP endpoint requires OTEL_EXPORTER_OTLP_TRACES_PROTOCOL=http/json (got ");
        let q = quoted(protocol.as_str());
        e.append(q.as_str());
        e.append(")");
        return Err(e);
    }
    let endpoint_text = match endpoint {
        Ok(t) => t,
        Err(e) => {
            return Err(e);
        },
    };
    let raw_headers = match &env.traces_headers {
        Some(h) => h.clone(),
        None => match &env.headers {
            Some(h) => h.clone(),
            None => String::new(),
        },
    };
    let headers = match parse_headers(raw_headers.as_str()) {
        Ok(h) => h,
        Err(e) => {
            return Err(e);
        },
    };
    let queue = match number_from("OTEL_BSP_MAX_QUEUE_SIZE", &env.max_queue_size, 2048, 1, 65536, usize::MAX as u64) {
        Ok(v) => v,
        Err(e) => {
            return Err(e);
        },
    };
    let default_batch = if queue < 512 {
        queue
    } else {
        512
    };
    let batch = match number_from(
        "OTEL_BSP_MAX_EXPORT_BATCH_SIZE",
        &env.max_export_batch_size,
        default_batch,
        1,
        queue,
        usize::MAX as u64,
    ) {
        Ok(v) => v,
        Err(e) => {
            return Err(e);
        },
    };
    let delay = match number_from("OTEL_BSP_SCHEDULE_DELAY", &env.schedule_delay, 5000, 1, 60000, u64::MAX) {
        Ok(v) => v,
        Err(e) => {
            return Err(e);
        },
    };
    let timeout_raw = match &env.traces_timeout {
        Some(t) => Some(t.clone()),
        None => match &env.timeout {
            Some(t) => Some(t.clone()),
            None => None,
        },
    };
    let timeout = match number_from("OTEL_EXPORTER_OTLP_TRACES_TIMEOUT", &timeout_raw, 10000, 1, 120000, u64::MAX) {
        Ok(v) => v,
        Err(e) => {
            return Err(e);
        },
    };
    let service_name = match &env.service_name {
        Some(n) => n.clone(),
        None => String::from_str("pam"),
    };
    let len = byte_len(service_name.as_str());
    if len == 0 || len > 128 || name_has_control(service_name.as_str()) {
        proof {
            if len == 0 && service_name@.len() > 0 {
                assert(encode_utf8(service_name@).len() > 0);
            }
        }
        return Err(String::from_str("OTEL_SERVICE_NAME must contain 1..128 printable characters"));
    }
    proof {
        if service_name@.len() == 0 {
            assert(encode_utf8(service_name@).len() == 0) by {
                assert(service_name@ =~= Seq::<char>::empty());
            }
        }
    }
    Ok(
        Some(
            ExporterSettings {
                endpoint: endpoint_text,
                headers,
                service_name,
                queue_size: queue as usize,
                batch_size: batch as usize,
                delay_ms: delay,
                timeout_ms: timeout,
            },
        ),
    )
}

} // verus!
