//! The arguments of `traffic:start NAME --listen ADDR --stable ADDR
//! [--candidate ADDR] [--weight-bps B] [--deadline-seconds S] [--tls-cert
//! PATH] [--tls-key PATH] [--json]`.
//!
//! Socket addresses stay text here; whether a text is an `IP:port` address
//! is told by the caller, one flag per argument.

use vstd::prelude::*;
use crate::cli::{Argument, value_text, required_utf8};
use crate::process_manager::{valid_application_name, validate_name};
use crate::text::{concat_str, str_eq};
use crate::traffic::{basis_points, rollout_deadline, parse_basis_points, parse_rollout_deadline};

verus! {

/// The deadline of a rollout unless `--deadline-seconds` says otherwise.
pub const DEFAULT_ROLLOUT_DEADLINE_SECONDS: u64 = 300;

/// What `traffic:start` was asked for. The listen, stable and candidate
/// addresses are `IP:port` texts.
#[derive(Clone, Debug)]
pub struct TrafficStartRequest {
    pub name: String,
    pub listen: Option<String>,
    pub stable: Option<String>,
    pub candidate: Option<String>,
    pub weight_basis_points: u16,
    pub deadline_seconds: u64,
    pub tls_certificate: Option<String>,
    pub tls_private_key: Option<String>,
    pub json: bool,
}

pub open spec fn text_option(o: Option<String>) -> Option<Seq<char>> {
    match o {
        Some(s) => Some(s@),
        None => None,
    }
}

/// What has been read so far: the name, the listen, stable and candidate
/// addresses, the candidate weight, the deadline, the certificate and key
/// paths, and `--json`.
pub type StartScan = (
    Option<Seq<char>>,
    Option<Seq<char>>,
    Option<Seq<char>>,
    Option<Seq<char>>,
    u16,
    u64,
    Option<Seq<char>>,
    Option<Seq<char>>,
    bool,
);

pub open spec fn start_defaults() -> StartScan {
    (None, None, None, None, 0u16, DEFAULT_ROLLOUT_DEADLINE_SECONDS, None, None, false)
}

/// The address an option names: present, UTF-8, and (`ok`) an `IP:port`.
pub open spec fn socket_value(value: Option<&Argument>, ok: bool, option: Seq<char>) -> Result<Seq<char>, Seq<char>> {
    match value_text(value, option) {
        Err(e) => Err(e),
        Ok(t) => if ok {
            Ok(t)
        } else {
            Err(option + " requires IP:port"@)
        },
    }
}

/// What `traffic:start` reads from `args[i..]` on top of `st`.
pub open spec fn start_scan(args: Seq<Argument>, socket_ok: Seq<bool>, i: int, st: StartScan) -> Result<StartScan, Seq<char>>
    decreases args.len() - i,
{
    if i < 0 || i >= args.len() {
        Ok(st)
    } else {
        let w = args[i].text@;
        let v = if i + 1 < args.len() {
            Some(&args[i + 1])
        } else {
            None
        };
        let ok = i + 1 < args.len() && socket_ok[i + 1];
        if w == "--listen"@ {
            match socket_value(v, ok, w) {
                Err(e) => Err(e),
                Ok(t) => start_scan(args, socket_ok, i + 2, (st.0, Some(t), st.2, st.3, st.4, st.5, st.6, st.7, st.8)),
            }
        } else if w == "--stable"@ {
            match socket_value(v, ok, w) {
                Err(e) => Err(e),
                Ok(t) => start_scan(args, socket_ok, i + 2, (st.0, st.1, Some(t), st.3, st.4, st.5, st.6, st.7, st.8)),
            }
        } else if w == "--candidate"@ {
            match socket_value(v, ok, w) {
                Err(e) => Err(e),
                Ok(t) => start_scan(args, socket_ok, i + 2, (st.0, st.1, st.2, Some(t), st.4, st.5, st.6, st.7, st.8)),
            }
        } else if w == "--weight-bps"@ {
            match basis_points(v) {
                Err(e) => Err(e),
                Ok(b) => start_scan(args, socket_ok, i + 2, (st.0, st.1, st.2, st.3, b, st.5, st.6, st.7, st.8)),
            }
        } else if w == "--deadline-seconds"@ {
            match rollout_deadline(v) {
                Err(e) => Err(e),
                Ok(d) => start_scan(args, socket_ok, i + 2, (st.0, st.1, st.2, st.3, st.4, d, st.6, st.7, st.8)),
            }
        } else if w == "--tls-cert"@ {
            match value_text(v, w) {
                Err(e) => Err(e),
                Ok(t) => start_scan(args, socket_ok, i + 2, (st.0, st.1, st.2, st.3, st.4, st.5, Some(t), st.7, st.8)),
            }
        } else if w == "--tls-key"@ {
            match value_text(v, w) {
                Err(e) => Err(e),
                Ok(t) => start_scan(args, socket_ok, i + 2, (st.0, st.1, st.2, st.3, st.4, st.5, st.6, Some(t), st.8)),
            }
        } else if w == "--json"@ {
            start_scan(args, socket_ok, i + 1, (st.0, st.1, st.2, st.3, st.4, st.5, st.6, st.7, true))
        } else if w.len() > 0 && w[0] == '-' {
            Err("unknown traffic:start option: "@ + w)
        } else if st.0 is None {
            start_scan(args, socket_ok, i + 1, (Some(w), st.1, st.2, st.3, st.4, st.5, st.6, st.7, st.8))
        } else {
            Err("traffic:start accepts one name"@)
        }
    }
}

/// What `traffic:start` makes of its arguments: a scan that goes through,
/// then a name that is present and valid.
pub open spec fn traffic_start_request(args: Seq<Argument>, socket_ok: Seq<bool>) -> Result<StartScan, Seq<char>> {
    match start_scan(args, socket_ok, 0, start_defaults()) {
        Err(e) => Err(e),
        Ok(st) => match st.0 {
            None => Err("traffic:start requires a name"@),
            Some(name) => if !valid_application_name(name) {
                Err("application name must contain 1-64 ASCII letters, digits, '.', '-' or '_'"@)
            } else {
                Ok(st)
            },
        },
    }
}

pub open spec fn request_view(r: TrafficStartRequest) -> StartScan {
    (
        Some(r.name@),
        text_option(r.listen),
        text_option(r.stable),
        text_option(r.candidate),
        r.weight_basis_points,
        r.deadline_seconds,
        text_option(r.tls_certificate),
        text_option(r.tls_private_key),
        r.json,
    )
}

fn copy_text(s: &String) -> (r: String)
    ensures
        r@ == s@,
{
    String::from_str(s.as_str())
}

fn socket_argument(value: Option<&Argument>, ok: bool, option: &str) -> (r: Result<String, String>)
    ensures
        match (r, socket_value(value, ok, option@)) {
            (Ok(t), Ok(s)) => t@ == s,
            (Err(e), Err(m)) => e@ == m,
            _ => false,
        },
{
    let text = match required_utf8(value, option) {
        Ok(t) => t,
        Err(e) => return Err(e),
    };
    if ok {
        Ok(text)
    } else {
        Err(concat_str(option, " requires IP:port"))
    }
}

/// Reads the arguments of `traffic:start`; `socket_ok[i]` tells whether
/// `args[i]` is an `IP:port` address.
pub fn parse_traffic_start_arguments(args: &Vec<Argument>, socket_ok: &Vec<bool>) -> (r: Result<TrafficStartRequest, String>)
    requires
        socket_ok@.len() == args@.len(),
    ensures
        match (r, traffic_start_request(args@, socket_ok@)) {
            (Ok(request), Ok(scan)) => request_view(request) == scan,
            (Err(e), Err(m)) => e@ == m,
            _ => false,
        },
{
    let mut name: Option<String> = None;
    let mut listen: Option<String> = None;
    let mut stable: Option<String> = None;
    let mut candidate: Option<String> = None;
    let mut weight: u16 = 0;
    let mut deadline: u64 = DEFAULT_ROLLOUT_DEADLINE_SECONDS;
    let mut certificate: Option<String> = None;
    let mut key: Option<String> = None;
    let mut json = false;
    let n = args.len();
    let mut i: usize = 0;
    while i < n
        invariant
            n == args@.len(),
            socket_ok@.len() == n,
            i <= n + 1,
            start_scan(args@, socket_ok@, 0, start_defaults()) == start_scan(
                args@,
                socket_ok@,
                i as int,
                (text_option(name), text_option(listen), text_option(stable), text_option(candidate), weight, deadline,
                    text_option(certificate), text_option(key), json),
            ),
        decreases n + 1 - i,
    {
        let w = args[i].text.as_str();
        let v = if i + 1 < n {
            Some(&args[i + 1])
        } else {
            None
        };
        let ok = i + 1 < n && socket_ok[i + 1];
        if str_eq(w, "--listen") {
            match socket_argument(v, ok, w) {
                Err(e) => return Err(e),
                Ok(t) => {
                    listen = Some(t);
                    i = i + 2;
                },
            }
        } else if str_eq(w, "--stable") {
            match socket_argument(v, ok, w) {
                Err(e) => return Err(e),
                Ok(t) => {
                    stable = Some(t);
                    i = i + 2;
                },
            }
        } else if str_eq(w, "--candidate") {
            match socket_argument(v, ok, w) {
                Err(e) => return Err(e),
                Ok(t) => {
                    candidate = Some(t);
                    i = i + 2;
                },
            }
        } else if str_eq(w, "--weight-bps") {
            match parse_basis_points(v) {
                Err(e) => return Err(e),
                Ok(b) => {
                    weight = b;
                    i = i + 2;
                },
            }
        } else if str_eq(w, "--deadline-seconds") {
            match parse_rollout_deadline(v) {
                Err(e) => return Err(e),
                Ok(d) => {
                    deadline = d;
                    i = i + 2;
                },
            }
        } else if str_eq(w, "--tls-cert") {
            match required_utf8(v, w) {
                Err(e) => return Err(e),
                Ok(t) => {
                    certificate = Some(t);
                    i = i + 2;
                },
            }
        } else if str_eq(w, "--tls-key") {
            match required_utf8(v, w) {
                Err(e) => return Err(e),
                Ok(t) => {
                    key = Some(t);
                    i = i + 2;
                },
            }
        } else if str_eq(w, "--json") {
            json = true;
            i = i + 1;
        } else if w.unicode_len() > 0 && w.get_char(0) == '-' {
            return Err(concat_str("unknown traffic:start option: ", w));
        } else if name.is_none() {
            name = Some(copy_text(&args[i].text));
            i = i + 1;
        } else {
            return Err(String::from_str("traffic:start accepts one name"));
        }
    }
    let name = match name {
        None => return Err(String::from_str("traffic:start requires a name")),
        Some(s) => s,
    };
    if let Err(e) = validate_name(name.as_str()) {
        return Err(e);
    }
    Ok(TrafficStartRequest {
        name,
        listen,
        stable,
        candidate,
        weight_basis_points: weight,
        deadline_seconds: deadline,
        tls_certificate: certificate,
        tls_private_key: key,
        json,
    })
}

/// The listen and stable addresses an ingress needs, or which is missing.
pub fn start_endpoints(request: &TrafficStartRequest) -> (r: Result<(String, String), String>)
    ensures
        match (request.listen, request.stable) {
            (Some(l), Some(s)) => r matches Ok((a, b)) && a@ == l@ && b@ == s@,
            (None, _) => r matches Err(e) && e@ == "traffic:start requires --listen"@,
            (Some(_), None) => r matches Err(e) && e@ == "traffic:start requires --stable"@,
        },
{
    let listen = match &request.listen {
        None => return Err(String::from_str("traffic:start requires --listen")),
        Some(l) => copy_text(l),
    };
    let stable = match &request.stable {
        None => return Err(String::from_str("traffic:start requires --stable")),
        Some(s) => copy_text(s),
    };
    Ok((listen, stable))
}

} // verus!
