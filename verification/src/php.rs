//! Data exchanged with the embedded PHP runtime: server configuration with
//! its defaults, runtime information and metrics, exit statuses and the
//! NUL-terminated argument buffers handed to the C shim.

use vstd::prelude::*;

verus! {

pub const NATIVE_ABI_VERSION: u32 = 1;
pub const EX_SOFTWARE: u8 = 70;

/// The HTTP server configuration a PHP application declares.
#[derive(Clone, Debug)]
pub struct ServerConfig {
    pub host: String,
    pub port: u16,
    pub max_body_bytes: usize,
    pub max_header_bytes: usize,
    pub max_headers: usize,
    pub request_timeout_ms: u64,
    pub max_concurrent_requests: usize,
    pub response_stream_queue_capacity: usize,
    pub max_response_bytes: usize,
    pub max_response_chunk_bytes: usize,
    pub header_read_timeout_ms: u64,
    pub body_read_timeout_ms: u64,
    pub rate_limit_per_second: u32,
    pub cors_origins: Vec<String>,
    pub trusted_proxies: Vec<String>,
    pub metrics_path: String,
    pub tls_cert: Option<String>,
    pub tls_key: Option<String>,
    pub http3: bool,
    pub websocket_max_connections: usize,
    pub websocket_max_message_bytes: usize,
    pub websocket_queue_capacity: usize,
    pub websocket_heartbeat_ms: u64,
    pub websocket_timeout_ms: u64,
    pub websocket_compression: bool,
    pub telemetry_headers: bool,
    pub access_log: bool,
    pub access_log_sample_rate: u64,
    pub websocket_resume_secret: Option<String>,
    pub websocket_resume_ttl_seconds: u64,
}

/// Default request body limit: 2 MiB.
pub fn default_max_body_bytes() -> (n: usize)
    ensures
        n == 2 * 1024 * 1024,
{
    2 * 1024 * 1024
}

/// Default header block limit: 32 KiB.
pub fn default_max_header_bytes() -> (n: usize)
    ensures
        n == 32 * 1024,
{
    32 * 1024
}

/// Default number of headers: 100.
pub fn default_max_headers() -> (n: usize)
    ensures
        n == 100,
{
    100
}

/// Default request timeout: 30 s.
pub fn default_request_timeout_ms() -> (n: u64)
    ensures
        n == 30_000,
{
    30_000
}

/// Default number of concurrent requests: 4096.
pub fn default_max_concurrent_requests() -> (n: usize)
    ensures
        n == 4096,
{
    4096
}

/// Default streamed response queue: 16 chunks.
pub fn default_response_stream_queue_capacity() -> (n: usize)
    ensures
        n == 16,
{
    16
}

/// Default response limit: 256 MiB.
pub fn default_max_response_bytes() -> (n: usize)
    ensures
        n == 256 * 1024 * 1024,
{
    256 * 1024 * 1024
}

/// Default response chunk limit: 1 MiB.
pub fn default_max_response_chunk_bytes() -> (n: usize)
    ensures
        n == 1024 * 1024,
{
    1024 * 1024
}

/// Default header read timeout: 10 s.
pub fn default_header_read_timeout_ms() -> (n: u64)
    ensures
        n == 10_000,
{
    10_000
}

/// Default body read timeout: 30 s.
pub fn default_body_read_timeout_ms() -> (n: u64)
    ensures
        n == 30_000,
{
    30_000
}

/// Default metrics endpoint: `/metrics`.
pub fn default_metrics_path() -> (path: String)
    ensures
        path@ == "/metrics"@,
{
    String::from_str("/metrics")
}

/// Default number of WebSocket connections: 10000.
pub fn default_websocket_max_connections() -> (n: usize)
    ensures
        n == 10_000,
{
    10_000
}

/// HTTP/3 is on by default.
pub fn default_http3() -> (on: bool)
    ensures
        on,
{
    true
}

/// Default WebSocket message limit: 1 MiB.
pub fn default_websocket_max_message_bytes() -> (n: usize)
    ensures
        n == 1024 * 1024,
{
    1024 * 1024
}

/// Default WebSocket send queue: 256 messages.
pub fn default_websocket_queue_capacity() -> (n: usize)
    ensures
        n == 256,
{
    256
}

/// Default WebSocket heartbeat: 15 s.
pub fn default_websocket_heartbeat_ms() -> (n: u64)
    ensures
        n == 15_000,
{
    15_000
}

/// Default WebSocket idle timeout: 45 s.
pub fn default_websocket_timeout_ms() -> (n: u64)
    ensures
        n == 45_000,
{
    45_000
}

/// WebSocket compression is on by default.
pub fn default_websocket_compression() -> (on: bool)
    ensures
        on,
{
    true
}

/// Every request is logged by default when access logging is on.
pub fn default_access_log_sample_rate() -> (n: u64)
    ensures
        n == 1,
{
    1
}

/// Default WebSocket resume window: one day.
pub fn default_websocket_resume_ttl_seconds() -> (n: u64)
    ensures
        n == 86_400,
{
    86_400
}

/// What the PHP runtime reports about itself.
#[derive(Clone, Debug)]
pub struct RuntimeInfo {
    pub php_version: String,
    pub php_version_id: u32,
    pub sapi: String,
    pub zend_version: String,
    pub native_abi_version: u32,
    pub zts: bool,
    pub debug: bool,
    pub integer_size: u8,
    pub ini_loaded: Option<String>,
    pub ini_scanned: Vec<String>,
    pub extensions: Vec<String>,
    pub composer_autoloaded: bool,
    pub xdebug_loaded: bool,
    pub opcache_loaded: bool,
}

/// Live counters of the PHP runtime.
#[derive(Clone, Copy, Debug)]
pub struct RuntimeMetrics {
    pub fibers: u64,
    pub memory_bytes: u64,
    pub peak_memory_bytes: u64,
}

/// A Composer project found for a script: its root and autoloader.
#[derive(Clone, Debug)]
pub struct ComposerProject {
    pub root: String,
    pub autoload: String,
}

/// An initialized PHP runtime: the argument buffers PHP keeps pointers into,
/// and the Composer project of the script, if any.
pub struct PhpRuntime {
    native_args: Vec<Vec<u8>>,
    composer: Option<ComposerProject>,
}

impl PhpRuntime {
    /// A runtime holding its argument buffers and Composer project.
    pub fn new(native_args: Vec<Vec<u8>>, composer: Option<ComposerProject>) -> (runtime: Self)
        ensures
            runtime.arguments() == native_args@,
            runtime.composer_project() == composer,
    {
        PhpRuntime { native_args, composer }
    }

    pub closed spec fn arguments(&self) -> Seq<Vec<u8>> {
        self.native_args@
    }

    pub closed spec fn composer_project(&self) -> Option<ComposerProject> {
        self.composer
    }

    /// The Composer project of the script, if any.
    pub fn composer(&self) -> (project: Option<&ComposerProject>)
        ensures
            match project {
                Some(p) => self.composer_project() == Some(*p),
                None => self.composer_project() is None,
            },
    {
        match &self.composer {
            Some(project) => Some(project),
            None => None,
        }
    }
}

/// A C status as a process exit status: 0 to 255 as is, anything else
/// `EX_SOFTWARE` (70).
pub fn normalize_exit_status(status: i32) -> (code: u8)
    ensures
        code == if 0 <= status <= 255 { status as u8 } else { EX_SOFTWARE },
{
    if 0 <= status && status <= 255 {
        status as u8
    } else {
        EX_SOFTWARE
    }
}

/// A NUL-terminated copy of an argument, refused when it holds a NUL byte.
pub fn to_c_buffer(value: &[u8]) -> (r: Result<Vec<u8>, String>)
    ensures
        match r {
            Ok(buffer) => !value@.contains(0u8) && buffer@ == value@.push(0u8),
            Err(e) => value@.contains(0u8) && e@ == "arguments cannot contain a NUL byte"@,
        },
{
    let mut buffer: Vec<u8> = Vec::new();
    let mut i: usize = 0;
    while i < value.len()
        invariant
            i <= value@.len(),
            buffer@ == value@.take(i as int),
            !value@.take(i as int).contains(0u8),
        decreases value.len() - i,
    {
        if value[i] == 0 {
            assert(value@[i as int] == 0u8);
            return Err(String::from_str("arguments cannot contain a NUL byte"));
        }
        buffer.push(value[i]);
        assert(value@.take(i + 1) =~= value@.take(i as int).push(value@[i as int]));
        i = i + 1;
    }
    assert(value@.take(value@.len() as int) =~= value@);
    buffer.push(0);
    Ok(buffer)
}

/// The outcome of running a script with its output captured: the script's
/// failure first, then a failure to discard the captured output.
pub fn captured_run_result(result: Result<u8, String>, cleanup: Result<(), String>) -> (r: Result<u8, String>)
    ensures
        r == match (result, cleanup) {
            (Ok(status), Ok(())) => Ok(status),
            (Err(error), _) => Err(error),
            (_, Err(error)) => Err(error),
        },
{
    match (result, cleanup) {
        (Ok(status), Ok(())) => Ok(status),
        (Err(error), _) => Err(error),
        (_, Err(error)) => Err(error),
    }
}

} // verus!
