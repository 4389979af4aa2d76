//! How the manager daemon answers a request on its socket: what a request
//! asks for, and the response it gets.

use vstd::prelude::*;
use crate::process_manager::{daemon_managed_command, is_managed_command};
use crate::text::byte_len;
use vstd::utf8::encode_utf8;

verus! {

/// The largest output a command run through the daemon may return: 2 MiB.
pub const MAX_DAEMON_RESPONSE_BYTES: usize = 2_097_152;

/// A request read from the daemon socket.
pub struct DaemonRequest {
    pub schema_version: u8,
    pub operation_code: u8,
    pub command: Option<String>,
    pub arguments: Vec<String>,
    pub working_directory: Option<String>,
}

/// What the daemon does with a request: answer at once (and stop, for a
/// stop request), or run a manager command in a client's directory.
pub enum DaemonStep {
    Reply { stop: bool },
    Execute { command: String, arguments: Vec<String>, working_directory: String },
}

/// The daemon's answer.
pub struct DaemonResponse {
    pub schema_version: u8,
    pub ok: bool,
    pub pid: u32,
    pub message: String,
    pub exit_code: u8,
    pub stdout: String,
    pub stderr: String,
}

/// What a request asks of the daemon, or why it is refused: schema 1; ping
/// (1) and stop (2) are answered at once; execute (3) needs a command that
/// runs inside the daemon, at most 256 arguments, and a working directory.
pub open spec fn request_step(r: DaemonRequest) -> Result<(u8, Seq<char>, Seq<Seq<char>>, Seq<char>), Seq<char>> {
    if r.schema_version != 1 {
        Err("unsupported daemon schema"@)
    } else if r.operation_code == 1 || r.operation_code == 2 {
        Ok((r.operation_code, Seq::empty(), Seq::empty(), Seq::empty()))
    } else if r.operation_code != 3 {
        Err("unsupported daemon operation"@)
    } else if r.command is None {
        Err("execute requires command"@)
    } else if !is_managed_command(r.command->0@) || r.arguments@.len() > 256 {
        Err("command is not allowed through pamd"@)
    } else if r.working_directory is None {
        Err("execute requires cwd"@)
    } else {
        Ok((3, r.command->0@, r.arguments@.map_values(|s: String| s@), r.working_directory->0@))
    }
}

/// The view of a step: the operation, and for an execution the command,
/// arguments and working directory.
pub open spec fn step_view(s: DaemonStep) -> (u8, Seq<char>, Seq<Seq<char>>, Seq<char>) {
    match s {
        DaemonStep::Reply { stop } => (
            if stop {
                2u8
            } else {
                1u8
            },
            Seq::empty(),
            Seq::empty(),
            Seq::empty(),
        ),
        DaemonStep::Execute { command, arguments, working_directory } => (
            3u8,
            command@,
            arguments@.map_values(|s: String| s@),
            working_directory@,
        ),
    }
}

/// Decides what to do with a request read from the socket (after the peer's
/// user was checked).
pub fn plan_daemon_request(request: DaemonRequest) -> (r: Result<DaemonStep, String>)
    ensures
        match (r, request_step(request)) {
            (Ok(s), Ok(v)) => step_view(s) == v,
            (Err(e), Err(m)) => e@ == m,
            _ => false,
        },
{
    if request.schema_version != 1 {
        return Err(String::from_str("unsupported daemon schema"));
    }
    let operation = request.operation_code;
    if operation == 1 || operation == 2 {
        return Ok(DaemonStep::Reply { stop: operation == 2 });
    }
    if operation != 3 {
        return Err(String::from_str("unsupported daemon operation"));
    }
    let command = match request.command {
        None => {
            return Err(String::from_str("execute requires command"));
        },
        Some(c) => c,
    };
    if !daemon_managed_command(command.as_str()) || request.arguments.len() > 256 {
        return Err(String::from_str("command is not allowed through pamd"));
    }
    let working_directory = match request.working_directory {
        None => {
            return Err(String::from_str("execute requires cwd"));
        },
        Some(w) => w,
    };
    Ok(DaemonStep::Execute { command, arguments: request.arguments, working_directory })
}

/// The answer to a ping, a stop, or a request that needs nothing else.
pub fn success_response(pid: u32) -> (r: DaemonResponse)
    ensures
        r.schema_version == 1 && r.ok && r.pid == pid && r.message@ == "ok"@ && r.exit_code == 0,
        r.stdout@.len() == 0 && r.stderr@.len() == 0,
{
    DaemonResponse {
        schema_version: 1,
        ok: true,
        pid,
        message: String::from_str("ok"),
        exit_code: 0,
        stdout: String::new(),
        stderr: String::new(),
    }
}

/// The answer to a refused or failed request.
pub fn error_response(pid: u32, message: String) -> (r: DaemonResponse)
    ensures
        r.schema_version == 1 && !r.ok && r.pid == pid && r.message@ == message@ && r.exit_code == 1,
        r.stdout@.len() == 0 && r.stderr@.len() == 0,
{
    DaemonResponse {
        schema_version: 1,
        ok: false,
        pid,
        message,
        exit_code: 1,
        stdout: String::new(),
        stderr: String::new(),
    }
}

/// The exit code reported for a command's status: its code where it is
/// 0 to 255, else 1 (also where it was ended by a signal and has none).
pub open spec fn reported_exit_code(status: Option<i32>) -> u8 {
    match status {
        Some(c) => if 0 <= c <= 255 {
            c as u8
        } else {
            1
        },
        None => 1,
    }
}

/// The answer carrying a command's outcome: its output must be UTF-8 and at
/// most 2 MiB in all.
pub open spec fn execution_outcome(status: Option<i32>, stdout: Option<String>, stderr: Option<String>) -> Result<
    (u8, Seq<char>, Seq<char>),
    Seq<char>,
> {
    if stdout is None {
        Err("manager stdout is not UTF-8"@)
    } else if stderr is None {
        Err("manager stderr is not UTF-8"@)
    } else if encode_utf8(stdout->0@).len() + encode_utf8(stderr->0@).len() > MAX_DAEMON_RESPONSE_BYTES {
        Err("manager response exceeds 2 MiB"@)
    } else {
        Ok((reported_exit_code(status), stdout->0@, stderr->0@))
    }
}

/// Builds the answer to an executed command from its exit status and its
/// output (`None` where the output was not UTF-8).
pub fn execution_response(pid: u32, status: Option<i32>, stdout: Option<String>, stderr: Option<String>) -> (r: Result<
    DaemonResponse,
    String,
>)
    ensures
        match (r, execution_outcome(status, stdout, stderr)) {
            (Ok(resp), Ok((code, out, err))) => {
                &&& resp.schema_version == 1 && resp.ok && resp.pid == pid && resp.message@ == "ok"@
                &&& resp.exit_code == code && resp.stdout@ == out && resp.stderr@ == err
            },
            (Err(e), Err(m)) => e@ == m,
            _ => false,
        },
{
    let out = match stdout {
        None => {
            return Err(String::from_str("manager stdout is not UTF-8"));
        },
        Some(o) => o,
    };
    let err = match stderr {
        None => {
            return Err(String::from_str("manager stderr is not UTF-8"));
        },
        Some(e) => e,
    };
    let out_len = byte_len(out.as_str());
    let err_len = byte_len(err.as_str());
    if out_len > MAX_DAEMON_RESPONSE_BYTES || err_len > MAX_DAEMON_RESPONSE_BYTES - out_len {
        return Err(String::from_str("manager response exceeds 2 MiB"));
    }
    let exit_code: u8 = match status {
        Some(c) => {
            if 0 <= c && c <= 255 {
                c as u8
            } else {
                1
            }
        },
        None => 1,
    };
    Ok(
        DaemonResponse {
            schema_version: 1,
            ok: true,
            pid,
            message: String::from_str("ok"),
            exit_code,
            stdout: out,
            stderr: err,
        },
    )
}

} // verus!
