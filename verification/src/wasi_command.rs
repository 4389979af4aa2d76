//! The arguments of `pam rpc wasi`: a manifest, a WebAssembly module, a
//! method and a request file, then options for the contracts file, the fuel
//! and memory given to the guest, and the request id.

use vstd::prelude::*;
use crate::cli::Argument;
use crate::rpc::{is_request_id, valid_request_id};
use crate::text::{chars_of, concat_str, parse_unsigned, parse_u64_chars, str_eq, decimal_text, push_decimal_text};

verus! {

/// The fuel a guest gets unless `--fuel` says otherwise.
pub const DEFAULT_FUEL: u64 = 100_000_000;

/// The memory a guest gets unless `--memory-bytes` says otherwise: 64 MiB.
pub const DEFAULT_MEMORY_BYTES: usize = 67_108_864;

/// The parsed arguments of `pam rpc wasi`. Without `--contracts`, the
/// contracts file sits beside the manifest.
#[derive(Clone, Debug)]
pub struct WasiOptions {
    pub manifest: String,
    pub module: String,
    pub method: String,
    pub request: String,
    pub contracts: Option<String>,
    pub fuel: u64,
    pub memory_bytes: usize,
    pub request_id: Option<String>,
}

pub open spec fn text_option(o: Option<String>) -> Option<Seq<char>> {
    match o {
        Some(s) => Some(s@),
        None => None,
    }
}

pub open spec fn not_utf8() -> Seq<char> {
    "RPC arguments must be valid UTF-8"@
}

/// The argument at `i`, which must be present (else `missing`) and UTF-8.
pub open spec fn argument_text(args: Seq<Argument>, i: int, missing: Seq<char>) -> Result<Seq<char>, Seq<char>> {
    if i < 0 || i >= args.len() {
        Err(missing)
    } else if !args[i].utf8 {
        Err(not_utf8())
    } else {
        Ok(args[i].text@)
    }
}

/// The options from index `i` on, given those read so far: the contracts
/// file, the fuel, the memory and the request id.
pub open spec fn wasi_options_from(
    args: Seq<Argument>,
    i: int,
    contracts: Option<Seq<char>>,
    fuel: u64,
    memory: usize,
    id: Option<Seq<char>>,
) -> Result<(Option<Seq<char>>, u64, usize, Option<Seq<char>>), Seq<char>>
    decreases args.len() - i,
{
    if i < 0 || i >= args.len() {
        Ok((contracts, fuel, memory, id))
    } else if !args[i].utf8 {
        Err(not_utf8())
    } else {
        let option = args[i].text@;
        if option == "--contracts"@ {
            match argument_text(args, i + 1, "--contracts requires a JSON file"@) {
                Err(e) => Err(e),
                Ok(t) => wasi_options_from(args, i + 2, Some(t), fuel, memory, id),
            }
        } else if option == "--fuel"@ {
            match argument_text(args, i + 1, "--fuel requires an integer"@) {
                Err(e) => Err(e),
                Ok(t) => match parse_unsigned(t, u64::MAX as int) {
                    None => Err("--fuel requires an integer"@),
                    Some(n) => if n < 1 {
                        Err("--fuel must be between 1 and 18446744073709551615"@)
                    } else {
                        wasi_options_from(args, i + 2, contracts, n as u64, memory, id)
                    },
                },
            }
        } else if option == "--memory-bytes"@ {
            match argument_text(args, i + 1, "--memory-bytes requires an integer"@) {
                Err(e) => Err(e),
                Ok(t) => match parse_unsigned(t, usize::MAX as int) {
                    None => Err("--memory-bytes requires an integer"@),
                    Some(n) => if n < 65536 || n > 2147483648 {
                        Err("--memory-bytes must be between 65536 and 2147483648"@)
                    } else {
                        wasi_options_from(args, i + 2, contracts, fuel, n as usize, id)
                    },
                },
            }
        } else if option == "--request-id"@ {
            match argument_text(args, i + 1, "--request-id requires a value"@) {
                Err(e) => Err(e),
                Ok(t) => if !is_request_id(t) {
                    Err("--request-id must contain 1-128 safe ASCII identifier characters"@)
                } else {
                    wasi_options_from(args, i + 2, contracts, fuel, memory, Some(t))
                },
            }
        } else {
            Err("unknown rpc wasi option: "@ + option)
        }
    }
}

/// The four positional arguments, then the options.
pub open spec fn wasi_options_of(args: Seq<Argument>) -> Result<
    (Seq<char>, Seq<char>, Seq<char>, Seq<char>, Option<Seq<char>>, u64, usize, Option<Seq<char>>),
    Seq<char>,
> {
    match argument_text(args, 0, "rpc wasi requires a pam.rpc.json manifest"@) {
        Err(e) => Err(e),
        Ok(manifest) => match argument_text(args, 1, "rpc wasi requires a WebAssembly module"@) {
            Err(e) => Err(e),
            Ok(module) => match argument_text(args, 2, "rpc wasi requires a method"@) {
                Err(e) => Err(e),
                Ok(method) => match argument_text(args, 3, "rpc wasi requires a request JSON file"@) {
                    Err(e) => Err(e),
                    Ok(request) => match wasi_options_from(args, 4, None, DEFAULT_FUEL, DEFAULT_MEMORY_BYTES, None) {
                        Err(e) => Err(e),
                        Ok((contracts, fuel, memory, id)) => Ok((manifest, module, method, request, contracts, fuel, memory, id)),
                    },
                },
            },
        },
    }
}

fn argument_at(args: &Vec<Argument>, i: usize, missing: &str) -> (r: Result<String, String>)
    ensures
        match (r, argument_text(args@, i as int, missing@)) {
            (Ok(t), Ok(s)) => t@ == s,
            (Err(e), Err(m)) => e@ == m,
            _ => false,
        },
{
    if i >= args.len() {
        return Err(String::from_str(missing));
    }
    if !args[i].utf8 {
        return Err(String::from_str("RPC arguments must be valid UTF-8"));
    }
    Ok(String::from_str(args[i].text.as_str()))
}

/// Reads a number as `str::parse::<u64>` does.
fn parse_number(text: &str) -> (r: Option<u64>)
    ensures
        r is Some == parse_unsigned(text@, u64::MAX as int) is Some,
        r matches Some(v) ==> v == parse_unsigned(text@, u64::MAX as int)->0,
{
    let chars = chars_of(text);
    proof {
        assert(chars@.subrange(0, chars@.len() as int) =~= chars@);
    }
    parse_u64_chars(&chars, 0, chars.len())
}

/// Parses the arguments of `pam rpc wasi`, stopping at the first problem.
#[verifier::loop_isolation(false)]
pub fn parse_wasi_arguments(args: &Vec<Argument>) -> (r: Result<WasiOptions, String>)
    ensures
        match (r, wasi_options_of(args@)) {
            (Ok(o), Ok(v)) => v == (o.manifest@, o.module@, o.method@, o.request@, text_option(o.contracts), o.fuel, o.memory_bytes,
                text_option(o.request_id)),
            (Err(e), Err(m)) => e@ == m,
            _ => false,
        },
{
    let manifest = match argument_at(args, 0, "rpc wasi requires a pam.rpc.json manifest") {
        Ok(t) => t,
        Err(e) => return Err(e),
    };
    let module = match argument_at(args, 1, "rpc wasi requires a WebAssembly module") {
        Ok(t) => t,
        Err(e) => return Err(e),
    };
    let method = match argument_at(args, 2, "rpc wasi requires a method") {
        Ok(t) => t,
        Err(e) => return Err(e),
    };
    let request = match argument_at(args, 3, "rpc wasi requires a request JSON file") {
        Ok(t) => t,
        Err(e) => return Err(e),
    };
    let mut contracts: Option<String> = None;
    let mut fuel: u64 = DEFAULT_FUEL;
    let mut memory_bytes: usize = DEFAULT_MEMORY_BYTES;
    let mut request_id: Option<String> = None;
    let mut i: usize = 4;
    while i < args.len()
        invariant
            4 <= i,
            wasi_options_from(args@, 4, None, DEFAULT_FUEL, DEFAULT_MEMORY_BYTES, None) == wasi_options_from(
                args@,
                i as int,
                text_option(contracts),
                fuel,
                memory_bytes,
                text_option(request_id),
            ),
        decreases args.len() - i,
    {
        if !args[i].utf8 {
            return Err(String::from_str("RPC arguments must be valid UTF-8"));
        }
        let option = args[i].text.as_str();
        if str_eq(option, "--contracts") {
            let value = match argument_at(args, i + 1, "--contracts requires a JSON file") {
                Ok(t) => t,
                Err(e) => return Err(e),
            };
            contracts = Some(value);
        } else if str_eq(option, "--fuel") {
            let value = match argument_at(args, i + 1, "--fuel requires an integer") {
                Ok(t) => t,
                Err(e) => return Err(e),
            };
            match parse_number(value.as_str()) {
                None => return Err(String::from_str("--fuel requires an integer")),
                Some(n) => {
                    if n < 1 {
                        return Err(String::from_str("--fuel must be between 1 and 18446744073709551615"));
                    }
                    fuel = n;
                },
            }
        } else if str_eq(option, "--memory-bytes") {
            let value = match argument_at(args, i + 1, "--memory-bytes requires an integer") {
                Ok(t) => t,
                Err(e) => return Err(e),
            };
            match parse_number(value.as_str()) {
                None => return Err(String::from_str("--memory-bytes requires an integer")),
                Some(n) => {
                    if n > usize::MAX as u64 {
                        return Err(String::from_str("--memory-bytes requires an integer"));
                    }
                    if n < 65536 || n > 2147483648 {
                        return Err(String::from_str("--memory-bytes must be between 65536 and 2147483648"));
                    }
                    memory_bytes = n as usize;
                },
            }
        } else if str_eq(option, "--request-id") {
            let value = match argument_at(args, i + 1, "--request-id requires a value") {
                Ok(t) => t,
                Err(e) => return Err(e),
            };
            if !valid_request_id(value.as_str()) {
                return Err(String::from_str("--request-id must contain 1-128 safe ASCII identifier characters"));
            }
            request_id = Some(value);
        } else {
            return Err(concat_str("unknown rpc wasi option: ", option));
        }
        i = i + 2;
    }
    Ok(WasiOptions { manifest, module, method, request, contracts, fuel, memory_bytes, request_id })
}

/// What the guest's reply holds, field by field: the protocol version and
/// kind where they are unsigned integers, the id where it is a string, the
/// names of its fields, and for a failure the names of the error's fields
/// (where the error is an object), its code and its message.
#[derive(Clone, Debug)]
pub struct WasiResponse {
    pub protocol_version: Option<u64>,
    pub id: Option<String>,
    pub kind: Option<u64>,
    pub fields: Vec<String>,
    pub error_fields: Option<Vec<String>>,
    pub error_code: Option<u64>,
    pub error_message: Option<String>,
}

pub open spec fn field_set(fields: Seq<String>) -> Set<Seq<char>> {
    fields.map_values(|f: String| f@).to_set()
}

/// Checks the guest's reply to the request with id `request_id`: `Ok` for
/// a success whose fields are exactly those of a success, else why not (a
/// failure reply gives the guest's error).
pub open spec fn wasi_response_outcome(r: WasiResponse, request_id: Seq<char>) -> Result<(), Seq<char>> {
    if r.protocol_version != Some(1u64) {
        Err("RPC protocolVersion must be 1"@)
    } else {
        match r.id {
            None => Err("RPC response id must be a string"@),
            Some(id) => if id@ != request_id {
                Err("RPC response id does not match its request"@)
            } else {
                match r.kind {
                    None => Err("RPC response kind must be an integer"@),
                    Some(kind) => if kind == 2 {
                        if field_set(r.fields@) == seq!["protocolVersion"@, "id"@, "kind"@, "result"@].to_set() {
                            Ok(())
                        } else {
                            Err("successful RPC response contains missing or unknown fields"@)
                        }
                    } else if kind == 3 {
                        if field_set(r.fields@) != seq!["protocolVersion"@, "id"@, "kind"@, "error"@].to_set() {
                            Err("failed RPC response contains missing or unknown fields"@)
                        } else {
                            match r.error_fields {
                                None => Err("failed RPC response requires an error object"@),
                                Some(error_fields) => if field_set(error_fields@) != seq!["code"@, "message"@].to_set() {
                                    Err("RPC error contains missing or unknown fields"@)
                                } else {
                                    match r.error_code {
                                        Some(code) => if code > 0 {
                                            match r.error_message {
                                                Some(message) => Err("RPC guest error "@ + decimal_text(code as nat) + ": "@ + message@),
                                                None => Err("RPC error message must be a string"@),
                                            }
                                        } else {
                                            Err("RPC error code must be a positive integer"@)
                                        },
                                        None => Err("RPC error code must be a positive integer"@),
                                    }
                                },
                            }
                        }
                    } else {
                        Err("RPC response kind must be 2 or 3"@)
                    },
                }
            },
        }
    }
}

fn holds_field(fields: &Vec<String>, name: &str) -> (r: bool)
    ensures
        r == field_set(fields@).contains(name@),
{
    let mut i: usize = 0;
    while i < fields.len()
        invariant
            i <= fields@.len(),
            forall|k: int| 0 <= k < i ==> fields@[k]@ != name@,
        decreases fields.len() - i,
    {
        if str_eq(fields[i].as_str(), name) {
            assert(fields@.map_values(|f: String| f@)[i as int] == name@);
            return true;
        }
        i = i + 1;
    }
    proof {
        let names = fields@.map_values(|f: String| f@);
        if names.contains(name@) {
            let k = choose|k: int| 0 <= k < names.len() && names[k] == name@;
            assert(fields@[k]@ == name@);
        }
    }
    false
}

/// Whether the names of `fields` are exactly those of `expected`.
fn exact_fields(fields: &Vec<String>, expected: &Vec<&str>) -> (r: bool)
    ensures
        r == (field_set(fields@) == expected@.map_values(|e: &str| e@).to_set()),
{
    let ghost want = expected@.map_values(|e: &str| e@).to_set();
    let mut i: usize = 0;
    while i < fields.len()
        invariant
            i <= fields@.len(),
            want == expected@.map_values(|e: &str| e@).to_set(),
            forall|k: int| 0 <= k < i ==> want.contains(#[trigger] fields@[k]@),
        decreases fields.len() - i,
    {
        let mut found = false;
        let mut j: usize = 0;
        while j < expected.len()
            invariant
                i < fields@.len(),
                j <= expected@.len(),
                want == expected@.map_values(|e: &str| e@).to_set(),
                found ==> want.contains(fields@[i as int]@),
                !found ==> forall|k: int| 0 <= k < j ==> expected@[k]@ != fields@[i as int]@,
            decreases expected.len() - j,
        {
            if str_eq(fields[i].as_str(), expected[j]) {
                assert(expected@.map_values(|e: &str| e@)[j as int] == fields@[i as int]@);
                found = true;
            }
            j = j + 1;
        }
        if !found {
            proof {
                assert(fields@.map_values(|f: String| f@)[i as int] == fields@[i as int]@);
                assert(field_set(fields@).contains(fields@[i as int]@));
            }
            // A field that is not expected: the sets differ. Establish that
            // the expected set lacks it.
            proof {
                let wanted = expected@.map_values(|e: &str| e@);
                if want.contains(fields@[i as int]@) {
                    let k = choose|k: int| 0 <= k < wanted.len() && wanted[k] == fields@[i as int]@;
                    assert(expected@[k]@ == fields@[i as int]@);
                }
                assert(!want.contains(fields@[i as int]@));
            }
            return false;
        }
        i = i + 1;
    }
    let mut j: usize = 0;
    while j < expected.len()
        invariant
            j <= expected@.len(),
            want == expected@.map_values(|e: &str| e@).to_set(),
            forall|k: int| 0 <= k < fields@.len() ==> want.contains(#[trigger] fields@[k]@),
            forall|k: int| 0 <= k < j ==> field_set(fields@).contains(#[trigger] expected@[k]@),
        decreases expected.len() - j,
    {
        if !holds_field(fields, expected[j]) {
            proof {
                assert(expected@.map_values(|e: &str| e@)[j as int] == expected@[j as int]@);
                assert(want.contains(expected@[j as int]@));
            }
            return false;
        }
        j = j + 1;
    }
    proof {
        let names = fields@.map_values(|f: String| f@);
        let wanted = expected@.map_values(|e: &str| e@);
        assert forall|x: Seq<char>| field_set(fields@).contains(x) == want.contains(x) by {
            if names.contains(x) {
                let k = choose|k: int| 0 <= k < names.len() && names[k] == x;
                assert(fields@[k]@ == x);
            }
            if wanted.contains(x) {
                let k = choose|k: int| 0 <= k < wanted.len() && wanted[k] == x;
                assert(expected@[k]@ == x);
            }
        }
        assert(field_set(fields@) =~= want);
    }
    true
}

/// Checks the guest's reply to a request.
pub fn check_wasi_response(response: &WasiResponse, request_id: &str) -> (r: Result<(), String>)
    ensures
        match (r, wasi_response_outcome(*response, request_id@)) {
            (Ok(()), Ok(())) => true,
            (Err(e), Err(m)) => e@ == m,
            _ => false,
        },
{
    if response.protocol_version != Some(1u64) {
        return Err(String::from_str("RPC protocolVersion must be 1"));
    }
    let id = match &response.id {
        None => return Err(String::from_str("RPC response id must be a string")),
        Some(id) => id,
    };
    if !str_eq(id.as_str(), request_id) {
        return Err(String::from_str("RPC response id does not match its request"));
    }
    let kind = match response.kind {
        None => return Err(String::from_str("RPC response kind must be an integer")),
        Some(kind) => kind,
    };
    if kind == 2 {
        let expected: Vec<&str> = vec!["protocolVersion", "id", "kind", "result"];
        let same = exact_fields(&response.fields, &expected);
        proof {
            assert(expected@.map_values(|e: &str| e@) =~= seq!["protocolVersion"@, "id"@, "kind"@, "result"@]);
        }
        if same {
            Ok(())
        } else {
            Err(String::from_str("successful RPC response contains missing or unknown fields"))
        }
    } else if kind == 3 {
        let expected: Vec<&str> = vec!["protocolVersion", "id", "kind", "error"];
        let same = exact_fields(&response.fields, &expected);
        proof {
            assert(expected@.map_values(|e: &str| e@) =~= seq!["protocolVersion"@, "id"@, "kind"@, "error"@]);
        }
        if !same {
            return Err(String::from_str("failed RPC response contains missing or unknown fields"));
        }
        let error_fields = match &response.error_fields {
            None => return Err(String::from_str("failed RPC response requires an error object")),
            Some(fields) => fields,
        };
        let expected_error: Vec<&str> = vec!["code", "message"];
        let same_error = exact_fields(error_fields, &expected_error);
        proof {
            assert(expected_error@.map_values(|e: &str| e@) =~= seq!["code"@, "message"@]);
        }
        if !same_error {
            return Err(String::from_str("RPC error contains missing or unknown fields"));
        }
        let code = match response.error_code {
            Some(code) => {
                if code == 0 {
                    return Err(String::from_str("RPC error code must be a positive integer"));
                }
                code
            },
            None => return Err(String::from_str("RPC error code must be a positive integer")),
        };
        match &response.error_message {
            None => Err(String::from_str("RPC error message must be a string")),
            Some(message) => {
                let mut text = String::from_str("RPC guest error ");
                push_decimal_text(&mut text, code);
                text.append(": ");
                text.append(message.as_str());
                Err(text)
            },
        }
    } else {
        Err(String::from_str("RPC response kind must be 2 or 3"))
    }
}

} // verus!
