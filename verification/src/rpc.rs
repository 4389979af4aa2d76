//! The RPC contract language of mobile applications: identifiers, versions,
//! request ids, and the validation of manifests and contract catalogs.

use vstd::prelude::*;
use vstd::utf8::*;
use crate::hexutil::{text_less, str_less, lemma_text_less_strict_total};
use crate::text::{str_eq, chars_of, byte_len, concat_str, push_char, push_decimal_text, decimal_text, quoted,
    debug_quoted, split_on, split_ranges, is_ascii_upper, is_ascii_lower, is_ascii_digit, is_ascii_alpha,
    is_ascii_alnum, ascii_upper, ascii_lower, ascii_digit, ascii_alpha, ascii_alnum};

verus! {

pub const METHOD_KIND_UNARY: u8 = 1;

pub open spec fn is_identifier_char(c: char) -> bool {
    is_ascii_alnum(c) || c == '_'
}

/// An identifier of at most 128 bytes: a first character as `first` allows,
/// then ASCII letters, digits and `_`.
pub open spec fn is_identifier(v: Seq<char>, first: int) -> bool {
    &&& v.len() > 0
    &&& (if first == 0 { is_ascii_upper(v[0]) } else if first == 1 { is_ascii_lower(v[0]) } else {
        is_ascii_alpha(v[0]) || v[0] == '_'
    })
    &&& forall|i: int| 0 <= i < v.len() ==> is_identifier_char(#[trigger] v[i])
    &&& encode_utf8(v).len() <= 128
}

fn identifier(value: &str, first: u8) -> (r: bool)
    requires
        first <= 2,
    ensures
        r == is_identifier(value@, first as int),
{
    let chars = chars_of(value);
    if chars.len() == 0 {
        return false;
    }
    let c = chars[0];
    let ok_first = if first == 0 { ascii_upper(c) } else if first == 1 { ascii_lower(c) } else { ascii_alpha(c) || c == '_' };
    if !ok_first {
        return false;
    }
    let mut i: usize = 0;
    while i < chars.len()
        invariant
            chars@ == value@,
            i <= chars@.len(),
            forall|k: int| 0 <= k < i ==> is_identifier_char(#[trigger] chars@[k]),
        decreases chars.len() - i,
    {
        if !(ascii_alnum(chars[i]) || chars[i] == '_') {
            return false;
        }
        i = i + 1;
    }
    byte_len(value) <= 128
}

/// A contract or service name: an ASCII capital first.
pub fn is_type_identifier(value: &str) -> (r: bool)
    ensures
        r == is_identifier(value@, 0),
{
    identifier(value, 0)
}

/// A method name: a lowercase ASCII letter first.
pub fn is_method_identifier(value: &str) -> (r: bool)
    ensures
        r == is_identifier(value@, 1),
{
    identifier(value, 1)
}

/// A field name: an ASCII letter or `_` first.
pub fn is_property_identifier(value: &str) -> (r: bool)
    ensures
        r == is_identifier(value@, 2),
{
    identifier(value, 2)
}

pub open spec fn is_digits(v: Seq<char>) -> bool {
    v.len() > 0 && forall|i: int| 0 <= i < v.len() ==> is_ascii_digit(#[trigger] v[i])
}

/// A numeric `MAJOR.MINOR.PATCH` version.
pub open spec fn is_numeric_version(v: Seq<char>) -> bool {
    let parts = split_on(v, '.');
    parts.len() == 3 && is_digits(parts[0]) && is_digits(parts[1]) && is_digits(parts[2])
}

fn digits(chars: &[char], from: usize, to: usize) -> (r: bool)
    requires
        from <= to <= chars@.len(),
    ensures
        r == is_digits(chars@.subrange(from as int, to as int)),
{
    let ghost part = chars@.subrange(from as int, to as int);
    if from == to {
        return false;
    }
    let mut i = from;
    while i < to
        invariant
            from <= i <= to,
            to <= chars@.len(),
            part == chars@.subrange(from as int, to as int),
            forall|k: int| 0 <= k < i - from ==> is_ascii_digit(#[trigger] part[k]),
        decreases to - i,
    {
        proof {
            assert(part[i - from] == chars@[i as int]);
        }
        if !ascii_digit(chars[i]) {
            return false;
        }
        i = i + 1;
    }
    true
}

/// Whether a version is numeric `MAJOR.MINOR.PATCH`.
pub fn valid_version(value: &str) -> (r: bool)
    ensures
        r == is_numeric_version(value@),
{
    let chars = chars_of(value);
    let parts = split_ranges(&chars, 0, chars.len(), '.');
    proof {
        assert(chars@.subrange(0, chars@.len() as int) =~= value@);
    }
    if parts.len() != 3 {
        return false;
    }
    let (a, b) = parts[0];
    let (c, d) = parts[1];
    let (e, f) = parts[2];
    digits(&chars, a, b) && digits(&chars, c, d) && digits(&chars, e, f)
}

pub open spec fn is_request_id_char(c: char) -> bool {
    is_ascii_alnum(c) || c == '-' || c == '_' || c == '.' || c == ':'
}

/// A request id: 1 to 128 bytes of ASCII letters, digits, `-`, `_`, `.`, `:`.
pub open spec fn is_request_id(v: Seq<char>) -> bool {
    &&& v.len() > 0
    &&& encode_utf8(v).len() <= 128
    &&& forall|i: int| 0 <= i < v.len() ==> is_request_id_char(#[trigger] v[i])
}

/// Whether a request id is acceptable.
pub fn valid_request_id(value: &str) -> (r: bool)
    ensures
        r == is_request_id(value@),
{
    let chars = chars_of(value);
    if chars.len() == 0 || byte_len(value) > 128 {
        return false;
    }
    let mut i: usize = 0;
    while i < chars.len()
        invariant
            chars@ == value@,
            i <= chars@.len(),
            forall|k: int| 0 <= k < i ==> is_request_id_char(#[trigger] chars@[k]),
        decreases chars.len() - i,
    {
        let c = chars[i];
        if !(ascii_alnum(c) || c == '-' || c == '_' || c == '.' || c == ':') {
            return false;
        }
        i = i + 1;
    }
    true
}

pub open spec fn is_hex_char(c: char) -> bool {
    is_ascii_digit(c) || ('a' <= c <= 'f') || ('A' <= c <= 'F')
}

/// The 8-4-4-4-12 shape of a UUID: 36 characters, dashes at 8, 13, 18 and
/// 23, hexadecimal digits elsewhere.
pub open spec fn is_uuid_shaped(v: Seq<char>) -> bool {
    &&& encode_utf8(v).len() == 36
    &&& v.len() == 36
    &&& forall|i: int| 0 <= i < 36 ==> if i == 8 || i == 13 || i == 18 || i == 23 {
        #[trigger] v[i] == '-'
    } else {
        is_hex_char(v[i])
    }
}

/// Whether a text has the shape of a UUID.
pub fn looks_like_uuid(value: &str) -> (r: bool)
    ensures
        r == is_uuid_shaped(value@),
{
    if byte_len(value) != 36 {
        return false;
    }
    let chars = chars_of(value);
    if chars.len() != 36 {
        return false;
    }
    let mut i: usize = 0;
    while i < 36
        invariant
            chars@ == value@,
            chars@.len() == 36,
            i <= 36,
            forall|k: int| 0 <= k < i ==> if k == 8 || k == 13 || k == 18 || k == 23 {
                #[trigger] chars@[k] == '-'
            } else {
                is_hex_char(chars@[k])
            },
        decreases 36 - i,
    {
        let c = chars[i];
        let ok = if i == 8 || i == 13 || i == 18 || i == 23 {
            c == '-'
        } else {
            ascii_digit(c) || ('a' <= c && c <= 'f') || ('A' <= c && c <= 'F')
        };
        if !ok {
            return false;
        }
        i = i + 1;
    }
    true
}

/// A name in snake_case: each ASCII capital lowercased, after `_` unless it
/// starts the output or follows `_`.
pub open spec fn snake_prefix(v: Seq<char>, n: nat) -> Seq<char>
    decreases n,
{
    if n == 0 {
        Seq::empty()
    } else {
        let out = snake_prefix(v, (n - 1) as nat);
        let c = v[n - 1];
        if is_ascii_upper(c) {
            let sep = if out.len() > 0 && out.last() != '_' { seq!['_'] } else { Seq::empty() };
            out + sep + seq![(((c as u32) + 32) as u8) as char]
        } else {
            out.push(c)
        }
    }
}

/// Converts a camelCase or PascalCase name to snake_case.
pub fn to_snake_case(value: &str) -> (r: String)
    ensures
        r@ == snake_prefix(value@, value@.len()),
{
    let chars = chars_of(value);
    let mut out = String::new();
    let mut last: Option<char> = None;
    let mut i: usize = 0;
    while i < chars.len()
        invariant
            chars@ == value@,
            i <= chars@.len(),
            out@ == snake_prefix(value@, i as nat),
            last == (if out@.len() > 0 { Some(out@.last()) } else { None }),
        decreases chars.len() - i,
    {
        let c = chars[i];
        if ascii_upper(c) {
            match last {
                Some(p) => {
                    if p != '_' {
                        push_char(&mut out, '_');
                    }
                },
                None => {},
            }
            let lower = (((c as u32) + 32) as u8) as char;
            push_char(&mut out, lower);
            last = Some(lower);
        } else {
            push_char(&mut out, c);
            last = Some(c);
        }
        proof {
            assert(out@.len() > 0);
        }
        i = i + 1;
    }
    out
}

pub open spec fn is_ascii_whitespace_byte(b: u8) -> bool {
    b == 0x20 || b == 0x09 || b == 0x0a || b == 0x0c || b == 0x0d
}

/// The bytes without leading and trailing ASCII whitespace.
pub fn trim_ascii(value: &[u8]) -> (r: &[u8])
    ensures
        exists|start: int, end: int| {
            &&& 0 <= start <= end <= value@.len()
            &&& r@ == value@.subrange(start, end)
            &&& forall|i: int| 0 <= i < start ==> is_ascii_whitespace_byte(#[trigger] value@[i])
            &&& forall|i: int| end <= i < value@.len() ==> is_ascii_whitespace_byte(#[trigger] value@[i])
            &&& start < end ==> !is_ascii_whitespace_byte(value@[start]) && !is_ascii_whitespace_byte(value@[end - 1])
        },
{
    let n = value.len();
    let mut start: usize = 0;
    while start < n && (value[start] == 0x20 || value[start] == 0x09 || value[start] == 0x0a || value[start] == 0x0c
        || value[start] == 0x0d)
        invariant
            start <= n,
            n == value@.len(),
            forall|i: int| 0 <= i < start ==> is_ascii_whitespace_byte(#[trigger] value@[i]),
        decreases n - start,
    {
        start = start + 1;
    }
    let mut end: usize = n;
    while end > start && (value[end - 1] == 0x20 || value[end - 1] == 0x09 || value[end - 1] == 0x0a
        || value[end - 1] == 0x0c || value[end - 1] == 0x0d)
        invariant
            start <= end <= n,
            n == value@.len(),
            forall|i: int| end <= i < n ==> is_ascii_whitespace_byte(#[trigger] value@[i]),
        decreases end - start,
    {
        end = end - 1;
    }
    let r = slice_range(value, start, end);
    r
}

fn slice_range(value: &[u8], start: usize, end: usize) -> (r: &[u8])
    requires
        start <= end <= value@.len(),
    ensures
        r@ == value@.subrange(start as int, end as int),
{
    let (head, _) = value.split_at(end);
    let (_, middle) = head.split_at(start);
    middle
}



pub const METHOD_TIMEOUT_LIMIT_MS: u64 = 3_600_000;

/// A method of an RPC manifest.
pub struct RpcMethod {
    pub kind: u8,
    pub name: String,
    pub input: String,
    pub output: String,
    pub timeout_ms: u64,
    pub idempotent: bool,
}

/// An RPC manifest: the service, its version and its methods.
pub struct RpcManifest {
    pub schema_version: u8,
    pub service: String,
    pub version: String,
    pub methods: Vec<RpcMethod>,
}

/// A field of a record contract. Its numeric bounds are carried as
/// `minimum_exceeds_maximum`: both bounds are given and the minimum, read as
/// a floating-point number, is the larger.
pub struct RpcProperty {
    pub name: String,
    pub kind: u8,
    pub type_label: String,
    pub nullable: bool,
    pub format: Option<String>,
    pub item_type: Option<String>,
    pub minimum_exceeds_maximum: bool,
}

/// A case of an integer enum contract.
pub struct RpcCase {
    pub name: String,
    pub value: i64,
}

/// A typed contract: a record (kind 1) with properties, or an integer enum
/// (kind 2) with cases.
pub struct RpcContract {
    pub kind: u8,
    pub name: String,
    pub php_class: String,
    pub properties: Vec<RpcProperty>,
    pub cases: Vec<RpcCase>,
}

/// The contracts of a catalog, ordered by name, and the map from each PHP
/// class to its contract name, in the order the contracts were given.
pub struct RpcCatalog {
    pub contracts: Vec<RpcContract>,
    pub php_names: Vec<(String, String)>,
}

/// The first contract of `contracts` with the given name.
pub open spec fn contract_named(contracts: Seq<RpcContract>, name: Seq<char>) -> Option<RpcContract>
    decreases contracts.len(),
{
    if contracts.len() == 0 {
        None
    } else if contracts[0].name@ == name {
        Some(contracts[0])
    } else {
        contract_named(contracts.drop_first(), name)
    }
}

/// The contract name that a PHP class stands for, or the name itself.
pub open spec fn php_target(pairs: Seq<(String, String)>, name: Seq<char>) -> Seq<char>
    decreases pairs.len(),
{
    if pairs.len() == 0 {
        name
    } else if pairs[0].0@ == name {
        pairs[0].1@
    } else {
        php_target(pairs.drop_first(), name)
    }
}

fn find_contract(contracts: &Vec<RpcContract>, name: &str) -> (r: Option<usize>)
    ensures
        match r {
            Some(i) => i < contracts@.len() && contract_named(contracts@, name@) == Some(contracts@[i as int]),
            None => contract_named(contracts@, name@) is None,
        },
{
    let mut i: usize = 0;
    assert(contracts@.skip(0) =~= contracts@);
    while i < contracts.len()
        invariant
            i <= contracts@.len(),
            contract_named(contracts@, name@) == contract_named(contracts@.skip(i as int), name@),
        decreases contracts.len() - i,
    {
        proof {
            assert(contracts@.skip(i as int)[0] == contracts@[i as int]);
            assert(contracts@.skip(i as int).drop_first() =~= contracts@.skip(i as int + 1));
        }
        if str_eq(contracts[i].name.as_str(), name) {
            return Some(i);
        }
        i = i + 1;
    }
    assert(contracts@.skip(i as int).len() == 0);
    None
}

fn resolve_php<'a>(pairs: &'a Vec<(String, String)>, name: &'a str) -> (r: &'a str)
    ensures
        r@ == php_target(pairs@, name@),
{
    let mut i: usize = 0;
    assert(pairs@.skip(0) =~= pairs@);
    while i < pairs.len()
        invariant
            i <= pairs@.len(),
            php_target(pairs@, name@) == php_target(pairs@.skip(i as int), name@),
        decreases pairs.len() - i,
    {
        proof {
            assert(pairs@.skip(i as int)[0] == pairs@[i as int]);
            assert(pairs@.skip(i as int).drop_first() =~= pairs@.skip(i as int + 1));
        }
        if str_eq(pairs[i].0.as_str(), name) {
            return pairs[i].1.as_str();
        }
        i = i + 1;
    }
    assert(pairs@.skip(i as int).len() == 0);
    name
}

/// The type name a field of a given kind must carry, for the kinds that fix one.
pub open spec fn expected_scalar(kind: u8) -> Option<Seq<char>> {
    if kind == 1 {
        Some("string"@)
    } else if kind == 2 {
        Some("int"@)
    } else if kind == 3 {
        Some("float"@)
    } else if kind == 4 {
        Some("bool"@)
    } else if kind == 6 {
        Some("array"@)
    } else {
        None
    }
}

/// An array item type that names no contract.
pub open spec fn is_scalar_item(t: Seq<char>) -> bool {
    t == "string"@ || t == "int"@ || t == "float"@ || t == "bool"@
}

/// Whether a contract of that name, or of the name its PHP class maps to, exists.
pub open spec fn resolved_contract(catalog: RpcCatalog, name: Seq<char>) -> Option<RpcContract> {
    contract_named(catalog.contracts@, php_target(catalog.php_names@, name))
}

/// The case values are 1, 2, 3 and so on, in order.
pub open spec fn sequential_values(cases: Seq<RpcCase>) -> bool {
    forall|i: int| 0 <= i < cases.len() ==> #[trigger] cases[i].value == i + 1
}

/// The name of case `i` occurs among the first `upto` cases.
pub open spec fn case_seen(cases: Seq<RpcCase>, i: int, upto: int) -> bool {
    exists|q: int| 0 <= q < upto && #[trigger] cases[q].name@ == cases[i].name@
}

/// Case `i` has no type identifier for a name, or repeats an earlier name.
pub open spec fn bad_case(cases: Seq<RpcCase>, i: int) -> bool {
    !is_identifier(cases[i].name@, 0) || case_seen(cases, i, i)
}

/// Some case name is no type identifier, or repeats an earlier one.
pub open spec fn bad_case_names(cases: Seq<RpcCase>) -> bool {
    exists|i: int| 0 <= i < cases.len() && #[trigger] bad_case(cases, i)
}

/// The name of field `i` occurs among the first `upto` fields.
pub open spec fn field_seen(props: Seq<RpcProperty>, i: int, upto: int) -> bool {
    exists|q: int| 0 <= q < upto && #[trigger] props[q].name@ == props[i].name@
}

/// What is wrong with a contract's kind and cases, if anything.
pub open spec fn kind_error(c: RpcContract) -> Option<Seq<char>> {
    if c.kind == 1 && c.cases@.len() == 0 {
        None
    } else if c.kind == 2 && c.properties@.len() == 0 && c.cases@.len() > 0 {
        if !sequential_values(c.cases@) {
            Some("RPC enum "@ + c.name@ + " values must be sequential integers from 1"@)
        } else if bad_case_names(c.cases@) {
            Some("RPC enum "@ + c.name@ + " has invalid or duplicate cases"@)
        } else {
            None
        }
    } else {
        Some("invalid RPC contract kind "@ + decimal_text(c.kind as nat) + " for "@ + c.name@)
    }
}

/// What is wrong with the `i`-th field of a contract, if anything.
pub open spec fn property_error(catalog: RpcCatalog, c: RpcContract, i: int) -> Option<Seq<char>> {
    let p = c.properties@[i];
    let label = c.name@ + "."@ + p.name@;
    if !is_identifier(p.name@, 2) || field_seen(c.properties@, i, i) {
        Some("invalid or duplicate RPC field "@ + label)
    } else if !(1 <= p.kind <= 7) {
        Some("unsupported RPC field kind "@ + decimal_text(p.kind as nat) + " on "@ + label)
    } else if expected_scalar(p.kind) is Some && p.type_label@ != expected_scalar(p.kind)->0 {
        Some("RPC field "@ + label + " kind does not match type "@ + p.type_label@)
    } else if p.minimum_exceeds_maximum {
        Some("RPC field "@ + label + " minimum exceeds maximum"@)
    } else if p.kind == 6 && (p.item_type is None || p.item_type->0@.len() == 0) {
        Some("RPC array field "@ + label + " requires itemType"@)
    } else if p.kind == 6 && !is_scalar_item(p.item_type->0@) && resolved_contract(catalog, p.item_type->0@) is None {
        Some("RPC array field "@ + label + " references unknown item contract "@ + p.item_type->0@)
    } else if (p.kind == 5 || p.kind == 7) && resolved_contract(catalog, p.type_label@) is None {
        Some("RPC field "@ + label + " references unknown contract "@ + p.type_label@)
    } else if (p.kind == 5 && resolved_contract(catalog, p.type_label@)->0.kind != 1) || (p.kind == 7
        && resolved_contract(catalog, p.type_label@)->0.kind != 2) {
        Some("RPC field "@ + label + " kind does not match referenced contract "@ + p.type_label@)
    } else {
        None
    }
}

/// The first error among the first `n` fields of a contract.
pub open spec fn properties_error(catalog: RpcCatalog, c: RpcContract, n: int) -> Option<Seq<char>>
    decreases n,
{
    if n <= 0 {
        None
    } else if properties_error(catalog, c, n - 1) is Some {
        properties_error(catalog, c, n - 1)
    } else {
        property_error(catalog, c, n - 1)
    }
}

/// What is wrong with a contract of the catalog, if anything.
pub open spec fn contract_error(catalog: RpcCatalog, c: RpcContract) -> Option<Seq<char>> {
    if kind_error(c) is Some {
        kind_error(c)
    } else {
        properties_error(catalog, c, c.properties@.len() as int)
    }
}

/// The first error among the first `n` contracts of the catalog.
pub open spec fn catalog_error(catalog: RpcCatalog, n: int) -> Option<Seq<char>>
    decreases n,
{
    if n <= 0 {
        None
    } else if catalog_error(catalog, n - 1) is Some {
        catalog_error(catalog, n - 1)
    } else {
        contract_error(catalog, catalog.contracts@[n - 1])
    }
}

proof fn lemma_properties_error_settles(catalog: RpcCatalog, c: RpcContract, m: int, n: int)
    requires
        0 <= m <= n,
        properties_error(catalog, c, m) is Some,
    ensures
        properties_error(catalog, c, n) == properties_error(catalog, c, m),
    decreases n - m,
{
    if m < n {
        lemma_properties_error_settles(catalog, c, m, n - 1);
    }
}

proof fn lemma_catalog_error_settles(catalog: RpcCatalog, m: int, n: int)
    requires
        0 <= m <= n,
        catalog_error(catalog, m) is Some,
    ensures
        catalog_error(catalog, n) == catalog_error(catalog, m),
    decreases n - m,
{
    if m < n {
        lemma_catalog_error_settles(catalog, m, n - 1);
    }
}

fn appended(s: String, t: &str) -> (r: String)
    ensures
        r@ == s@ + t@,
{
    let mut out = s;
    out.append(t);
    out
}

fn text3(a: &str, b: &str, c: &str) -> (r: String)
    ensures
        r@ == a@ + b@ + c@,
{
    let mut out = concat_str(a, b);
    out.append(c);
    out
}

/// `prefix`, then `contract.field`, then `suffix`.
fn field_text(prefix: &str, contract: &str, field: &str, suffix: &str) -> (r: String)
    ensures
        r@ == prefix@ + (contract@ + "."@ + field@) + suffix@,
{
    let mut out = String::from_str(prefix);
    out.append(contract);
    out.append(".");
    out.append(field);
    out.append(suffix);
    assert(out@ =~= prefix@ + (contract@ + "."@ + field@) + suffix@);
    out
}

#[verifier::loop_isolation(false)]
fn check_kind(c: &RpcContract) -> (r: Result<(), String>)
    ensures
        match r {
            Ok(()) => kind_error(*c) is None,
            Err(e) => kind_error(*c) == Some(e@),
        },
{
    let n = c.cases.len();
    if c.kind == 1 && n == 0 {
        return Ok(());
    }
    if c.kind == 2 && c.properties.len() == 0 && n > 0 {
        let mut i: usize = 0;
        while i < n
            invariant
                n == c.cases@.len(),
                c.kind == 2,
                c.properties@.len() == 0,
                i <= n,
                forall|k: int| 0 <= k < i ==> #[trigger] c.cases@[k].value == k + 1,
            decreases n - i,
        {
            let v = c.cases[i].value;
            if v < 1 || (v - 1) as u64 != i as u64 {
                assert(c.cases@[i as int].value != i + 1);
                assert(!sequential_values(c.cases@));
                return Err(text3("RPC enum ", c.name.as_str(), " values must be sequential integers from 1"));
            }
            i = i + 1;
        }
        let mut i: usize = 0;
        while i < n
            invariant
                n == c.cases@.len(),
                c.kind == 2,
                c.properties@.len() == 0,
                i <= n,
                sequential_values(c.cases@),
                forall|k: int| 0 <= k < i ==> !#[trigger] bad_case(c.cases@, k),
            decreases n - i,
        {
            let mut bad = !is_type_identifier(c.cases[i].name.as_str());
            let mut j: usize = 0;
            while j < i && !bad
                invariant
                    i < n == c.cases@.len(),
                    j <= i,
                    bad == (!is_identifier(c.cases@[i as int].name@, 0) || case_seen(c.cases@, i as int, j as int)),
                decreases i - j,
            {
                if str_eq(c.cases[j].name.as_str(), c.cases[i].name.as_str()) {
                    assert(c.cases@[j as int].name@ == c.cases@[i as int].name@);
                    bad = true;
                }
                j = j + 1;
            }
            if bad {
                assert(bad_case(c.cases@, i as int));
                return Err(text3("RPC enum ", c.name.as_str(), " has invalid or duplicate cases"));
            }
            assert(!bad_case(c.cases@, i as int));
            i = i + 1;
        }
        assert(!bad_case_names(c.cases@));
        return Ok(());
    }
    let mut out = String::from_str("invalid RPC contract kind ");
    push_decimal_text(&mut out, c.kind as u64);
    out.append(" for ");
    out.append(c.name.as_str());
    Err(out)
}

#[verifier::loop_isolation(false)]
fn check_property(catalog: &RpcCatalog, c: &RpcContract, i: usize) -> (r: Result<(), String>)
    requires
        i < c.properties@.len(),
    ensures
        match r {
            Ok(()) => property_error(*catalog, *c, i as int) is None,
            Err(e) => property_error(*catalog, *c, i as int) == Some(e@),
        },
{
    let p = &c.properties[i];
    let cname = c.name.as_str();
    let pname = p.name.as_str();
    let mut bad = !is_property_identifier(pname);
    let mut j: usize = 0;
    while j < i && !bad
        invariant
            i < c.properties@.len(),
            *p == c.properties@[i as int],
            pname@ == p.name@,
            j <= i,
            bad == (!is_identifier(p.name@, 2) || field_seen(c.properties@, i as int, j as int)),
        decreases i - j,
    {
        if str_eq(c.properties[j].name.as_str(), pname) {
            assert(c.properties@[j as int].name@ == c.properties@[i as int].name@);
            bad = true;
        }
        j = j + 1;
    }
    if bad {
        let m = field_text("invalid or duplicate RPC field ", cname, pname, "");
        proof {
            reveal_strlit("");
            assert(m@ =~= "invalid or duplicate RPC field "@ + (c.name@ + "."@ + p.name@));

        }
        return Err(m);
    }
    if p.kind < 1 || p.kind > 7 {
        let mut m = String::from_str("unsupported RPC field kind ");
        push_decimal_text(&mut m, p.kind as u64);
        m.append(" on ");
        m.append(cname);
        m.append(".");
        m.append(pname);
        assert(m@ =~= "unsupported RPC field kind "@ + decimal_text(p.kind as nat) + " on "@ + (c.name@ + "."@ + p.name@));
        return Err(m);
    }
    let expected: Option<&str> = if p.kind == 1 {
        Some("string")
    } else if p.kind == 2 {
        Some("int")
    } else if p.kind == 3 {
        Some("float")
    } else if p.kind == 4 {
        Some("bool")
    } else if p.kind == 6 {
        Some("array")
    } else {
        None
    };
    assert(expected is Some == expected_scalar(p.kind) is Some);
    assert(expected is Some ==> expected->0@ == expected_scalar(p.kind)->0);
    if let Some(e) = expected {
        if !str_eq(p.type_label.as_str(), e) {
            return Err(appended(field_text("RPC field ", cname, pname, " kind does not match type "), p.type_label.as_str()));
        }
    }
    if p.minimum_exceeds_maximum {
        return Err(field_text("RPC field ", cname, pname, " minimum exceeds maximum"));
    }
    if p.kind == 6 {
        match &p.item_type {
            None => {
                return Err(field_text("RPC array field ", cname, pname, " requires itemType"));
            },
            Some(t) => {
                let item = t.as_str();
                if item.unicode_len() == 0 {
                    return Err(field_text("RPC array field ", cname, pname, " requires itemType"));
                }
                let scalar = str_eq(item, "string") || str_eq(item, "int") || str_eq(item, "float") || str_eq(item, "bool");
                if !scalar {
                    let target = resolve_php(&catalog.php_names, item);
                    if find_contract(&catalog.contracts, target).is_none() {
                        return Err(appended(field_text("RPC array field ", cname, pname, " references unknown item contract "), item));
                    }
                }
            },
        }
    }
    if p.kind == 5 || p.kind == 7 {
        let target = resolve_php(&catalog.php_names, p.type_label.as_str());
        match find_contract(&catalog.contracts, target) {
            None => {
                return Err(appended(field_text("RPC field ", cname, pname, " references unknown contract "), p.type_label.as_str()));
            },
            Some(k) => {
                let target_kind = catalog.contracts[k].kind;
                if (p.kind == 5 && target_kind != 1) || (p.kind == 7 && target_kind != 2) {
                    return Err(appended(field_text("RPC field ", cname, pname, " kind does not match referenced contract "), p.type_label.as_str()));
                }
            },
        }
    }
    Ok(())
}

/// Checks every contract of a catalog, in the catalog's order: its kind and
/// cases, then each field in turn.
pub fn validate_catalog(catalog: &RpcCatalog) -> (r: Result<(), String>)
    ensures
        match r {
            Ok(()) => catalog_error(*catalog, catalog.contracts@.len() as int) is None,
            Err(e) => catalog_error(*catalog, catalog.contracts@.len() as int) == Some(e@),
        },
{
    let n = catalog.contracts.len();
    let mut i: usize = 0;
    while i < n
        invariant
            n == catalog.contracts@.len(),
            i <= n,
            catalog_error(*catalog, i as int) is None,
        decreases n - i,
    {
        let c = &catalog.contracts[i];
        if let Err(e) = check_kind(c) {
            proof {
                assert(catalog_error(*catalog, i + 1) == Some(e@));
                lemma_catalog_error_settles(*catalog, i + 1, n as int);
            }
            return Err(e);
        }
        let m = c.properties.len();
        let mut k: usize = 0;
        while k < m
            invariant
                m == c.properties@.len(),
                i < n == catalog.contracts@.len(),
                *c == catalog.contracts@[i as int],
                catalog_error(*catalog, i as int) is None,
                kind_error(*c) is None,
                k <= m,
                properties_error(*catalog, *c, k as int) is None,
            decreases m - k,
        {
            if let Err(e) = check_property(catalog, c, k) {
                proof {
                    assert(properties_error(*catalog, *c, k + 1) == Some(e@));
                    lemma_properties_error_settles(*catalog, *c, k + 1, m as int);
                    assert(catalog_error(*catalog, i + 1) == Some(e@));
                    lemma_catalog_error_settles(*catalog, i + 1, n as int);
                }
                return Err(e);
            }
            k = k + 1;
        }
        i = i + 1;
    }
    Ok(())
}


/// The name of method `i` occurs among the first `upto` methods.
pub open spec fn method_seen(methods: Seq<RpcMethod>, i: int, upto: int) -> bool {
    exists|q: int| 0 <= q < upto && #[trigger] methods[q].name@ == methods[i].name@
}

/// What is wrong with method `i` of a manifest, if anything.
pub open spec fn method_error(catalog: RpcCatalog, methods: Seq<RpcMethod>, i: int) -> Option<Seq<char>> {
    let m = methods[i];
    if m.kind != METHOD_KIND_UNARY {
        Some("RPC method "@ + m.name@ + " kind must currently be 1 (unary)"@)
    } else if !is_identifier(m.name@, 1) || method_seen(methods, i, i) {
        Some("RPC method names must be unique lowerCamelCase identifiers: "@ + debug_quoted(m.name@))
    } else if contract_named(catalog.contracts@, m.input@) is None {
        Some("RPC method "@ + m.name@ + " references unknown input "@ + m.input@)
    } else if contract_named(catalog.contracts@, m.output@) is None {
        Some("RPC method "@ + m.name@ + " references unknown output "@ + m.output@)
    } else if !(1 <= m.timeout_ms <= METHOD_TIMEOUT_LIMIT_MS) {
        Some("RPC method "@ + m.name@ + " timeoutMs must be between 1 and 3600000"@)
    } else {
        None
    }
}

/// The first error among the first `n` methods.
pub open spec fn methods_error(catalog: RpcCatalog, methods: Seq<RpcMethod>, n: int) -> Option<Seq<char>>
    decreases n,
{
    if n <= 0 {
        None
    } else if methods_error(catalog, methods, n - 1) is Some {
        methods_error(catalog, methods, n - 1)
    } else {
        method_error(catalog, methods, n - 1)
    }
}

/// What is wrong with a manifest against a catalog, if anything.
pub open spec fn manifest_error(manifest: RpcManifest, catalog: RpcCatalog) -> Option<Seq<char>> {
    if manifest.schema_version != 1 {
        Some("unsupported RPC manifest schema "@ + decimal_text(manifest.schema_version as nat))
    } else if !is_identifier(manifest.service@, 0) {
        Some("RPC service must be a PascalCase identifier"@)
    } else if !is_numeric_version(manifest.version@) {
        Some("RPC version must use numeric MAJOR.MINOR.PATCH form"@)
    } else if manifest.methods@.len() == 0 {
        Some("RPC manifest requires at least one method"@)
    } else {
        methods_error(catalog, manifest.methods@, manifest.methods@.len() as int)
    }
}

proof fn lemma_methods_error_settles(catalog: RpcCatalog, methods: Seq<RpcMethod>, m: int, n: int)
    requires
        0 <= m <= n,
        methods_error(catalog, methods, m) is Some,
    ensures
        methods_error(catalog, methods, n) == methods_error(catalog, methods, m),
    decreases n - m,
{
    if m < n {
        lemma_methods_error_settles(catalog, methods, m, n - 1);
    }
}

#[verifier::loop_isolation(false)]
fn check_method(catalog: &RpcCatalog, methods: &Vec<RpcMethod>, i: usize) -> (r: Result<(), String>)
    requires
        i < methods@.len(),
    ensures
        match r {
            Ok(()) => method_error(*catalog, methods@, i as int) is None,
            Err(e) => method_error(*catalog, methods@, i as int) == Some(e@),
        },
{
    let m = &methods[i];
    let name = m.name.as_str();
    if m.kind != METHOD_KIND_UNARY {
        return Err(text3("RPC method ", name, " kind must currently be 1 (unary)"));
    }
    let mut bad = !is_method_identifier(name);
    let mut j: usize = 0;
    while j < i && !bad
        invariant
            j <= i,
            bad == (!is_identifier(m.name@, 1) || method_seen(methods@, i as int, j as int)),
        decreases i - j,
    {
        if str_eq(methods[j].name.as_str(), name) {
            assert(methods@[j as int].name@ == methods@[i as int].name@);
            bad = true;
        }
        j = j + 1;
    }
    if bad {
        return Err(concat_str("RPC method names must be unique lowerCamelCase identifiers: ", quoted(name).as_str()));
    }
    if find_contract(&catalog.contracts, m.input.as_str()).is_none() {
        return Err(appended(text3("RPC method ", name, " references unknown input "), m.input.as_str()));
    }
    if find_contract(&catalog.contracts, m.output.as_str()).is_none() {
        return Err(appended(text3("RPC method ", name, " references unknown output "), m.output.as_str()));
    }
    if m.timeout_ms < 1 || m.timeout_ms > METHOD_TIMEOUT_LIMIT_MS {
        return Err(text3("RPC method ", name, " timeoutMs must be between 1 and 3600000"));
    }
    Ok(())
}

/// Checks a manifest against a catalog: its schema, service name, version,
/// and each method in turn (kind, a unique name, known input and output
/// contracts, a timeout of one millisecond to an hour).
#[verifier::loop_isolation(false)]
pub fn validate_manifest(manifest: &RpcManifest, catalog: &RpcCatalog) -> (r: Result<(), String>)
    ensures
        match r {
            Ok(()) => manifest_error(*manifest, *catalog) is None,
            Err(e) => manifest_error(*manifest, *catalog) == Some(e@),
        },
{
    if manifest.schema_version != 1 {
        let mut out = String::from_str("unsupported RPC manifest schema ");
        push_decimal_text(&mut out, manifest.schema_version as u64);
        return Err(out);
    }
    if !is_type_identifier(manifest.service.as_str()) {
        return Err(String::from_str("RPC service must be a PascalCase identifier"));
    }
    if !valid_version(manifest.version.as_str()) {
        return Err(String::from_str("RPC version must use numeric MAJOR.MINOR.PATCH form"));
    }
    let n = manifest.methods.len();
    if n == 0 {
        return Err(String::from_str("RPC manifest requires at least one method"));
    }
    let mut i: usize = 0;
    while i < n
        invariant
            n == manifest.methods@.len(),
            i <= n,
            methods_error(*catalog, manifest.methods@, i as int) is None,
        decreases n - i,
    {
        if let Err(e) = check_method(catalog, &manifest.methods, i) {
            proof {
                assert(methods_error(*catalog, manifest.methods@, i + 1) == Some(e@));
                lemma_methods_error_settles(*catalog, manifest.methods@, i + 1, n as int);
            }
            return Err(e);
        }
        i = i + 1;
    }
    Ok(())
}


/// An earlier contract among the first `upto` of a list shares the PHP class
/// or the name of contract `i`.
pub open spec fn entry_seen(list: Seq<RpcContract>, i: int, upto: int) -> bool {
    exists|q: int|
        #![trigger list[q]]
        0 <= q < upto && (list[q].php_class@ == list[i].php_class@ || list[q].name@ == list[i].name@)
}

/// What is wrong with contract `i` of a list when it is added to a catalog.
pub open spec fn entry_error(list: Seq<RpcContract>, i: int) -> Option<Seq<char>> {
    if !is_identifier(list[i].name@, 0) {
        Some("invalid RPC contract name "@ + debug_quoted(list[i].name@))
    } else if entry_seen(list, i, i) {
        Some("duplicate RPC contract name or PHP class"@)
    } else {
        None
    }
}

/// The first error among the first `n` contracts of a list.
pub open spec fn entries_error(list: Seq<RpcContract>, n: int) -> Option<Seq<char>>
    decreases n,
{
    if n <= 0 {
        None
    } else if entries_error(list, n - 1) is Some {
        entries_error(list, n - 1)
    } else {
        entry_error(list, n - 1)
    }
}

/// Contracts in strictly increasing order of name.
pub open spec fn sorted_by_name(cs: Seq<RpcContract>) -> bool {
    forall|i: int, j: int| 0 <= i < j < cs.len() ==> text_less(#[trigger] cs[i].name@, #[trigger] cs[j].name@)
}

/// Each contract's PHP class paired with its name, in the list's order.
pub open spec fn php_pairs(list: Seq<RpcContract>) -> Seq<(String, String)> {
    Seq::new(list.len(), |i: int| (list[i].php_class, list[i].name))
}

/// `catalog` holds exactly the contracts of `list`, ordered by name, and
/// maps each PHP class to its contract.
pub open spec fn catalog_of(list: Seq<RpcContract>, catalog: RpcCatalog) -> bool {
    &&& sorted_by_name(catalog.contracts@)
    &&& catalog.contracts@.to_multiset() == list.to_multiset()
    &&& catalog.php_names@ == php_pairs(list)
}

proof fn lemma_entries_error_settles(list: Seq<RpcContract>, m: int, n: int)
    requires
        0 <= m <= n,
        entries_error(list, m) is Some,
    ensures
        entries_error(list, n) == entries_error(list, m),
    decreases n - m,
{
    if m < n {
        lemma_entries_error_settles(list, m, n - 1);
    }
}

fn insert_by_name(sorted: &mut Vec<RpcContract>, c: RpcContract)
    requires
        sorted_by_name(old(sorted)@),
        forall|q: int| 0 <= q < old(sorted)@.len() ==> (#[trigger] old(sorted)@[q]).name@ != c.name@,
    ensures
        sorted_by_name(final(sorted)@),
        final(sorted)@.to_multiset() == old(sorted)@.to_multiset().insert(c),
{
    let mut p: usize = 0;
    while p < sorted.len() && str_less(sorted[p].name.as_str(), c.name.as_str())
        invariant
            p <= sorted@.len(),
            forall|q: int| 0 <= q < p ==> text_less((#[trigger] sorted@[q]).name@, c.name@),
        decreases sorted.len() - p,
    {
        p = p + 1;
    }
    let ghost before = sorted@;
    proof {
        if p < before.len() {
            lemma_text_less_strict_total(before[p as int].name@, c.name@, c.name@);
            assert(text_less(c.name@, before[p as int].name@));
        }
    }
    sorted.insert(p, c);
    proof {
        assert forall|i: int, j: int| 0 <= i < j < sorted@.len() implies text_less(
            #[trigger] sorted@[i].name@,
            #[trigger] sorted@[j].name@,
        ) by {
            if j < p {
                assert(sorted@[i] == before[i] && sorted@[j] == before[j]);
            } else if j == p {
                assert(sorted@[i] == before[i]);
            } else if i == p {
                assert(sorted@[j] == before[j - 1]);
                if j - 1 > p {
                    assert(text_less(before[p as int].name@, before[j - 1].name@));
                    lemma_text_less_strict_total(c.name@, before[p as int].name@, before[j - 1].name@);
                }
            } else if i < p {
                assert(sorted@[i] == before[i] && sorted@[j] == before[j - 1]);
            } else {
                assert(sorted@[i] == before[i - 1] && sorted@[j] == before[j - 1]);
            }
        }
        vstd::seq_lib::to_multiset_insert(before, p as int, c);
    }
}

/// Gathers contracts into a catalog, in the order given: each must carry a
/// type identifier for a name, and no name or PHP class may repeat.
pub fn catalog_from(list: Vec<RpcContract>) -> (r: Result<RpcCatalog, String>)
    ensures
        match r {
            Ok(catalog) => entries_error(list@, list@.len() as int) is None && catalog_of(list@, catalog),
            Err(e) => entries_error(list@, list@.len() as int) == Some(e@),
        },
{
    let n = list.len();
    let mut php: Vec<(String, String)> = Vec::new();
    let mut i: usize = 0;
    while i < n
        invariant
            n == list@.len(),
            i <= n,
            entries_error(list@, i as int) is None,
            forall|a: int| 0 <= a < i ==> #[trigger] entry_error(list@, a) is None,
            php@ == php_pairs(list@.take(i as int)),
        decreases n - i,
    {
        let c = &list[i];
        if !is_type_identifier(c.name.as_str()) {
            let e = concat_str("invalid RPC contract name ", quoted(c.name.as_str()).as_str());
            proof {
                assert(entries_error(list@, i + 1) == Some(e@));
                lemma_entries_error_settles(list@, i + 1, n as int);
            }
            return Err(e);
        }
        let mut seen = false;
        let mut j: usize = 0;
        while j < i && !seen
            invariant
                i < n == list@.len(),
                *c == list@[i as int],
                j <= i,
                seen == entry_seen(list@, i as int, j as int),
            decreases i - j,
        {
            if str_eq(list[j].php_class.as_str(), c.php_class.as_str()) || str_eq(list[j].name.as_str(), c.name.as_str()) {
                assert(list@[j as int].php_class@ == list@[i as int].php_class@ || list@[j as int].name@ == list@[i as int].name@);
                seen = true;
            }
            j = j + 1;
        }
        if seen {
            let e = String::from_str("duplicate RPC contract name or PHP class");
            proof {
                assert(entries_error(list@, i + 1) == Some(e@));
                lemma_entries_error_settles(list@, i + 1, n as int);
            }
            return Err(e);
        }
        php.push((c.php_class.clone(), c.name.clone()));
        proof {
            assert(php_pairs(list@.take(i + 1)) =~= php_pairs(list@.take(i as int)).push((list@[i as int].php_class, list@[i as int].name)));
        }
        i = i + 1;
    }
    proof {
        assert(list@.take(n as int) =~= list@);
    }
    let ghost orig = list@;
    let mut rest = list;
    let mut sorted: Vec<RpcContract> = Vec::new();
    let ghost mut k: int = 0;
    proof {
        assert(orig.skip(0) =~= orig);
        assert(orig.take(0) =~= Seq::<RpcContract>::empty());
        broadcast use vstd::seq_lib::group_to_multiset_ensures;
        assert(sorted@ =~= Seq::<RpcContract>::empty());
    }
    while rest.len() > 0
        invariant
            0 <= k <= orig.len(),
            rest@ == orig.skip(k),
            sorted_by_name(sorted@),
            sorted@.to_multiset() == orig.take(k).to_multiset(),
            forall|a: int| 0 <= a < orig.len() ==> #[trigger] entry_error(orig, a) is None,
        decreases rest.len(),
    {
        let c = rest.remove(0);
        proof {
            assert(c == orig[k]);
            assert forall|q: int| 0 <= q < sorted@.len() implies (#[trigger] sorted@[q]).name@ != c.name@ by {
                broadcast use vstd::seq_lib::group_to_multiset_ensures;
                assert(sorted@.contains(sorted@[q]));
                assert(sorted@.to_multiset().count(sorted@[q]) > 0);
                assert(orig.take(k).contains(sorted@[q]));
                let j = choose|j: int| 0 <= j < orig.take(k).len() && orig.take(k)[j] == sorted@[q];
                assert(orig[j] == sorted@[q]);
                assert(entry_error(orig, k) is None);
                assert(!entry_seen(orig, k, k));
            }
        }
        insert_by_name(&mut sorted, c);
        proof {
            broadcast use vstd::seq_lib::group_to_multiset_ensures;
            assert(orig.take(k + 1) =~= orig.take(k).push(orig[k]));
            assert(rest@ =~= orig.skip(k + 1));
            k = k + 1;
        }
    }
    proof {
        assert(orig.skip(k).len() == 0);
        assert(orig.take(k) =~= orig);
    }
    Ok(RpcCatalog { contracts: sorted, php_names: php })
}

/// Gathers the contracts into a catalog, then checks the catalog and the
/// manifest against it.
pub fn load(manifest: &RpcManifest, contracts: Vec<RpcContract>) -> (r: Result<RpcCatalog, String>)
    ensures
        match r {
            Ok(catalog) => {
                &&& entries_error(contracts@, contracts@.len() as int) is None
                &&& catalog_of(contracts@, catalog)
                &&& catalog_error(catalog, catalog.contracts@.len() as int) is None
                &&& manifest_error(*manifest, catalog) is None
            },
            Err(e) => entries_error(contracts@, contracts@.len() as int) == Some(e@) || (entries_error(
                contracts@,
                contracts@.len() as int,
            ) is None && exists|catalog: RpcCatalog|
                catalog_of(contracts@, catalog) && (catalog_error(catalog, catalog.contracts@.len() as int) == Some(e@)
                    || (catalog_error(catalog, catalog.contracts@.len() as int) is None && manifest_error(
                    *manifest,
                    catalog,
                ) == Some(e@)))),
        },
{
    let ghost list = contracts@;
    let catalog = match catalog_from(contracts) {
        Ok(catalog) => catalog,
        Err(e) => {
            return Err(e);
        },
    };
    if let Err(e) = validate_catalog(&catalog) {
        assert(catalog_of(list, catalog));
        return Err(e);
    }
    if let Err(e) = validate_manifest(manifest, &catalog) {
        assert(catalog_of(list, catalog) && (catalog_error(catalog, catalog.contracts@.len() as int) == Some(e@)
            || (catalog_error(catalog, catalog.contracts@.len() as int) is None && manifest_error(*manifest, catalog)
            == Some(e@))));
        return Err(e);
    }
    Ok(catalog)
}

/// The language of a generated client.
#[derive(Clone, Copy, Debug, PartialEq, Eq, Structural)]
pub enum Target {
    TypeScript,
    Python,
    Rust,
}

/// The type an array item of type `item` has in the target language.
pub open spec fn item_type_in(catalog: RpcCatalog, target: Target, item: Seq<char>) -> Seq<char> {
    match target {
        Target::TypeScript => if item == "string"@ {
            "string"@
        } else if item == "int"@ || item == "float"@ {
            "number"@
        } else if item == "bool"@ {
            "boolean"@
        } else {
            php_target(catalog.php_names@, item)
        },
        Target::Python => if item == "string"@ {
            "str"@
        } else if item == "int"@ {
            "int"@
        } else if item == "float"@ {
            "float"@
        } else if item == "bool"@ {
            "bool"@
        } else {
            php_target(catalog.php_names@, item)
        },
        Target::Rust => if item == "string"@ {
            "String"@
        } else if item == "int"@ {
            "i64"@
        } else if item == "float"@ {
            "f64"@
        } else if item == "bool"@ {
            "bool"@
        } else {
            php_target(catalog.php_names@, item)
        },
    }
}

/// The type a field has in the target language.
pub open spec fn language_type_of(p: RpcProperty, catalog: RpcCatalog, target: Target) -> Seq<char> {
    let reference = php_target(catalog.php_names@, p.type_label@);
    let item = if p.item_type is Some {
        p.item_type->0@
    } else {
        "mixed"@
    };
    if p.kind == 6 {
        match target {
            Target::TypeScript => "ReadonlyArray<"@ + item_type_in(catalog, target, item) + ">"@,
            Target::Python => "list["@ + item_type_in(catalog, target, item) + "]"@,
            Target::Rust => "Vec<"@ + item_type_in(catalog, target, item) + ">"@,
        }
    } else {
        match target {
            Target::TypeScript => if p.kind == 1 {
                "string"@
            } else if p.kind == 2 || p.kind == 3 {
                "number"@
            } else if p.kind == 4 {
                "boolean"@
            } else if p.kind == 5 || p.kind == 7 {
                reference
            } else {
                "unknown"@
            },
            Target::Python => if p.kind == 1 {
                "str"@
            } else if p.kind == 2 {
                "int"@
            } else if p.kind == 3 {
                "float"@
            } else if p.kind == 4 {
                "bool"@
            } else if p.kind == 5 || p.kind == 7 {
                reference
            } else {
                "Any"@
            },
            Target::Rust => if p.kind == 1 {
                "String"@
            } else if p.kind == 2 {
                "i64"@
            } else if p.kind == 3 {
                "f64"@
            } else if p.kind == 4 {
                "bool"@
            } else if p.kind == 5 {
                "Box<"@ + reference + ">"@
            } else if p.kind == 7 {
                reference
            } else {
                "serde_json::Value"@
            },
        }
    }
}

fn item_type_text(catalog: &RpcCatalog, target: Target, item: &str) -> (r: String)
    ensures
        r@ == item_type_in(*catalog, target, item@),
{
    let (text_name, integer_name, float_name, boolean_name): (&str, &str, &str, &str) = match target {
        Target::TypeScript => ("string", "number", "number", "boolean"),
        Target::Python => ("str", "int", "float", "bool"),
        Target::Rust => ("String", "i64", "f64", "bool"),
    };
    if str_eq(item, "string") {
        String::from_str(text_name)
    } else if str_eq(item, "int") {
        String::from_str(integer_name)
    } else if str_eq(item, "float") {
        String::from_str(float_name)
    } else if str_eq(item, "bool") {
        String::from_str(boolean_name)
    } else {
        String::from_str(resolve_php(&catalog.php_names, item))
    }
}

/// Writes the type of a field in the target language.
pub fn language_type(p: &RpcProperty, catalog: &RpcCatalog, target: Target) -> (r: String)
    ensures
        r@ == language_type_of(*p, *catalog, target),
{
    if p.kind == 6 {
        let item = match &p.item_type {
            Some(t) => t.as_str(),
            None => "mixed",
        };
        let (open, close): (&str, &str) = match target {
            Target::TypeScript => ("ReadonlyArray<", ">"),
            Target::Python => ("list[", "]"),
            Target::Rust => ("Vec<", ">"),
        };
        let inner = item_type_text(catalog, target, item);
        return text3(open, inner.as_str(), close);
    }
    let reference = resolve_php(&catalog.php_names, p.type_label.as_str());
    match target {
        Target::TypeScript => {
            if p.kind == 1 {
                String::from_str("string")
            } else if p.kind == 2 || p.kind == 3 {
                String::from_str("number")
            } else if p.kind == 4 {
                String::from_str("boolean")
            } else if p.kind == 5 || p.kind == 7 {
                String::from_str(reference)
            } else {
                String::from_str("unknown")
            }
        },
        Target::Python => {
            if p.kind == 1 {
                String::from_str("str")
            } else if p.kind == 2 {
                String::from_str("int")
            } else if p.kind == 3 {
                String::from_str("float")
            } else if p.kind == 4 {
                String::from_str("bool")
            } else if p.kind == 5 || p.kind == 7 {
                String::from_str(reference)
            } else {
                String::from_str("Any")
            }
        },
        Target::Rust => {
            if p.kind == 1 {
                String::from_str("String")
            } else if p.kind == 2 {
                String::from_str("i64")
            } else if p.kind == 3 {
                String::from_str("f64")
            } else if p.kind == 4 {
                String::from_str("bool")
            } else if p.kind == 5 {
                text3("Box<", reference, ">")
            } else if p.kind == 7 {
                String::from_str(reference)
            } else {
                String::from_str("serde_json::Value")
            }
        },
    }
}

/// One row of the method table.
pub open spec fn markdown_row(m: RpcMethod) -> Seq<char> {
    "| `"@ + m.name@ + "` | `"@ + decimal_text(m.kind as nat) + "` | `"@ + m.input@ + "` | `"@ + m.output@ + "` | "@
        + decimal_text(m.timeout_ms as nat) + " ms | "@ + (if m.idempotent { "yes"@ } else { "no"@ }) + " |\n"@
}

/// The rows of the first `n` methods.
pub open spec fn markdown_rows(methods: Seq<RpcMethod>, n: int) -> Seq<char>
    decreases n,
{
    if n <= 0 {
        Seq::empty()
    } else {
        markdown_rows(methods, n - 1) + markdown_row(methods[n - 1])
    }
}

/// The closing paragraph of the method document.
pub open spec fn markdown_footer() -> Seq<char> {
    "\nKinds are sequential integers: request `1`, success `2`, failure `3`. Unknown fields and contract violations are rejected before guest execution and again on the response boundary.\n"@
}

/// The Markdown document of a service's methods.
pub open spec fn markdown_of(m: RpcManifest) -> Seq<char> {
    "# "@ + m.service@ + " RPC\n\nVersion `"@ + m.version@ + "` · PAM RPC protocol `1`\n\n"@
        + "| Method | Kind | Input | Output | Deadline | Idempotent |\n"@ + "| --- | ---: | --- | --- | ---: | --- |\n"@
        + markdown_rows(m.methods@, m.methods@.len() as int) + markdown_footer()
}

fn append_markdown_row(out: &mut String, m: &RpcMethod)
    ensures
        final(out)@ == old(out)@ + markdown_row(*m),
{
    let ghost before = out@;
    out.append("| `");
    out.append(m.name.as_str());
    out.append("` | `");
    push_decimal_text(out, m.kind as u64);
    out.append("` | `");
    out.append(m.input.as_str());
    out.append("` | `");
    out.append(m.output.as_str());
    out.append("` | ");
    push_decimal_text(out, m.timeout_ms);
    out.append(" ms | ");
    out.append(if m.idempotent {
        "yes"
    } else {
        "no"
    });
    out.append(" |\n");
    assert(out@ =~= before + markdown_row(*m));
}

/// Writes the Markdown document of a service's methods.
pub fn rpc_markdown(manifest: &RpcManifest) -> (r: String)
    ensures
        r@ == markdown_of(*manifest),
{
    let mut out = String::from_str("# ");
    out.append(manifest.service.as_str());
    out.append(" RPC\n\nVersion `");
    out.append(manifest.version.as_str());
    out.append("` · PAM RPC protocol `1`\n\n");
    out.append("| Method | Kind | Input | Output | Deadline | Idempotent |\n");
    out.append("| --- | ---: | --- | --- | ---: | --- |\n");
    let ghost head = out@;
    let mut i: usize = 0;
    while i < manifest.methods.len()
        invariant
            i <= manifest.methods@.len(),
            out@ == head + markdown_rows(manifest.methods@, i as int),
        decreases manifest.methods.len() - i,
    {
        append_markdown_row(&mut out, &manifest.methods[i]);
        i = i + 1;
    }
    out.append("\nKinds are sequential integers: request `1`, success `2`, failure `3`. Unknown fields and contract violations are rejected before guest execution and again on the response boundary.\n");
    proof {
        assert(out@ =~= markdown_of(*manifest));
    }
    out
}

/// A signed integer in decimal, with a leading `-` when negative.
pub open spec fn signed_decimal(v: int) -> Seq<char> {
    if v < 0 {
        seq!['-'] + decimal_text((-v) as nat)
    } else {
        decimal_text(v as nat)
    }
}

fn push_signed_decimal(out: &mut String, v: i64)
    ensures
        final(out)@ == old(out)@ + signed_decimal(v as int),
{
    if v < 0 {
        let magnitude: u64 = if v == i64::MIN {
            9_223_372_036_854_775_808u64
        } else {
            (-v) as u64
        };
        crate::text::push_char(out, '-');
        push_decimal_text(out, magnitude);
        assert(out@ =~= old(out)@ + signed_decimal(v as int));
    } else {
        push_decimal_text(out, v as u64);
    }
}

/// The fixed opening of a generated TypeScript client.
pub open spec fn typescript_prelude() -> Seq<char> {
    "// Generated by `pam rpc generate`. Do not edit.\nexport const PAM_RPC_PROTOCOL_VERSION = 1 as const;\nexport type PamRpcError = { readonly code: number; readonly message: string };\nexport type PamRpcRequest = { readonly protocolVersion: 1; readonly id: string; readonly kind: 1; readonly service: string; readonly method: string; readonly payload: unknown };\nexport type PamRpcResponse = { readonly protocolVersion: 1; readonly id: string; readonly kind: 2; readonly result: unknown } | { readonly protocolVersion: 1; readonly id: string; readonly kind: 3; readonly error: PamRpcError };\nexport type PamRpcTransport = (request: PamRpcRequest, signal?: AbortSignal) => Promise<unknown>;\nexport type PamRpcIdFactory = () => string;\n\nfunction defaultPamRpcId(): string {\n  if (typeof globalThis.crypto?.randomUUID !== \"function\") throw new Error(\"PAM RPC requires an id factory when crypto.randomUUID is unavailable\");\n  return globalThis.crypto.randomUUID();\n}\n\nfunction pamRpcResponse(value: unknown): PamRpcResponse {\n  if (typeof value !== \"object\" || value === null || Array.isArray(value)) throw new Error(\"PAM RPC response must be an object\");\n  const response = value as Record<string, unknown>;\n  if (response.protocolVersion !== 1 || typeof response.id !== \"string\") throw new Error(\"PAM RPC response metadata is invalid\");\n  if (response.kind === 2 && \"result\" in response) return value as PamRpcResponse;\n  if (response.kind === 3 && typeof response.error === \"object\" && response.error !== null) {\n    const error = response.error as Record<string, unknown>;\n    if (typeof error.code === \"number\" && Number.isInteger(error.code) && error.code > 0 && typeof error.message === \"string\") return value as PamRpcResponse;\n  }\n  throw new Error(\"PAM RPC response envelope is invalid\");\n}\n\n"@
}

/// The lines of cases `0..n` of an enum, in a language's form: `  Name = 1,`
/// for TypeScript.
pub open spec fn typescript_cases(cases: Seq<RpcCase>, n: int) -> Seq<char>
    decreases n,
{
    if n <= 0 {
        Seq::empty()
    } else {
        typescript_cases(cases, n - 1) + "  "@ + cases[n - 1].name@ + " = "@ + signed_decimal(cases[n - 1].value as int) + ",\n"@
    }
}

/// The TypeScript lines of fields `0..n` of an interface.
pub open spec fn typescript_fields(catalog: RpcCatalog, props: Seq<RpcProperty>, n: int) -> Seq<char>
    decreases n,
{
    if n <= 0 {
        Seq::empty()
    } else {
        let p = props[n - 1];
        typescript_fields(catalog, props, n - 1) + "  readonly "@ + p.name@ + (if p.nullable { "?"@ } else { ""@ }) + ": "@
            + language_type_of(p, catalog, Target::TypeScript) + (if p.nullable { " | null"@ } else { ""@ }) + ";\n"@
    }
}

/// The TypeScript declaration of a contract.
pub open spec fn typescript_contract(catalog: RpcCatalog, c: RpcContract) -> Seq<char> {
    if c.kind == 2 {
        "export enum "@ + c.name@ + " {\n"@ + typescript_cases(c.cases@, c.cases@.len() as int) + "}\n\n"@
    } else {
        "export interface "@ + c.name@ + " {\n"@ + typescript_fields(catalog, c.properties@, c.properties@.len() as int)
            + "}\n\n"@
    }
}

/// The TypeScript declarations of contracts `0..n` of the catalog.
pub open spec fn typescript_contracts(catalog: RpcCatalog, n: int) -> Seq<char>
    decreases n,
{
    if n <= 0 {
        Seq::empty()
    } else {
        typescript_contracts(catalog, n - 1) + typescript_contract(catalog, catalog.contracts@[n - 1])
    }
}

/// The TypeScript client method of an RPC method.
pub open spec fn typescript_method(service: Seq<char>, m: RpcMethod) -> Seq<char> {
    "  public async "@ + m.name@ + "(payload: "@ + m.input@
        + ", options: { readonly signal?: AbortSignal; readonly id?: string } = {}): Promise<"@ + m.output@ + "> {\n"@
        + "    const id = options.id ?? this.createId();\n"@
        + "    const response = pamRpcResponse(await this.transport({ protocolVersion: 1, id, kind: 1, service: "@
        + debug_quoted(service) + ", method: "@ + debug_quoted(m.name@) + ", payload }, options.signal));\n"@
        + "    if (response.id !== id) throw new Error(\"PAM RPC response id mismatch\");\n"@
        + "    if (response.kind === 3) throw new Error(`PAM RPC ${response.error.code}: ${response.error.message}`);\n"@
        + "    return response.result as "@ + m.output@ + ";\n"@ + "  }\n"@
}

/// The TypeScript client methods of methods `0..n`.
pub open spec fn typescript_methods(service: Seq<char>, methods: Seq<RpcMethod>, n: int) -> Seq<char>
    decreases n,
{
    if n <= 0 {
        Seq::empty()
    } else {
        typescript_methods(service, methods, n - 1) + typescript_method(service, methods[n - 1])
    }
}

/// The generated TypeScript client of a service.
pub open spec fn typescript_client(m: RpcManifest, catalog: RpcCatalog) -> Seq<char> {
    typescript_prelude() + typescript_contracts(catalog, catalog.contracts@.len() as int) + "export class "@ + m.service@
        + "Client {\n  public constructor(private readonly transport: PamRpcTransport, private readonly createId: PamRpcIdFactory = defaultPamRpcId) {}\n"@
        + typescript_methods(m.service@, m.methods@, m.methods@.len() as int) + "}\n"@
}

fn append_typescript_contract(out: &mut String, catalog: &RpcCatalog, c: &RpcContract)
    ensures
        final(out)@ == old(out)@ + typescript_contract(*catalog, *c),
{
    let ghost start = out@;
    proof {
        reveal_strlit("");
    }
    if c.kind == 2 {
        out.append("export enum ");
        out.append(c.name.as_str());
        out.append(" {\n");
        let ghost head = out@;
        let mut i: usize = 0;
        while i < c.cases.len()
            invariant
                i <= c.cases@.len(),
                out@ == head + typescript_cases(c.cases@, i as int),
            decreases c.cases.len() - i,
        {
            let ghost before = out@;
            out.append("  ");
            out.append(c.cases[i].name.as_str());
            out.append(" = ");
            push_signed_decimal(out, c.cases[i].value);
            out.append(",\n");
            proof {
                assert(out@ =~= before + "  "@ + c.cases@[i as int].name@ + " = "@ + signed_decimal(c.cases@[i as int].value as int) + ",\n"@);
                assert(out@ =~= head + typescript_cases(c.cases@, i + 1));
            }
            i = i + 1;
        }
        out.append("}\n\n");
        proof {
            assert(out@ =~= start + typescript_contract(*catalog, *c));
        }
    } else {
        out.append("export interface ");
        out.append(c.name.as_str());
        out.append(" {\n");
        let ghost head = out@;
        let mut i: usize = 0;
        while i < c.properties.len()
            invariant
                i <= c.properties@.len(),
                out@ == head + typescript_fields(*catalog, c.properties@, i as int),
            decreases c.properties.len() - i,
        {
            let p = &c.properties[i];
            let ghost before = out@;
            out.append("  readonly ");
            out.append(p.name.as_str());
            out.append(if p.nullable { "?" } else { "" });
            out.append(": ");
            let shown = language_type(p, catalog, Target::TypeScript);
            out.append(shown.as_str());
            out.append(if p.nullable { " | null" } else { "" });
            out.append(";\n");
            proof {
                assert(out@ =~= head + typescript_fields(*catalog, c.properties@, i + 1));
            }
            i = i + 1;
        }
        out.append("}\n\n");
        proof {
            assert(out@ =~= start + typescript_contract(*catalog, *c));
        }
    }
}

/// Appends the TypeScript declarations of every contract, in catalog order.
pub fn append_typescript_contracts(out: &mut String, catalog: &RpcCatalog)
    ensures
        final(out)@ == old(out)@ + typescript_contracts(*catalog, catalog.contracts@.len() as int),
{
    let ghost start = out@;
    let mut i: usize = 0;
    while i < catalog.contracts.len()
        invariant
            i <= catalog.contracts@.len(),
            out@ == start + typescript_contracts(*catalog, i as int),
        decreases catalog.contracts.len() - i,
    {
        append_typescript_contract(out, catalog, &catalog.contracts[i]);
        proof {
            assert(out@ =~= start + typescript_contracts(*catalog, i + 1));
        }
        i = i + 1;
    }
}

#[verifier::rlimit(40)]
fn append_typescript_method(out: &mut String, service: &str, service_quoted: &str, m: &RpcMethod)
    requires
        service_quoted@ == debug_quoted(service@),
    ensures
        final(out)@ == old(out)@ + typescript_method(service@, *m),
{
    let ghost before = out@;
    let method_quoted = quoted(m.name.as_str());
    out.append("  public async ");
    out.append(m.name.as_str());
    out.append("(payload: ");
    out.append(m.input.as_str());
    out.append(", options: { readonly signal?: AbortSignal; readonly id?: string } = {}): Promise<");
    out.append(m.output.as_str());
    out.append("> {\n");
    out.append("    const id = options.id ?? this.createId();\n");
    out.append("    const response = pamRpcResponse(await this.transport({ protocolVersion: 1, id, kind: 1, service: ");
    out.append(service_quoted);
    out.append(", method: ");
    out.append(method_quoted.as_str());
    out.append(", payload }, options.signal));\n");
    out.append("    if (response.id !== id) throw new Error(\"PAM RPC response id mismatch\");\n");
    out.append("    if (response.kind === 3) throw new Error(`PAM RPC ${response.error.code}: ${response.error.message}`);\n");
    out.append("    return response.result as ");
    out.append(m.output.as_str());
    out.append(";\n");
    out.append("  }\n");
    assert(out@ =~= before + typescript_method(service@, *m));
}

/// Writes the TypeScript client of a service and its contracts.
pub fn typescript_sdk(manifest: &RpcManifest, catalog: &RpcCatalog) -> (r: String)
    ensures
        r@ == typescript_client(*manifest, *catalog),
{
    let mut out = String::from_str("// Generated by `pam rpc generate`. Do not edit.\nexport const PAM_RPC_PROTOCOL_VERSION = 1 as const;\nexport type PamRpcError = { readonly code: number; readonly message: string };\nexport type PamRpcRequest = { readonly protocolVersion: 1; readonly id: string; readonly kind: 1; readonly service: string; readonly method: string; readonly payload: unknown };\nexport type PamRpcResponse = { readonly protocolVersion: 1; readonly id: string; readonly kind: 2; readonly result: unknown } | { readonly protocolVersion: 1; readonly id: string; readonly kind: 3; readonly error: PamRpcError };\nexport type PamRpcTransport = (request: PamRpcRequest, signal?: AbortSignal) => Promise<unknown>;\nexport type PamRpcIdFactory = () => string;\n\nfunction defaultPamRpcId(): string {\n  if (typeof globalThis.crypto?.randomUUID !== \"function\") throw new Error(\"PAM RPC requires an id factory when crypto.randomUUID is unavailable\");\n  return globalThis.crypto.randomUUID();\n}\n\nfunction pamRpcResponse(value: unknown): PamRpcResponse {\n  if (typeof value !== \"object\" || value === null || Array.isArray(value)) throw new Error(\"PAM RPC response must be an object\");\n  const response = value as Record<string, unknown>;\n  if (response.protocolVersion !== 1 || typeof response.id !== \"string\") throw new Error(\"PAM RPC response metadata is invalid\");\n  if (response.kind === 2 && \"result\" in response) return value as PamRpcResponse;\n  if (response.kind === 3 && typeof response.error === \"object\" && response.error !== null) {\n    const error = response.error as Record<string, unknown>;\n    if (typeof error.code === \"number\" && Number.isInteger(error.code) && error.code > 0 && typeof error.message === \"string\") return value as PamRpcResponse;\n  }\n  throw new Error(\"PAM RPC response envelope is invalid\");\n}\n\n");
    append_typescript_contracts(&mut out, catalog);
    out.append("export class ");
    out.append(manifest.service.as_str());
    out.append("Client {\n  public constructor(private readonly transport: PamRpcTransport, private readonly createId: PamRpcIdFactory = defaultPamRpcId) {}\n");
    let ghost head = out@;
    let service = quoted(manifest.service.as_str());
    let mut i: usize = 0;
    while i < manifest.methods.len()
        invariant
            i <= manifest.methods@.len(),
            service@ == debug_quoted(manifest.service@),
            out@ == head + typescript_methods(manifest.service@, manifest.methods@, i as int),
        decreases manifest.methods.len() - i,
    {
        append_typescript_method(&mut out, manifest.service.as_str(), service.as_str(), &manifest.methods[i]);
        proof {
            assert(out@ =~= head + typescript_methods(manifest.service@, manifest.methods@, i + 1));
        }
        i = i + 1;
    }
    out.append("}\n");
    proof {
        assert(out@ =~= typescript_client(*manifest, *catalog));
    }
    out
}

/// The fixed opening of a generated Python client.
pub open spec fn python_prelude() -> Seq<char> {
    "# Generated by `pam rpc generate`. Do not edit.\nfrom __future__ import annotations\nfrom enum import IntEnum\nfrom typing import Any, Awaitable, Callable, Mapping, NotRequired, TypedDict, cast\nfrom uuid import uuid4\n\nPamRpcTransport = Callable[[dict[str, Any]], Awaitable[object]]\n\ndef _pam_rpc_response(value: object, request_id: str) -> Mapping[str, Any]:\n    if not isinstance(value, Mapping):\n        raise RuntimeError(\"PAM RPC response must be an object\")\n    if value.get(\"protocolVersion\") != 1 or value.get(\"id\") != request_id:\n        raise RuntimeError(\"PAM RPC response metadata mismatch\")\n    kind = value.get(\"kind\")\n    if kind == 2 and \"result\" in value:\n        return value\n    if kind == 3 and isinstance(value.get(\"error\"), Mapping):\n        error = cast(Mapping[str, Any], value[\"error\"])\n        code = error.get(\"code\")\n        if isinstance(code, int) and not isinstance(code, bool) and code > 0 and isinstance(error.get(\"message\"), str):\n            return value\n    raise RuntimeError(\"PAM RPC response envelope is invalid\")\n\n"@
}

/// The Python lines of cases `0..n` of an enum.
pub open spec fn python_cases(cases: Seq<RpcCase>, n: int) -> Seq<char>
    decreases n,
{
    if n <= 0 {
        Seq::empty()
    } else {
        python_cases(cases, n - 1) + "    "@ + cases[n - 1].name@ + " = "@ + signed_decimal(cases[n - 1].value as int) + "\n"@
    }
}

/// The Python lines of fields `0..n` of a typed dictionary.
pub open spec fn python_fields(catalog: RpcCatalog, props: Seq<RpcProperty>, n: int) -> Seq<char>
    decreases n,
{
    if n <= 0 {
        Seq::empty()
    } else {
        let p = props[n - 1];
        python_fields(catalog, props, n - 1) + "    "@ + p.name@ + ": "@ + (if p.nullable { "NotRequired["@ } else { ""@ })
            + language_type_of(p, catalog, Target::Python) + (if p.nullable { " | None]"@ } else { ""@ }) + "\n"@
    }
}

/// The Python declaration of a contract.
pub open spec fn python_contract(catalog: RpcCatalog, c: RpcContract) -> Seq<char> {
    if c.kind == 2 {
        "class "@ + c.name@ + "(IntEnum):\n"@ + python_cases(c.cases@, c.cases@.len() as int) + "\n"@
    } else if c.properties@.len() == 0 {
        "class "@ + c.name@ + "(TypedDict):\n"@ + "    pass\n\n"@
    } else {
        "class "@ + c.name@ + "(TypedDict):\n"@ + python_fields(catalog, c.properties@, c.properties@.len() as int) + "\n"@
    }
}

/// The Python declarations of contracts `0..n` of the catalog.
pub open spec fn python_contracts(catalog: RpcCatalog, n: int) -> Seq<char>
    decreases n,
{
    if n <= 0 {
        Seq::empty()
    } else {
        python_contracts(catalog, n - 1) + python_contract(catalog, catalog.contracts@[n - 1])
    }
}

/// The Python client method of an RPC method.
pub open spec fn python_method(service: Seq<char>, m: RpcMethod) -> Seq<char> {
    "    async def "@ + snake_prefix(m.name@, m.name@.len()) + "(self, payload: "@ + m.input@ + ", request_id: str | None = None) -> "@ + m.output@ + ":\n"@ + "        rpc_id = request_id or str(uuid4())\n"@ + "        response = _pam_rpc_response(await self._transport({\"protocolVersion\": 1, \"id\": rpc_id, \"kind\": 1, \"service\": "@ + debug_quoted(service) + ", \"method\": "@ + debug_quoted(m.name@) + ", \"payload\": payload}), rpc_id)\n"@ + "        if response.get(\"kind\") == 3:\n"@ + "            error = cast(Mapping[str, Any], response[\"error\"])\n"@ + "            raise RuntimeError(f\"PAM RPC {error.get('code')}: {error.get('message')}\")\n"@ + "        return cast("@ + m.output@ + ", response[\"result\"])\n\n"@
}

/// The Python client methods of methods `0..n`.
pub open spec fn python_methods(service: Seq<char>, methods: Seq<RpcMethod>, n: int) -> Seq<char>
    decreases n,
{
    if n <= 0 {
        Seq::empty()
    } else {
        python_methods(service, methods, n - 1) + python_method(service, methods[n - 1])
    }
}

/// The generated Python client of a service.
pub open spec fn python_client(m: RpcManifest, catalog: RpcCatalog) -> Seq<char> {
    python_prelude() + python_contracts(catalog, catalog.contracts@.len() as int) + "class "@ + m.service@
        + "Client:\n    def __init__(self, transport: PamRpcTransport) -> None:\n        self._transport = transport\n\n"@
        + python_methods(m.service@, m.methods@, m.methods@.len() as int)
}

fn append_python_contract(out: &mut String, catalog: &RpcCatalog, c: &RpcContract)
    ensures
        final(out)@ == old(out)@ + python_contract(*catalog, *c),
{
    let ghost start = out@;
    proof {
        reveal_strlit("");
    }
    if c.kind == 2 {
        out.append("class ");
        out.append(c.name.as_str());
        out.append("(IntEnum):\n");
        let ghost head = out@;
        let mut i: usize = 0;
        while i < c.cases.len()
            invariant
                i <= c.cases@.len(),
                out@ == head + python_cases(c.cases@, i as int),
            decreases c.cases.len() - i,
        {
            let ghost before = out@;
            out.append("    ");
            out.append(c.cases[i].name.as_str());
            out.append(" = ");
            push_signed_decimal(out, c.cases[i].value);
            out.append("\n");
            proof {
                assert(out@ =~= head + python_cases(c.cases@, i + 1));
            }
            i = i + 1;
        }
        out.append("\n");
        proof {
            assert(out@ =~= start + python_contract(*catalog, *c));
        }
    } else if c.properties.len() == 0 {
        out.append("class ");
        out.append(c.name.as_str());
        out.append("(TypedDict):\n");
        out.append("    pass\n\n");
        proof {
            assert(out@ =~= start + python_contract(*catalog, *c));
        }
    } else {
        out.append("class ");
        out.append(c.name.as_str());
        out.append("(TypedDict):\n");
        let ghost head = out@;
        let mut i: usize = 0;
        while i < c.properties.len()
            invariant
                i <= c.properties@.len(),
                out@ == head + python_fields(*catalog, c.properties@, i as int),
            decreases c.properties.len() - i,
        {
            let p = &c.properties[i];
            out.append("    ");
            out.append(p.name.as_str());
            out.append(": ");
            out.append(if p.nullable { "NotRequired[" } else { "" });
            let shown = language_type(p, catalog, Target::Python);
            out.append(shown.as_str());
            out.append(if p.nullable { " | None]" } else { "" });
            out.append("\n");
            proof {
                assert(out@ =~= head + python_fields(*catalog, c.properties@, i + 1));
            }
            i = i + 1;
        }
        out.append("\n");
        proof {
            assert(out@ =~= start + python_contract(*catalog, *c));
        }
    }
}

#[verifier::rlimit(40)]
fn append_python_method(out: &mut String, service: &str, service_quoted: &str, m: &RpcMethod)
    requires
        service_quoted@ == debug_quoted(service@),
    ensures
        final(out)@ == old(out)@ + python_method(service@, *m),
{
    let ghost before = out@;
    let method_quoted = quoted(m.name.as_str());
    let snake = to_snake_case(m.name.as_str());
    out.append("    async def ");
    out.append(snake.as_str());
    out.append("(self, payload: ");
    out.append(m.input.as_str());
    out.append(", request_id: str | None = None) -> ");
    out.append(m.output.as_str());
    out.append(":\n");
    out.append("        rpc_id = request_id or str(uuid4())\n");
    out.append("        response = _pam_rpc_response(await self._transport({\"protocolVersion\": 1, \"id\": rpc_id, \"kind\": 1, \"service\": ");
    out.append(service_quoted);
    out.append(", \"method\": ");
    out.append(method_quoted.as_str());
    out.append(", \"payload\": payload}), rpc_id)\n");
    out.append("        if response.get(\"kind\") == 3:\n");
    out.append("            error = cast(Mapping[str, Any], response[\"error\"])\n");
    out.append("            raise RuntimeError(f\"PAM RPC {error.get('code')}: {error.get('message')}\")\n");
    out.append("        return cast(");
    out.append(m.output.as_str());
    out.append(", response[\"result\"])\n\n");
    assert(out@ =~= before + python_method(service@, *m));
}

/// Writes the Python client of a service and its contracts.
pub fn python_sdk(manifest: &RpcManifest, catalog: &RpcCatalog) -> (r: String)
    ensures
        r@ == python_client(*manifest, *catalog),
{
    let mut out = String::from_str("# Generated by `pam rpc generate`. Do not edit.\nfrom __future__ import annotations\nfrom enum import IntEnum\nfrom typing import Any, Awaitable, Callable, Mapping, NotRequired, TypedDict, cast\nfrom uuid import uuid4\n\nPamRpcTransport = Callable[[dict[str, Any]], Awaitable[object]]\n\ndef _pam_rpc_response(value: object, request_id: str) -> Mapping[str, Any]:\n    if not isinstance(value, Mapping):\n        raise RuntimeError(\"PAM RPC response must be an object\")\n    if value.get(\"protocolVersion\") != 1 or value.get(\"id\") != request_id:\n        raise RuntimeError(\"PAM RPC response metadata mismatch\")\n    kind = value.get(\"kind\")\n    if kind == 2 and \"result\" in value:\n        return value\n    if kind == 3 and isinstance(value.get(\"error\"), Mapping):\n        error = cast(Mapping[str, Any], value[\"error\"])\n        code = error.get(\"code\")\n        if isinstance(code, int) and not isinstance(code, bool) and code > 0 and isinstance(error.get(\"message\"), str):\n            return value\n    raise RuntimeError(\"PAM RPC response envelope is invalid\")\n\n");
    let ghost start = out@;
    let mut i: usize = 0;
    while i < catalog.contracts.len()
        invariant
            i <= catalog.contracts@.len(),
            out@ == start + python_contracts(*catalog, i as int),
        decreases catalog.contracts.len() - i,
    {
        append_python_contract(&mut out, catalog, &catalog.contracts[i]);
        proof {
            assert(out@ =~= start + python_contracts(*catalog, i + 1));
        }
        i = i + 1;
    }
    out.append("class ");
    out.append(manifest.service.as_str());
    out.append("Client:\n    def __init__(self, transport: PamRpcTransport) -> None:\n        self._transport = transport\n\n");
    let ghost head = out@;
    let service = quoted(manifest.service.as_str());
    let mut i: usize = 0;
    while i < manifest.methods.len()
        invariant
            i <= manifest.methods@.len(),
            service@ == debug_quoted(manifest.service@),
            out@ == head + python_methods(manifest.service@, manifest.methods@, i as int),
        decreases manifest.methods.len() - i,
    {
        append_python_method(&mut out, manifest.service.as_str(), service.as_str(), &manifest.methods[i]);
        proof {
            assert(out@ =~= head + python_methods(manifest.service@, manifest.methods@, i + 1));
        }
        i = i + 1;
    }
    proof {
        assert(out@ =~= python_client(*manifest, *catalog));
    }
    out
}

/// The Rust lines of cases `0..n` of an enum.
pub open spec fn rust_cases(cases: Seq<RpcCase>, n: int) -> Seq<char>
    decreases n,
{
    if n <= 0 {
        Seq::empty()
    } else {
        rust_cases(cases, n - 1) + "    "@ + cases[n - 1].name@ + " = "@ + signed_decimal(cases[n - 1].value as int) + ",\n"@
    }
}

/// The match arms of cases `0..n` of an enum's conversion from an integer.
pub open spec fn rust_case_arms(cases: Seq<RpcCase>, n: int) -> Seq<char>
    decreases n,
{
    if n <= 0 {
        Seq::empty()
    } else {
        rust_case_arms(cases, n - 1) + "            "@ + signed_decimal(cases[n - 1].value as int) + " => Ok(Self::"@
            + cases[n - 1].name@ + "),\n"@
    }
}

/// The Rust fields `0..n` of a struct.
pub open spec fn rust_fields(catalog: RpcCatalog, props: Seq<RpcProperty>, n: int) -> Seq<char>
    decreases n,
{
    if n <= 0 {
        Seq::empty()
    } else {
        let p = props[n - 1];
        let shown = language_type_of(p, catalog, Target::Rust);
        rust_fields(catalog, props, n - 1) + "    pub "@ + p.name@ + ": "@ + (if p.nullable {
            "Option<"@ + shown + ">"@
        } else {
            shown
        }) + ",\n"@
    }
}

/// The Rust declaration of a contract.
pub open spec fn rust_contract(catalog: RpcCatalog, c: RpcContract) -> Seq<char> {
    if c.kind == 2 {
        "#[derive(Clone, Copy, Debug, Deserialize, Serialize)]\n#[repr(i64)]\n#[serde(try_from = \"i64\", into = \"i64\")]\npub enum "@ + c.name@ + " {\n"@ + rust_cases(c.cases@, c.cases@.len() as int) + "}\n\n"@
            + "impl TryFrom<i64> for "@ + c.name@ + " {\n    type Error = String;\n\n    fn try_from(value: i64) -> Result<Self, Self::Error> {\n        match value {\n"@ + rust_case_arms(c.cases@, c.cases@.len() as int)
            + "            _ => Err(format!(\"invalid "@ + c.name@ + " value {value}\")),\n        }\n    }\n}\n\n"@
            + "impl From<"@ + c.name@ + "> for i64 {\n    fn from(value: "@ + c.name@ + ") -> Self {\n        value as i64\n    }\n}\n\n"@
    } else {
        "#[derive(Clone, Debug, Deserialize, Serialize)]\n#[serde(deny_unknown_fields)]\npub struct "@ + c.name@ + " {\n"@ + rust_fields(catalog, c.properties@, c.properties@.len() as int) + "}\n\n"@
    }
}

/// The Rust declarations of contracts `0..n` of the catalog.
pub open spec fn rust_contracts(catalog: RpcCatalog, n: int) -> Seq<char>
    decreases n,
{
    if n <= 0 {
        Seq::empty()
    } else {
        rust_contracts(catalog, n - 1) + rust_contract(catalog, catalog.contracts@[n - 1])
    }
}

/// The Rust client method of an RPC method.
pub open spec fn rust_method(service: Seq<char>, m: RpcMethod) -> Seq<char> {
    "\n    pub fn "@
        + snake_prefix(m.name@, m.name@.len())
        + "(\n        &self,\n        payload: "@
        + m.input@
        + ",\n        request_id: impl Into<String>,\n    ) -> Result<"@
        + m.output@
        + ", String> {\n        let id = request_id.into();\n        if id.is_empty() {\n            return Err(\"PAM RPC request id cannot be empty\".to_owned());\n        }\n        let response = self.transport.call(json!({\n            \"protocolVersion\": 1,\n            \"id\": id.clone(),\n            \"kind\": 1,\n            \"service\": "@
        + debug_quoted(service)
        + ",\n            \"method\": "@
        + debug_quoted(m.name@)
        + ",\n            \"payload\": payload,\n        }))?;\n        let object = response\n            .as_object()\n            .ok_or(\"PAM RPC response must be an object\")?;\n        if object.get(\"protocolVersion\").and_then(Value::as_u64) != Some(1)\n            || object.get(\"id\").and_then(Value::as_str) != Some(id.as_str())\n        {\n            return Err(\"PAM RPC response metadata mismatch\".to_owned());\n        }\n        match object.get(\"kind\").and_then(Value::as_u64) {\n            Some(2) => serde_json::from_value(\n                object\n                    .get(\"result\")\n                    .cloned()\n                    .ok_or(\"PAM RPC success requires result\")?,\n            )\n            .map_err(|error| format!(\"invalid PAM RPC result: {error}\")),\n            Some(3) => {\n                let error = object\n                    .get(\"error\")\n                    .and_then(Value::as_object)\n                    .ok_or(\"PAM RPC failure requires error\")?;\n                let code = error\n                    .get(\"code\")\n                    .and_then(Value::as_u64)\n                    .filter(|code| *code > 0)\n                    .ok_or(\"PAM RPC error code must be positive\")?;\n                let message = error\n                    .get(\"message\")\n                    .and_then(Value::as_str)\n                    .ok_or(\"PAM RPC error message must be a string\")?;\n                Err(format!(\"PAM RPC {code}: {message}\"))\n            }\n            _ => Err(\"PAM RPC response kind is invalid\".to_owned()),\n        }\n    }\n"@
}

/// The Rust client methods of methods `0..n`.
pub open spec fn rust_methods(service: Seq<char>, methods: Seq<RpcMethod>, n: int) -> Seq<char>
    decreases n,
{
    if n <= 0 {
        Seq::empty()
    } else {
        rust_methods(service, methods, n - 1) + rust_method(service, methods[n - 1])
    }
}

/// The generated Rust client of a service.
pub open spec fn rust_client(m: RpcManifest, catalog: RpcCatalog) -> Seq<char> {
    "// Generated by `pam rpc generate`. Do not edit.\nuse serde::{Deserialize, Serialize};\nuse serde_json::{json, Value};\n\npub const PAM_RPC_PROTOCOL_VERSION: u8 = 1;\n\n"@ + rust_contracts(catalog, catalog.contracts@.len() as int) + "#[derive(Clone, Debug, Serialize)]\n#[serde(rename_all = \"camelCase\")]\npub struct PamRpcRequest<T> {\n    pub protocol_version: u8,\n    pub id: String,\n    pub kind: u8,\n    pub service: &'static str,\n    pub method: &'static str,\n    pub payload: T,\n}\n\n"@
        + "pub const PAM_RPC_SERVICE: &str = "@ + debug_quoted(m.service@) + ";\npub const PAM_RPC_SERVICE_VERSION: &str = "@
        + debug_quoted(m.version@) + ";\n"@ + "\npub trait PamRpcTransport {\n    fn call(&self, request: Value) -> Result<Value, String>;\n}\n\n"@ + "pub struct "@ + m.service@ + "Client<T> {\n    transport: T,\n}\n\nimpl<T: PamRpcTransport> "@ + m.service@ + "Client<T> {\n    pub fn new(transport: T) -> Self {\n        Self { transport }\n    }\n"@
        + rust_methods(m.service@, m.methods@, m.methods@.len() as int) + "}\n"@
}

#[verifier::rlimit(40)]
fn append_rust_enum(out: &mut String, c: &RpcContract)
    ensures
        final(out)@ == old(out)@ + "#[derive(Clone, Copy, Debug, Deserialize, Serialize)]\n#[repr(i64)]\n#[serde(try_from = \"i64\", into = \"i64\")]\npub enum "@ + c.name@ + " {\n"@ + rust_cases(c.cases@, c.cases@.len() as int) + "}\n\n"@
            + "impl TryFrom<i64> for "@ + c.name@ + " {\n    type Error = String;\n\n    fn try_from(value: i64) -> Result<Self, Self::Error> {\n        match value {\n"@ + rust_case_arms(c.cases@, c.cases@.len() as int)
            + "            _ => Err(format!(\"invalid "@ + c.name@ + " value {value}\")),\n        }\n    }\n}\n\n"@
            + "impl From<"@ + c.name@ + "> for i64 {\n    fn from(value: "@ + c.name@ + ") -> Self {\n        value as i64\n    }\n}\n\n"@,
{
    let ghost start = out@;
    out.append("#[derive(Clone, Copy, Debug, Deserialize, Serialize)]\n#[repr(i64)]\n#[serde(try_from = \"i64\", into = \"i64\")]\npub enum ");
    out.append(c.name.as_str());
    out.append(" {\n");
    let ghost head = out@;
    let mut i: usize = 0;
    while i < c.cases.len()
        invariant
            i <= c.cases@.len(),
            out@ == head + rust_cases(c.cases@, i as int),
        decreases c.cases.len() - i,
    {
        out.append("    ");
        out.append(c.cases[i].name.as_str());
        out.append(" = ");
        push_signed_decimal(out, c.cases[i].value);
        out.append(",\n");
        proof {
            assert(out@ =~= head + rust_cases(c.cases@, i + 1));
        }
        i = i + 1;
    }
    out.append("}\n\n");
    out.append("impl TryFrom<i64> for ");
    out.append(c.name.as_str());
    out.append(" {\n    type Error = String;\n\n    fn try_from(value: i64) -> Result<Self, Self::Error> {\n        match value {\n");
    let ghost arms = out@;
    let mut i: usize = 0;
    while i < c.cases.len()
        invariant
            i <= c.cases@.len(),
            out@ == arms + rust_case_arms(c.cases@, i as int),
        decreases c.cases.len() - i,
    {
        out.append("            ");
        push_signed_decimal(out, c.cases[i].value);
        out.append(" => Ok(Self::");
        out.append(c.cases[i].name.as_str());
        out.append("),\n");
        proof {
            assert(out@ =~= arms + rust_case_arms(c.cases@, i + 1));
        }
        i = i + 1;
    }
    out.append("            _ => Err(format!(\"invalid ");
    out.append(c.name.as_str());
    out.append(" value {value}\")),\n        }\n    }\n}\n\n");
    out.append("impl From<");
    out.append(c.name.as_str());
    out.append("> for i64 {\n    fn from(value: ");
    out.append(c.name.as_str());
    out.append(") -> Self {\n        value as i64\n    }\n}\n\n");
    assert(out@ =~= start + "#[derive(Clone, Copy, Debug, Deserialize, Serialize)]\n#[repr(i64)]\n#[serde(try_from = \"i64\", into = \"i64\")]\npub enum "@ + c.name@ + " {\n"@ + rust_cases(c.cases@, c.cases@.len() as int) + "}\n\n"@
        + "impl TryFrom<i64> for "@ + c.name@ + " {\n    type Error = String;\n\n    fn try_from(value: i64) -> Result<Self, Self::Error> {\n        match value {\n"@ + rust_case_arms(c.cases@, c.cases@.len() as int)
        + "            _ => Err(format!(\"invalid "@ + c.name@ + " value {value}\")),\n        }\n    }\n}\n\n"@
        + "impl From<"@ + c.name@ + "> for i64 {\n    fn from(value: "@ + c.name@ + ") -> Self {\n        value as i64\n    }\n}\n\n"@);
}

fn append_rust_contract(out: &mut String, catalog: &RpcCatalog, c: &RpcContract)
    ensures
        final(out)@ == old(out)@ + rust_contract(*catalog, *c),
{
    let ghost start = out@;
    if c.kind == 2 {
        append_rust_enum(out, c);
        proof {
            assert(out@ =~= start + rust_contract(*catalog, *c));
        }
    } else {
        out.append("#[derive(Clone, Debug, Deserialize, Serialize)]\n#[serde(deny_unknown_fields)]\npub struct ");
        out.append(c.name.as_str());
        out.append(" {\n");
        let ghost head = out@;
        let mut i: usize = 0;
        while i < c.properties.len()
            invariant
                i <= c.properties@.len(),
                out@ == head + rust_fields(*catalog, c.properties@, i as int),
            decreases c.properties.len() - i,
        {
            let p = &c.properties[i];
            out.append("    pub ");
            out.append(p.name.as_str());
            out.append(": ");
            let shown = language_type(p, catalog, Target::Rust);
            if p.nullable {
                out.append("Option<");
                out.append(shown.as_str());
                out.append(">");
            } else {
                out.append(shown.as_str());
            }
            out.append(",\n");
            proof {
                assert(out@ =~= head + rust_fields(*catalog, c.properties@, i + 1));
            }
            i = i + 1;
        }
        out.append("}\n\n");
        proof {
            assert(out@ =~= start + rust_contract(*catalog, *c));
        }
    }
}

#[verifier::rlimit(60)]
fn append_rust_method(out: &mut String, service: &str, service_quoted: &str, m: &RpcMethod)
    requires
        service_quoted@ == debug_quoted(service@),
    ensures
        final(out)@ == old(out)@ + rust_method(service@, *m),
{
    let ghost before = out@;
    let method_quoted = quoted(m.name.as_str());
    let snake = to_snake_case(m.name.as_str());
    out.append("\n    pub fn ");
    out.append(snake.as_str());
    out.append("(\n        &self,\n        payload: ");
    out.append(m.input.as_str());
    out.append(",\n        request_id: impl Into<String>,\n    ) -> Result<");
    out.append(m.output.as_str());
    out.append(", String> {\n        let id = request_id.into();\n        if id.is_empty() {\n            return Err(\"PAM RPC request id cannot be empty\".to_owned());\n        }\n        let response = self.transport.call(json!({\n            \"protocolVersion\": 1,\n            \"id\": id.clone(),\n            \"kind\": 1,\n            \"service\": ");
    out.append(service_quoted);
    out.append(",\n            \"method\": ");
    out.append(method_quoted.as_str());
    out.append(",\n            \"payload\": payload,\n        }))?;\n        let object = response\n            .as_object()\n            .ok_or(\"PAM RPC response must be an object\")?;\n        if object.get(\"protocolVersion\").and_then(Value::as_u64) != Some(1)\n            || object.get(\"id\").and_then(Value::as_str) != Some(id.as_str())\n        {\n            return Err(\"PAM RPC response metadata mismatch\".to_owned());\n        }\n        match object.get(\"kind\").and_then(Value::as_u64) {\n            Some(2) => serde_json::from_value(\n                object\n                    .get(\"result\")\n                    .cloned()\n                    .ok_or(\"PAM RPC success requires result\")?,\n            )\n            .map_err(|error| format!(\"invalid PAM RPC result: {error}\")),\n            Some(3) => {\n                let error = object\n                    .get(\"error\")\n                    .and_then(Value::as_object)\n                    .ok_or(\"PAM RPC failure requires error\")?;\n                let code = error\n                    .get(\"code\")\n                    .and_then(Value::as_u64)\n                    .filter(|code| *code > 0)\n                    .ok_or(\"PAM RPC error code must be positive\")?;\n                let message = error\n                    .get(\"message\")\n                    .and_then(Value::as_str)\n                    .ok_or(\"PAM RPC error message must be a string\")?;\n                Err(format!(\"PAM RPC {code}: {message}\"))\n            }\n            _ => Err(\"PAM RPC response kind is invalid\".to_owned()),\n        }\n    }\n");
    assert(out@ =~= before + rust_method(service@, *m));
}

/// Writes the Rust client of a service and its contracts.
pub fn rust_sdk(manifest: &RpcManifest, catalog: &RpcCatalog) -> (r: String)
    ensures
        r@ == rust_client(*manifest, *catalog),
{
    let mut out = String::from_str("// Generated by `pam rpc generate`. Do not edit.\nuse serde::{Deserialize, Serialize};\nuse serde_json::{json, Value};\n\npub const PAM_RPC_PROTOCOL_VERSION: u8 = 1;\n\n");
    let ghost start = out@;
    let mut i: usize = 0;
    while i < catalog.contracts.len()
        invariant
            i <= catalog.contracts@.len(),
            out@ == start + rust_contracts(*catalog, i as int),
        decreases catalog.contracts.len() - i,
    {
        append_rust_contract(&mut out, catalog, &catalog.contracts[i]);
        proof {
            assert(out@ =~= start + rust_contracts(*catalog, i + 1));
        }
        i = i + 1;
    }
    out.append("#[derive(Clone, Debug, Serialize)]\n#[serde(rename_all = \"camelCase\")]\npub struct PamRpcRequest<T> {\n    pub protocol_version: u8,\n    pub id: String,\n    pub kind: u8,\n    pub service: &'static str,\n    pub method: &'static str,\n    pub payload: T,\n}\n\n");
    out.append("pub const PAM_RPC_SERVICE: &str = ");
    out.append(quoted(manifest.service.as_str()).as_str());
    out.append(";\npub const PAM_RPC_SERVICE_VERSION: &str = ");
    out.append(quoted(manifest.version.as_str()).as_str());
    out.append(";\n");
    out.append("\npub trait PamRpcTransport {\n    fn call(&self, request: Value) -> Result<Value, String>;\n}\n\n");
    out.append("pub struct ");
    out.append(manifest.service.as_str());
    out.append("Client<T> {\n    transport: T,\n}\n\nimpl<T: PamRpcTransport> ");
    out.append(manifest.service.as_str());
    out.append("Client<T> {\n    pub fn new(transport: T) -> Self {\n        Self { transport }\n    }\n");
    let ghost head = out@;
    let service = quoted(manifest.service.as_str());
    let mut i: usize = 0;
    while i < manifest.methods.len()
        invariant
            i <= manifest.methods@.len(),
            service@ == debug_quoted(manifest.service@),
            out@ == head + rust_methods(manifest.service@, manifest.methods@, i as int),
        decreases manifest.methods.len() - i,
    {
        append_rust_method(&mut out, manifest.service.as_str(), service.as_str(), &manifest.methods[i]);
        proof {
            assert(out@ =~= head + rust_methods(manifest.service@, manifest.methods@, i + 1));
        }
        i = i + 1;
    }
    out.append("}\n");
    proof {
        assert(out@ =~= rust_client(*manifest, *catalog));
    }
    out
}

} // verus!
