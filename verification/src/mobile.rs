//! Naming, versioning and escaping rules of the native mobile tooling:
//! generator names, Android identifiers, plugin declarations and the
//! generated Gradle and Kotlin text.

use vstd::prelude::*;
use vstd::utf8::*;
use crate::text::{push_char, str_eq, chars_of, byte_len, quoted, debug_quoted, split_on, split_ranges, is_ascii_upper, is_ascii_lower, is_ascii_digit, is_ascii_alpha, is_ascii_alnum, ascii_upper, ascii_lower, ascii_digit, ascii_alpha, ascii_alnum, parse_unsigned, parse_u32_chars, decimal_text, push_decimal_text};

verus! {

/// How an Android application is built.
#[derive(Clone, Copy, Debug, PartialEq, Eq, Structural)]
pub enum BuildMode {
    Debug,
    Release,
}

impl BuildMode {
    /// The Gradle task that builds this mode.
    pub fn gradle_task(self) -> (r: &'static str)
        ensures
            r@ == match self {
                BuildMode::Debug => "assembleDebug"@,
                BuildMode::Release => "assembleRelease"@,
            },
    {
        match self {
            BuildMode::Debug => "assembleDebug",
            BuildMode::Release => "assembleRelease",
        }
    }

    /// The Gradle output directory of this mode.
    pub fn directory(self) -> (r: &'static str)
        ensures
            r@ == match self {
                BuildMode::Debug => "debug"@,
                BuildMode::Release => "release"@,
            },
    {
        match self {
            BuildMode::Debug => "debug",
            BuildMode::Release => "release",
        }
    }
}

/// An Android ABI the engine is built for.
#[derive(Clone, Copy, Debug, PartialEq, Eq, Structural)]
pub enum AndroidAbi {
    Arm64,
    X86_64,
}

pub open spec fn abi_name(abi: AndroidAbi) -> Seq<char> {
    match abi {
        AndroidAbi::Arm64 => "arm64-v8a"@,
        AndroidAbi::X86_64 => "x86_64"@,
    }
}

impl AndroidAbi {
    /// Reads an ABI by its Android name or a common alias.
    pub fn parse(value: &str) -> (r: Result<Self, String>)
        ensures
            match r {
                Ok(AndroidAbi::Arm64) => value@ == "arm64-v8a"@ || value@ == "arm64"@ || value@ == "aarch64"@,
                Ok(AndroidAbi::X86_64) => value@ == "x86_64"@ || value@ == "x64"@,
                Err(e) => !(value@ == "arm64-v8a"@ || value@ == "arm64"@ || value@ == "aarch64"@
                    || value@ == "x86_64"@ || value@ == "x64"@)
                    && e@ == "unsupported Android ABI "@ + debug_quoted(value@) + "; expected arm64-v8a or x86_64"@,
            },
    {
        if str_eq(value, "arm64-v8a") || str_eq(value, "arm64") || str_eq(value, "aarch64") {
            Ok(AndroidAbi::Arm64)
        } else if str_eq(value, "x86_64") || str_eq(value, "x64") {
            Ok(AndroidAbi::X86_64)
        } else {
            let mut message = String::from_str("unsupported Android ABI ");
            let shown = quoted(value);
            message.append(shown.as_str());
            message.append("; expected arm64-v8a or x86_64");
            Err(message)
        }
    }

    /// The Android name of the ABI.
    pub fn android(self) -> (r: &'static str)
        ensures
            r@ == abi_name(self),
    {
        match self {
            AndroidAbi::Arm64 => "arm64-v8a",
            AndroidAbi::X86_64 => "x86_64",
        }
    }

    /// The Rust target triple of the ABI.
    pub fn rust_target(self) -> (r: &'static str)
        ensures
            r@ == match self {
                AndroidAbi::Arm64 => "aarch64-linux-android"@,
                AndroidAbi::X86_64 => "x86_64-linux-android"@,
            },
    {
        match self {
            AndroidAbi::Arm64 => "aarch64-linux-android",
            AndroidAbi::X86_64 => "x86_64-linux-android",
        }
    }

    /// The NDK compiler driver of the ABI.
    pub fn clang(self) -> (r: &'static str)
        ensures
            r@ == match self {
                AndroidAbi::Arm64 => "aarch64-linux-android26-clang"@,
                AndroidAbi::X86_64 => "x86_64-linux-android26-clang"@,
            },
    {
        match self {
            AndroidAbi::Arm64 => "aarch64-linux-android26-clang",
            AndroidAbi::X86_64 => "x86_64-linux-android26-clang",
        }
    }
}

/// The ABIs built when none are requested.
pub fn default_abis() -> (abis: Vec<AndroidAbi>)
    ensures
        abis@ == seq![AndroidAbi::Arm64, AndroidAbi::X86_64],
{
    vec![AndroidAbi::Arm64, AndroidAbi::X86_64]
}

/// The Android names of some ABIs, joined by commas.
pub open spec fn abi_list(abis: Seq<AndroidAbi>) -> Seq<char>
    decreases abis.len(),
{
    if abis.len() == 0 {
        Seq::empty()
    } else if abis.len() == 1 {
        abi_name(abis[0])
    } else {
        abi_list(abis.drop_last()) + seq![','] + abi_name(abis.last())
    }
}

/// The ABIs as shown to the user.
pub fn display_abis(abis: &[AndroidAbi]) -> (r: String)
    ensures
        r@ == abi_list(abis@),
{
    let mut out = String::new();
    let mut i: usize = 0;
    while i < abis.len()
        invariant
            i <= abis@.len(),
            out@ == abi_list(abis@.take(i as int)),
        decreases abis.len() - i,
    {
        if i > 0 {
            push_char(&mut out, ',');
        }
        out.append(abis[i].android());
        proof {
            assert(abis@.take(i + 1).drop_last() =~= abis@.take(i as int));
        }
        i = i + 1;
    }
    assert(abis@.take(abis@.len() as int) =~= abis@);
    out
}

// ---------------------------------------------------------------------------
// Generator names

/// A generator name: up to 80 bytes, an ASCII capital letter first, then
/// ASCII letters and digits.
pub open spec fn is_pascal_name(v: Seq<char>) -> bool {
    &&& encode_utf8(v).len() <= 80
    &&& v.len() > 0 && is_ascii_upper(v[0])
    &&& forall|i: int| 0 <= i < v.len() ==> is_ascii_alnum(#[trigger] v[i])
}

/// Whether a name can be used for generated screens and components.
pub fn valid_pascal_name(value: &str) -> (r: bool)
    ensures
        r == is_pascal_name(value@),
{
    if byte_len(value) > 80 {
        return false;
    }
    let chars = chars_of(value);
    if chars.len() == 0 || !ascii_upper(chars[0]) {
        return false;
    }
    let mut i: usize = 0;
    while i < chars.len()
        invariant
            chars@ == value@,
            i <= chars@.len(),
            forall|k: int| 0 <= k < i ==> is_ascii_alnum(#[trigger] chars@[k]),
        decreases chars.len() - i,
    {
        if !ascii_alnum(chars[i]) {
            return false;
        }
        i = i + 1;
    }
    true
}

pub open spec fn ascii_lowercase(c: char) -> char {
    if is_ascii_upper(c) {
        (((c as u32) + 32) as u8) as char
    } else {
        c
    }
}

/// What `kebab_case` writes for the character at `i`: an ASCII capital
/// becomes lowercase, after a dash where a word starts (after a lowercase
/// letter or digit, or before a lowercase letter that follows a capital).
pub open spec fn kebab_piece(s: Seq<char>, i: int) -> Seq<char> {
    let c = s[i];
    if is_ascii_upper(c) {
        let dash = i > 0 && (is_ascii_lower(s[i - 1]) || is_ascii_digit(s[i - 1]) || (is_ascii_upper(s[i - 1])
            && i + 1 < s.len() && is_ascii_lower(s[i + 1])));
        (if dash { seq!['-'] } else { Seq::empty() }) + seq![ascii_lowercase(c)]
    } else {
        seq![c]
    }
}

pub open spec fn kebab_prefix(s: Seq<char>, n: nat) -> Seq<char>
    decreases n,
{
    if n == 0 {
        Seq::empty()
    } else {
        kebab_prefix(s, (n - 1) as nat) + kebab_piece(s, n - 1)
    }
}

/// A PascalCase name in kebab-case.
pub fn kebab_case(value: &str) -> (r: String)
    ensures
        r@ == kebab_prefix(value@, value@.len()),
{
    let chars = chars_of(value);
    let n = chars.len();
    let mut out = String::new();
    let mut i: usize = 0;
    while i < n
        invariant
            chars@ == value@,
            n == chars@.len(),
            i <= n,
            out@ == kebab_prefix(value@, i as nat),
        decreases n - i,
    {
        let c = chars[i];
        if ascii_upper(c) {
            let dash = i > 0 && (ascii_lower(chars[i - 1]) || ascii_digit(chars[i - 1]) || (ascii_upper(chars[i - 1])
                && i + 1 < n && ascii_lower(chars[i + 1])));
            if dash {
                push_char(&mut out, '-');
            }
            let lower = (((c as u32) + 32) as u8) as char;
            push_char(&mut out, lower);
        } else {
            push_char(&mut out, c);
        }
        proof {
            assert(out@ =~= kebab_prefix(value@, i as nat) + kebab_piece(value@, i as int));
        }
        i = i + 1;
    }
    out
}

// ---------------------------------------------------------------------------
// Android identifiers

pub open spec fn is_scheme_char(c: char) -> bool {
    is_ascii_alnum(c) || c == '+' || c == '-' || c == '.'
}

/// A URI scheme: an ASCII letter, then letters, digits, `+`, `-` or `.`,
/// at most 64 bytes.
pub open spec fn is_uri_scheme(v: Seq<char>) -> bool {
    &&& v.len() > 0 && is_ascii_alpha(v[0])
    &&& forall|i: int| 1 <= i < v.len() ==> is_scheme_char(#[trigger] v[i])
    &&& encode_utf8(v).len() <= 64
}

/// Whether a deep link scheme is valid.
pub fn valid_uri_scheme(value: &str) -> (r: bool)
    ensures
        r == is_uri_scheme(value@),
{
    let chars = chars_of(value);
    if chars.len() == 0 || !ascii_alpha(chars[0]) {
        return false;
    }
    let mut i: usize = 1;
    while i < chars.len()
        invariant
            chars@ == value@,
            1 <= i <= chars@.len(),
            forall|k: int| 1 <= k < i ==> is_scheme_char(#[trigger] chars@[k]),
        decreases chars.len() - i,
    {
        let c = chars[i];
        if !(ascii_alnum(c) || c == '+' || c == '-' || c == '.') {
            return false;
        }
        i = i + 1;
    }
    byte_len(value) <= 64
}

pub open spec fn is_host_char(c: char) -> bool {
    is_ascii_alnum(c) || c == '.' || c == '-'
}

/// A deep link host: 1 to 253 bytes of ASCII letters, digits, `.` and `-`,
/// neither starting nor ending with `.` or `-`.
pub open spec fn is_deep_link_host(v: Seq<char>) -> bool {
    &&& v.len() > 0
    &&& encode_utf8(v).len() <= 253
    &&& forall|i: int| 0 <= i < v.len() ==> is_host_char(#[trigger] v[i])
    &&& v[0] != '.' && v[0] != '-'
    &&& v.last() != '.' && v.last() != '-'
}

/// Whether a deep link host is valid.
pub fn valid_deep_link_host(value: &str) -> (r: bool)
    ensures
        r == is_deep_link_host(value@),
{
    let chars = chars_of(value);
    let n = chars.len();
    if n == 0 || byte_len(value) > 253 {
        return false;
    }
    let mut i: usize = 0;
    while i < n
        invariant
            chars@ == value@,
            n == chars@.len(),
            i <= n,
            forall|k: int| 0 <= k < i ==> is_host_char(#[trigger] chars@[k]),
        decreases n - i,
    {
        let c = chars[i];
        if !(ascii_alnum(c) || c == '.' || c == '-') {
            return false;
        }
        i = i + 1;
    }
    chars[0] != '.' && chars[0] != '-' && chars[n - 1] != '.' && chars[n - 1] != '-'
}

pub open spec fn is_module_char(c: char) -> bool {
    is_ascii_lower(c) || is_ascii_digit(c) || c == '.' || c == '_' || c == '-'
}

/// A native module or view name: 1 to 64 bytes of lowercase ASCII letters,
/// digits, `.`, `_` or `-`.
pub open spec fn is_module_name(v: Seq<char>) -> bool {
    &&& v.len() > 0
    &&& encode_utf8(v).len() <= 64
    &&& forall|i: int| 0 <= i < v.len() ==> is_module_char(#[trigger] v[i])
}

/// Whether a native module or view name is valid.
pub fn valid_module_name(value: &str) -> (r: bool)
    ensures
        r == is_module_name(value@),
{
    let chars = chars_of(value);
    if chars.len() == 0 || byte_len(value) > 64 {
        return false;
    }
    let mut i: usize = 0;
    while i < chars.len()
        invariant
            chars@ == value@,
            i <= chars@.len(),
            forall|k: int| 0 <= k < i ==> is_module_char(#[trigger] chars@[k]),
        decreases chars.len() - i,
    {
        let c = chars[i];
        if !(ascii_lower(c) || ascii_digit(c) || c == '.' || c == '_' || c == '-') {
            return false;
        }
        i = i + 1;
    }
    true
}

/// An identifier part: non-empty, a letter (or `_` where allowed) first,
/// then ASCII letters, digits and `_`.
pub open spec fn is_identifier_part(v: Seq<char>, underscore_first: bool) -> bool {
    &&& v.len() > 0
    &&& is_ascii_alpha(v[0]) || (underscore_first && v[0] == '_')
    &&& forall|i: int| 0 <= i < v.len() ==> is_ascii_alnum(#[trigger] v[i]) || v[i] == '_'
}

fn identifier_part(chars: &[char], from: usize, to: usize, underscore_first: bool) -> (r: bool)
    requires
        from <= to <= chars@.len(),
    ensures
        r == is_identifier_part(chars@.subrange(from as int, to as int), underscore_first),
{
    let ghost part = chars@.subrange(from as int, to as int);
    if from == to {
        return false;
    }
    let first = chars[from];
    proof {
        assert(part[0] == first);
    }
    if !(ascii_alpha(first) || (underscore_first && first == '_')) {
        return false;
    }
    let mut i = from;
    while i < to
        invariant
            from <= i <= to,
            to <= chars@.len(),
            part == chars@.subrange(from as int, to as int),
            forall|k: int| 0 <= k < i - from ==> is_ascii_alnum(#[trigger] part[k]) || part[k] == '_',
        decreases to - i,
    {
        let c = chars[i];
        proof {
            assert(part[i - from] == c);
        }
        if !(ascii_alnum(c) || c == '_') {
            return false;
        }
        i = i + 1;
    }
    true
}

/// Whether every part of a dotted name is an identifier part.
fn dotted_parts_valid(chars: &[char], parts: &Vec<(usize, usize)>, underscore_first: bool) -> (r: bool)
    requires
        forall|i: int| 0 <= i < parts@.len() ==> (#[trigger] parts@[i]).0 <= parts@[i].1 <= chars@.len(),
    ensures
        r == forall|i: int| 0 <= i < parts@.len() ==> is_identifier_part(
            chars@.subrange((#[trigger] parts@[i]).0 as int, parts@[i].1 as int),
            underscore_first,
        ),
{
    let mut i: usize = 0;
    while i < parts.len()
        invariant
            i <= parts@.len(),
            forall|k: int| 0 <= k < parts@.len() ==> (#[trigger] parts@[k]).0 <= parts@[k].1 <= chars@.len(),
            forall|k: int| 0 <= k < i ==> is_identifier_part(
                chars@.subrange((#[trigger] parts@[k]).0 as int, parts@[k].1 as int),
                underscore_first,
            ),
        decreases parts.len() - i,
    {
        let (a, b) = parts[i];
        if !identifier_part(chars, a, b, underscore_first) {
            return false;
        }
        i = i + 1;
    }
    true
}

proof fn lemma_parts_valid(chars: Seq<char>, parts: Seq<(usize, usize)>, pieces: Seq<Seq<char>>, underscore_first: bool)
    requires
        parts.len() == pieces.len(),
        forall|i: int| 0 <= i < parts.len() ==> chars.subrange((#[trigger] parts[i]).0 as int, parts[i].1 as int) == pieces[i],
    ensures
        (forall|i: int| 0 <= i < parts.len() ==> is_identifier_part(
            chars.subrange((#[trigger] parts[i]).0 as int, parts[i].1 as int), underscore_first))
            == (forall|i: int| 0 <= i < pieces.len() ==> is_identifier_part(#[trigger] pieces[i], underscore_first)),
{
    if forall|i: int| 0 <= i < parts.len() ==> is_identifier_part(
        chars.subrange((#[trigger] parts[i]).0 as int, parts[i].1 as int), underscore_first) {
        assert forall|i: int| 0 <= i < pieces.len() implies is_identifier_part(#[trigger] pieces[i], underscore_first) by {
            assert(chars.subrange(parts[i].0 as int, parts[i].1 as int) == pieces[i]);
        }
    }
    if forall|i: int| 0 <= i < pieces.len() ==> is_identifier_part(#[trigger] pieces[i], underscore_first) {
        assert forall|i: int| 0 <= i < parts.len() implies is_identifier_part(
            chars.subrange((#[trigger] parts[i]).0 as int, parts[i].1 as int), underscore_first) by {
            assert(is_identifier_part(pieces[i], underscore_first));
        }
    }
}

/// An Android application id: two or more dot-separated parts, each an ASCII
/// letter followed by letters, digits and `_`.
pub open spec fn is_application_id(v: Seq<char>) -> bool {
    let parts = split_on(v, '.');
    parts.len() >= 2 && forall|i: int| 0 <= i < parts.len() ==> is_identifier_part(#[trigger] parts[i], false)
}

/// Whether an Android application id is valid.
pub fn valid_application_id(value: &str) -> (r: bool)
    ensures
        r == is_application_id(value@),
{
    let chars = chars_of(value);
    let parts = split_ranges(&chars, 0, chars.len(), '.');
    proof {
        assert(chars@.subrange(0, chars@.len() as int) =~= value@);
        lemma_parts_valid(chars@, parts@, split_on(value@, '.'), false);
    }
    parts.len() >= 2 && dotted_parts_valid(&chars, &parts, false)
}

/// A Kotlin class name: two or more dot-separated parts, each a letter or
/// `_` followed by letters, digits and `_`.
pub open spec fn is_class_name(v: Seq<char>) -> bool {
    let parts = split_on(v, '.');
    parts.len() >= 2 && forall|i: int| 0 <= i < parts.len() ==> is_identifier_part(#[trigger] parts[i], true)
}

/// Whether a Kotlin class name is valid.
pub fn valid_class_name(value: &str) -> (r: bool)
    ensures
        r == is_class_name(value@),
{
    let chars = chars_of(value);
    let parts = split_ranges(&chars, 0, chars.len(), '.');
    proof {
        assert(chars@.subrange(0, chars@.len() as int) =~= value@);
        lemma_parts_valid(chars@, parts@, split_on(value@, '.'), true);
    }
    parts.len() >= 2 && dotted_parts_valid(&chars, &parts, true)
}

/// A PHP class name: `\`-separated parts, each a letter or `_` followed by
/// letters, digits and `_`, with no leading `\`.
pub open spec fn is_php_class_name(v: Seq<char>) -> bool {
    let parts = split_on(v, '\\');
    !(v.len() > 0 && v[0] == '\\') && forall|i: int| 0 <= i < parts.len() ==> is_identifier_part(#[trigger] parts[i], true)
}

/// Whether a PHP class name is valid.
pub fn valid_php_class_name(value: &str) -> (r: bool)
    ensures
        r == is_php_class_name(value@),
{
    let chars = chars_of(value);
    if chars.len() > 0 && chars[0] == '\\' {
        return false;
    }
    let parts = split_ranges(&chars, 0, chars.len(), '\\');
    proof {
        assert(chars@.subrange(0, chars@.len() as int) =~= value@);
        lemma_parts_valid(chars@, parts@, split_on(value@, '\\'), true);
    }
    dotted_parts_valid(&chars, &parts, true)
}

pub open spec fn is_composer_char(c: char) -> bool {
    is_ascii_lower(c) || is_ascii_digit(c) || c == '.' || c == '_' || c == '-'
}

/// A vendor or project part of a Composer package name: 1 to 96 bytes of
/// lowercase ASCII letters, digits, `.`, `_` and `-`.
pub open spec fn is_composer_part(v: Seq<char>) -> bool {
    &&& v.len() > 0
    &&& encode_utf8(v).len() <= 96
    &&& forall|i: int| 0 <= i < v.len() ==> is_composer_char(#[trigger] v[i])
}

fn composer_part(chars: &[char], from: usize, to: usize) -> (r: bool)
    requires
        from <= to <= chars@.len(),
    ensures
        r == is_composer_part(chars@.subrange(from as int, to as int)),
{
    let ghost part = chars@.subrange(from as int, to as int);
    if from == to {
        return false;
    }
    let mut i = from;
    while i < to
        invariant
            from <= i <= to,
            to <= chars@.len(),
            part == chars@.subrange(from as int, to as int),
            forall|k: int| 0 <= k < i - from ==> is_composer_char(#[trigger] part[k]),
        decreases to - i,
    {
        let c = chars[i];
        proof {
            assert(part[i - from] == c);
        }
        if !(ascii_lower(c) || ascii_digit(c) || c == '.' || c == '_' || c == '-') {
            return false;
        }
        i = i + 1;
    }
    proof {
        assert(is_ascii_chars(part));
        is_ascii_chars_encode_utf8(part);
    }
    to - from <= 96
}

/// A Composer package name: exactly two valid parts around one `/`.
pub open spec fn is_composer_package(v: Seq<char>) -> bool {
    let parts = split_on(v, '/');
    parts.len() == 2 && is_composer_part(parts[0]) && is_composer_part(parts[1])
}

/// Whether a Composer package name is valid.
pub fn valid_composer_package(value: &str) -> (r: bool)
    ensures
        r == is_composer_package(value@),
{
    let chars = chars_of(value);
    let parts = split_ranges(&chars, 0, chars.len(), '/');
    proof {
        assert(chars@.subrange(0, chars@.len() as int) =~= value@);
    }
    if parts.len() != 2 {
        return false;
    }
    let (a, b) = parts[0];
    let (c, d) = parts[1];
    composer_part(&chars, a, b) && composer_part(&chars, c, d)
}

/// Whether one part of a Composer package name is valid.
pub fn valid_composer_part(value: &str) -> (r: bool)
    ensures
        r == is_composer_part(value@),
{
    let chars = chars_of(value);
    proof {
        assert(chars@.subrange(0, chars@.len() as int) =~= value@);
    }
    composer_part(&chars, 0, chars.len())
}

pub open spec fn is_permission_char(c: char) -> bool {
    is_ascii_upper(c) || is_ascii_digit(c) || c == '.' || c == '_'
}

/// An Android permission: `android.permission.` followed by one or more
/// capital ASCII letters, digits, `.` or `_`, at most 160 bytes in all.
pub open spec fn is_android_permission(v: Seq<char>) -> bool {
    let prefix = "android.permission."@;
    &&& v.len() > prefix.len() && v.take(prefix.len() as int) == prefix
    &&& encode_utf8(v).len() <= 160
    &&& forall|i: int| prefix.len() <= i < v.len() ==> is_permission_char(#[trigger] v[i])
}

pub(crate) fn starts_with_chars(chars: &[char], prefix: &[char]) -> (r: bool)
    ensures
        r == (chars@.len() >= prefix@.len() && chars@.take(prefix@.len() as int) == prefix@),
{
    if chars.len() < prefix.len() {
        return false;
    }
    let mut i: usize = 0;
    while i < prefix.len()
        invariant
            i <= prefix@.len(),
            prefix@.len() <= chars@.len(),
            forall|k: int| 0 <= k < i ==> chars@[k] == prefix@[k],
        decreases prefix.len() - i,
    {
        if chars[i] != prefix[i] {
            proof {
                assert(chars@.take(prefix@.len() as int)[i as int] != prefix@[i as int]);
            }
            return false;
        }
        i = i + 1;
    }
    proof {
        assert(chars@.take(prefix@.len() as int) =~= prefix@);
    }
    true
}

/// Whether an Android permission a plugin asks for is valid.
pub fn valid_android_permission(value: &str) -> (r: bool)
    ensures
        r == is_android_permission(value@),
{
    let chars = chars_of(value);
    let prefix = chars_of("android.permission.");
    proof {
        reveal_strlit("android.permission.");
    }
    if !starts_with_chars(&chars, &prefix) || chars.len() == prefix.len() {
        return false;
    }
    if byte_len(value) > 160 {
        return false;
    }
    let mut i = prefix.len();
    while i < chars.len()
        invariant
            chars@ == value@,
            prefix@ == "android.permission."@,
            prefix@.len() <= i <= chars@.len(),
            forall|k: int| prefix@.len() <= k < i ==> is_permission_char(#[trigger] chars@[k]),
        decreases chars.len() - i,
    {
        let c = chars[i];
        if !(ascii_upper(c) || ascii_digit(c) || c == '.' || c == '_') {
            assert(!is_permission_char(value@[i as int]));
            return false;
        }
        i = i + 1;
    }
    true
}

pub open spec fn is_maven_char(c: char) -> bool {
    is_ascii_alnum(c) || c == '.' || c == '_' || c == '-' || c == '+' || c == '[' || c == ']' || c == '('
        || c == ')' || c == ','
}

pub open spec fn is_maven_part(v: Seq<char>) -> bool {
    v.len() > 0 && forall|i: int| 0 <= i < v.len() ==> is_maven_char(#[trigger] v[i])
}

/// A Maven coordinate: three or four `:`-separated non-empty parts of ASCII
/// letters, digits and `._-+[](),`, at most 300 bytes.
pub open spec fn is_maven_coordinate(v: Seq<char>) -> bool {
    let parts = split_on(v, ':');
    &&& 3 <= parts.len() <= 4
    &&& encode_utf8(v).len() <= 300
    &&& forall|i: int| 0 <= i < parts.len() ==> is_maven_part(#[trigger] parts[i])
}

fn maven_part(chars: &[char], from: usize, to: usize) -> (r: bool)
    requires
        from <= to <= chars@.len(),
    ensures
        r == is_maven_part(chars@.subrange(from as int, to as int)),
{
    let ghost part = chars@.subrange(from as int, to as int);
    if from == to {
        return false;
    }
    let mut i = from;
    while i < to
        invariant
            from <= i <= to,
            to <= chars@.len(),
            part == chars@.subrange(from as int, to as int),
            forall|k: int| 0 <= k < i - from ==> is_maven_char(#[trigger] part[k]),
        decreases to - i,
    {
        let c = chars[i];
        proof {
            assert(part[i - from] == c);
        }
        if !(ascii_alnum(c) || c == '.' || c == '_' || c == '-' || c == '+' || c == '[' || c == ']' || c == '('
            || c == ')' || c == ',') {
            return false;
        }
        i = i + 1;
    }
    true
}

/// Whether a Maven dependency coordinate is valid.
pub fn valid_maven_coordinate(value: &str) -> (r: bool)
    ensures
        r == is_maven_coordinate(value@),
{
    let chars = chars_of(value);
    let parts = split_ranges(&chars, 0, chars.len(), ':');
    let ghost pieces = split_on(value@, ':');
    proof {
        assert(chars@.subrange(0, chars@.len() as int) =~= value@);
    }
    if parts.len() < 3 || parts.len() > 4 || byte_len(value) > 300 {
        return false;
    }
    let mut i: usize = 0;
    while i < parts.len()
        invariant
            chars@ == value@,
            pieces == split_on(value@, ':'),
            parts@.len() == pieces.len(),
            forall|k: int| 0 <= k < parts@.len() ==> {
                &&& (#[trigger] parts@[k]).0 <= parts@[k].1 <= chars@.len()
                &&& chars@.subrange(parts@[k].0 as int, parts@[k].1 as int) == pieces[k]
            },
            i <= parts@.len(),
            forall|k: int| 0 <= k < i ==> is_maven_part(#[trigger] pieces[k]),
        decreases parts.len() - i,
    {
        let (a, b) = parts[i];
        proof {
            assert(chars@.subrange(parts@[i as int].0 as int, parts@[i as int].1 as int) == pieces[i as int]);
        }
        if !maven_part(&chars, a, b) {
            return false;
        }
        i = i + 1;
    }
    true
}

/// The error for a plugin binding whose name or class is invalid, if any.
pub open spec fn binding_error(package: Seq<char>, kind: Seq<char>, name: Seq<char>, class: Seq<char>) -> Option<Seq<char>> {
    if !is_module_name(name) {
        Some("plugin "@ + package + " "@ + kind + " name "@ + debug_quoted(name)
            + " must use lowercase letters, digits, dots, _ or -"@)
    } else if !is_class_name(class) {
        Some("plugin "@ + package + " has invalid Kotlin "@ + kind + " class "@ + debug_quoted(class))
    } else {
        None
    }
}

/// Accepts a plugin module or view binding whose name and Kotlin class are valid.
pub fn validate_binding(package: &str, kind: &str, name: &str, class: &str) -> (r: Result<(), String>)
    ensures
        match r {
            Ok(()) => binding_error(package@, kind@, name@, class@) is None,
            Err(e) => binding_error(package@, kind@, name@, class@) == Some(e@),
        },
{
    if !valid_module_name(name) {
        let mut message = String::from_str("plugin ");
        message.append(package);
        message.append(" ");
        message.append(kind);
        message.append(" name ");
        let shown = quoted(name);
        message.append(shown.as_str());
        message.append(" must use lowercase letters, digits, dots, _ or -");
        return Err(message);
    }
    if !valid_class_name(class) {
        let mut message = String::from_str("plugin ");
        message.append(package);
        message.append(" has invalid Kotlin ");
        message.append(kind);
        message.append(" class ");
        let shown = quoted(class);
        message.append(shown.as_str());
        return Err(message);
    }
    Ok(())
}

// ---------------------------------------------------------------------------
// Versions

/// Index of the first `-` or `+` in `s`, or its length.
pub open spec fn first_dash_or_plus(s: Seq<char>) -> int
    decreases s.len(),
{
    if s.len() == 0 {
        0
    } else if s[0] == '-' || s[0] == '+' {
        0
    } else {
        1 + first_dash_or_plus(s.drop_first())
    }
}

proof fn lemma_first_dash_or_plus(s: Seq<char>, i: int)
    requires
        0 <= i <= s.len(),
        forall|k: int| 0 <= k < i ==> s[k] != '-' && s[k] != '+',
        i == s.len() || s[i] == '-' || s[i] == '+',
    ensures
        first_dash_or_plus(s) == i,
    decreases i,
{
    if i > 0 {
        assert forall|k: int| 0 <= k < i - 1 implies s.drop_first()[k] != '-' && s.drop_first()[k] != '+' by {
            assert(s.drop_first()[k] == s[k + 1]);
        }
        if i < s.len() {
            assert(s.drop_first()[i - 1] == s[i]);
        }
        lemma_first_dash_or_plus(s.drop_first(), i - 1);
    }
}

/// The parts of the release (before any pre-release or build suffix).
pub open spec fn release_parts(v: Seq<char>) -> Seq<Seq<char>> {
    split_on(v.take(first_dash_or_plus(v)), '.')
}

/// What a release version `major.minor.patch[-pre][+build]` reads as.
pub open spec fn release_version(v: Seq<char>) -> Result<(u32, u32, u32), Seq<char>> {
    let parts = release_parts(v);
    if exists|i: int| 0 <= i < parts.len() && parse_unsigned(#[trigger] parts[i], u32::MAX as int) is None {
        Err(debug_quoted(v) + " is not a semantic release version"@)
    } else if parts.len() != 3 {
        Err(debug_quoted(v) + " must contain major.minor.patch"@)
    } else {
        Ok((
            parse_unsigned(parts[0], u32::MAX as int)->0 as u32,
            parse_unsigned(parts[1], u32::MAX as int)->0 as u32,
            parse_unsigned(parts[2], u32::MAX as int)->0 as u32,
        ))
    }
}

pub open spec fn same_result(r: Result<(u32, u32, u32), String>, expected: Result<(u32, u32, u32), Seq<char>>) -> bool {
    match (r, expected) {
        (Ok(a), Ok(b)) => a == b,
        (Err(e), Err(m)) => e@ == m,
        _ => false,
    }
}

/// Reads `major.minor.patch`, ignoring a pre-release or build suffix.
pub fn parse_release_version(value: &str) -> (r: Result<(u32, u32, u32), String>)
    ensures
        same_result(r, release_version(value@)),
{
    let chars = chars_of(value);
    let n = chars.len();
    let mut k: usize = 0;
    while k < n && chars[k] != '-' && chars[k] != '+'
        invariant
            k <= n,
            n == chars@.len(),
            forall|j: int| 0 <= j < k ==> chars@[j] != '-' && chars@[j] != '+',
        decreases n - k,
    {
        k = k + 1;
    }
    proof {
        lemma_first_dash_or_plus(value@, k as int);
        assert(value@.take(k as int) =~= chars@.subrange(0, k as int));
    }
    let parts = split_ranges(&chars, 0, k, '.');
    let ghost pieces = release_parts(value@);
    let mut numbers: Vec<u32> = Vec::new();
    let mut i: usize = 0;
    while i < parts.len()
        invariant
            pieces == release_parts(value@),
            parts@.len() == pieces.len(),
            forall|j: int| 0 <= j < parts@.len() ==> {
                &&& (#[trigger] parts@[j]).0 <= parts@[j].1 <= chars@.len()
                &&& chars@.subrange(parts@[j].0 as int, parts@[j].1 as int) == pieces[j]
            },
            i <= parts@.len(),
            numbers@.len() == i,
            forall|j: int| 0 <= j < i ==> parse_unsigned(#[trigger] pieces[j], u32::MAX as int) == Some(numbers@[j] as int),
        decreases parts.len() - i,
    {
        let (a, b) = parts[i];
        proof {
            assert(chars@.subrange(parts@[i as int].0 as int, parts@[i as int].1 as int) == pieces[i as int]);
        }
        match parse_u32_chars(&chars, a, b) {
            Some(v) => {
                numbers.push(v);
            },
            None => {
                let mut message = quoted(value);
                message.append(" is not a semantic release version");
                return Err(message);
            },
        }
        i = i + 1;
    }
    proof {
        assert(!exists|j: int| 0 <= j < pieces.len() && parse_unsigned(#[trigger] pieces[j], u32::MAX as int) is None);
    }
    if numbers.len() != 3 {
        let mut message = quoted(value);
        message.append(" must contain major.minor.patch");
        return Err(message);
    }
    Ok((numbers[0], numbers[1], numbers[2]))
}

/// What an installed SDK version reads as: a release, or a Composer
/// development line `major.minor.x-dev` (or `.*-dev`), read as `major.minor.0`.
pub open spec fn installed_sdk_version(v: Seq<char>) -> Result<(u32, u32, u32), Seq<char>> {
    let unsupported = debug_quoted(v) + " is not a supported Composer SDK version"@;
    let dev = v.len() >= 4 && v.skip(v.len() - 4) == "-dev"@;
    let parts = split_on(v.take(v.len() - 4), '.');
    if dev && parts.len() == 3 && (parts[2] == seq!['x'] || parts[2] == seq!['*']) {
        match (parse_unsigned(parts[0], u32::MAX as int), parse_unsigned(parts[1], u32::MAX as int)) {
            (Some(major), Some(minor)) => Ok((major as u32, minor as u32, 0u32)),
            _ => Err(unsupported),
        }
    } else {
        match release_version(v) {
            Ok(t) => Ok(t),
            Err(_) => Err(unsupported),
        }
    }
}

fn ends_with_dev(chars: &[char]) -> (r: bool)
    ensures
        r == (chars@.len() >= 4 && chars@.skip(chars@.len() - 4) == "-dev"@),
{
    proof {
        reveal_strlit("-dev");
    }
    let n = chars.len();
    if n < 4 {
        return false;
    }
    let r = chars[n - 4] == '-' && chars[n - 3] == 'd' && chars[n - 2] == 'e' && chars[n - 1] == 'v';
    proof {
        let tail = chars@.skip(n - 4);
        assert(tail[0] == chars@[n - 4] && tail[1] == chars@[n - 3] && tail[2] == chars@[n - 2] && tail[3] == chars@[n - 1]);
        if r {
            assert(tail =~= "-dev"@);
        }
    }
    r
}

fn unsupported_sdk(value: &str) -> (e: String)
    ensures
        e@ == debug_quoted(value@) + " is not a supported Composer SDK version"@,
{
    let mut message = quoted(value);
    message.append(" is not a supported Composer SDK version");
    message
}

/// Reads the version of an installed SDK package.
pub fn parse_installed_sdk_version(value: &str) -> (r: Result<(u32, u32, u32), String>)
    ensures
        same_result(r, installed_sdk_version(value@)),
{
    let chars = chars_of(value);
    let n = chars.len();
    if ends_with_dev(&chars) {
        let parts = split_ranges(&chars, 0, n - 4, '.');
        proof {
            assert(value@.take(n - 4) =~= chars@.subrange(0, n - 4));
        }
        if parts.len() == 3 {
            let (a2, b2) = parts[2];
            let wildcard = b2 == a2 + 1 && (chars[a2] == 'x' || chars[a2] == '*');
            proof {
                let pieces = split_on(value@.take(n - 4), '.');
                let p2 = chars@.subrange(a2 as int, b2 as int);
                assert(p2 == pieces[2]);
                if b2 == a2 + 1 {
                    assert(p2[0] == chars@[a2 as int]);
                    if chars@[a2 as int] == 'x' {
                        assert(p2 =~= seq!['x']);
                    }
                    if chars@[a2 as int] == '*' {
                        assert(p2 =~= seq!['*']);
                    }
                }
                if wildcard != (p2 == seq!['x'] || p2 == seq!['*']) {
                    assert(p2.len() == seq!['x'].len());
                }
            }
            if wildcard {
                let (a0, b0) = parts[0];
                let (a1, b1) = parts[1];
                let major = parse_u32_chars(&chars, a0, b0);
                let minor = parse_u32_chars(&chars, a1, b1);
                return match (major, minor) {
                    (Some(major), Some(minor)) => Ok((major, minor, 0)),
                    _ => Err(unsupported_sdk(value)),
                };
            }
        }
    }
    match parse_release_version(value) {
        Ok(t) => Ok(t),
        Err(_) => Err(unsupported_sdk(value)),
    }
}

// ---------------------------------------------------------------------------
// Project files and generated text

/// Whether a project file is left out of the Android bundle: any of its
/// normal path components is hidden (starts with `.`) or names a build,
/// documentation, test or dependency directory. Components that are not
/// normal names, or not UTF-8, are given as `None`.
pub open spec fn is_ignored_component(name: Seq<char>) -> bool {
    (name.len() > 0 && name[0] == '.') || name == ".build"@ || name == "build"@ || name == "dist"@
        || name == "docs"@ || name == "examples"@ || name == "node_modules"@ || name == "target"@
        || name == "tests"@ || name == "tools"@
}

pub open spec fn optional_name(c: Option<String>) -> Option<Seq<char>> {
    match c {
        Some(name) => Some(name@),
        None => None,
    }
}

/// Whether a project path, given by its components, is left out of the bundle.
pub fn ignored_project_path(components: &Vec<Option<String>>) -> (r: bool)
    ensures
        r == exists|i: int| 0 <= i < components@.len() && #[trigger] optional_name(components@[i]) is Some
            && is_ignored_component(optional_name(components@[i])->0),
{
    let mut i: usize = 0;
    while i < components.len()
        invariant
            i <= components@.len(),
            forall|k: int| 0 <= k < i ==> !(#[trigger] optional_name(components@[k]) is Some
                && is_ignored_component(optional_name(components@[k])->0)),
        decreases components.len() - i,
    {
        if let Some(name) = &components[i] {
            let text = name.as_str();
            let chars = chars_of(text);
            let hidden = chars.len() > 0 && chars[0] == '.';
            if hidden || str_eq(text, ".build") || str_eq(text, "build") || str_eq(text, "dist") || str_eq(text, "docs")
                || str_eq(text, "examples") || str_eq(text, "node_modules") || str_eq(text, "target")
                || str_eq(text, "tests") || str_eq(text, "tools") {
                proof {
                    assert(optional_name(components@[i as int]) == Some(name@));
                    if hidden {
                        assert(name@[0] == '.');
                    }
                    assert(is_ignored_component(name@));
                }
                return true;
            }
        }
        i = i + 1;
    }
    false
}

/// A value escaped for a Java properties file.
pub open spec fn property_escaped(v: Seq<char>) -> Seq<char>
    decreases v.len(),
{
    if v.len() == 0 {
        Seq::empty()
    } else {
        let c = v.last();
        property_escaped(v.drop_last()) + if c == '\\' {
            seq!['\\', '\\']
        } else if c == '\n' {
            seq!['\\', 'n']
        } else if c == '\r' {
            seq!['\\', 'r']
        } else if c == '=' {
            seq!['\\', '=']
        } else if c == ':' {
            seq!['\\', ':']
        } else {
            seq![c]
        }
    }
}

/// Escapes a value for `local.properties`.
pub fn property_value(value: &str) -> (r: String)
    ensures
        r@ == property_escaped(value@),
{
    let chars = chars_of(value);
    let mut out = String::new();
    let mut i: usize = 0;
    while i < chars.len()
        invariant
            chars@ == value@,
            i <= chars@.len(),
            out@ == property_escaped(value@.take(i as int)),
        decreases chars.len() - i,
    {
        let c = chars[i];
        if c == '\\' || c == '=' || c == ':' {
            push_char(&mut out, '\\');
            push_char(&mut out, c);
        } else if c == '\n' {
            push_char(&mut out, '\\');
            push_char(&mut out, 'n');
        } else if c == '\r' {
            push_char(&mut out, '\\');
            push_char(&mut out, 'r');
        } else {
            push_char(&mut out, c);
        }
        proof {
            assert(value@.take(i + 1).drop_last() =~= value@.take(i as int));
        }
        i = i + 1;
    }
    assert(value@.take(chars@.len() as int) =~= value@);
    out
}

/// The body of a Kotlin string literal holding `v`.
pub open spec fn kotlin_escaped(v: Seq<char>) -> Seq<char>
    decreases v.len(),
{
    if v.len() == 0 {
        Seq::empty()
    } else {
        let c = v.last();
        kotlin_escaped(v.drop_last()) + if c == '\\' {
            seq!['\\', '\\']
        } else if c == '"' {
            seq!['\\', '"']
        } else if c == '$' {
            seq!['\\', '$']
        } else if c == '\n' {
            seq!['\\', 'n']
        } else if c == '\r' {
            seq!['\\', 'r']
        } else {
            seq![c]
        }
    }
}

/// A Kotlin string literal holding `value`.
pub fn kotlin_string(value: &str) -> (r: String)
    ensures
        r@ == seq!['"'] + kotlin_escaped(value@) + seq!['"'],
{
    let chars = chars_of(value);
    let mut out = String::new();
    push_char(&mut out, '"');
    let mut i: usize = 0;
    while i < chars.len()
        invariant
            chars@ == value@,
            i <= chars@.len(),
            out@ == seq!['"'] + kotlin_escaped(value@.take(i as int)),
        decreases chars.len() - i,
    {
        let c = chars[i];
        if c == '\\' || c == '"' || c == '$' {
            push_char(&mut out, '\\');
            push_char(&mut out, c);
        } else if c == '\n' {
            push_char(&mut out, '\\');
            push_char(&mut out, 'n');
        } else if c == '\r' {
            push_char(&mut out, '\\');
            push_char(&mut out, 'r');
        } else {
            push_char(&mut out, c);
        }
        proof {
            assert(value@.take(i + 1).drop_last() =~= value@.take(i as int));
        }
        i = i + 1;
    }
    assert(value@.take(chars@.len() as int) =~= value@);
    push_char(&mut out, '"');
    out
}

pub open spec fn is_ascii_alnum_byte(b: u8) -> bool {
    (48 <= b <= 57) || (65 <= b <= 90) || (97 <= b <= 122)
}

/// Each byte of a package name as a Kotlin identifier character: ASCII
/// letters and digits kept, anything else `_`.
pub open spec fn namespace_safe(bytes: Seq<u8>) -> Seq<char> {
    bytes.map_values(|b: u8| if is_ascii_alnum_byte(b) { b as char } else { '_' })
}

/// The Android namespace generated for the `index`-th plugin.
pub fn generated_namespace(index: usize, package: &str) -> (r: String)
    ensures
        r@ == "dev.pam.generated.plugin"@ + decimal_text(index as nat) + seq!['.'] + namespace_safe(encode_utf8(package@)),
{
    let bytes = package.as_bytes();
    let mut out = String::from_str("dev.pam.generated.plugin");
    push_decimal_text(&mut out, index as u64);
    push_char(&mut out, '.');
    let ghost head = out@;
    let mut i: usize = 0;
    while i < bytes.len()
        invariant
            bytes@ == encode_utf8(package@),
            i <= bytes@.len(),
            out@ == head + namespace_safe(bytes@.take(i as int)),
        decreases bytes.len() - i,
    {
        let b = bytes[i];
        if (48 <= b && b <= 57) || (65 <= b && b <= 90) || (97 <= b && b <= 122) {
            push_char(&mut out, b as char);
        } else {
            push_char(&mut out, '_');
        }
        proof {
            assert(namespace_safe(bytes@.take(i + 1)) =~= namespace_safe(bytes@.take(i as int)).push(
                if is_ascii_alnum_byte(b) { b as char } else { '_' }));
        }
        i = i + 1;
    }
    assert(bytes@.take(bytes@.len() as int) =~= bytes@);
    out
}

} // verus!
