//! What `pam mobile doctor` reports of an Android build host, from what it
//! found on the machine.

use vstd::prelude::*;
use crate::text::{str_eq, concat_str};

verus! {

/// What the doctor found. ABI pairs are arm64-v8a then x86_64.
pub struct DoctorFacts {
    pub native_home: String,
    pub project_name: String,
    pub application_id: String,
    pub java: bool,
    pub java_version: String,
    pub engines_ready: (bool, bool),
    pub engine_paths: (String, String),
    pub cargo: bool,
    pub rustc_version: String,
    pub android_sdk: Result<String, String>,
    pub ndk: bool,
    pub php_version: String,
    pub runtimes_ready: (bool, bool),
    pub runtime_paths: (String, String),
    pub installed_rust_targets: Vec<String>,
}

/// One line of the report: what was checked, whether it is there, and what
/// was found.
pub struct DoctorCheck {
    pub label: String,
    pub ok: bool,
    pub detail: String,
}

pub open spec fn check_view(c: DoctorCheck) -> (Seq<char>, bool, Seq<char>) {
    (c.label@, c.ok, c.detail@)
}

/// The Rust target installed for an ABI is listed.
pub open spec fn target_installed(installed: Seq<String>, target: Seq<char>) -> bool {
    exists|i: int| 0 <= i < installed.len() && (#[trigger] installed[i])@ == target
}

/// The line for a Rust target an engine still has to be built for.
pub open spec fn target_check(installed: Seq<String>, target: Seq<char>) -> (Seq<char>, bool, Seq<char>) {
    let available = target_installed(installed, target);
    (
        "Rust target ("@ + target + ")"@,
        available,
        if available {
            "installed"@
        } else {
            "run: rustup target add "@ + target
        },
    )
}

/// The report's lines, in order: SDK, project, Java, the engines (or Rust
/// where an engine is missing), the Android SDK and NDK, the PHP runtimes,
/// and the Rust targets of the missing engines.
pub open spec fn doctor_lines(f: DoctorFacts) -> Seq<(Seq<char>, bool, Seq<char>)> {
    let engines = f.engines_ready.0 && f.engines_ready.1;
    seq![
        ("Native SDK"@, true, f.native_home@),
        ("Project"@, true, f.project_name@ + " ("@ + f.application_id@ + ")"@),
        ("Java 17+"@, f.java, f.java_version@),
    ] + (if engines {
        seq![
            ("Native engine (arm64-v8a)"@, true, f.engine_paths.0@),
            ("Native engine (x86_64)"@, true, f.engine_paths.1@),
        ]
    } else {
        seq![("Rust"@, f.cargo, f.rustc_version@)]
    }) + seq![
        (
            "Android SDK"@,
            f.android_sdk is Ok,
            match f.android_sdk {
                Ok(p) => p@,
                Err(e) => e@,
            },
        ),
        ("Android NDK 27.1"@, f.ndk, "27.1.12297006"@),
        ("PHP "@ + f.php_version@ + " runtime (arm64-v8a)"@, f.runtimes_ready.0, f.runtime_paths.0@),
        ("PHP "@ + f.php_version@ + " runtime (x86_64)"@, f.runtimes_ready.1, f.runtime_paths.1@),
    ] + (if f.engines_ready.0 {
        Seq::empty()
    } else {
        seq![target_check(f.installed_rust_targets@, "aarch64-linux-android"@)]
    }) + (if f.engines_ready.1 {
        Seq::empty()
    } else {
        seq![target_check(f.installed_rust_targets@, "x86_64-linux-android"@)]
    })
}

/// The host can build: Java, the engines or Rust to build them (with their
/// targets), the Android SDK and NDK, and both PHP runtimes.
pub open spec fn host_ready(f: DoctorFacts) -> bool {
    &&& f.java
    &&& (f.engines_ready.0 && f.engines_ready.1) || f.cargo
    &&& f.android_sdk is Ok
    &&& f.ndk
    &&& f.runtimes_ready.0 && f.runtimes_ready.1
    &&& f.engines_ready.0 || target_installed(f.installed_rust_targets@, "aarch64-linux-android"@)
    &&& f.engines_ready.1 || target_installed(f.installed_rust_targets@, "x86_64-linux-android"@)
}

fn line(out: &mut Vec<DoctorCheck>, label: String, ok: bool, detail: String)
    ensures
        final(out)@.map_values(|c: DoctorCheck| check_view(c)) == old(out)@.map_values(|c: DoctorCheck| check_view(c)).push(
            (label@, ok, detail@),
        ),
{
    out.push(DoctorCheck { label, ok, detail });
    assert(final(out)@.map_values(|c: DoctorCheck| check_view(c)) =~= old(out)@.map_values(
        |c: DoctorCheck| check_view(c),
    ).push((label@, ok, detail@)));
}

fn installed(targets: &Vec<String>, target: &str) -> (r: bool)
    ensures
        r == target_installed(targets@, target@),
{
    let mut i: usize = 0;
    while i < targets.len()
        invariant
            i <= targets@.len(),
            forall|k: int| 0 <= k < i ==> (#[trigger] targets@[k])@ != target@,
        decreases targets.len() - i,
    {
        if str_eq(targets[i].as_str(), target) {
            return true;
        }
        i = i + 1;
    }
    false
}

fn target_line(out: &mut Vec<DoctorCheck>, targets: &Vec<String>, target: &str) -> (available: bool)
    ensures
        available == target_installed(targets@, target@),
        final(out)@.map_values(|c: DoctorCheck| check_view(c)) == old(out)@.map_values(|c: DoctorCheck| check_view(c)).push(
            target_check(targets@, target@),
        ),
{
    let available = installed(targets, target);
    let mut label = concat_str("Rust target (", target);
    label.append(")");
    let detail = if available {
        String::from_str("installed")
    } else {
        concat_str("run: rustup target add ", target)
    };
    line(out, label, available, detail);
    available
}

/// Builds the doctor's report and verdict from what it found: every line,
/// and success only where the host is ready to build.
#[verifier::rlimit(80)]
pub fn doctor_report(facts: &DoctorFacts) -> (r: (Vec<DoctorCheck>, Result<(), String>))
    ensures
        r.0@.map_values(|c: DoctorCheck| check_view(c)) == doctor_lines(*facts),
        r.1.is_ok() == host_ready(*facts),
        r.1 matches Err(e) ==> e@ == "Pam Native doctor found blocking Android requirements"@,
{
    let f = facts;
    let mut out: Vec<DoctorCheck> = Vec::new();
    line(&mut out, String::from_str("Native SDK"), true, f.native_home.clone());
    let mut project = f.project_name.clone();
    project.append(" (");
    project.append(f.application_id.as_str());
    project.append(")");
    line(&mut out, String::from_str("Project"), true, project);
    let mut healthy = f.java;
    line(&mut out, String::from_str("Java 17+"), f.java, f.java_version.clone());
    let engines = f.engines_ready.0 && f.engines_ready.1;
    if engines {
        line(&mut out, String::from_str("Native engine (arm64-v8a)"), true, f.engine_paths.0.clone());
        line(&mut out, String::from_str("Native engine (x86_64)"), true, f.engine_paths.1.clone());
    } else {
        healthy = healthy && f.cargo;
        line(&mut out, String::from_str("Rust"), f.cargo, f.rustc_version.clone());
    }
    let (sdk_ok, sdk_text) = match &f.android_sdk {
        Ok(p) => (true, p.clone()),
        Err(e) => (false, e.clone()),
    };
    healthy = healthy && sdk_ok;
    line(&mut out, String::from_str("Android SDK"), sdk_ok, sdk_text);
    healthy = healthy && f.ndk;
    line(&mut out, String::from_str("Android NDK 27.1"), f.ndk, String::from_str("27.1.12297006"));
    let mut runtime_label = concat_str("PHP ", f.php_version.as_str());
    runtime_label.append(" runtime (arm64-v8a)");
    healthy = healthy && f.runtimes_ready.0;
    line(&mut out, runtime_label, f.runtimes_ready.0, f.runtime_paths.0.clone());
    let mut runtime_label = concat_str("PHP ", f.php_version.as_str());
    runtime_label.append(" runtime (x86_64)");
    healthy = healthy && f.runtimes_ready.1;
    line(&mut out, runtime_label, f.runtimes_ready.1, f.runtime_paths.1.clone());
    if !f.engines_ready.0 {
        let available = target_line(&mut out, &f.installed_rust_targets, "aarch64-linux-android");
        healthy = healthy && available;
    }
    if !f.engines_ready.1 {
        let available = target_line(&mut out, &f.installed_rust_targets, "x86_64-linux-android");
        healthy = healthy && available;
    }
    assert(out@.map_values(|c: DoctorCheck| check_view(c)) =~= doctor_lines(*facts));
    if healthy {
        (out, Ok(()))
    } else {
        (out, Err(String::from_str("Pam Native doctor found blocking Android requirements")))
    }
}

} // verus!
