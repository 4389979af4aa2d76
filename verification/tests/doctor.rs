use pam::doctor::{doctor_report, DoctorFacts};

fn facts() -> DoctorFacts {
    DoctorFacts {
        native_home: "/opt/pam-native".to_owned(),
        project_name: "Shop".to_owned(),
        application_id: "dev.pam.shop".to_owned(),
        java: true,
        java_version: "openjdk 17".to_owned(),
        engines_ready: (true, true),
        engine_paths: ("/opt/pam-native/arm64.so".to_owned(), "/opt/pam-native/x64.so".to_owned()),
        cargo: false,
        rustc_version: String::new(),
        android_sdk: Ok("/opt/android".to_owned()),
        ndk: true,
        php_version: "8.5.0".to_owned(),
        runtimes_ready: (true, true),
        runtime_paths: ("/rt/arm64-v8a".to_owned(), "/rt/x86_64".to_owned()),
        installed_rust_targets: Vec::new(),
    }
}

#[test]
fn a_ready_host_passes_with_every_line() {
    let (checks, verdict) = doctor_report(&facts());
    assert_eq!(verdict, Ok(()));
    let labels: Vec<&str> = checks.iter().map(|c| c.label.as_str()).collect();
    assert_eq!(
        labels,
        vec![
            "Native SDK",
            "Project",
            "Java 17+",
            "Native engine (arm64-v8a)",
            "Native engine (x86_64)",
            "Android SDK",
            "Android NDK 27.1",
            "PHP 8.5.0 runtime (arm64-v8a)",
            "PHP 8.5.0 runtime (x86_64)",
        ]
    );
    assert_eq!(checks[1].detail, "Shop (dev.pam.shop)");
}

#[test]
fn missing_engines_need_rust_and_their_targets() {
    let mut f = facts();
    f.engines_ready = (false, true);
    f.cargo = true;
    f.rustc_version = "rustc 1.90".to_owned();
    f.installed_rust_targets = vec!["x86_64-linux-android".to_owned()];
    let (checks, verdict) = doctor_report(&f);
    assert_eq!(verdict.unwrap_err(), "Pam Native doctor found blocking Android requirements");
    assert_eq!(checks[3].label, "Rust");
    let last = checks.last().unwrap();
    assert_eq!(last.label, "Rust target (aarch64-linux-android)");
    assert!(!last.ok);
    assert_eq!(last.detail, "run: rustup target add aarch64-linux-android");
    f.installed_rust_targets.push("aarch64-linux-android".to_owned());
    assert_eq!(doctor_report(&f).1, Ok(()));
    f.android_sdk = Err("ANDROID_HOME is not set".to_owned());
    let (checks, verdict) = doctor_report(&f);
    assert!(verdict.is_err());
    assert_eq!(checks[4].detail, "ANDROID_HOME is not set");
}
