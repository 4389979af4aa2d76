use ed25519_dalek::{Signer, SigningKey};
use pam::hexutil::encode_hex;
use pam::plugin_registry::{
    canonical_catalog_payload, canonical_root_payload, check_accepted_state, check_root_fingerprint,
    check_runtime_protocols, compatibility_matrix_entries, compatibility_surface_summaries,
    enforce_minimum_sequence, key_id_of, resolve_release, resolve_verified, validate_catalog,
    validate_https, validate_lower_hex, validate_package, validate_root_structure, verify_next_root,
    verify_root, verify_threshold, DocumentSignature, PluginCatalog, PluginCompatibility,
    PluginRelease, PluginRevocation, ProjectRegistryConfig, ProjectRegistryState, RegistryKey,
    RegistryRoot, VerifiedRelease,
};
use pam::plugin_registry::{
    adopted_config, adopted_state, check_adoption_state, plan_rotation_recovery, valid_slug, validate_root_shape,
    RotationRecovery,
};

fn key(seed: u8, state_code: u8) -> (SigningKey, RegistryKey) {
    let signing = SigningKey::from_bytes(&[seed; 32]);
    let public = signing.verifying_key().to_bytes();
    (
        signing,
        RegistryKey {
            key_id: key_id_of(&public),
            public_key: encode_hex(&public),
            state_code,
        },
    )
}

fn signature(key: &SigningKey, key_id: &str, payload: &[u8]) -> DocumentSignature {
    DocumentSignature {
        key_id: key_id.to_owned(),
        signature: encode_hex(&key.sign(payload).to_bytes()),
    }
}

fn camera_release(version: &str, url: &str) -> PluginRelease {
    PluginRelease {
        package: "pushinbr/pam-native-camera".to_owned(),
        version: version.to_owned(),
        artifact_kind_code: 1,
        artifact_url: url.to_owned(),
        sha256: "ab".repeat(32),
        published_at_unix: 900,
        surface_codes: vec![2],
        compatibility: PluginCompatibility {
            pam: "^1.0".to_owned(),
            native_protocol: Some(1),
            desktop_protocol: None,
        },
    }
}

#[test]
fn verifies_threshold_catalog_and_rejects_revoked_installable_release() {
    let (first, first_key) = key(1, 1);
    let (second, second_key) = key(2, 1);
    let mut root = RegistryRoot {
        schema_version: 1,
        registry: "https://plugins.pam.dev/v1".to_owned(),
        generation: 1,
        issued_at_unix: 900,
        expires_at_unix: 5_000,
        threshold: 2,
        keys: vec![first_key, second_key],
        signatures: Vec::new(),
        previous_signatures: Vec::new(),
    };
    root.keys.sort_by(|left, right| left.key_id.cmp(&right.key_id));
    let root_payload = canonical_root_payload(&root).unwrap();
    let first_public = encode_hex(&first.verifying_key().to_bytes());
    root.signatures = root
        .keys
        .iter()
        .map(|item| {
            let signing = if item.public_key == first_public { &first } else { &second };
            signature(signing, &item.key_id, &root_payload)
        })
        .collect();
    validate_root_structure(&root, 1_000).unwrap();
    verify_threshold(&root_payload, &root.signatures, &root.keys, 2).unwrap();
    verify_root(&root, 1_000).unwrap();

    let mut catalog = PluginCatalog {
        schema_version: 1,
        registry: root.registry.clone(),
        root_generation: 1,
        sequence: 1,
        generated_at_unix: 1_000,
        expires_at_unix: 2_000,
        plugins: vec![camera_release("1.0.0", "https://plugins.pam.dev/artifacts/camera.zip")],
        revocations: Vec::new(),
        signatures: Vec::new(),
    };
    catalog.plugins.push(camera_release("1.2.0", "https://plugins.pam.dev/artifacts/camera-1.2.zip"));
    catalog
        .plugins
        .sort_by(|left, right| (&left.package, &left.version).cmp(&(&right.package, &right.version)));
    let payload = canonical_catalog_payload(&catalog).unwrap();
    catalog.signatures = root
        .keys
        .iter()
        .map(|item| {
            let signing = if item.public_key == first_public { &first } else { &second };
            signature(signing, &item.key_id, &payload)
        })
        .collect();
    validate_catalog(&catalog, &root, 1_100).unwrap();
    let resolved = resolve_release(&catalog, "pushinbr/pam-native-camera", 2, "1.0.3", Some(1), None).unwrap();
    assert_eq!(resolved.version, "1.2.0");
    assert!(resolve_release(&catalog, "pushinbr/pam-native-camera", 2, "2.0.0", Some(1), None).is_err());

    let mut tampered = catalog.clone();
    tampered.plugins[0].artifact_url = "https://evil.example/plugin.zip".to_owned();
    assert!(validate_catalog(&tampered, &root, 1_100).is_err());

    catalog.revocations.push(PluginRevocation {
        package: "pushinbr/pam-native-camera".to_owned(),
        version: "1.0.0".to_owned(),
        reason_code: 1,
        revoked_at_unix: 1_000,
    });
    assert!(validate_catalog(&catalog, &root, 1_100).is_err());
}

#[test]
fn rotation_requires_old_and_new_thresholds() {
    let (old_signing, old_key) = key(3, 1);
    let (new_signing, new_key) = key(4, 1);
    let current = RegistryRoot {
        schema_version: 1,
        registry: "https://plugins.pam.dev/v1".to_owned(),
        generation: 1,
        issued_at_unix: 900,
        expires_at_unix: 5_000,
        threshold: 1,
        keys: vec![old_key],
        signatures: Vec::new(),
        previous_signatures: Vec::new(),
    };
    let mut next = RegistryRoot {
        schema_version: 1,
        registry: current.registry.clone(),
        generation: 2,
        issued_at_unix: 1_000,
        expires_at_unix: 8_000,
        threshold: 1,
        keys: vec![new_key],
        signatures: Vec::new(),
        previous_signatures: Vec::new(),
    };
    let payload = canonical_root_payload(&next).unwrap();
    next.signatures = vec![signature(&new_signing, &next.keys[0].key_id, &payload)];
    assert!(verify_threshold(&payload, &next.previous_signatures, &current.keys, current.threshold).is_err());
    assert!(verify_next_root(&current, &next, 1_200).is_err());
    next.previous_signatures = vec![signature(&old_signing, &current.keys[0].key_id, &payload)];
    verify_threshold(&payload, &next.previous_signatures, &current.keys, current.threshold).unwrap();
    verify_threshold(&payload, &next.signatures, &next.keys, next.threshold).unwrap();
    verify_next_root(&current, &next, 1_200).unwrap();
}

#[test]
fn rejects_catalog_rollback_before_writing_a_rotation_receipt() {
    assert!(enforce_minimum_sequence(6, Some(7))
        .unwrap_err()
        .contains("older than the required minimum"));
    assert!(enforce_minimum_sequence(7, Some(7)).is_ok());
    assert!(enforce_minimum_sequence(1, None).is_ok());
}

#[test]
fn project_resolution_rejects_a_protocol_different_from_the_runtime() {
    let config = ProjectRegistryConfig {
        schema_version: 1,
        root_path: "registry/root.json".to_owned(),
        root_sha256: "ab".repeat(32),
        catalog_path: "registry/catalog.json".to_owned(),
        native_protocol: Some(2),
        desktop_protocol: None,
    };
    let error = check_runtime_protocols(&config, 2, Some(1), None).unwrap_err();
    assert!(error.contains("does not match runtime protocol"));
    assert_eq!(
        error,
        "pam-registry.json nativeProtocol Some(2) does not match runtime protocol Some(1)"
    );
    assert!(check_runtime_protocols(&config, 1, Some(1), None).is_ok());
}

#[test]
fn signing_payload_is_the_verifiers_exact_canonical_input() {
    let (_signing, registry_key) = key(31, 1);
    let key_id = registry_key.key_id.clone();
    let public_key = registry_key.public_key.clone();
    let root = RegistryRoot {
        schema_version: 1,
        registry: "https://plugins.pam.dev/v1".to_owned(),
        generation: 1,
        issued_at_unix: 1_000,
        expires_at_unix: 2_000,
        threshold: 1,
        keys: vec![registry_key],
        signatures: Vec::new(),
        previous_signatures: Vec::new(),
    };
    let expected = format!(
        "{{\"schemaVersion\":1,\"registry\":\"https://plugins.pam.dev/v1\",\"generation\":1,\"issuedAtUnix\":1000,\"expiresAtUnix\":2000,\"threshold\":1,\"keys\":[{{\"keyId\":\"{key_id}\",\"publicKey\":\"{public_key}\",\"stateCode\":1}}]}}"
    );
    assert_eq!(canonical_root_payload(&root).unwrap(), expected.into_bytes());
}

#[test]
fn catalog_payload_serializes_optional_protocols_as_null() {
    let catalog = PluginCatalog {
        schema_version: 1,
        registry: "https://r.example/v1".to_owned(),
        root_generation: 2,
        sequence: 3,
        generated_at_unix: 4,
        expires_at_unix: 5,
        plugins: vec![camera_release("1.0.0", "https://r.example/a\"b.zip")],
        revocations: vec![PluginRevocation {
            package: "a/b".to_owned(),
            version: "0.1.0".to_owned(),
            reason_code: 2,
            revoked_at_unix: 3,
        }],
        signatures: Vec::new(),
    };
    let sha = "ab".repeat(32);
    let expected = format!(
        "{{\"schemaVersion\":1,\"registry\":\"https://r.example/v1\",\"rootGeneration\":2,\"sequence\":3,\"generatedAtUnix\":4,\"expiresAtUnix\":5,\"plugins\":[{{\"package\":\"pushinbr/pam-native-camera\",\"version\":\"1.0.0\",\"artifactKindCode\":1,\"artifactUrl\":\"https://r.example/a\\\"b.zip\",\"sha256\":\"{sha}\",\"publishedAtUnix\":900,\"surfaceCodes\":[2],\"compatibility\":{{\"pam\":\"^1.0\",\"nativeProtocol\":1,\"desktopProtocol\":null}}}}],\"revocations\":[{{\"package\":\"a/b\",\"version\":\"0.1.0\",\"reasonCode\":2,\"revokedAtUnix\":3}}]}}"
    );
    assert_eq!(String::from_utf8(canonical_catalog_payload(&catalog).unwrap()).unwrap(), expected);
}

#[test]
fn compatibility_matrix_reports_each_declared_surface_with_stable_integer_codes() {
    let catalog = PluginCatalog {
        schema_version: 1,
        registry: "https://plugins.pam.dev/v1".to_owned(),
        root_generation: 1,
        sequence: 9,
        generated_at_unix: 1_000,
        expires_at_unix: 2_000,
        plugins: vec![
            PluginRelease {
                package: "pushinbr/pam-everywhere".to_owned(),
                version: "1.2.0".to_owned(),
                artifact_kind_code: 1,
                artifact_url: "https://plugins.pam.dev/everywhere.zip".to_owned(),
                sha256: "ab".repeat(32),
                published_at_unix: 900,
                surface_codes: vec![1, 2, 3],
                compatibility: PluginCompatibility {
                    pam: "^1.0".to_owned(),
                    native_protocol: Some(1),
                    desktop_protocol: Some(5),
                },
            },
            PluginRelease {
                package: "pushinbr/pam-future".to_owned(),
                version: "2.0.0".to_owned(),
                artifact_kind_code: 1,
                artifact_url: "https://plugins.pam.dev/future.zip".to_owned(),
                sha256: "cd".repeat(32),
                published_at_unix: 900,
                surface_codes: vec![1],
                compatibility: PluginCompatibility {
                    pam: "^2.0".to_owned(),
                    native_protocol: None,
                    desktop_protocol: None,
                },
            },
        ],
        revocations: Vec::new(),
        signatures: Vec::new(),
    };

    let entries = compatibility_matrix_entries(&catalog, "1.4.0", 1, 6);
    assert_eq!(entries.len(), 4);
    assert_eq!(entries[0].result_code, 1);
    assert_eq!(entries[1].result_code, 1);
    assert_eq!(entries[2].result_code, 3);
    assert_eq!(entries[3].result_code, 2);
    assert_eq!(entries[2].surface_code, 3);
    assert_eq!(entries[0].surface_code, 1);

    let surface_summaries = compatibility_surface_summaries(&entries);
    assert_eq!(surface_summaries[0].compatible_entries, 1);
    assert_eq!(surface_summaries[1].compatible_entries, 1);
    assert_eq!(surface_summaries[2].compatible_entries, 0);
    assert_eq!(surface_summaries[2].surface_code, 3);
}

#[test]
fn field_rules_name_what_is_wrong() {
    assert!(validate_package("vendor/package").is_ok());
    assert_eq!(
        validate_package("vendor").unwrap_err(),
        "plugin package must use Composer vendor/package syntax"
    );
    assert_eq!(
        validate_package("Vendor/package").unwrap_err(),
        "plugin package must use lowercase Composer vendor/package syntax"
    );
    assert!(validate_https("https://plugins.pam.dev/v1", "registry").is_ok());
    for rejected in ["http://plugins.pam.dev", "https://", "https://user@host/x", "https://host/a b", "https://host/#x"] {
        assert_eq!(
            validate_https(rejected, "registry").unwrap_err(),
            "registry must be a bounded HTTPS URL"
        );
    }
    assert!(validate_lower_hex(&"0f".repeat(32), 32, "root SHA-256").is_ok());
    assert_eq!(
        validate_lower_hex(&"0F".repeat(32), 32, "root SHA-256").unwrap_err(),
        "root SHA-256 must contain 32 lowercase hex bytes"
    );
}

#[test]
fn root_fingerprints_and_accepted_state_are_enforced() {
    let bytes = b"{}";
    let fingerprint = key_id_of(bytes);
    assert!(check_root_fingerprint(&fingerprint, bytes).is_ok());
    let other = "00".repeat(32);
    assert_eq!(
        check_root_fingerprint(&other, bytes).unwrap_err(),
        format!("registry root fingerprint mismatch: expected {other}, received {fingerprint}")
    );
    let state = ProjectRegistryState {
        schema_version: 1,
        registry: "https://r.example/v1".to_owned(),
        root_sha256: fingerprint.clone(),
        root_generation: 2,
        catalog_sequence: 4,
    };
    let release = VerifiedRelease {
        registry: "https://r.example/v1".to_owned(),
        root_sha256: fingerprint.clone(),
        root_generation: 1,
        catalog_sequence: 5,
        package: "a/b".to_owned(),
        version: "1.0.0".to_owned(),
        artifact_kind_code: 1,
        artifact_url: "https://r.example/a.zip".to_owned(),
        sha256: "ab".repeat(32),
    };
    assert_eq!(
        check_accepted_state(&state, &release).unwrap_err(),
        "signed registry root generation would roll the project back"
    );
}

#[test]
fn resolution_requires_a_current_catalog() {
    let (signing, registry_key) = key(7, 1);
    let mut root = RegistryRoot {
        schema_version: 1,
        registry: "https://plugins.pam.dev/v1".to_owned(),
        generation: 1,
        issued_at_unix: 900,
        expires_at_unix: 5_000,
        threshold: 1,
        keys: vec![registry_key],
        signatures: Vec::new(),
        previous_signatures: Vec::new(),
    };
    let root_payload = canonical_root_payload(&root).unwrap();
    root.signatures = vec![signature(&signing, &root.keys[0].key_id, &root_payload)];
    let mut catalog = PluginCatalog {
        schema_version: 1,
        registry: root.registry.clone(),
        root_generation: 1,
        sequence: 3,
        generated_at_unix: 1_000,
        expires_at_unix: 2_000,
        plugins: vec![camera_release("1.0.0", "https://plugins.pam.dev/a.zip")],
        revocations: Vec::new(),
        signatures: Vec::new(),
    };
    let payload = canonical_catalog_payload(&catalog).unwrap();
    catalog.signatures = vec![signature(&signing, &root.keys[0].key_id, &payload)];
    let release = resolve_verified(
        &root, &"ef".repeat(32), &catalog, "pushinbr/pam-native-camera", 2, "1.1.0", Some(1), None, Some(3), 1_100,
    )
    .unwrap();
    assert_eq!(release.version, "1.0.0");
    assert_eq!(release.catalog_sequence, 3);
    assert!(resolve_verified(
        &root, &"ef".repeat(32), &catalog, "pushinbr/pam-native-camera", 2, "1.1.0", Some(1), None, Some(4), 1_100,
    )
    .is_err());
    assert_eq!(
        resolve_verified(&root, &"ef".repeat(32), &catalog, "pushinbr/pam-native-camera", 2, "1.1.0", Some(1), None, None, 2_500)
            .unwrap_err(),
        "plugin catalog timestamps are invalid or expired"
    );
}

fn plain_root(generation: u32) -> RegistryRoot {
    let (_, registry_key) = key(9, 1);
    RegistryRoot {
        schema_version: 1,
        registry: "https://plugins.pam.dev/v1".to_owned(),
        generation,
        issued_at_unix: 900,
        expires_at_unix: 5_000,
        threshold: 1,
        keys: vec![registry_key],
        signatures: Vec::new(),
        previous_signatures: Vec::new(),
    }
}

fn config(root_sha256: &str) -> ProjectRegistryConfig {
    ProjectRegistryConfig {
        schema_version: 1,
        root_path: "registry/root.json".to_owned(),
        root_sha256: root_sha256.to_owned(),
        catalog_path: "registry/catalog.json".to_owned(),
        native_protocol: Some(1),
        desktop_protocol: None,
    }
}

#[test]
fn slugs_and_root_shapes_are_checked() {
    assert!(valid_slug("pam-native-camera"));
    assert!(!valid_slug("Camera"));
    assert!(!valid_slug(""));
    assert!(validate_root_shape(&plain_root(1)).is_ok());
    let mut bad = plain_root(1);
    bad.threshold = 0;
    assert!(validate_root_shape(&bad).is_err());
}

#[test]
fn adoption_follows_the_accepted_state_and_keeps_protocols() {
    let current = plain_root(3);
    let accepted = ProjectRegistryState {
        schema_version: 1,
        registry: current.registry.clone(),
        root_sha256: "aa".repeat(32),
        root_generation: 3,
        catalog_sequence: 9,
    };
    assert!(check_adoption_state(&Some(accepted), &current, &"aa".repeat(32)).is_ok());
    assert!(check_adoption_state(&None, &current, &"aa".repeat(32)).is_ok());
    let drifted = ProjectRegistryState {
        schema_version: 1,
        registry: current.registry.clone(),
        root_sha256: "aa".repeat(32),
        root_generation: 2,
        catalog_sequence: 9,
    };
    assert_eq!(
        check_adoption_state(&Some(drifted), &current, &"aa".repeat(32)).unwrap_err(),
        "project registry state does not match the current trusted root"
    );
    let next = plain_root(4);
    let catalog = PluginCatalog {
        schema_version: 1,
        registry: next.registry.clone(),
        root_generation: 4,
        sequence: 12,
        generated_at_unix: 1_000,
        expires_at_unix: 4_000,
        plugins: Vec::new(),
        revocations: Vec::new(),
        signatures: Vec::new(),
    };
    let state = adopted_state(&next, &"bb".repeat(32), &catalog);
    assert_eq!((state.root_generation, state.catalog_sequence), (4, 12));
    assert_eq!(state.root_sha256, "bb".repeat(32));
    let adopted = adopted_config(&config(&"aa".repeat(32)), "next/root.json", &"bb".repeat(32), "next/catalog.json");
    assert_eq!((adopted.root_path.as_str(), adopted.catalog_path.as_str()), ("next/root.json", "next/catalog.json"));
    assert_eq!((adopted.native_protocol, adopted.desktop_protocol), (Some(1), None));
}

#[test]
fn interrupted_rotations_are_finished_or_undone() {
    let previous = "aa".repeat(32);
    let next = config(&"bb".repeat(32));
    assert!(matches!(
        plan_rotation_recovery(1, 1, &previous, &next, &config(&previous)),
        Ok(RotationRecovery::RestorePrevious)
    ));
    assert!(matches!(plan_rotation_recovery(1, 1, &previous, &next, &next), Ok(RotationRecovery::Finalize)));
    assert_eq!(
        plan_rotation_recovery(2, 1, &previous, &next, &next).err().unwrap(),
        "invalid project registry rotation receipt"
    );
    assert_eq!(
        plan_rotation_recovery(1, 1, &previous, &next, &config(&"cc".repeat(32))).err().unwrap(),
        "registry rotation receipt does not match project configuration"
    );
}
