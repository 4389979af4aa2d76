use pam::artifacts::{
    artifact_budget_state, artifact_footprint, contextual_next_commands, dev_artifact_budget,
    budget_decision, enforce_dev_artifact_budget, ArtifactBudgetState, ArtifactFootprint,
};
use pam::cli::Argument;
use pam::project::{cleanup_targets, ArtifactInspection, ArtifactState, ProjectContext, ProjectKind};

fn context() -> ProjectContext {
    ProjectContext { root: "/srv/app".to_owned(), kind: ProjectKind::Api }
}

fn inspections(state: impl Fn(usize) -> ArtifactState) -> Vec<ArtifactInspection> {
    cleanup_targets(ProjectKind::Api, true)
        .iter()
        .enumerate()
        .map(|(index, (path, _))| ArtifactInspection { shown_path: format!("/srv/app/{path}"), state: state(index) })
        .collect()
}

#[test]
fn footprint_sums_the_measured_directories() {
    let all = inspections(|index| match index {
        0 => ArtifactState::Directory { bytes: 1_000, files: 3, complete: true },
        2 => ArtifactState::Directory { bytes: 500, files: 2, complete: true },
        _ => ArtifactState::Missing,
    });
    let footprint = artifact_footprint(&context(), &all).unwrap();
    assert_eq!((footprint.bytes, footprint.files, footprint.complete), (1_500, 5, true));
    assert_eq!(footprint.entries.len(), all.len());
    assert_eq!(footprint.entries[0].path, ".pam/cache");
    assert!(footprint.entries[0].exists && !footprint.entries[1].exists);
    assert_eq!(footprint.entries[2].kind_code, 2);
    assert_eq!(artifact_budget_state(&footprint, 1_000), ArtifactBudgetState::Exceeded);
    assert_eq!(artifact_budget_state(&footprint, 1_500).code(), 1);
}

#[test]
fn footprint_totals_saturate_and_note_incomplete_scans() {
    let all = inspections(|index| match index {
        0 | 1 => ArtifactState::Directory { bytes: u64::MAX - 1, files: 1, complete: true },
        3 => ArtifactState::Symlink,
        _ => ArtifactState::Missing,
    });
    let footprint = artifact_footprint(&context(), &all).unwrap();
    assert_eq!(footprint.bytes, u64::MAX);
    assert!(!footprint.complete);
    assert!(footprint.entries[3].exists && !footprint.entries[3].complete);
    assert_eq!(artifact_budget_state(&footprint, u64::MAX), ArtifactBudgetState::IncompleteScan);
    let failed = inspections(|index| {
        if index == 4 { ArtifactState::Failed("cannot inspect /srv/app/target: denied".to_owned()) } else { ArtifactState::Missing }
    });
    assert_eq!(artifact_footprint(&context(), &failed).err().unwrap(), "cannot inspect /srv/app/target: denied");
}

#[test]
fn budget_is_read_and_enforced() {
    assert_eq!(dev_artifact_budget(None), Ok(8_589_934_592));
    let value = Argument { text: "268435456".to_owned(), utf8: true };
    assert_eq!(dev_artifact_budget(Some(&value)), Ok(268_435_456));
    let small = Argument { text: "1024".to_owned(), utf8: true };
    assert_eq!(
        dev_artifact_budget(Some(&small)).unwrap_err(),
        "PAM_DEV_ARTIFACT_BUDGET_BYTES must be between 268435456 and 8589934592"
    );
    let text = Argument { text: "lots".to_owned(), utf8: true };
    assert_eq!(dev_artifact_budget(Some(&text)).unwrap_err(), "PAM_DEV_ARTIFACT_BUDGET_BYTES must be an integer byte count");

    let footprint = ArtifactFootprint { bytes: 300_000_000, files: 10, complete: true, entries: Vec::new() };
    assert_eq!(budget_decision(&context(), 268_435_456, &footprint), Ok(Some(300_000_000)));
    assert_eq!(budget_decision(&context(), 8_589_934_592, &footprint), Ok(None));
    assert_eq!(
        budget_decision(&context(), 10, &footprint).unwrap_err(),
        "development artifact budget is outside the supported bounds"
    );
    assert_eq!(
        budget_decision(&context(), 268_435_455, &footprint).unwrap_err(),
        "development artifact budget is outside the supported bounds"
    );
    let partial = ArtifactFootprint { bytes: 0, files: 0, complete: false, entries: Vec::new() };
    assert_eq!(
        budget_decision(&context(), 268_435_456, &partial).unwrap_err(),
        "cannot enforce the development artifact budget because /srv/app could not be scanned completely"
    );
}

#[test]
fn over_budget_plans_the_full_cleanup() {
    let footprint = ArtifactFootprint { bytes: 300_000_000, files: 10, complete: true, entries: Vec::new() };
    let all = inspections(|index| match index {
        0 => ArtifactState::Directory { bytes: 300_000_000, files: 10, complete: true },
        _ => ArtifactState::Missing,
    });
    let (bytes, report) = enforce_dev_artifact_budget(&context(), 268_435_456, &footprint, "/srv/app", &all).unwrap().unwrap();
    assert_eq!(bytes, 300_000_000);
    assert_eq!((report.schema_version, report.result_code, report.operation_code), (1, 1, 3));
    assert_eq!(report.root, "/srv/app");
    assert_eq!(report.bytes, 300_000_000);
    assert!(enforce_dev_artifact_budget(&context(), 8_589_934_592, &footprint, "/srv/app", &all).unwrap().is_none());
    let refused = inspections(|index| if index == 2 { ArtifactState::Symlink } else { ArtifactState::Missing });
    assert_eq!(
        enforce_dev_artifact_budget(&context(), 268_435_456, &footprint, "/srv/app", &refused).unwrap_err(),
        "refusing to clean generated artifact symlink /srv/app/.pam-native/android"
    );
    let partial = ArtifactFootprint { bytes: 0, files: 0, complete: false, entries: Vec::new() };
    assert!(enforce_dev_artifact_budget(&context(), 268_435_456, &partial, "/srv/app", &refused).is_err());
}

#[test]
fn next_commands_follow_the_project_kind() {
    assert_eq!(contextual_next_commands(ProjectKind::Laravel), vec!["pam doctor", "pam dev", "pam test", "pam benchmark <url>"]);
    assert_eq!(contextual_next_commands(ProjectKind::Product), vec!["pam info", "pam clean --dry-run", "read README.md"]);
    assert_eq!(contextual_next_commands(ProjectKind::Raw), vec!["pam doctor", "pam dev", "pam test", "pam build"]);
}
