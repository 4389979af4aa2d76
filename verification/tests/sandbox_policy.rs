use pam::paths::{path_before, resolved_path};
use pam::sandbox::{check_manifest_schema, load_policy, policy_paths, CapabilityResources, Policy};

fn strings(items: &[&str]) -> Vec<String> {
    items.iter().map(|item| item.to_string()).collect()
}

#[test]
fn readable_paths_are_sorted_and_kept_once() {
    let policy = Policy::new(strings(&["/srv/app"]), strings(&["/srv/app/storage"]), strings(&["HOME"]), false, true);
    let plan = policy.apply(&strings(&["/dev/null", "/srv/app", "/etc/ssl/certs"]), &vec![56, 57], &vec![41]);
    assert_eq!(plan.read_paths, strings(&["/dev/null", "/etc/ssl/certs", "/srv/app"]));
    assert_eq!(plan.write_paths, strings(&["/srv/app/storage"]));
    assert_eq!(plan.keep_environment, strings(&["HOME", "PAM_INI_ENTRIES"]));
    assert_eq!(plan.marker, ("PAM_SANDBOX_ACTIVE".to_string(), "1".to_string()));
    let program = plan.filter.unwrap().unwrap();
    assert_eq!(program.len(), 2 * 1 + 2);
    assert_eq!(program[1].k, 41);
}

#[test]
fn path_order_compares_components() {
    assert!(path_before("/a/b", "/a-b"));
    assert!(!path_before("/a-b", "/a/b"));
    assert!(path_before("/a", "/a/b"));
    assert!(!path_before("/a", "/a"));
    let policy = Policy::new(strings(&["/a-b", "/a/b"]), Vec::new(), Vec::new(), true, true);
    let plan = policy.apply(&Vec::new(), &Vec::new(), &Vec::new());
    assert_eq!(plan.read_paths, strings(&["/a/b", "/a-b"]));
    assert!(plan.filter.unwrap().is_none());
}

#[test]
fn sandbox_environment_keeps_granted_names_and_marks_the_sandbox() {
    let policy = Policy::new(Vec::new(), Vec::new(), strings(&["HOME"]), false, false);
    let current = vec![
        ("PATH".to_string(), "/usr/bin".to_string()),
        ("HOME".to_string(), "/home/app".to_string()),
        ("PAM_INI_ENTRIES".to_string(), "memory_limit=1G".to_string()),
        ("PAM_SANDBOX_ACTIVE".to_string(), "0".to_string()),
    ];
    assert_eq!(
        policy.sandbox_environment(&current),
        vec![
            ("HOME".to_string(), "/home/app".to_string()),
            ("PAM_INI_ENTRIES".to_string(), "memory_limit=1G".to_string()),
            ("PAM_SANDBOX_ACTIVE".to_string(), "1".to_string()),
        ]
    );
}

#[test]
fn resolved_paths_are_absolute_and_normal() {
    assert!(resolved_path("/"));
    assert!(resolved_path("/srv/app"));
    assert!(!resolved_path("srv/app"));
    assert!(!resolved_path("/srv//app"));
    assert!(!resolved_path("/srv/app/"));
    assert!(!resolved_path("/srv/./app"));
    assert!(!resolved_path("/srv/../app"));
}

#[test]
fn filesystem_resources_must_stay_beneath_the_root() {
    let root = "/srv/pkg";
    let ok = vec![Ok("/srv/pkg/data".to_string()), Ok("/srv/pkg/cache".to_string()), Ok("/srv/pkg/data".to_string())];
    assert_eq!(
        policy_paths(root, &strings(&["data", "cache", "./data"]), &ok).unwrap(),
        strings(&["/srv/pkg/cache", "/srv/pkg/data"])
    );
    assert_eq!(
        policy_paths(root, &strings(&["/etc"]), &vec![Ok("/etc".to_string())]).unwrap_err(),
        "sandbox filesystem resource must be relative: \"/etc\""
    );
    assert_eq!(
        policy_paths(root, &strings(&["a/../b"]), &vec![Ok("/srv/pkg/b".to_string())]).unwrap_err(),
        "sandbox filesystem resource must be relative: \"a/../b\""
    );
    assert_eq!(
        policy_paths(root, &strings(&["missing"]), &vec![Err("No such file or directory (os error 2)".to_string())]).unwrap_err(),
        "cannot resolve sandbox filesystem resource \"missing\": No such file or directory (os error 2)"
    );
    assert_eq!(
        policy_paths(root, &strings(&["link"]), &vec![Ok("/srv/pkg-other".to_string())]).unwrap_err(),
        "sandbox filesystem resource escapes its root: \"link\""
    );
}

#[test]
fn manifests_load_into_policies() {
    assert!(check_manifest_schema(1).is_ok());
    assert_eq!(check_manifest_schema(2).unwrap_err(), "unsupported capability manifest schema 2");
    let groups = CapabilityResources {
        read: strings(&["data"]),
        write: Vec::new(),
        network: strings(&["*"]),
        process: Vec::new(),
        environment: strings(&["HOME", "HOME"]),
    };
    let policy = load_policy("/srv/pkg", &groups, &vec![Ok("/srv/pkg/data".to_string())], &Vec::new()).unwrap();
    let plan = policy.apply(&Vec::new(), &vec![56], &vec![41]);
    assert_eq!(plan.read_paths, strings(&["/srv/pkg/data"]));
    assert_eq!(plan.keep_environment, strings(&["HOME", "PAM_INI_ENTRIES"]));
    assert_eq!(plan.filter.unwrap().unwrap()[1].k, 56);
    let selective = CapabilityResources { network: strings(&["example.com"]), ..groups };
    assert_eq!(
        load_policy("/srv/pkg", &selective, &vec![Ok("/srv/pkg/data".to_string())], &Vec::new()).err().unwrap(),
        "network capabilities currently require exactly [\"*\"]; selective network access needs the PAM broker and is denied closed"
    );
}
