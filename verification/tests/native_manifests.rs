use pam::mobile_manifest::{
    validate_manifest, validate_relative_path, AndroidDeepLink, AndroidOptions, NativeBinding, NativeManifest,
    ProjectFiles, ProjectPath, RuntimeRequest,
};
use pam::android_manifest::with_deep_links;
use pam::plugin_manifest::{
    validate_plugin_manifest, PluginAndroid, PluginCompatibility, PluginManifest, PluginPath, PluginPhp,
};

fn path(text: &str) -> ProjectPath {
    ProjectPath {
        text: text.to_owned(),
        absolute: text.starts_with('/'),
        components: text
            .split('/')
            .filter(|part| !part.is_empty())
            .map(|part| if part == "." || part == ".." { None } else { Some(part.to_owned()) })
            .collect(),
    }
}

fn app() -> NativeManifest {
    NativeManifest {
        version: 1,
        application_id: "dev.pam.demo".to_owned(),
        name: "Demo".to_owned(),
        entry: path("mobile.php"),
        runtime: RuntimeRequest { php: "8.5".to_owned(), channel: "stable".to_owned() },
        version_code: 1,
        version_name: "1.0.0".to_owned(),
        android: AndroidOptions { min_sdk: 26, target_sdk: 35, permissions: Vec::new(), deep_links: Vec::new() },
        modules: Vec::new(),
        views: Vec::new(),
    }
}

fn files() -> ProjectFiles {
    ProjectFiles { entry_location: "/srv/demo/mobile.php".to_owned(), entry_is_file: true, autoload_is_file: true }
}

fn binding(name: &str, class: &str) -> NativeBinding {
    NativeBinding { name: name.to_owned(), class: class.to_owned() }
}

fn link(scheme: &str, host: Option<&str>, prefix: Option<&str>, auto_verify: bool) -> AndroidDeepLink {
    AndroidDeepLink {
        scheme: scheme.to_owned(),
        host: host.map(str::to_owned),
        path_prefix: prefix.map(str::to_owned),
        auto_verify,
    }
}

#[test]
fn relative_paths_must_be_plain_names() {
    assert_eq!(validate_relative_path(&path("src/main.php")), Ok(()));
    assert_eq!(validate_relative_path(&path("../escape.php")).err().unwrap(), "unsafe project-relative path ../escape.php");
    assert_eq!(validate_relative_path(&path("/etc/passwd")).err().unwrap(), "unsafe project-relative path /etc/passwd");
    assert_eq!(validate_relative_path(&path("")).err().unwrap(), "unsafe project-relative path ");
}

#[test]
fn native_manifest_is_accepted_when_every_rule_holds() {
    let mut manifest = app();
    manifest.modules = vec![binding("camera", "dev.pam.Camera")];
    manifest.views = vec![binding("map.view", "dev.pam.MapFactory")];
    manifest.android.permissions = vec!["android.permission.CAMERA".to_owned()];
    manifest.android.deep_links = vec![link("https", Some("pam.dev"), Some("/open"), true)];
    assert_eq!(validate_manifest(&manifest, &files()), Ok(()));
}

#[test]
fn native_manifest_names_the_first_broken_rule() {
    let check = |change: &dyn Fn(&mut NativeManifest, &mut ProjectFiles), expected: &str| {
        let mut manifest = app();
        let mut present = files();
        change(&mut manifest, &mut present);
        assert_eq!(validate_manifest(&manifest, &present).err().unwrap(), expected);
    };
    check(&|m, _| m.version = 2, "unsupported Pam Native manifest version 2; expected 1");
    check(&|m, _| m.runtime.php = "8.3".to_owned(), "runtime.php must be 8.4 or 8.5");
    check(&|m, _| m.runtime.channel = "beta".to_owned(), "runtime.channel currently supports only \"stable\"");
    check(&|m, _| m.application_id = "demo".to_owned(), "applicationId must be a dot-separated Java package name");
    check(&|m, _| m.name = "  ".to_owned(), "application name must contain between 1 and 80 characters");
    check(&|m, _| m.name = "x".repeat(81), "application name must contain between 1 and 80 characters");
    check(&|m, _| m.version_code = 0, "versionCode must be a positive integer");
    check(&|m, _| m.version_name = "1.0\n".to_owned(), "versionName must be a safe string no longer than 64 bytes");
    check(&|m, _| m.android.min_sdk = 25, "Android minSdk must be at least 26 and no greater than targetSdk");
    check(&|m, _| m.android.target_sdk = 37, "this Pam Native release supports targetSdk up to 36");
    check(&|m, _| m.entry = path("../x.php"), "unsafe project-relative path ../x.php");
    check(&|_, f| f.entry_is_file = false, "mobile entry /srv/demo/mobile.php does not exist");
    check(&|_, f| f.autoload_is_file = false, "vendor/autoload.php is missing; run `pam composer install` first");
    check(
        &|m, _| m.modules = vec![binding("Camera", "dev.pam.Camera")],
        "native module name \"Camera\" must use lowercase letters, digits, dots, _ or -",
    );
    check(&|m, _| m.modules = vec![binding("camera", "camera")], "invalid Kotlin class name \"camera\"");
    check(
        &|m, _| m.modules = vec![binding("camera", "dev.pam.A"), binding("camera", "dev.pam.B")],
        "duplicate native module name \"camera\"",
    );
    check(&|m, _| m.views = vec![binding("map", "map")], "invalid native view factory class \"map\"");
    check(
        &|m, _| m.android.permissions = vec!["CAMERA".to_owned()],
        "invalid Android permission \"CAMERA\"",
    );
    check(
        &|m, _| m.android.deep_links = vec![link("1http", None, None, false)],
        "invalid Android deep-link scheme \"1http\"",
    );
    check(
        &|m, _| m.android.deep_links = vec![link("pam", Some(".bad"), None, false)],
        "invalid Android deep-link host \".bad\"",
    );
    check(
        &|m, _| m.android.deep_links = vec![link("pam", None, Some("open<"), false)],
        "Android deep-link pathPrefix \"open<\" must be an absolute safe path",
    );
    check(
        &|m, _| m.android.deep_links = vec![link("pam", Some("pam.dev"), None, true)],
        "Android autoVerify deep links require scheme \"https\" and a host",
    );
}

fn resolved(text: &str, inside: bool) -> PluginPath {
    PluginPath { path: path(text), resolved: Ok(inside) }
}

fn plugin() -> PluginManifest {
    PluginManifest {
        version: 1,
        protocol: 1,
        pam_native: PluginCompatibility { minimum: "1.0.0".to_owned(), maximum_exclusive: "2.0.0".to_owned() },
        php: PluginPhp { provider: Some("Pam\\Camera\\Provider".to_owned()) },
        android: PluginAndroid {
            namespace: Some("dev.pam.camera".to_owned()),
            min_sdk: 26,
            permissions: vec!["android.permission.CAMERA".to_owned()],
            repositories: vec!["https://repo.example.com/maven".to_owned()],
            dependencies: vec!["androidx.camera:camera-core:1.3.0".to_owned()],
            local_aars: Vec::new(),
            source_dirs: vec![resolved("android/src", true)],
            resource_dirs: Vec::new(),
            asset_dirs: Vec::new(),
            jni_lib_dirs: Vec::new(),
            manifest: Some(resolved("android/AndroidManifest.xml", true)),
            consumer_rules: None,
        },
        modules: vec![binding("camera", "dev.pam.camera.CameraModule")],
        views: Vec::new(),
    }
}

#[test]
fn plugin_manifest_is_accepted_within_its_sdk_range() {
    assert_eq!(validate_plugin_manifest("pam/camera", &plugin(), 26, (1, 4, 0), "1.4.0"), Ok(()));
}

#[test]
fn plugin_manifest_names_the_first_broken_rule() {
    let check = |change: &dyn Fn(&mut PluginManifest), expected: &str| {
        let mut manifest = plugin();
        change(&mut manifest);
        assert_eq!(validate_plugin_manifest("pam/camera", &manifest, 28, (1, 4, 0), "1.4.0").err().unwrap(), expected);
    };
    check(&|m| m.version = 3, "plugin pam/camera uses unsupported manifest version 3; expected 1");
    check(&|m| m.protocol = 2, "plugin pam/camera requires protocol 2, but this SDK implements 1");
    check(
        &|m| m.pam_native.minimum = "one".to_owned(),
        "plugin pam/camera has invalid pamNative.minimum: \"one\" is not a semantic release version",
    );
    check(
        &|m| m.pam_native.maximum_exclusive = "2.0".to_owned(),
        "plugin pam/camera has invalid pamNative.maximumExclusive: \"2.0\" must contain major.minor.patch",
    );
    check(
        &|m| m.pam_native.maximum_exclusive = "1.0.0".to_owned(),
        "plugin pam/camera compatibility minimum must be lower than maximumExclusive",
    );
    check(
        &|m| m.pam_native.minimum = "1.5.0".to_owned(),
        "plugin pam/camera supports Pam Native 1.5.0 through 2.0.0, exclusive; installed SDK is 1.4.0",
    );
    check(&|m| m.php.provider = Some("\\Bad".to_owned()), "plugin pam/camera has invalid PHP provider \"\\\\Bad\"");
    check(
        &|m| m.android.min_sdk = 29,
        "plugin pam/camera requires Android minSdk 29, but the app uses 28; plugin minSdk must be between 26 and the app minSdk",
    );
    check(&|m| m.android.namespace = Some("camera".to_owned()), "plugin pam/camera has invalid Android namespace \"camera\"");
    check(
        &|m| m.android.permissions = vec!["android.permission.camera".to_owned()],
        "plugin pam/camera has invalid Android permission \"android.permission.camera\"",
    );
    check(
        &|m| m.android.repositories = vec!["http://repo".to_owned()],
        "plugin pam/camera repository URLs must use HTTPS and contain no control characters",
    );
    check(
        &|m| m.android.dependencies = vec!["camera".to_owned()],
        "plugin pam/camera has invalid Maven dependency \"camera\"",
    );
    check(
        &|m| m.android.source_dirs = vec![resolved("../outside", true)],
        "plugin pam/camera path ../outside: unsafe project-relative path ../outside",
    );
    check(
        &|m| m.android.source_dirs = vec![PluginPath { path: path("android/gone"), resolved: Err("No such file".to_owned()) }],
        "plugin pam/camera path android/gone cannot be resolved: No such file",
    );
    check(
        &|m| m.android.consumer_rules = Some(resolved("rules.pro", false)),
        "plugin pam/camera path rules.pro escapes its Composer package",
    );
    check(
        &|m| m.modules = vec![binding("Camera", "dev.pam.Camera")],
        "plugin pam/camera module name \"Camera\" must use lowercase letters, digits, dots, _ or -",
    );
    check(
        &|m| m.views = vec![binding("preview", "preview")],
        "plugin pam/camera has invalid Kotlin view class \"preview\"",
    );
}

use pam::plugin_discovery::{
    check_plugin_package, installed_native_version, plugin_order, validate_plugin_bindings, ComposerPackage,
    PluginBindings,
};

fn package(name: &str, version: &str, install: Option<&str>, plugin: Option<&str>) -> ComposerPackage {
    ComposerPackage {
        name: name.to_owned(),
        version: version.to_owned(),
        install_path: install.map(path),
        plugin: plugin.map(path),
    }
}

#[test]
fn the_installed_sdk_is_found_and_read() {
    let packages = vec![package("acme/tool", "1.0.0", None, None), package("pushinbr/pam-native", "0.2.x-dev", None, None)];
    let (text, version) = installed_native_version(&packages).unwrap();
    assert_eq!(text, "0.2.x-dev");
    assert_eq!(version, (0, 2, 0));
    assert_eq!(
        installed_native_version(&packages[..1].iter().map(|p| package(&p.name, &p.version, None, None)).collect()).err().unwrap(),
        "Composer package pushinbr/pam-native is required for a Pam Native mobile project"
    );
}

#[test]
fn plugin_declarations_are_checked_before_files_are_read() {
    let roots = |p: &ComposerPackage| -> Vec<bool> {
        p.install_path.as_ref().map(|path| path.components.iter().map(|_| false).collect()).unwrap_or_default()
    };
    let plain = package("acme/tool", "1.0.0", Some("../acme/tool"), None);
    assert_eq!(check_plugin_package(&plain, &roots(&plain)), Ok(false));
    let plugin = package("acme/camera", "1.0.0", Some("../acme/camera"), Some("pam-native-plugin.json"));
    assert_eq!(check_plugin_package(&plugin, &roots(&plugin)), Ok(true));
    let no_path = package("acme/camera", "1.0.0", None, Some("plugin.json"));
    assert_eq!(
        check_plugin_package(&no_path, &vec![]).err().unwrap(),
        "Pam Native plugin package acme/camera has no Composer install-path"
    );
    let bad_name = package("Acme/Camera", "1.0.0", Some("x"), Some("plugin.json"));
    assert_eq!(
        check_plugin_package(&bad_name, &vec![false]).err().unwrap(),
        "Pam Native plugin package name \"Acme/Camera\" is invalid"
    );
    let rooted = package("acme/camera", "1.0.0", Some("/opt/camera"), Some("plugin.json"));
    assert_eq!(check_plugin_package(&rooted, &vec![true, false, false]).err().unwrap(), "unsafe Composer install path /opt/camera");
    let escaping = package("acme/camera", "1.0.0", Some("x"), Some("../plugin.json"));
    assert_eq!(check_plugin_package(&escaping, &vec![false]).err().unwrap(), "unsafe project-relative path ../plugin.json");
}

#[test]
fn plugins_are_ordered_by_package_and_cannot_share_names() {
    let names = vec!["b/two".to_owned(), "a/one".to_owned(), "b/two".to_owned(), "a/zero".to_owned()];
    assert_eq!(plugin_order(&names), vec![1, 3, 0, 2]);
    let plugins = vec![
        PluginBindings { package: "a/one".to_owned(), modules: vec!["camera".to_owned()], views: vec!["preview".to_owned()] },
        PluginBindings { package: "b/two".to_owned(), modules: vec!["maps".to_owned()], views: vec!["preview".to_owned()] },
    ];
    assert_eq!(
        validate_plugin_bindings(&vec![], &vec![], &plugins).err().unwrap(),
        "duplicate native view name \"preview\" introduced by plugin b/two"
    );
    assert_eq!(
        validate_plugin_bindings(&vec!["camera".to_owned()], &vec![], &plugins).err().unwrap(),
        "duplicate native module name \"camera\" introduced by plugin a/one"
    );
    assert_eq!(validate_plugin_bindings(&vec![], &vec![], &plugins[..1].iter().map(|p| PluginBindings {
        package: p.package.clone(),
        modules: p.modules.clone(),
        views: p.views.clone(),
    }).collect()), Ok(()));
}

fn pam_links() -> Vec<AndroidDeepLink> {
    vec![link("pushin", None, None, false), link("https", Some("api.zechat.com.br"), Some("/reel/"), true)]
}

const BARE_ANDROID_MANIFEST: &str =
    "<manifest><application><activity android:name=\".PamActivity\">\n    </activity></application></manifest>";

#[test]
fn android_deep_links_generate_browsable_intent_filters() {
    let links = pam_links();
    let first = with_deep_links(BARE_ANDROID_MANIFEST, &links).expect("deep-link filters");
    let contents = with_deep_links(&first, &links).expect("idempotent deep-link filters");
    assert!(contents.contains("android:scheme=\"pushin\""));
    assert!(contents.contains("android:autoVerify=\"true\""));
    assert!(contents.contains("android:host=\"api.zechat.com.br\""));
    assert!(contents.contains("android:pathPrefix=\"/reel/\""));
    assert_eq!(contents.matches("android:name=\"android.intent.category.BROWSABLE\"").count(), 2);
    assert_eq!(contents.matches("<!-- pam:deep-links -->").count(), 1);
}

#[test]
fn android_deep_link_block_sits_before_the_activity_closes() {
    let contents = with_deep_links(BARE_ANDROID_MANIFEST, &vec![link("pushin", None, None, false)]).expect("filters");
    let expected = [
        "<manifest><application><activity android:name=\".PamActivity\">\n    ",
        "            <!-- pam:deep-links -->\n",
        "            <intent-filter>\n",
        "    <action android:name=\"android.intent.action.VIEW\" />\n",
        "    <category android:name=\"android.intent.category.DEFAULT\" />\n",
        "    <category android:name=\"android.intent.category.BROWSABLE\" />\n",
        "    <data android:scheme=\"pushin\" />\n",
        "    </intent-filter>\n",
        "            <!-- /pam:deep-links -->\n",
        "</activity></application></manifest>",
    ]
    .concat();
    assert_eq!(contents, expected);
}

#[test]
fn android_deep_links_removed_when_none_are_declared() {
    let with_links = with_deep_links(BARE_ANDROID_MANIFEST, &pam_links()).expect("filters");
    assert_eq!(with_deep_links(&with_links, &Vec::new()), Ok(BARE_ANDROID_MANIFEST.to_owned()));
}

#[test]
fn android_deep_links_reject_damaged_manifests() {
    let incomplete = "<activity android:name=\".PamActivity\">\n            <!-- pam:deep-links -->\n</activity>";
    assert_eq!(
        with_deep_links(incomplete, &pam_links()),
        Err("Android manifest has an incomplete PAM deep-link block".to_owned())
    );
    assert_eq!(
        with_deep_links("<manifest></manifest>", &pam_links()),
        Err("Android manifest has no PamActivity element".to_owned())
    );
    assert_eq!(
        with_deep_links("<activity android:name=\".PamActivity\">", &pam_links()),
        Err("Android manifest has no closing PamActivity element".to_owned())
    );
}

#[test]
fn android_deep_links_rewrite_is_idempotent() {
    let links = pam_links();
    let first = with_deep_links(BARE_ANDROID_MANIFEST, &links).expect("filters");
    assert_eq!(with_deep_links(&first, &links), Ok(first.clone()));
}
