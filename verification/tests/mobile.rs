use pam::mobile::{
    display_abis, generated_namespace, ignored_project_path, kebab_case, kotlin_string,
    parse_installed_sdk_version, parse_release_version, property_value, valid_android_permission,
    valid_application_id, valid_class_name, valid_composer_package, valid_deep_link_host,
    valid_maven_coordinate, valid_module_name, valid_pascal_name, valid_php_class_name,
    valid_uri_scheme, validate_binding, AndroidAbi, BuildMode,
};
use std::path::{Component, Path};

fn components(path: &str) -> Vec<Option<String>> {
    Path::new(path)
        .components()
        .map(|component| match component {
            Component::Normal(value) => value.to_str().map(str::to_owned),
            _ => None,
        })
        .collect()
}

fn ignored(path: &str) -> bool {
    ignored_project_path(&components(path))
}

#[test]
fn generator_names_are_safe_and_human_readable() {
    assert!(valid_pascal_name("Checkout"));
    assert!(valid_pascal_name("HTTPClient2"));
    assert!(!valid_pascal_name("checkout"));
    assert!(!valid_pascal_name("../Checkout"));
    assert_eq!(kebab_case("CheckoutForm"), "checkout-form");
    assert_eq!(kebab_case("HTTPClient"), "http-client");
}

#[test]
fn android_bundle_ignores_hidden_paths_at_every_depth() {
    assert!(ignored(".env"));
    assert!(ignored(".pam-native/android"));
    assert!(ignored("vendor/package/.build/cache.php"));
    assert!(ignored("vendor/package/resources/.generated/value.php"));
    assert!(ignored("node_modules/package/index.js"));
    assert!(ignored("target/release/pam"));
    assert!(ignored("vendor/package/android/build/intermediates/classes.jar"));
    assert!(ignored("vendor/package/examples/demo/vendor/autoload.php"));
    assert!(!ignored("vendor/package/src/View.php"));
    assert!(!ignored("vendor/composer/autoload.php"));
    assert!(!ignored("resources/icons/pam-ui.svg"));
}

#[test]
fn installed_sdk_versions_accept_stable_and_composer_dev_lines() {
    assert_eq!(parse_installed_sdk_version("0.2.1"), Ok((0, 2, 1)));
    assert_eq!(parse_installed_sdk_version("0.2.x-dev"), Ok((0, 2, 0)));
    assert!(parse_installed_sdk_version("dev-main").is_err());
    assert!(parse_release_version("0.2.x-dev").is_err());
}

#[test]
fn release_versions_ignore_suffixes_and_name_the_failure() {
    assert_eq!(parse_release_version("1.2.3-beta.1+build"), Ok((1, 2, 3)));
    assert_eq!(
        parse_release_version("1.2").unwrap_err(),
        "\"1.2\" must contain major.minor.patch"
    );
    assert_eq!(
        parse_release_version("1.x.3").unwrap_err(),
        "\"1.x.3\" is not a semantic release version"
    );
    assert_eq!(
        parse_installed_sdk_version("dev-main").unwrap_err(),
        "\"dev-main\" is not a supported Composer SDK version"
    );
    assert_eq!(parse_installed_sdk_version("3.4.*-dev"), Ok((3, 4, 0)));
}

#[test]
fn android_identifiers_follow_their_grammars() {
    assert!(valid_application_id("dev.pam.app"));
    assert!(!valid_application_id("pam"));
    assert!(!valid_application_id("dev.1pam"));
    assert!(valid_class_name("dev.pam.Camera_Module"));
    assert!(!valid_class_name("Camera"));
    assert!(valid_module_name("camera-v2.beta_1"));
    assert!(!valid_module_name("Camera"));
    assert!(valid_php_class_name("Vendor\\Package\\Camera"));
    assert!(!valid_php_class_name("\\Vendor\\Camera"));
    assert!(valid_android_permission("android.permission.CAMERA"));
    assert!(!valid_android_permission("android.permission."));
    assert!(!valid_android_permission("android.permission.camera"));
    assert!(valid_maven_coordinate("com.example:lib:1.0"));
    assert!(valid_maven_coordinate("com.example:lib:[1.0,2.0):aar"));
    assert!(!valid_maven_coordinate("com.example:lib"));
    assert!(!valid_maven_coordinate("com.example::1.0"));
    assert!(valid_composer_package("pushinbr/pam-native-camera"));
    assert!(!valid_composer_package("pushinbr/Camera"));
    assert!(!valid_composer_package("a/b/c"));
    assert!(valid_uri_scheme("pushin+v1"));
    assert!(!valid_uri_scheme("1pushin"));
    assert!(valid_deep_link_host("api.zechat.com.br"));
    assert!(!valid_deep_link_host("-api.example"));
    assert!(!valid_deep_link_host("api.example."));
}

#[test]
fn bindings_name_the_invalid_field() {
    assert!(validate_binding("vendor/camera", "module", "camera", "dev.pam.Camera").is_ok());
    assert_eq!(
        validate_binding("vendor/camera", "module", "Camera", "dev.pam.Camera").unwrap_err(),
        "plugin vendor/camera module name \"Camera\" must use lowercase letters, digits, dots, _ or -"
    );
    assert_eq!(
        validate_binding("vendor/camera", "view", "camera", "Camera").unwrap_err(),
        "plugin vendor/camera has invalid Kotlin view class \"Camera\""
    );
}

#[test]
fn generated_text_is_escaped() {
    assert_eq!(property_value("C:\\sdk\n=x"), "C\\:\\\\sdk\\n\\=x");
    assert_eq!(kotlin_string("a\"$b\\"), "\"a\\\"\\$b\\\\\"");
    assert_eq!(generated_namespace(3, "vendor/pam-camera"), "dev.pam.generated.plugin3.vendor_pam_camera");
    assert_eq!(display_abis(&[AndroidAbi::Arm64, AndroidAbi::X86_64]), "arm64-v8a,x86_64");
    assert_eq!(AndroidAbi::parse("aarch64"), Ok(AndroidAbi::Arm64));
    assert_eq!(
        AndroidAbi::parse("mips").unwrap_err(),
        "unsupported Android ABI \"mips\"; expected arm64-v8a or x86_64"
    );
    assert_eq!(BuildMode::Release.gradle_task(), "assembleRelease");
    assert_eq!(AndroidAbi::X86_64.clang(), "x86_64-linux-android26-clang");
}
