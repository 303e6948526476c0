use nelius_core::errors::{JsonField, LauncherError};
use nelius_core::json::JsonValue;
use nelius_core::platform::{Library, MinecraftCompatibleOS};

fn doc(text: &str) -> JsonValue {
    nelius_core::json::parse_document(text.as_bytes()).expect("test document is valid json")
}

#[test]
fn plain_artifact_parses() {
    let entry = doc(
        "{\"name\":\"org.lwjgl:lwjgl:3.3.3\",\
         \"downloads\":{\"artifact\":{\"url\":\"https://example.invalid/lwjgl.jar\",\
         \"path\":\"org/lwjgl/lwjgl.jar\"}}}",
    );
    let lib = Library::from_json(&entry, "linux").unwrap().expect("applicable");
    assert_eq!(lib.library_name, "org.lwjgl:lwjgl:3.3.3");
    assert_eq!(lib.download_url, "https://example.invalid/lwjgl.jar");
    assert_eq!(lib.download_path, "org/lwjgl/lwjgl.jar");
    assert!(!lib.is_native);
    assert_eq!(lib.specific_os, None);
    assert!(lib.is_needed_for_this_os("linux"));
    assert!(lib.is_needed_for_this_os("windows"));
}

#[test]
fn classifier_for_this_host_is_native() {
    let entry = doc(
        "{\"name\":\"natives\",\
         \"downloads\":{\"classifiers\":{\
         \"natives-linux\":{\"url\":\"https://example.invalid/n-linux.jar\",\"path\":\"n/linux.jar\"},\
         \"natives-windows\":{\"url\":\"https://example.invalid/n-win.jar\",\"path\":\"n/win.jar\"}}}}",
    );
    let lib = Library::from_json(&entry, "linux").unwrap().expect("applicable");
    assert!(lib.is_native);
    assert_eq!(lib.download_url, "https://example.invalid/n-linux.jar");
    assert_eq!(lib.download_path, "n/linux.jar");
}

#[test]
fn classifier_without_this_host_is_not_applicable() {
    let entry = doc(
        "{\"name\":\"windows-only\",\
         \"downloads\":{\"classifiers\":{\
         \"natives-windows\":{\"url\":\"https://example.invalid/n-win.jar\",\"path\":\"n/win.jar\"}}}}",
    );
    let parsed = Library::from_json(&entry, "linux").unwrap();
    assert!(parsed.is_none());
}

#[test]
fn classifier_outcome_ignores_rules() {
    let entry = doc(
        "{\"name\":\"windows-only\",\
         \"rules\":[{\"action\":\"allow\",\"os\":{\"name\":\"linux\"}}],\
         \"downloads\":{\"classifiers\":{\
         \"natives-windows\":{\"url\":\"https://example.invalid/n-win.jar\",\"path\":\"n/win.jar\"}}}}",
    );
    let parsed = Library::from_json(&entry, "linux").unwrap();
    assert!(parsed.is_none());
}

#[test]
fn unsupported_host_is_a_hard_error() {
    let entry = doc(
        "{\"name\":\"natives\",\
         \"downloads\":{\"classifiers\":{\
         \"natives-linux\":{\"url\":\"https://example.invalid/n.jar\",\"path\":\"n.jar\"}}}}",
    );
    let e = Library::from_json(&entry, "freebsd").unwrap_err();
    match e {
        LauncherError::UnsupportedOs(os) => assert_eq!(os, "freebsd"),
        other => panic!("wrong error: {}", other.describe()),
    }
}

#[test]
fn missing_artifact_url_is_named() {
    let entry = doc("{\"name\":\"broken\",\"downloads\":{\"artifact\":{\"path\":\"p.jar\"}}}");
    let e = Library::from_json(&entry, "linux").unwrap_err();
    assert!(matches!(e, LauncherError::MissingField(JsonField::ArtifactUrl)));
}

#[test]
fn missing_classifier_path_is_named() {
    let entry = doc(
        "{\"name\":\"broken\",\"downloads\":{\"classifiers\":{\
         \"natives-linux\":{\"url\":\"https://example.invalid/n.jar\"}}}}",
    );
    let e = Library::from_json(&entry, "linux").unwrap_err();
    assert!(matches!(e, LauncherError::MissingField(JsonField::ClassifierPath)));
}

#[test]
fn rule_without_action_is_named() {
    let entry = doc(
        "{\"name\":\"broken\",\
         \"rules\":[{\"os\":{\"name\":\"linux\"}}],\
         \"downloads\":{\"artifact\":{\"url\":\"u\",\"path\":\"p\"}}}",
    );
    let e = Library::from_json(&entry, "linux").unwrap_err();
    assert!(matches!(e, LauncherError::MissingField(JsonField::RuleAction)));
}

#[test]
fn last_allow_rule_wins() {
    let entry = doc(
        "{\"name\":\"ruled\",\
         \"rules\":[{\"action\":\"allow\",\"os\":{\"name\":\"osx\"}},\
                    {\"action\":\"allow\",\"os\":{\"name\":\"linux\"}}],\
         \"downloads\":{\"artifact\":{\"url\":\"u\",\"path\":\"p\"}}}",
    );
    let lib = Library::from_json(&entry, "linux").unwrap().expect("applicable");
    assert_eq!(lib.specific_os, Some(MinecraftCompatibleOS::Linux));
    assert!(lib.is_needed_for_this_os("linux"));
    assert!(!lib.is_needed_for_this_os("macos"));
}

#[test]
fn disallow_rules_are_ignored() {
    let entry = doc(
        "{\"name\":\"ruled\",\
         \"rules\":[{\"action\":\"allow\",\"os\":{\"name\":\"osx\"}},\
                    {\"action\":\"disallow\",\"os\":{\"name\":\"linux\"}}],\
         \"downloads\":{\"artifact\":{\"url\":\"u\",\"path\":\"p\"}}}",
    );
    let lib = Library::from_json(&entry, "linux").unwrap().expect("applicable");
    assert_eq!(lib.specific_os, Some(MinecraftCompatibleOS::OSX));
    assert!(!lib.is_needed_for_this_os("linux"));
    assert!(lib.is_needed_for_this_os("macos"));
}

#[test]
fn allow_rule_with_unknown_os_clears_the_restriction() {
    let entry = doc(
        "{\"name\":\"ruled\",\
         \"rules\":[{\"action\":\"allow\",\"os\":{\"name\":\"osx\"}},\
                    {\"action\":\"allow\"}],\
         \"downloads\":{\"artifact\":{\"url\":\"u\",\"path\":\"p\"}}}",
    );
    let lib = Library::from_json(&entry, "linux").unwrap().expect("applicable");
    assert_eq!(lib.specific_os, None);
    assert!(lib.is_needed_for_this_os("linux"));
}
