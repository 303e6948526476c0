use nelius_core::errors::{JsonField, LauncherError};
use nelius_core::resolve::version_data_from_bytes;

#[test]
fn details_must_be_json() {
    let e = version_data_from_bytes(b"<html>not json</html>", "linux").unwrap_err();
    assert!(matches!(e, LauncherError::MalformedDocument));
}

#[test]
fn details_require_a_libraries_array() {
    let text = "{\"id\":\"1.21\",\"mainClass\":\"m\"}";
    let e = version_data_from_bytes(text.as_bytes(), "linux").unwrap_err();
    assert!(matches!(e, LauncherError::MissingField(JsonField::Libraries)));
}

#[test]
fn details_require_a_main_class() {
    let text = "{\"id\":\"1.21\",\
        \"assetIndex\":{\"id\":\"17\",\"url\":\"u\"},\
        \"downloads\":{\"client\":{\"url\":\"c\"}},\
        \"libraries\":[]}";
    let e = version_data_from_bytes(text.as_bytes(), "linux").unwrap_err();
    assert!(matches!(e, LauncherError::MissingField(JsonField::MainClass)));
}

#[test]
fn details_require_asset_index_coordinates() {
    let text = "{\"id\":\"1.21\",\"mainClass\":\"m\",\
        \"downloads\":{\"client\":{\"url\":\"c\"}},\
        \"libraries\":[]}";
    let e = version_data_from_bytes(text.as_bytes(), "linux").unwrap_err();
    assert!(matches!(e, LauncherError::MissingField(JsonField::AssetIndexUrl)));
}

#[test]
fn details_require_the_client_jar_url() {
    let text = "{\"id\":\"1.21\",\"mainClass\":\"m\",\
        \"assetIndex\":{\"id\":\"17\",\"url\":\"u\"},\
        \"libraries\":[]}";
    let e = version_data_from_bytes(text.as_bytes(), "linux").unwrap_err();
    assert!(matches!(e, LauncherError::MissingField(JsonField::ClientJarUrl)));
}

#[test]
fn a_broken_library_entry_fails_the_resolution() {
    let text = "{\"id\":\"1.21\",\"mainClass\":\"m\",\
        \"assetIndex\":{\"id\":\"17\",\"url\":\"u\"},\
        \"downloads\":{\"client\":{\"url\":\"c\"}},\
        \"libraries\":[{\"name\":\"broken\",\"downloads\":{}}]}";
    let e = version_data_from_bytes(text.as_bytes(), "linux").unwrap_err();
    assert!(matches!(e, LauncherError::MissingField(JsonField::ArtifactUrl)));
}

#[test]
fn an_unsupported_host_fails_the_resolution() {
    let text = "{\"id\":\"1.21\",\"mainClass\":\"m\",\
        \"assetIndex\":{\"id\":\"17\",\"url\":\"u\"},\
        \"downloads\":{\"client\":{\"url\":\"c\"}},\
        \"libraries\":[{\"name\":\"n\",\"downloads\":{\"classifiers\":{\
          \"natives-linux\":{\"url\":\"u\",\"path\":\"p\"}}}}]}";
    let e = version_data_from_bytes(text.as_bytes(), "haiku").unwrap_err();
    match e {
        LauncherError::UnsupportedOs(os) => assert_eq!(os, "haiku"),
        other => panic!("wrong error: {}", other.describe()),
    }
}

#[test]
fn inapplicable_native_libraries_are_silently_omitted() {
    let text = "{\"id\":\"1.21\",\"mainClass\":\"m\",\
        \"assetIndex\":{\"id\":\"17\",\"url\":\"u\"},\
        \"downloads\":{\"client\":{\"url\":\"c\"}},\
        \"libraries\":[\
          {\"name\":\"mac-native\",\"downloads\":{\"classifiers\":{\
            \"natives-osx\":{\"url\":\"u\",\"path\":\"p\"}}}},\
          {\"name\":\"plain\",\"downloads\":{\"artifact\":{\"url\":\"u2\",\"path\":\"p2\"}}}]}";
    let version = version_data_from_bytes(text.as_bytes(), "linux").unwrap();
    assert_eq!(version.libraries.len(), 1);
    assert_eq!(version.libraries[0].library_name, "plain");
    let needed = version.get_os_required_libraries("linux");
    assert_eq!(needed.len(), 1);
}
