use nelius_core::errors::{JsonField, LauncherError};
use nelius_core::metadata::{metadata_filename, InstallationMetadata, ProfileInstallationData};

fn sample_metadata() -> InstallationMetadata {
    InstallationMetadata {
        main_class: "net.minecraft.client.main.Main".to_string(),
        version: "1.21".to_string(),
        asset_index_id: "17".to_string(),
        client_jar_relative: "versions/1.21/1.21.jar".to_string(),
        classpath_relative: vec![
            "com/example/a.jar".to_string(),
            "com/example/b.jar".to_string(),
        ],
    }
}

#[test]
fn metadata_encodes_to_exact_json() {
    let text = sample_metadata().to_json_text();
    assert_eq!(
        text,
        "{\"main_class\":\"net.minecraft.client.main.Main\",\
         \"version\":\"1.21\",\
         \"asset_index_id\":\"17\",\
         \"client_jar_relative\":\"versions/1.21/1.21.jar\",\
         \"classpath_relative\":[\"com/example/a.jar\",\"com/example/b.jar\"]}"
    );
}

#[test]
fn empty_classpath_encodes_to_empty_array() {
    let mut m = sample_metadata();
    m.classpath_relative = Vec::new();
    let text = m.to_json_text();
    assert!(text.ends_with("\"classpath_relative\":[]}"));
}

#[test]
fn metadata_round_trips_through_its_encoding() {
    let original = sample_metadata();
    let text = original.to_json_text();
    let read_back = InstallationMetadata::from_bytes(text.as_bytes()).unwrap();
    assert_eq!(read_back.main_class, original.main_class);
    assert_eq!(read_back.version, original.version);
    assert_eq!(read_back.asset_index_id, original.asset_index_id);
    assert_eq!(read_back.client_jar_relative, original.client_jar_relative);
    assert_eq!(read_back.classpath_relative, original.classpath_relative);
}

#[test]
fn escaped_characters_round_trip() {
    let mut m = sample_metadata();
    m.main_class = "weird\"name\\with\nescapes\tand\rreturns".to_string();
    let text = m.to_json_text();
    let read_back = InstallationMetadata::from_bytes(text.as_bytes()).unwrap();
    assert_eq!(read_back.main_class, m.main_class);
}

#[test]
fn control_characters_get_unicode_escapes() {
    let mut m = sample_metadata();
    m.main_class = "a\u{1}b\u{1f}c".to_string();
    let text = m.to_json_text();
    assert!(text.starts_with("{\"main_class\":\"a\\u0001b\\u001fc\""));
    // the escape is valid JSON: both the core's parse and serde read it back
    let read_back = InstallationMetadata::from_bytes(text.as_bytes()).unwrap();
    assert_eq!(read_back.main_class, m.main_class);
    let value: serde_json::Value = serde_json::from_str(&text).unwrap();
    assert_eq!(
        value["main_class"],
        serde_json::Value::String("a\u{1}b\u{1f}c".to_string())
    );
}

#[test]
fn metadata_parse_names_the_missing_field() {
    let text = "{\"main_class\":\"m\",\"version\":\"v\",\"asset_index_id\":\"a\",\
                \"client_jar_relative\":\"c\"}";
    let e = InstallationMetadata::from_bytes(text.as_bytes()).unwrap_err();
    assert!(matches!(e, LauncherError::MissingField(JsonField::MetadataClasspath)));
    assert_eq!(
        e.describe(),
        "bad json: missing or mistyped field classpath_relative"
    );
}

#[test]
fn metadata_parse_rejects_non_string_classpath_entry() {
    let text = "{\"main_class\":\"m\",\"version\":\"v\",\"asset_index_id\":\"a\",\
                \"client_jar_relative\":\"c\",\"classpath_relative\":[\"ok\",7]}";
    let e = InstallationMetadata::from_bytes(text.as_bytes()).unwrap_err();
    assert!(matches!(e, LauncherError::MissingField(JsonField::MetadataClasspath)));
}

#[test]
fn metadata_parse_rejects_non_json() {
    let e = InstallationMetadata::from_bytes(b"\x00\x01\x02").unwrap_err();
    assert!(matches!(e, LauncherError::MalformedDocument));
}

#[test]
fn metadata_filename_is_fixed() {
    assert_eq!(metadata_filename(), "nelius_metadata.lock");
}

#[test]
fn profile_installation_data_carries_the_launch_slice() {
    let m = sample_metadata();
    let data = ProfileInstallationData::from_metadata(&m);
    assert_eq!(data.main_class, m.main_class);
    assert_eq!(data.asset_index_id, m.asset_index_id);
    assert_eq!(data.client_jar_relative, m.client_jar_relative);
    assert_eq!(data.classpath_relative, m.classpath_relative);
}

#[test]
fn serde_reads_what_the_encoder_writes() {
    let text = sample_metadata().to_json_text();
    let value: serde_json::Value = serde_json::from_str(&text).unwrap();
    assert_eq!(value["version"], serde_json::Value::String("1.21".to_string()));
    assert_eq!(value["classpath_relative"].as_array().unwrap().len(), 2);
}
