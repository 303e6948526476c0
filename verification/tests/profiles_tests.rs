use nelius_core::appstate::{append_log, filter_versions, LogSource, Message, PersistentAppState};
use nelius_core::catalog::{manifest_from_bytes};
use nelius_core::errors::LauncherError;
use nelius_core::metadata::ProfileInstallationData;
use nelius_core::paths::get_directories;
use nelius_core::profiles::{validate_profile_name, InstalledVersion, Profile};

fn sample_profile() -> Profile {
    Profile {
        profile_name: "survival".to_string(),
        version_id: "1.21".to_string(),
        java_binary_path: "/usr/bin/java".to_string(),
    }
}

fn sample_data() -> ProfileInstallationData {
    ProfileInstallationData {
        asset_index_id: "17".to_string(),
        client_jar_relative: "versions/1.21/1.21.jar".to_string(),
        classpath_relative: vec!["com/example/a.jar".to_string(), "com/example/b.jar".to_string()],
        main_class: "net.minecraft.client.main.Main".to_string(),
    }
}

#[test]
fn directories_layout_is_fixed() {
    let dirs = get_directories("/home/u/.config/nelius", "/home/u/.local/share/nelius");
    assert_eq!(dirs.config, "/home/u/.config/nelius");
    assert_eq!(dirs.data, "/home/u/.local/share/nelius");
    assert_eq!(dirs.minecraft_root, "/home/u/.local/share/nelius/minecraft-root");
    assert_eq!(dirs.config_file, "/home/u/.config/nelius/config.json");
    assert_eq!(dirs.profiles, "/home/u/.local/share/nelius/profiles");
    assert_eq!(dirs.natives, "/home/u/.local/share/nelius/minecraft-root/natives");
    assert_eq!(dirs.assets, "/home/u/.local/share/nelius/minecraft-root/assets");
    assert_eq!(dirs.objects, "/home/u/.local/share/nelius/minecraft-root/assets/objects");
    assert_eq!(dirs.indexes, "/home/u/.local/share/nelius/minecraft-root/assets/indexes");
    assert_eq!(dirs.versions, "/home/u/.local/share/nelius/minecraft-root/versions");
    assert_eq!(dirs.libraries, "/home/u/.local/share/nelius/minecraft-root/libraries");
}

#[test]
fn profile_directory_is_under_the_profiles_root() {
    let profile = sample_profile();
    let dirs = get_directories("/c", "/d");
    assert_eq!(
        profile.get_profile_directory(&dirs.profiles),
        "/d/profiles/survival"
    );
}

#[test]
fn profile_names_must_be_new_and_non_empty() {
    let existing = vec!["survival".to_string(), "creative".to_string()];
    assert!(!validate_profile_name("", &existing));
    assert!(!validate_profile_name("survival", &existing));
    assert!(validate_profile_name("hardcore", &existing));
    assert!(validate_profile_name("Survival", &existing));
    let none: Vec<String> = Vec::new();
    assert!(validate_profile_name("anything", &none));
}

#[test]
fn launch_arguments_are_exact() {
    let profile = sample_profile();
    let data = sample_data();
    let dirs = get_directories("/c", "/d");
    let args = profile.make_launch_arguments(&data, &dirs, "linux");
    let root = "/d/minecraft-root";
    let expected: Vec<String> = vec![
        format!("-Djava.library.path={root}/libraries"),
        "-Xmx4G".to_string(),
        "-cp".to_string(),
        format!(
            "{root}/libraries/com/example/a.jar:{root}/libraries/com/example/b.jar:{root}/versions/1.21/1.21.jar"
        ),
        "net.minecraft.client.main.Main".to_string(),
        "--username".to_string(),
        "Nelius".to_string(),
        "--version".to_string(),
        "1.21".to_string(),
        "--gameDir".to_string(),
        "/d/profiles/survival".to_string(),
        "-assetsDir".to_string(),
        format!("{root}/assets"),
        "--assetIndex".to_string(),
        "17".to_string(),
        "--uuid".to_string(),
        "0".to_string(),
        "--accessToken".to_string(),
        "0".to_string(),
    ];
    assert_eq!(args, expected);
}

#[test]
fn windows_classpath_uses_semicolons() {
    let profile = sample_profile();
    let data = sample_data();
    let dirs = get_directories("/c", "/d");
    let args = profile.make_launch_arguments(&data, &dirs, "windows");
    assert!(args[3].contains(";"));
    assert!(!args[3].contains(":/d/minecraft-root/versions"));
}

#[test]
fn profile_store_document_parses() {
    let text = "{\"creative\":{\"profile_name\":\"creative\",\"version_id\":\"1.20\",\
                 \"java_binary_path\":\"/usr/bin/java\"},\
                 \"survival\":{\"profile_name\":\"survival\",\"version_id\":\"1.21\",\
                 \"java_binary_path\":\"java\"}}";
    let profiles = nelius_core::profiles::profiles_from_bytes(text.as_bytes()).unwrap();
    assert_eq!(profiles.len(), 2);
    assert_eq!(profiles[0].0, "creative");
    assert_eq!(profiles[0].1.version_id, "1.20");
    assert_eq!(profiles[1].0, "survival");
    assert_eq!(profiles[1].1.java_binary_path, "java");
}

#[test]
fn broken_profile_store_documents_mean_an_empty_store() {
    assert!(nelius_core::profiles::profiles_from_bytes(b"not json").is_none());
    assert!(nelius_core::profiles::profiles_from_bytes(b"[1,2]").is_none());
    let missing_field =
        "{\"p\":{\"profile_name\":\"p\",\"version_id\":\"1.21\"}}";
    assert!(nelius_core::profiles::profiles_from_bytes(missing_field.as_bytes()).is_none());
}

#[test]
fn installed_version_default_is_empty() {
    let v = InstalledVersion::default();
    assert_eq!(v.id, "");
    assert_eq!(v.version, "");
}

#[test]
fn persistent_state_defaults() {
    let s = PersistentAppState::default();
    assert!(s.java_binary.is_none());
    assert!(s.show_releases);
    assert!(!s.show_snapshots);
    assert!(s.auto_scroll);
    assert!(s.selected_version.is_none());
}

#[test]
fn preference_messages_update_their_field_only() {
    let mut s = PersistentAppState::default();
    assert!(s.apply_preference(&Message::VersionChanged("1.21".to_string())));
    assert_eq!(s.selected_version.as_deref(), Some("1.21"));
    assert!(s.apply_preference(&Message::ShowSnapshotsUpdated(true)));
    assert!(s.show_snapshots);
    assert!(s.show_releases);
    assert!(s.apply_preference(&Message::SetJavaBinary(Some("/opt/java".to_string()))));
    assert_eq!(s.java_binary.as_deref(), Some("/opt/java"));
    assert!(s.apply_preference(&Message::AutoScrollLogsToggled(false)));
    assert!(!s.auto_scroll);
    assert!(s.apply_preference(&Message::ShowReleasesUpdated(false)));
    assert!(!s.show_releases);
    // a non-preference message changes nothing
    assert!(!s.apply_preference(&Message::MinecraftClosed));
    assert_eq!(s.selected_version.as_deref(), Some("1.21"));
    assert_eq!(s.java_binary.as_deref(), Some("/opt/java"));
}

#[test]
fn game_start_needs_version_binary_and_no_lock() {
    let mut s = PersistentAppState::default();
    assert!(!s.can_start_game(false));
    s.selected_version = Some("1.21".to_string());
    assert!(!s.can_start_game(false));
    s.java_binary = Some("java".to_string());
    assert!(s.can_start_game(false));
    assert!(!s.can_start_game(true));
}

#[test]
fn log_lines_are_tagged_by_source() {
    let mut logs = String::new();
    append_log(&mut logs, "hello", LogSource::NeliusLauncher, 5000);
    append_log(&mut logs, "world", LogSource::Minecraft, 5000);
    append_log(&mut logs, "plain", LogSource::Unknown, 5000);
    assert_eq!(logs, "[NELIUS LAUNCHER] hello\n[MINECRAFT] world\nplain\n");
}

#[test]
fn log_buffer_drops_its_oldest_characters() {
    let mut logs = String::new();
    append_log(&mut logs, "abcdefgh", LogSource::Unknown, 6);
    // "abcdefgh\n" is nine characters; only the last six stay
    assert_eq!(logs, "defgh\n");
    append_log(&mut logs, "xy", LogSource::Unknown, 6);
    assert_eq!(logs, "gh\nxy\n");
}

#[test]
fn version_filter_follows_the_toggles() {
    let manifest_text = "{\"latest\":{\"release\":\"r\",\"snapshot\":\"s\"},\"versions\":[\
        {\"id\":\"1.21\",\"type\":\"release\",\"url\":\"u\"},\
        {\"id\":\"1.21-rc1\",\"type\":\"snapshot\",\"url\":\"u\"},\
        {\"id\":\"odd\",\"type\":\"experiment\",\"url\":\"u\"}]}";
    let manifest = manifest_from_bytes(manifest_text.as_bytes()).unwrap();
    assert_eq!(
        filter_versions(&manifest.versions, true, false),
        vec!["1.21", "odd"]
    );
    assert_eq!(
        filter_versions(&manifest.versions, false, true),
        vec!["1.21-rc1", "odd"]
    );
    assert_eq!(
        filter_versions(&manifest.versions, true, true),
        vec!["1.21", "1.21-rc1", "odd"]
    );
    assert_eq!(filter_versions(&manifest.versions, false, false), vec!["odd"]);
}

#[test]
fn errors_describe_themselves() {
    assert_eq!(
        LauncherError::MalformedDocument.describe(),
        "bad json: the response is not a json document"
    );
    assert_eq!(
        LauncherError::VersionNotFound("1.99".to_string()).describe(),
        "the version 1.99 does not exist"
    );
    assert_eq!(
        LauncherError::UnsupportedOs("plan9".to_string()).describe(),
        "unsupported operating system plan9"
    );
    assert_eq!(
        LauncherError::Transport("timed out".to_string()).describe(),
        "network error: timed out"
    );
    assert_eq!(
        LauncherError::Filesystem("read only".to_string()).describe(),
        "filesystem error: read only"
    );
    assert_eq!(
        LauncherError::ArchiveUnreadable.describe(),
        "failed reading the native archive"
    );
}
