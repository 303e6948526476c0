use nelius_core::errors::{JsonField, LauncherError};
use nelius_core::install::{collect_outcomes, pending_tasks, plan_installation, DownloadTask};
use nelius_core::resolve::version_data_from_bytes;

fn sample_details_text() -> String {
    let mut s = String::new();
    s.push_str("{\"id\":\"1.21\",");
    s.push_str("\"assetIndex\":{\"id\":\"17\",\"url\":\"https://example.invalid/17.json\"},");
    s.push_str("\"downloads\":{\"client\":{\"url\":\"https://example.invalid/client.jar\"}},");
    s.push_str("\"mainClass\":\"net.minecraft.client.main.Main\",");
    s.push_str("\"libraries\":[");
    s.push_str(
        "{\"name\":\"windows-native\",\"downloads\":{\"classifiers\":{\
         \"natives-windows\":{\"url\":\"https://example.invalid/n-win.jar\",\"path\":\"n/win.jar\"}}}},",
    );
    s.push_str(
        "{\"name\":\"universal\",\"downloads\":{\"artifact\":{\
         \"url\":\"https://example.invalid/universal.jar\",\"path\":\"com/example/universal.jar\"}}}",
    );
    s.push_str("]}");
    s
}

fn sample_asset_index_text() -> &'static str {
    "{\"objects\":{\"icons/icon_16x16.png\":{\"hash\":\"abcdef0123456789\",\"size\":112}}}"
}

#[test]
fn resolution_and_planning_end_to_end() {
    let manifest_text = "{\"latest\":{\"release\":\"1.21\",\"snapshot\":\"1.21-rc1\"},\
        \"versions\":[{\"id\":\"1.21\",\"type\":\"release\",\"url\":\"https://example.invalid/1.21.json\"},\
        {\"id\":\"1.21-rc1\",\"type\":\"snapshot\",\"url\":\"https://example.invalid/rc1.json\"}]}";
    let manifest = nelius_core::catalog::manifest_from_bytes(manifest_text.as_bytes()).unwrap();
    let target = manifest.resolve_version("1.21").unwrap();
    assert_eq!(target.details_url, "https://example.invalid/1.21.json");

    let details = sample_details_text();
    let version = version_data_from_bytes(details.as_bytes(), "linux").unwrap();
    assert_eq!(version.version_id, "1.21");
    assert_eq!(version.libraries.len(), 1);
    assert_eq!(version.libraries[0].library_name, "universal");

    let plan = plan_installation(&version, "linux", sample_asset_index_text().as_bytes()).unwrap();
    assert_eq!(plan.metadata.classpath_relative, vec!["com/example/universal.jar"]);
    assert_eq!(plan.metadata.main_class, "net.minecraft.client.main.Main");
    assert_eq!(plan.metadata.version, "1.21");
    assert_eq!(plan.metadata.asset_index_id, "17");
    assert_eq!(plan.metadata.client_jar_relative, "versions/1.21/1.21.jar");
    assert_eq!(plan.asset_index_relative, "assets/indexes/17.json");
    assert_eq!(
        plan.subdirectories,
        vec!["versions/1.21", "libraries", "assets/objects", "assets/indexes", "natives"]
    );

    assert_eq!(plan.tasks.len(), 3);
    assert_eq!(plan.tasks[0].download_uri, "https://example.invalid/client.jar");
    assert_eq!(plan.tasks[0].download_path, "versions/1.21/1.21.jar");
    assert!(!plan.tasks[0].is_native);
    assert_eq!(plan.tasks[1].download_uri, "https://example.invalid/universal.jar");
    assert_eq!(plan.tasks[1].download_path, "libraries/com/example/universal.jar");
    assert!(!plan.tasks[1].is_native);
    assert_eq!(
        plan.tasks[2].download_uri,
        "https://resources.download.minecraft.net/ab/abcdef0123456789"
    );
    assert_eq!(plan.tasks[2].download_path, "assets/objects/ab/abcdef0123456789");
}

#[test]
fn windows_host_gets_the_native_library() {
    let details = sample_details_text();
    let version = version_data_from_bytes(details.as_bytes(), "windows").unwrap();
    assert_eq!(version.libraries.len(), 2);
    assert!(version.libraries[0].is_native);
    let plan = plan_installation(&version, "windows", sample_asset_index_text().as_bytes()).unwrap();
    // the native archive is downloaded but never enters the classpath
    assert_eq!(plan.tasks.len(), 4);
    assert!(plan.tasks[1].is_native);
    assert_eq!(plan.metadata.classpath_relative, vec!["com/example/universal.jar"]);
}

#[test]
fn planning_rejects_short_hash() {
    let details = sample_details_text();
    let version = version_data_from_bytes(details.as_bytes(), "linux").unwrap();
    let bad_index = "{\"objects\":{\"x\":{\"hash\":\"a\"}}}";
    let e = plan_installation(&version, "linux", bad_index.as_bytes()).unwrap_err();
    assert!(matches!(e, LauncherError::MissingField(JsonField::ObjectHash)));
}

#[test]
fn planning_rejects_missing_objects() {
    let details = sample_details_text();
    let version = version_data_from_bytes(details.as_bytes(), "linux").unwrap();
    let e = plan_installation(&version, "linux", b"{}").unwrap_err();
    assert!(matches!(e, LauncherError::MissingField(JsonField::Objects)));
    let e2 = plan_installation(&version, "linux", b"not json").unwrap_err();
    assert!(matches!(e2, LauncherError::MalformedDocument));
}

fn task(uri: &str, path: &str) -> DownloadTask {
    DownloadTask {
        download_uri: uri.to_string(),
        download_path: path.to_string(),
        is_native: false,
    }
}

#[test]
fn second_run_transfers_nothing() {
    let tasks = vec![task("u1", "p1"), task("u2", "p2"), task("u3", "p3")];

    // first run: nothing is on disk yet, every task is transferred
    let mut transfers: usize = 0;
    let mut on_disk: Vec<bool> = vec![false, false, false];
    let run1 = pending_tasks(&tasks, &on_disk);
    for t in &run1 {
        transfers += 1;
        let idx = tasks.iter().position(|o| o.download_path == t.download_path).unwrap();
        on_disk[idx] = true;
    }
    assert_eq!(transfers, 3);

    // second run over the same directory: every destination exists
    let run2 = pending_tasks(&tasks, &on_disk);
    assert_eq!(run2.len(), 0);
}

#[test]
fn only_absent_destinations_are_transferred() {
    let tasks = vec![task("u1", "p1"), task("u2", "p2"), task("u3", "p3")];
    let present = vec![true, false, true];
    let pending = pending_tasks(&tasks, &present);
    assert_eq!(pending.len(), 1);
    assert_eq!(pending[0].download_path, "p2");
    assert_eq!(pending[0].download_uri, "u2");
}

#[test]
fn all_outcomes_ok_is_success() {
    let results: Vec<Result<(), LauncherError>> = vec![Ok(()), Ok(()), Ok(())];
    assert!(collect_outcomes(results).is_ok());
    let empty: Vec<Result<(), LauncherError>> = Vec::new();
    assert!(collect_outcomes(empty).is_ok());
}

#[test]
fn first_failure_wins() {
    let results: Vec<Result<(), LauncherError>> = vec![
        Ok(()),
        Err(LauncherError::Transport("second task".to_string())),
        Err(LauncherError::ArchiveUnreadable),
    ];
    let e = collect_outcomes(results).unwrap_err();
    match e {
        LauncherError::Transport(d) => assert_eq!(d, "second task"),
        other => panic!("wrong error: {}", other.describe()),
    }
}
