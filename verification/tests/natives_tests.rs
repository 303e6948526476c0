use std::io::Write;

use nelius_core::errors::LauncherError;
use nelius_core::natives::extract_native_entries;

fn build_archive(entries: &[(&str, &[u8])]) -> Vec<u8> {
    let cursor = std::io::Cursor::new(Vec::new());
    let mut writer = zip::ZipWriter::new(cursor);
    let options = zip::write::SimpleFileOptions::default();
    for (name, data) in entries {
        writer.start_file(*name, options).unwrap();
        writer.write_all(data).unwrap();
    }
    writer.finish().unwrap().into_inner()
}

#[test]
fn extraction_flattens_and_filters() {
    let bytes = build_archive(&[
        ("windows/foo.dll", b"dll bytes"),
        ("linux/bar.so", b"so bytes"),
        ("readme.txt", b"do not extract me"),
    ]);
    let files = extract_native_entries(bytes).unwrap();
    assert_eq!(files.len(), 2);
    assert_eq!(files[0].file_name, "foo.dll");
    assert_eq!(files[0].data, b"dll bytes");
    assert_eq!(files[1].file_name, "bar.so");
    assert_eq!(files[1].data, b"so bytes");
}

#[test]
fn deep_paths_flatten_to_base_names() {
    let bytes = build_archive(&[
        ("a/b/c/deep.dylib", b"dylib bytes"),
        ("top.so", b"top bytes"),
    ]);
    let files = extract_native_entries(bytes).unwrap();
    assert_eq!(files.len(), 2);
    assert_eq!(files[0].file_name, "deep.dylib");
    assert_eq!(files[1].file_name, "top.so");
}

#[test]
fn directories_are_not_extracted() {
    let cursor = std::io::Cursor::new(Vec::new());
    let mut writer = zip::ZipWriter::new(cursor);
    let options = zip::write::SimpleFileOptions::default();
    writer.add_directory("natives.so", options).unwrap();
    writer.start_file("lib/real.so", options).unwrap();
    writer.write_all(b"real").unwrap();
    let bytes = writer.finish().unwrap().into_inner();

    let files = extract_native_entries(bytes).unwrap();
    assert_eq!(files.len(), 1);
    assert_eq!(files[0].file_name, "real.so");
}

#[test]
fn backslash_paths_flatten_to_base_names() {
    let bytes = build_archive(&[
        ("win\\nested\\foo.dll", b"dll bytes"),
        ("mixed/sep\\bar.so", b"so bytes"),
    ]);
    let files = extract_native_entries(bytes).unwrap();
    assert_eq!(files.len(), 2);
    assert_eq!(files[0].file_name, "foo.dll");
    assert_eq!(files[1].file_name, "bar.so");
}

#[test]
fn traversal_names_cannot_escape_the_natives_directory() {
    let bytes = build_archive(&[("../../evil.so", b"payload")]);
    let files = extract_native_entries(bytes).unwrap();
    assert_eq!(files.len(), 1);
    assert_eq!(files[0].file_name, "evil.so");
}

#[test]
fn empty_archive_extracts_nothing() {
    let bytes = build_archive(&[]);
    let files = extract_native_entries(bytes).unwrap();
    assert!(files.is_empty());
}

#[test]
fn unreadable_archive_is_a_hard_error() {
    let e = extract_native_entries(b"certainly not a zip archive".to_vec()).unwrap_err();
    assert!(matches!(e, LauncherError::ArchiveUnreadable));
}
