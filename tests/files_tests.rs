use jump_start::files::{get_starter_files, is_listed};
use jump_start::starter::LocalStarterFile;

fn f(path: &str, contents: &str) -> LocalStarterFile {
    LocalStarterFile { path: path.to_string(), contents: contents.to_string() }
}

#[test]
fn test_get_starter_files() {
    let found = vec![
        f("test-file1.txt", "Test content 1"),
        f("test-file2.js", "Test content 2"),
        f("jump-start.yaml", "description: Test starter"),
        f("degit.json", "{}"),
        f("nested/nested-file.txt", "Nested file content"),
    ];
    let files = get_starter_files(Some(found));
    assert_eq!(files.len(), 3, "Expected 3 files, got {}", files.len());
    assert!(files.iter().any(|x| x.path == "test-file1.txt"), "Missing test-file1.txt");
    assert!(files.iter().any(|x| x.path == "test-file2.js"), "Missing test-file2.js");
    assert!(
        files.iter().any(|x| x.path == "nested/nested-file.txt" && x.contents == "Nested file content"),
        "Missing nested file"
    );
    assert!(!files.iter().any(|x| x.path == "jump-start.yaml"), "Should not include jump-start.yaml");
    assert!(!files.iter().any(|x| x.path == "degit.json"), "Should not include degit.json");
}

#[test]
fn missing_starter_directory_lists_a_placeholder() {
    let files = get_starter_files(None);
    assert_eq!(files.len(), 1);
    assert_eq!(files[0].path, "example.file");
    assert!(files[0].contents.contains("console.log('Hello world');"));
}

#[test]
fn metadata_names_are_matched_whole() {
    assert!(!is_listed("sub/jump-start.yaml"));
    assert!(is_listed("my-jump-start.yaml.bak"));
    assert!(is_listed("degit.json.txt"));
}
