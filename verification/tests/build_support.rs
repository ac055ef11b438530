use lso::build_support::{stubs_version_from_lock, tracked_paths, tracked_status_is_dirty};

#[test]
fn tracked_paths_skip_empty_invalid_and_build_output() {
    let output = b"src/main.rs\0\0target/debug/x\0target\\release\\y\0bad\xff\0Cargo.toml\0";
    assert_eq!(tracked_paths(output), vec!["src/main.rs", "Cargo.toml"]);
    assert!(tracked_paths(b"").is_empty());
}

#[test]
fn status_is_dirty_only_with_visible_output() {
    assert!(!tracked_status_is_dirty(b" \n\t\r"));
    assert!(tracked_status_is_dirty(b" M src/lib.rs\n"));
    assert!(!tracked_status_is_dirty(b""));
}

#[test]
fn stubs_version_is_read_from_its_package_entry() {
    let lock = "version = 3\n\n[[package]]\nname = \"tonic\"\nversion = \"0.12.3\"\n\n[[package]]\nname = \"dcs-grpc-stubs\"\nversion = \"0.8.1\"\nsource = \"git+https://example.invalid\"\n";
    assert_eq!(stubs_version_from_lock(lock), Some("0.8.1".to_string()));
    assert_eq!(stubs_version_from_lock("[[package]]\nname = \"tonic\"\nversion = \"1\"\n"), None);
    assert_eq!(
        stubs_version_from_lock("[[package]]\r\n  name = \"dcs-grpc-stubs\"  \r\n  version = \"1.2.3\"\r\n"),
        Some("1.2.3".to_string())
    );
}
