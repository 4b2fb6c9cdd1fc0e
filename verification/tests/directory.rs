use trybuild::directory::Directory;

#[test]
fn directory_wraps_paths_with_join_parent_and_lossy_views() {
    let dir = Directory::new("target/tests");
    let parent = dir.parent().expect("directory parent exists");

    assert!(
        std::path::Path::new(dir.to_string_lossy()).ends_with("target/tests"),
        "directory stores the requested path"
    );
    assert!(
        std::path::Path::new(&dir.join("case.rs")).ends_with("target/tests/case.rs"),
        "directory joins child paths"
    );
    assert!(
        std::path::Path::new(parent.to_string_lossy()).ends_with("target"),
        "directory parent strips the final component"
    );
    assert!(dir.to_string_lossy().contains("target"), "directory exposes a lossy display string");
}

#[test]
fn directories_end_with_one_separator() {
    assert_eq!(Directory::new("a/b").to_string_lossy(), "a/b/");
    assert_eq!(Directory::new("a/b/").to_string_lossy(), "a/b/");
    assert_eq!(Directory::new("").to_string_lossy(), "");
}

#[test]
fn joining_an_absolute_path_replaces_the_directory() {
    assert_eq!(Directory::new("/work").join("/etc/x"), "/etc/x");
    assert_eq!(Directory::new("/work").join("x.rs"), "/work/x.rs");
    assert_eq!(Directory::new("/work/").join("x.rs"), "/work/x.rs");
    assert_eq!(Directory::new("/").parent().map(|d| d.to_string_lossy().to_owned()), None);
}
