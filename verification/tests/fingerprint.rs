use trybuild::fingerprint::{legacy_fingerprint_dir, legacy_hash, new_fingerprint_dir, select_fingerprint, select_json};

#[test]
fn legacy_hashes_are_a_dash_and_sixteen_hex_digits() {
    assert_eq!(legacy_hash("/t/debug/deps/test-0123456789abcdef", false).as_deref(), Some("-0123456789abcdef"));
    assert_eq!(legacy_hash("/t/debug/deps/test-0123456789abcdef.exe", true).as_deref(), Some("-0123456789abcdef"));
    assert_eq!(legacy_hash("/t/debug/deps/test-0123456789ABCDEF", false), None);
    assert_eq!(legacy_hash("/t/debug/deps/test_0123456789abcdef", false), None);
    assert_eq!(legacy_hash("short", false), None);
}

#[test]
fn fingerprint_directories_follow_both_layouts() {
    assert_eq!(
        legacy_fingerprint_dir("/p/target/debug/deps/test-0123456789abcdef").as_deref(),
        Some("/p/target/debug/.fingerprint")
    );
    assert_eq!(
        new_fingerprint_dir("/p/target/debug/build/trybuild/unit-hash/out/test-0123456789abcdef").as_deref(),
        Some("/p/target/debug/build/trybuild/unit-hash/fingerprint")
    );
    assert_eq!(new_fingerprint_dir("/p/target/debug/deps/test-0123456789abcdef"), None);
}

#[test]
fn exactly_one_fingerprint_is_taken() {
    let entries = vec![
        ("trybuild-0123456789abcdef".to_owned(), true),
        ("other-0000000000000000".to_owned(), true),
        ("file-0123456789abcdef".to_owned(), false),
    ];
    assert_eq!(select_fingerprint(&entries, "-0123456789abcdef"), Some(0));
    let ambiguous = vec![("a-0123456789abcdef".to_owned(), true), ("b-0123456789abcdef".to_owned(), true)];
    assert_eq!(select_fingerprint(&ambiguous, "-0123456789abcdef"), None);
    assert_eq!(select_fingerprint(&[], "-0123456789abcdef"), None);

    let files = vec![("dir/lib.json".to_owned(), false), ("dir/bin.json".to_owned(), true), ("dir/bin.txt".to_owned(), true)];
    assert_eq!(select_json(&files), Some(1));
    let two = vec![("a.json".to_owned(), true), ("b.json".to_owned(), true)];
    assert_eq!(select_json(&two), None);
}
