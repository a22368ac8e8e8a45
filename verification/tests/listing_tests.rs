use sftp_engine::listing::{build_listing, RawEntry};

fn raw(name: &str, is_dir: bool) -> RawEntry {
    RawEntry {
        name: name.to_string(),
        is_dir,
        is_symlink: false,
        size: Some(10),
        modified: Some(1_700_000_000),
        permissions: Some(0o644),
    }
}

#[test]
fn listing_partitions_directories_first_case_insensitive() {
    let raws = vec![
        raw("zeta.txt", false),
        raw("Alpha", true),
        raw(".", true),
        raw("beta.txt", false),
        raw("..", true),
        raw("gamma", true),
        raw("Beta.txt", false),
        raw("ALPHA.txt", false),
    ];
    let listing = build_listing("/srv", raws);
    let names: Vec<&str> = listing.entries.iter().map(|e| e.name.as_str()).collect();
    assert_eq!(names, vec!["Alpha", "gamma", "ALPHA.txt", "beta.txt", "Beta.txt", "zeta.txt"]);
    // all directories precede all files
    let first_file = listing.entries.iter().position(|e| !e.is_dir).unwrap();
    assert!(listing.entries[..first_file].iter().all(|e| e.is_dir));
    assert!(listing.entries[first_file..].iter().all(|e| !e.is_dir));
}

#[test]
fn listing_order_is_not_byte_order() {
    // byte order would put "B.txt" (0x42) before "a.txt" (0x61); the listing
    // compares lowercase forms, so "a.txt" comes first
    let listing = build_listing("/x", vec![raw("B.txt", false), raw("a.txt", false)]);
    let names: Vec<&str> = listing.entries.iter().map(|e| e.name.as_str()).collect();
    assert_eq!(names, vec!["a.txt", "B.txt"]);
}

#[test]
fn names_equal_under_case_keep_reading_order() {
    let listing = build_listing("/x", vec![raw("Same.txt", false), raw("same.txt", false)]);
    let names: Vec<&str> = listing.entries.iter().map(|e| e.name.as_str()).collect();
    assert_eq!(names, vec!["Same.txt", "same.txt"]);
}

#[test]
fn listing_drops_dot_entries_and_joins_paths() {
    let raws = vec![raw(".", true), raw("..", true), raw("notes.txt", false)];
    let listing = build_listing("/home/u/", raws);
    assert_eq!(listing.entries.len(), 1);
    assert_eq!(listing.entries[0].path, "/home/u/notes.txt".to_string());
    assert_eq!(listing.path, "/home/u/".to_string());
    assert_eq!(listing.parent_path, Some("/home".to_string()));
}

#[test]
fn listing_of_empty_path_is_root_without_parent() {
    let listing = build_listing("", vec![raw("boot", true)]);
    assert_eq!(listing.path, "/".to_string());
    assert_eq!(listing.parent_path, None);
    assert_eq!(listing.entries[0].path, "/boot".to_string());
}

#[test]
fn listing_defaults_absent_metadata_to_zero() {
    let raws = vec![RawEntry {
        name: "blob".to_string(),
        is_dir: false,
        is_symlink: true,
        size: None,
        modified: None,
        permissions: None,
    }];
    let listing = build_listing("/x", raws);
    let e = &listing.entries[0];
    assert_eq!(e.size, 0);
    assert_eq!(e.permissions, 0);
    assert_eq!(e.modified, None);
    assert!(e.is_symlink);
}

#[test]
fn listing_after_rename_shows_new_name_with_carried_metadata() {
    // the view of /x once old.txt was renamed to new.txt: the one entry keeps
    // its size and permission bits under the new name
    let renamed = RawEntry {
        name: "new.txt".to_string(),
        is_dir: false,
        is_symlink: false,
        size: Some(4096),
        modified: Some(1_700_000_123),
        permissions: Some(0o600),
    };
    let listing = build_listing("/x", vec![renamed]);
    assert_eq!(listing.entries.len(), 1);
    let e = &listing.entries[0];
    assert_eq!(e.name, "new.txt".to_string());
    assert_eq!(e.path, "/x/new.txt".to_string());
    assert_eq!(e.size, 4096);
    assert_eq!(e.permissions, 0o600);
    assert!(listing.entries.iter().all(|e| e.name != "old.txt"));
}

#[test]
fn listing_preserves_entries_of_unchanged_directory() {
    // the same raw entries listed twice give the same listing, in the same
    // order and with the same metadata
    let raws = || vec![raw("b", true), raw("a.txt", false), raw("c.txt", false)];
    let first = build_listing("/keep", raws());
    let second = build_listing("/keep", raws());
    assert_eq!(first.entries.len(), second.entries.len());
    for (x, y) in first.entries.iter().zip(second.entries.iter()) {
        assert_eq!(x.name, y.name);
        assert_eq!(x.path, y.path);
        assert_eq!(x.is_dir, y.is_dir);
        assert_eq!(x.size, y.size);
        assert_eq!(x.permissions, y.permissions);
    }
}
