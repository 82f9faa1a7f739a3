use fm_core::fs::sort_entries;
use fm_core::types::{Entry, EntryCategory, EntryKind, EntryMarker, SortMode};

/// A bare entry for the pure sorting tests.
fn ent(name: &str, kind: EntryKind, size: u64, modified: i64) -> Entry {
    Entry {
        name: name.to_string(),
        kind,
        size,
        modified,
        created: 0,
        permissions: 0,
        uid: 0,
        gid: 0,
        owner: None,
        group: None,
        nlink: 0,
        symlink_target: None,
        is_executable: false,
        category: EntryCategory::Plain,
        marker: EntryMarker::Okay,
        computed_size: None,
    }
}

#[test]
fn every_sort_mode_pins_dotdot_and_groups_folders_first() {
    let sample = || {
        vec![
            ent("m.txt", EntryKind::File, 50, 300),
            ent("..", EntryKind::Dir, 0, 0),
            ent("a.zip", EntryKind::File, 10, 100),
            ent("zeta", EntryKind::Dir, 0, 900),
            ent("b.txt", EntryKind::File, 500, 200),
            ent("alpha", EntryKind::Dir, 0, 50),
        ]
    };
    let names = |v: &[Entry]| -> Vec<String> { v.iter().map(|e| e.name.clone()).collect() };

    let mut v = sample();
    sort_entries(&mut v, SortMode::NameFoldersFirst);
    assert_eq!(names(&v), ["..", "alpha", "zeta", "a.zip", "b.txt", "m.txt"]);

    // Extension first (txt before zip), then name within an extension.
    let mut v = sample();
    sort_entries(&mut v, SortMode::TypeName);
    assert_eq!(names(&v), ["..", "alpha", "zeta", "b.txt", "m.txt", "a.zip"]);

    // Largest first; dirs have no size so they stay in name order.
    let mut v = sample();
    sort_entries(&mut v, SortMode::Size);
    assert_eq!(names(&v), ["..", "alpha", "zeta", "b.txt", "m.txt", "a.zip"]);

    // Newest first, folders still grouped ahead of files.
    let mut v = sample();
    sort_entries(&mut v, SortMode::Date);
    assert_eq!(names(&v), ["..", "zeta", "alpha", "m.txt", "b.txt", "a.zip"]);
}

#[test]
fn sorting_ignores_case_and_keeps_every_entry() {
    let mut v = vec![
        ent("beta", EntryKind::File, 0, 0),
        ent("Alpha", EntryKind::File, 0, 0),
        ent("gamma", EntryKind::File, 0, 0),
    ];
    sort_entries(&mut v, SortMode::NameFoldersFirst);
    let names: Vec<&str> = v.iter().map(|e| e.name.as_str()).collect();
    assert_eq!(names, ["Alpha", "beta", "gamma"]);
}

#[test]
fn entries_that_tie_keep_the_order_they_came_in() {
    let names = |v: &[Entry]| -> Vec<String> { v.iter().map(|e| e.name.clone()).collect() };
    // "A.txt" and "a.txt" tie on the case-insensitive name; only input order
    // tells them apart.
    let mut v = vec![
        ent("A.txt", EntryKind::File, 1, 0),
        ent("b", EntryKind::File, 1, 0),
        ent("a.txt", EntryKind::File, 1, 0),
    ];
    sort_entries(&mut v, SortMode::NameFoldersFirst);
    assert_eq!(names(&v), vec!["A.txt", "a.txt", "b"]);

    let mut v = vec![
        ent("a.txt", EntryKind::File, 7, 0),
        ent("b", EntryKind::File, 7, 0),
        ent("A.txt", EntryKind::File, 7, 0),
    ];
    sort_entries(&mut v, SortMode::Size);
    assert_eq!(names(&v), vec!["a.txt", "A.txt", "b"]);
}
