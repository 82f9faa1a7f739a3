use fm_core::fs::{
    dotdot_entry, entry_from_meta, kind_of, list_dir, new_dir_name, rename_collision, rename_plan,
    unreadable_entry, MetaFacts, RenamePlan,
};
use fm_core::types::{EntryCategory, EntryKind, EntryMarker, SortMode};

fn facts(is_dir: bool, size: u64) -> MetaFacts {
    MetaFacts {
        size,
        modified: 100,
        created: 50,
        permissions: 0o644,
        uid: 1000,
        gid: 1000,
        nlink: 1,
        is_executable: false,
        is_dir,
        is_file: !is_dir,
    }
}

fn child(name: &str, is_dir: bool) -> fm_core::types::Entry {
    entry_from_meta(name.to_string(), false, &facts(is_dir, 3), None, None)
}

fn fixture() -> Vec<fm_core::types::Entry> {
    vec![
        child("gamma.txt", false),
        child(".hidden", false),
        child("Beta", true),
        child("alpha", true),
    ]
}

#[test]
fn lists_dotdot_first_folders_first_hidden_respected() {
    let shown = list_dir("/tmp/fixture", fixture(), true, SortMode::NameFoldersFirst);
    let names: Vec<&str> = shown.entries.iter().map(|e| e.name.as_str()).collect();
    assert_eq!(names, ["..", "alpha", "Beta", ".hidden", "gamma.txt"]);
    assert_eq!(shown.entries[0].kind, EntryKind::Dir);
    assert_eq!(shown.entries[1].kind, EntryKind::Dir);

    let hidden = list_dir("/tmp/fixture", fixture(), false, SortMode::NameFoldersFirst);
    let names: Vec<&str> = hidden.entries.iter().map(|e| e.name.as_str()).collect();
    assert_eq!(names, ["..", "alpha", "Beta", "gamma.txt"]);
    assert_eq!(hidden.path, "/tmp/fixture");
}

#[test]
fn unreadable_dir_yields_only_dotdot_not_a_panic() {
    let listing = list_dir("/definitely/not/a/real/path/xyzzy", Vec::new(), true, SortMode::NameFoldersFirst);
    let names: Vec<&str> = listing.entries.iter().map(|e| e.name.as_str()).collect();
    assert_eq!(names, [".."]);
}

#[test]
fn the_root_gets_no_parent_entry() {
    let listing = list_dir("/", fixture(), false, SortMode::NameFoldersFirst);
    let names: Vec<&str> = listing.entries.iter().map(|e| e.name.as_str()).collect();
    assert_eq!(names, ["alpha", "Beta", "gamma.txt"]);
}

#[test]
fn the_parent_entry_is_a_bare_directory() {
    let e = dotdot_entry();
    assert_eq!(e.name, "..");
    assert_eq!(e.kind, EntryKind::Dir);
    assert_eq!(e.category, EntryCategory::Dir);
    assert_eq!(e.marker, EntryMarker::Okay);
    assert_eq!(e.size, 0);
}

#[test]
fn an_unreadable_child_is_marked_denied() {
    let e = unreadable_entry("secret".to_string());
    assert_eq!(e.name, "secret");
    assert_eq!(e.kind, EntryKind::Special);
    assert_eq!(e.marker, EntryMarker::Denied);
}

#[test]
fn entry_kinds_follow_the_metadata() {
    assert_eq!(kind_of(true, false), EntryKind::Dir);
    assert_eq!(kind_of(false, true), EntryKind::File);
    assert_eq!(kind_of(false, false), EntryKind::Special);
}

#[test]
fn a_symlink_takes_its_targets_numbers_and_a_broken_one_is_marked() {
    let own = facts(false, 7);
    let target = facts(true, 4096);
    let e = entry_from_meta("link".to_string(), true, &own, Some(&target), Some("/x".to_string()));
    assert_eq!(e.kind, EntryKind::Symlink);
    assert_eq!(e.size, 4096);
    assert_eq!(e.marker, EntryMarker::Okay);
    assert_eq!(e.symlink_target.as_deref(), Some("/x"));

    let broken = entry_from_meta("dangling".to_string(), true, &own, None, Some("/gone".to_string()));
    assert_eq!(broken.kind, EntryKind::Symlink);
    assert_eq!(broken.marker, EntryMarker::Broken);
    assert_eq!(broken.size, 7);

    let plain = entry_from_meta("f".to_string(), false, &own, Some(&target), Some("/x".to_string()));
    assert_eq!(plain.kind, EntryKind::File);
    assert_eq!(plain.size, 7);
    assert_eq!(plain.symlink_target, None);
}

#[test]
fn new_folder_names_are_trimmed_and_never_blank() {
    assert_eq!(new_dir_name("new/inner"), Ok("new/inner".to_string()));
    assert_eq!(new_dir_name("  spaced  "), Ok("spaced".to_string()));
    assert_eq!(new_dir_name("   "), Err("directory name cannot be empty".to_string()));
}

#[test]
fn renames_are_checked_before_the_disk_is_touched() {
    assert_eq!(rename_plan("gamma.txt", "delta.txt"), Ok(RenamePlan::To("delta.txt".to_string())));
    assert!(rename_collision("alpha").contains("already exists"));
    assert_eq!(rename_collision("alpha"), "a file named \"alpha\" already exists");
    assert!(rename_plan("..", "x").is_err());
    assert!(rename_plan("delta.txt", "a/b").is_err());
    assert!(rename_plan("delta.txt", "  ").is_err());
}

#[test]
fn rename_refusals_say_why() {
    assert_eq!(rename_plan("..", "x"), Err("cannot rename the parent directory".to_string()));
    assert_eq!(rename_plan("a", "  "), Err("name cannot be empty".to_string()));
    assert_eq!(rename_plan("a", "."), Err("invalid name".to_string()));
    assert_eq!(rename_plan("a", ".."), Err("invalid name".to_string()));
    assert_eq!(rename_plan("a", "x/y"), Err("name cannot contain a path separator".to_string()));
    assert_eq!(rename_plan("same", " same "), Ok(RenamePlan::Unchanged));
}
