use fm_core::ops::{lexical_normalize, render_components, resolve_dest};

#[test]
fn resolve_dest_handles_relative_absolute_and_dotdot() {
    let base = "/home/user/dir";
    assert_eq!(resolve_dest(base, "sub"), "/home/user/dir/sub");
    assert_eq!(resolve_dest(base, "../other"), "/home/user/other");
    assert_eq!(resolve_dest(base, "/etc/hosts"), "/etc/hosts");
    assert_eq!(resolve_dest(base, "./x/./y"), "/home/user/dir/x/y");
}

#[test]
fn a_parent_step_past_the_root_is_kept_literally() {
    // Nothing can be popped off the root, so the `..` stays in the path.
    assert_eq!(resolve_dest("/", ".."), "/..");
    assert_eq!(resolve_dest("/a", "../../b"), "/../b");
}

#[test]
fn normalizing_components_collapses_dots() {
    let comps: Vec<String> = ["/", "a", ".", "b", "..", "c"].iter().map(|s| s.to_string()).collect();
    let out = lexical_normalize(&comps);
    assert_eq!(out, ["/", "a", "c"]);
    assert_eq!(render_components(&out), "/a/c");
    let rel: Vec<String> = ["..", "x"].iter().map(|s| s.to_string()).collect();
    assert_eq!(render_components(&lexical_normalize(&rel)), "../x");
}

use fm_core::ops::{op_id, ErrorStep, Tally};
use fm_core::types::{ErrorResolution, OpKind, OpStatus, Resolution};

#[test]
fn a_clean_copy_reports_its_count() {
    let mut t = Tally::new(OpKind::Copy, 3);
    assert!(t.multiple);
    t.succeeded(3);
    let out = t.finish();
    assert_eq!(out.status, OpStatus::Success);
    assert_eq!(out.summary, "Copied 3 item(s)");
    assert_eq!(out.op_id, "");
}

#[test]
fn skip_all_is_sticky_and_shows_in_the_summary() {
    let mut t = Tally::new(OpKind::Copy, 3);
    assert_eq!(t.sticky_answer(), None);
    assert_eq!(t.collision_answer(Resolution::SkipAll), Resolution::Skip);
    assert_eq!(t.sticky_answer(), Some(Resolution::Skip));
    // An ordinary answer later does not lift it.
    assert_eq!(t.collision_answer(Resolution::Overwrite), Resolution::Overwrite);
    assert_eq!(t.sticky_answer(), Some(Resolution::Skip));
    t.skipped_items(2);
    t.succeeded(1);
    assert_eq!(t.finish().summary, "Copied 1 item(s), 2 skipped");
}

#[test]
fn overwrite_all_is_sticky_too() {
    let mut t = Tally::new(OpKind::Move, 2);
    assert_eq!(t.collision_answer(Resolution::OverwriteAll), Resolution::Overwrite);
    assert_eq!(t.sticky_answer(), Some(Resolution::Overwrite));
}

#[test]
fn a_single_item_offers_no_all_answers() {
    assert!(!Tally::new(OpKind::Copy, 1).multiple);
}

#[test]
fn failures_make_a_partial_or_failed_outcome() {
    let mut t = Tally::new(OpKind::Move, 3);
    t.succeeded(1);
    assert_eq!(t.error_answer(ErrorResolution::Skip), ErrorStep::Handled);
    t.skipped_items(1);
    let out = t.finish();
    assert_eq!(out.status, OpStatus::Partial);
    assert_eq!(out.summary, "Moved 1, 1 failed, 1 skipped");

    let mut f = Tally::new(OpKind::Copy, 2);
    f.record_failure();
    f.record_failure();
    let out = f.finish();
    assert_eq!(out.status, OpStatus::Failed);
    assert_eq!(out.summary, "Failed \u{2014} 2 error(s)");
}

#[test]
fn skip_all_on_errors_stops_asking() {
    let mut t = Tally::new(OpKind::Copy, 3);
    assert!(t.asks_on_error());
    assert_eq!(t.error_answer(ErrorResolution::SkipAll), ErrorStep::Handled);
    assert!(!t.asks_on_error());
    assert_eq!(t.error_skipped(), ErrorStep::Handled);
    assert_eq!(t.failed, 2);
    assert_eq!(t.done, 2);
}

#[test]
fn retry_cancel_and_elevate_answers() {
    let mut t = Tally::new(OpKind::Copy, 2);
    assert_eq!(t.error_answer(ErrorResolution::Retry), ErrorStep::Retry);
    assert_eq!(t.done, 0);
    assert_eq!(t.error_answer(ErrorResolution::Elevate), ErrorStep::Elevate);
    t.elevated(true);
    assert_eq!(t.copied, 1);
    t.elevated(false);
    assert_eq!(t.failed, 1);
    assert_eq!(t.error_answer(ErrorResolution::Cancel), ErrorStep::Cancel);
    assert!(t.cancelled);
}

#[test]
fn a_cancelled_tally_reports_how_far_it_got() {
    let mut t = Tally::new(OpKind::Copy, 10);
    t.succeeded(3);
    t.advanced();
    t.cancel();
    let out = t.finish();
    assert_eq!(out.status, OpStatus::Cancelled);
    assert_eq!(out.summary, "Cancelled \u{2014} copied 4 of 10 item(s)");
}

#[test]
fn operation_ids_count_up() {
    assert_eq!(op_id(1), "op-1");
    assert_eq!(op_id(42), "op-42");
}

use fm_core::ops::{is_self_or_descendant, renames_first, transfer_target, CollisionStep};

#[test]
fn a_folder_cannot_go_into_itself_or_below_itself() {
    assert!(is_self_or_descendant("/home/a", "/home/a"));
    assert!(is_self_or_descendant("/home/a", "/home/a/b/c"));
    assert!(is_self_or_descendant("/home/a/", "/home/./a/x/../b"));
    assert!(!is_self_or_descendant("/home/a", "/home/ab"));
    assert!(!is_self_or_descendant("/home/a/b", "/home/a"));
    assert!(!is_self_or_descendant("/home/a", "/tmp/a"));
}

#[test]
fn sources_go_into_a_folder_or_take_the_destination_path() {
    // Into an existing folder: the source keeps its name.
    assert_eq!(transfer_target("/dst", true, 1, "/src/a.txt"), Some((true, "/dst/a.txt".to_string())));
    // Several sources always go into the destination.
    assert_eq!(transfer_target("/new", false, 2, "/src/b"), Some((true, "/new/b".to_string())));
    // One source to a path that is not a folder: a copy with rename.
    assert_eq!(transfer_target("/dst/renamed.txt", false, 1, "/src/a.txt"), Some((false, "/dst/renamed.txt".to_string())));
    // A source with no file name is passed over.
    assert_eq!(transfer_target("/dst", true, 1, "/"), None);
}

#[test]
fn only_a_move_onto_a_free_name_renames_first() {
    assert!(renames_first(OpKind::Move, false));
    assert!(!renames_first(OpKind::Move, true));
    assert!(!renames_first(OpKind::Copy, false));
}

#[test]
fn collision_steps_count_skips_and_cancel() {
    let mut t = Tally::new(OpKind::Copy, 10);
    assert_eq!(t.collision_step(Resolution::Skip, 4), CollisionStep::Skip);
    assert_eq!((t.skipped, t.done), (4, 4));
    assert_eq!(t.collision_step(Resolution::Overwrite, 1), CollisionStep::Replace);
    assert_eq!((t.skipped, t.done), (4, 4));
    assert_eq!(t.collision_step(Resolution::Cancel, 1), CollisionStep::Cancel);
    assert!(t.cancelled);
    assert_eq!(t.finish().status, OpStatus::Cancelled);
}

#[test]
fn the_recursion_guard_fails_the_source_or_cancels() {
    let mut t = Tally::new(OpKind::Copy, 3);
    assert!(t.guard_answer(ErrorResolution::Skip));
    assert_eq!(t.failed, 1);
    assert!(!t.cancelled);
    assert!(!t.guard_answer(ErrorResolution::Cancel));
    assert!(t.cancelled);
    assert_eq!(t.failed, 1);
}

#[test]
fn joining_adds_one_separator_only_where_needed() {
    assert_eq!(transfer_target("/dst/", true, 1, "/src/a"), Some((true, "/dst/a".to_string())));
    assert_eq!(transfer_target("dst", true, 1, "/src/a"), Some((true, "dst/a".to_string())));
    assert_eq!(resolve_dest("/home/u", "/abs/x"), "/abs/x");
}
