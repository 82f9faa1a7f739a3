use fm_core::fs::{dotdot_entry, entry_from_meta, MetaFacts};
use fm_core::intents::{op_targets, equalize_target, name_to_insert, nav_destination, stale_target, start_dir};
use fm_core::state::AppState;
use fm_core::types::{Entry, EntryKind, NavTarget, PanelId, PanelPrefs, PanelState};

fn intent_entry(name: &str, is_dir: bool) -> Entry {
    let facts = MetaFacts {
        size: 1,
        modified: 0,
        created: 0,
        permissions: 0o644,
        uid: 0,
        gid: 0,
        nlink: 1,
        is_executable: false,
        is_dir,
        is_file: !is_dir,
    };
    entry_from_meta(name.to_string(), false, &facts, None, None)
}

fn intent_panel() -> PanelState {
    PanelState {
        path: "/home/u".to_string(),
        entries: vec![dotdot_entry(), intent_entry("docs", true), intent_entry("a.txt", false), intent_entry("b.txt", false)],
        ..PanelState::default()
    }
}

#[test]
fn entering_a_folder_descends_and_dotdot_steps_up() {
    let mut p = intent_panel();
    p.cursor_index = 1;
    assert_eq!(nav_destination(&p, NavTarget::Into, false), (Some("/home/u/docs".to_string()), None));
    p.cursor_index = 0;
    assert_eq!(
        nav_destination(&p, NavTarget::Into, false),
        (Some("/home".to_string()), Some("u".to_string()))
    );
    p.cursor_index = 2;
    assert_eq!(nav_destination(&p, NavTarget::Into, false), (None, None));
    assert_eq!(
        nav_destination(&p, NavTarget::Parent, false),
        (Some("/home".to_string()), Some("u".to_string()))
    );
    assert_eq!(
        nav_destination(&p, NavTarget::Path("/etc".to_string()), false),
        (Some("/etc".to_string()), None)
    );
    let root = PanelState { path: "/".to_string(), ..PanelState::default() };
    assert_eq!(nav_destination(&root, NavTarget::Parent, false), (None, None));
}

#[test]
fn a_symlink_is_entered_only_when_it_leads_to_a_folder() {
    let mut p = intent_panel();
    p.entries[2].kind = EntryKind::Symlink;
    p.cursor_index = 2;
    assert_eq!(nav_destination(&p, NavTarget::Into, true), (Some("/home/u/a.txt".to_string()), None));
    assert_eq!(nav_destination(&p, NavTarget::Into, false), (None, None));
}

#[test]
fn delete_takes_the_selection_in_order_or_the_cursor_and_never_dotdot() {
    let mut p = intent_panel();
    p.selection = vec![3, 0, 1];
    assert_eq!(
        op_targets(&p),
        vec![("/home/u/docs".to_string(), EntryKind::Dir), ("/home/u/b.txt".to_string(), EntryKind::File)]
    );
    p.selection = Vec::new();
    p.cursor_index = 2;
    assert_eq!(op_targets(&p), vec![("/home/u/a.txt".to_string(), EntryKind::File)]);
    p.cursor_index = 0;
    assert!(op_targets(&p).is_empty());
}

#[test]
fn a_stale_listing_is_caught_before_a_delete() {
    assert_eq!(stale_target("/x", EntryKind::File, Some(EntryKind::File)), None);
    assert_eq!(
        stale_target("/x", EntryKind::File, None),
        Some("/x is no longer there \u{2014} the listing was out of date. Refresh and try again.".to_string())
    );
    assert_eq!(
        stale_target("/x", EntryKind::Dir, Some(EntryKind::File)),
        Some("/x is no longer a Dir \u{2014} the listing was out of date. Refresh and try again.".to_string())
    );
}

#[test]
fn a_panel_opens_at_its_remembered_folder_while_it_exists() {
    let prefs = PanelPrefs { start_dir: Some("/srv/data".to_string()), ..PanelPrefs::default() };
    assert_eq!(start_dir(&prefs, true, "/home/u"), "/srv/data");
    assert_eq!(start_dir(&prefs, false, "/home/u"), "/home/u");
    assert_eq!(start_dir(&PanelPrefs::default(), true, "/home/u"), "/home/u");
}

#[test]
fn mirroring_moves_the_other_panel_unless_there_is_nothing_to_do() {
    let mut app = AppState::new();
    assert_eq!(equalize_target(&app), None);
    app.left.path = "/a".to_string();
    app.right.path = "/b".to_string();
    assert_eq!(equalize_target(&app), Some((PanelId::Right, "/a".to_string())));
    app.set_active(PanelId::Right);
    assert_eq!(equalize_target(&app), Some((PanelId::Left, "/b".to_string())));
    app.left.path = "/b".to_string();
    assert_eq!(equalize_target(&app), None);
}

#[test]
fn the_name_for_the_command_line_is_never_dotdot() {
    let mut p = intent_panel();
    p.cursor_index = 0;
    assert_eq!(name_to_insert(&p), None);
    p.cursor_index = 2;
    assert_eq!(name_to_insert(&p), Some("a.txt".to_string()));
    p.cursor_index = 99;
    assert_eq!(name_to_insert(&p), None);
}
