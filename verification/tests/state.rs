use fm_core::fs::{entry_from_meta, MetaFacts};
use fm_core::state::{apply_prefs, capture_prefs, AppState};
use fm_core::types::{DirAccessError, DirAccessKind, PanelId, PanelPrefs, PanelState, SortMode, ViewMode};

fn denied() -> DirAccessError {
    DirAccessError {
        kind: DirAccessKind::Denied,
        message: "nope".to_string(),
        remedies: Vec::new(),
    }
}

#[test]
fn a_readable_directory_is_remembered_for_the_next_launch() {
    let panel = PanelState {
        path: "/tmp/somewhere".to_string(),
        ..PanelState::default()
    };
    let mut prefs = PanelPrefs::default();
    capture_prefs(&panel, &mut prefs);
    assert_eq!(prefs.start_dir.as_deref(), Some("/tmp/somewhere"));
}

#[test]
fn a_directory_the_panel_cannot_read_is_not_remembered() {
    // Otherwise the next launch reopens in the dead end. The previously
    // remembered directory is left in place rather than cleared: it is still
    // the last place the panel could actually show.
    let panel = PanelState {
        path: "/tmp/locked".to_string(),
        access: Some(denied()),
        ..PanelState::default()
    };
    let mut prefs = PanelPrefs {
        start_dir: Some("/tmp/readable".to_string()),
        ..PanelPrefs::default()
    };
    capture_prefs(&panel, &mut prefs);
    assert_eq!(prefs.start_dir.as_deref(), Some("/tmp/readable"));
}

#[test]
fn a_panel_without_a_folder_keeps_the_remembered_one() {
    let panel = PanelState::default();
    let mut prefs = PanelPrefs {
        start_dir: Some("/tmp/readable".to_string()),
        ..PanelPrefs::default()
    };
    capture_prefs(&panel, &mut prefs);
    assert_eq!(prefs.start_dir.as_deref(), Some("/tmp/readable"));
}

#[test]
fn prefs_applied_then_captured_come_back_unchanged() {
    let prefs = PanelPrefs {
        view_mode: ViewMode::Detailed,
        sort_mode: SortMode::Size,
        show_hidden: false,
        start_dir: Some("/srv".to_string()),
    };
    let mut panel = PanelState {
        path: "/srv".to_string(),
        ..PanelState::default()
    };
    apply_prefs(&mut panel, &prefs);
    assert_eq!(panel.view_mode, ViewMode::Detailed);
    assert_eq!(panel.sort_mode, SortMode::Size);
    assert!(!panel.show_hidden);
    let mut back = PanelPrefs::default();
    capture_prefs(&panel, &mut back);
    assert_eq!(back, prefs);
}

#[test]
fn the_command_line_runs_in_the_active_panels_folder() {
    let mut app = AppState::new();
    app.left.path = "/left".to_string();
    app.right.path = "/right".to_string();
    assert_eq!(app.terminal_cwd(), "/left");
    app.set_active(PanelId::Right);
    assert_eq!(app.terminal_cwd(), "/right");
    assert_eq!(app.snapshot().terminal.cwd, "/right");
}

fn dir(name: &str) -> fm_core::types::Entry {
    let facts = MetaFacts {
        size: 4096,
        modified: 1,
        created: 0,
        permissions: 0o755,
        uid: 0,
        gid: 0,
        nlink: 2,
        is_executable: true,
        is_dir: true,
        is_file: false,
    };
    entry_from_meta(name.to_string(), false, &facts, None, None)
}

#[test]
fn cached_folder_sizes_show_in_the_snapshot_until_invalidated() {
    let mut app = AppState::new();
    app.left.path = "/data".to_string();
    app.left.entries = vec![dir("photos"), dir("music")];
    app.set_size("/data/photos".to_string(), 1234, 7);
    let snap = app.snapshot();
    assert_eq!(snap.left.entries[0].computed_size, Some(1234));
    assert_eq!(snap.left.entries[1].computed_size, None);

    // A change inside the folder makes its total stale.
    app.invalidate_size_cache("/data/photos/2024");
    let snap = app.snapshot();
    assert_eq!(snap.left.entries[0].computed_size, None);
}

#[test]
fn revalidation_keeps_only_sizes_whose_folder_is_unchanged() {
    let mut app = AppState::new();
    app.set_size("/data/a".to_string(), 10, 100);
    app.set_size("/data/b".to_string(), 20, 200);
    app.set_size("/other/c".to_string(), 30, 300);
    let mut under = app.sizes_under("/data");
    under.sort();
    assert_eq!(under, ["/data/a", "/data/b"]);
    app.revalidate_sizes_under(
        "/data",
        &vec![("/data/a".to_string(), Some(100)), ("/data/b".to_string(), Some(201))],
    );
    let mut under = app.sizes_under("/data");
    under.sort();
    assert_eq!(under, ["/data/a"]);
    assert_eq!(app.sizes_under("/other"), ["/other/c"]);
}

#[test]
fn a_new_state_starts_from_the_shipped_defaults() {
    let app = AppState::new();
    assert_eq!(app.left, PanelState::default());
    assert_eq!(app.right, PanelState::default());
    assert_eq!(app.active, PanelId::Left);
    assert_eq!(app.config, fm_core::types::Config::default());
    assert!(!app.config.trash_default);
}

#[test]
fn the_snapshot_after_input_is_the_snapshot_of_the_state_it_leaves() {
    let mut app = AppState::new();
    app.left.path = "/tmp".to_string();
    app.left.search = Some(fm_core::types::QuickSearch { query: "a".to_string(), miss_rev: 0 });
    let snap = app.snapshot_after_input();
    assert!(app.left.search.is_none());
    assert_eq!(snap, app.snapshot());
    assert_eq!(snap.left.path, "/tmp");
    assert_eq!(snap.active, PanelId::Left);
}

#[test]
fn the_size_cache_keys_paths_by_their_components() {
    let mut app = AppState::new();
    app.set_size("/a/b".to_string(), 1, 0);
    app.set_size("/a/b/".to_string(), 2, 0);
    // One path, spelled two ways: the second size replaces the first.
    assert_eq!(app.sizes_under("/a"), vec!["/a/b/".to_string()]);
    assert!(fm_core::state::is_same_path("/a//b", "/a/b/"));
    assert!(!fm_core::state::is_same_path("/a/b", "/a/c"));
}
