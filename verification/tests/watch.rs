use fm_core::fs::watch::{decide, is_in_trash, needs_ancestor, recover, DirFate, DirRecovery, Liveness, Observation, PanelNoticeSpec};
use fm_core::types::{OnLost, PanelNoticeKind, WatchPrefs};


fn home() -> String {
    "/Users/tester".to_string()
}

/// The directory is still reachable at the path the panel believes in.
fn alive_at(path: &str) -> Observation {
    Observation {
        liveness: Liveness::Alive { dev: 1, ino: 42 },
        current_path: Some(path.to_string()),
        at_panel_path: Some((1, 42)),
        readable: true,
    }
}

/// The directory is alive at `now`, but the panel's old path no longer leads
/// to it — nothing is there any more.
fn moved_to(now: &str) -> Observation {
    Observation {
        liveness: Liveness::Alive { dev: 1, ino: 42 },
        current_path: Some(now.to_string()),
        at_panel_path: None,
        readable: true,
    }
}

// --- decide -------------------------------------------------------------

#[test]
fn unchanged_directory_is_alive() {
    let obs = alive_at("/Users/tester/Projects");
    assert_eq!(
        decide(&obs, "/Users/tester/Projects", &home(), true),
        DirFate::Alive
    );
}

#[test]
fn a_symlinked_ancestor_is_not_mistaken_for_a_move() {
    // Regression: /var is a symlink to /private/var, so F_GETPATH reports the
    // resolved path while the panel holds the path the user navigated. That
    // textual difference must not read as a rename, or every panel under
    // /tmp, /var or /etc would jump on its first probe.
    let obs = Observation {
        liveness: Liveness::Alive { dev: 1, ino: 42 },
        current_path: Some("/private/var/folders/abc/target".into()),
        at_panel_path: Some((1, 42)), // the panel's path still resolves to us
        readable: true,
    };
    assert_eq!(
        decide(&obs, "/var/folders/abc/target", &home(), true),
        DirFate::Alive
    );
}

#[test]
fn renamed_directory_is_followed() {
    let obs = moved_to("/Users/tester/ProjectsNew");
    assert_eq!(
        decide(&obs, "/Users/tester/Projects", &home(), true),
        DirFate::Moved("/Users/tester/ProjectsNew".into())
    );
}

#[test]
fn renamed_ancestor_is_followed_too() {
    // The panel is deep inside; only a grandparent changed name. F_GETPATH
    // resolves the whole chain, so this is indistinguishable from any other
    // move — which is exactly the point.
    let obs = moved_to("/Users/tester/WorkNew/foo/src");
    assert_eq!(
        decide(&obs, "/Users/tester/Work/foo/src", &home(), true),
        DirFate::Moved("/Users/tester/WorkNew/foo/src".into())
    );
}

#[test]
fn a_move_that_leaves_something_behind_still_follows_our_directory() {
    // Our folder moved away and an unrelated one now sits at the old path.
    // We follow the identity we were tracking, not the name.
    let obs = Observation {
        at_panel_path: Some((1, 777)),
        ..moved_to("/Users/tester/ProjectsNew")
    };
    assert_eq!(
        decide(&obs, "/Users/tester/Projects", &home(), true),
        DirFate::Moved("/Users/tester/ProjectsNew".into())
    );
}

#[test]
fn move_becomes_deletion_when_following_is_disabled() {
    let obs = moved_to("/Users/tester/ProjectsNew");
    assert_eq!(
        decide(&obs, "/Users/tester/Projects", &home(), false),
        DirFate::Deleted
    );
}

#[test]
fn trashing_is_not_followed() {
    let obs = moved_to("/Users/tester/.Trash/Projects");
    assert_eq!(
        decide(&obs, "/Users/tester/Projects", &home(), true),
        DirFate::Trashed
    );
}

#[test]
fn trashing_to_a_volume_trash_is_not_followed() {
    let obs = moved_to("/Volumes/Backup/.Trashes/501/Projects");
    assert_eq!(
        decide(&obs, "/Volumes/Backup/Projects", &home(), true),
        DirFate::Trashed
    );
}

#[test]
fn deleted_directory_with_nothing_at_the_path() {
    let obs = Observation {
        liveness: Liveness::Gone,
        current_path: None,
        at_panel_path: None,
        readable: false,
    };
    assert_eq!(
        decide(&obs, "/Users/tester/Projects", &home(), true),
        DirFate::Deleted
    );
}

#[test]
fn a_new_directory_at_the_same_path_is_replaced_not_alive() {
    // The regression this module exists to prevent: F_GETPATH still reports
    // the old path and stat() on it succeeds, so a path-only check would
    // call this healthy. fstat is what catches the impostor.
    let obs = Observation {
        liveness: Liveness::Gone,
        current_path: Some("/Users/tester/Projects".into()),
        at_panel_path: Some((1, 999)), // different inode
        readable: true,
    };
    assert_eq!(
        decide(&obs, "/Users/tester/Projects", &home(), true),
        DirFate::Replaced
    );
}

#[test]
fn unmounted_volume_is_its_own_case() {
    let obs = Observation {
        liveness: Liveness::VolumeGone,
        current_path: None,
        at_panel_path: None,
        readable: false,
    };
    assert_eq!(
        decide(&obs, "/Volumes/Stick/photos", &home(), true),
        DirFate::Unmounted
    );
}

#[test]
fn present_but_unreadable_is_not_a_deletion() {
    let obs = Observation {
        readable: false,
        ..alive_at("/Users/tester/Documents")
    };
    assert_eq!(
        decide(&obs, "/Users/tester/Documents", &home(), true),
        DirFate::Unreadable
    );
}

#[test]
fn unexpected_errno_never_moves_the_panel() {
    let obs = Observation {
        liveness: Liveness::Unknown,
        current_path: None,
        at_panel_path: None,
        readable: true,
    };
    assert_eq!(
        decide(&obs, "/Users/tester/Projects", &home(), true),
        DirFate::Alive
    );
}

// --- recover ------------------------------------------------------------

fn prefs() -> WatchPrefs {
    WatchPrefs::default()
}

#[test]
fn a_move_follows_and_reports_where_it_came_from() {
    let r = recover(
        DirFate::Moved("/Users/tester/New".into()),
        "/Users/tester/Old",
        &prefs(),
        "/Users/tester",
        None,
    );
    match r {
        DirRecovery::Follow { path, notice } => {
            assert_eq!(path, "/Users/tester/New");
            assert_eq!(notice.kind, PanelNoticeKind::Moved);
            assert_eq!(notice.path, "/Users/tester/Old");
        }
        other => panic!("expected Follow, got {other:?}"),
    }
}

#[test]
fn a_deletion_lands_on_the_ancestor_with_a_cursor_hint() {
    let r = recover(
        DirFate::Deleted,
        "/Users/tester/Projects/foo",
        &prefs(),
        "/Users/tester",
        Some("/Users/tester/Projects".to_string()),
    );
    match r {
        DirRecovery::Fallback {
            path,
            cursor_hint,
            notice,
        } => {
            assert_eq!(path, "/Users/tester/Projects");
            // So the cursor lands where "foo" used to sort, not at the top.
            assert_eq!(cursor_hint.as_deref(), Some("foo"));
            assert_eq!(notice.kind, PanelNoticeKind::Deleted);
        }
        other => panic!("expected Fallback, got {other:?}"),
    }
}

#[test]
fn a_deletion_falls_back_to_home_when_no_ancestor_is_readable() {
    let r = recover(
        DirFate::Deleted,
        "/Volumes/Gone/deep/dir",
        &prefs(),
        "/Users/tester",
        None,
    );
    match r {
        DirRecovery::Fallback { path, .. } => assert_eq!(path, "/Users/tester"),
        other => panic!("expected Fallback, got {other:?}"),
    }
}

#[test]
fn on_lost_home_skips_the_ancestor_walk() {
    let p = WatchPrefs {
        on_lost: OnLost::Home,
        ..prefs()
    };
    let r = recover(
        DirFate::Deleted,
        "/Users/tester/Projects/foo",
        &p,
        "/Users/tester",
        // With `on_lost` at Home the ancestor is never consulted.
        Some("/Users/tester/Projects".to_string()),
    );
    match r {
        DirRecovery::Fallback { path, .. } => assert_eq!(path, "/Users/tester"),
        other => panic!("expected Fallback, got {other:?}"),
    }
}

#[test]
fn an_unreadable_directory_holds_position() {
    let r = recover(
        DirFate::Unreadable,
        "/Users/tester/Documents",
        &prefs(),
        "/Users/tester",
        Some("/Users/tester".to_string()),
    );
    match r {
        DirRecovery::Hold(n) => assert_eq!(n.kind, PanelNoticeKind::Denied),
        other => panic!("expected Hold, got {other:?}"),
    }
}

#[test]
fn an_ejected_volume_goes_home_not_to_slash_volumes() {
    let r = recover(
        DirFate::Unmounted,
        "/Volumes/Stick/photos",
        &prefs(),
        "/Users/tester",
        Some("/Volumes".to_string()),
    );
    match r {
        DirRecovery::Fallback { path, notice, .. } => {
            assert_eq!(path, "/Users/tester");
            assert_eq!(notice.kind, PanelNoticeKind::Unmounted);
        }
        other => panic!("expected Fallback, got {other:?}"),
    }
}

#[test]
fn notices_name_the_directory_they_are_about() {
    let n = PanelNoticeSpec::new(PanelNoticeKind::Trashed, "/Users/tester/Old").into_notice();
    assert!(n.message.contains("/Users/tester/Old"), "{}", n.message);
    assert!(n.message.contains("Trash"), "{}", n.message);
}

// --- helpers ------------------------------------------------------------

#[test]
fn trash_detection() {
    let h = home();
    assert!(is_in_trash("/Users/tester/.Trash/x", &h));
    assert!(is_in_trash("/Volumes/D/.Trashes/501/x", &h));
    assert!(!is_in_trash("/Users/tester/Trash/x", &h));
    assert!(!is_in_trash("/Users/tester/Projects", &h));
}

#[test]
fn the_ancestor_is_looked_for_only_when_the_panel_falls_back_to_it() {
    assert!(needs_ancestor(&DirFate::Deleted, OnLost::NearestAncestor));
    assert!(needs_ancestor(&DirFate::Trashed, OnLost::NearestAncestor));
    assert!(!needs_ancestor(&DirFate::Deleted, OnLost::Home));
    assert!(!needs_ancestor(&DirFate::Alive, OnLost::NearestAncestor));
    assert!(!needs_ancestor(&DirFate::Moved("/x".to_string()), OnLost::NearestAncestor));
    assert!(!needs_ancestor(&DirFate::Unmounted, OnLost::NearestAncestor));
    // Where it is not needed, whatever ancestor is passed changes nothing.
    let a = recover(DirFate::Unmounted, "/Volumes/usb/dir", &prefs(), &home(), Some("/Volumes".to_string()));
    let b = recover(DirFate::Unmounted, "/Volumes/usb/dir", &prefs(), &home(), None);
    assert_eq!(a, b);
}
