use fm_core::fs::service::{cares_about, unchanged, watch_targets, Land, WatchClock};
use fm_core::types::WatchPrefs;

#[test]
fn debounce_waits_for_quiet_then_gives_up_waiting() {
    let prefs = WatchPrefs {
        debounce_ms: 200,
        max_delay_ms: 1000,
        identity_poll_ms: 60_000,
        ..WatchPrefs::default()
    };
    let t0: u64 = 10_000;
    let mut w = WatchClock::new(t0);
    w.mark_dirty(t0);

    // Still inside the quiet period.
    assert!(!w.due(t0 + 100, &prefs, false));
    // Quiet long enough.
    assert!(w.due(t0 + 250, &prefs, false));

    // A continuous stream of events never goes quiet, so the cap must fire.
    let mut w2 = WatchClock::new(t0);
    w2.mark_dirty(t0);
    for ms in (0..1200).step_by(50) {
        w2.mark_dirty(t0 + ms);
    }
    assert!(w2.due(t0 + 1200, &prefs, false), "max_delay_ms must break a sustained write stream");
}

#[test]
fn a_clean_panel_is_not_due_until_the_identity_poll() {
    let prefs = WatchPrefs {
        identity_poll_ms: 2000,
        ..WatchPrefs::default()
    };
    let t0: u64 = 5_000;
    let w = WatchClock::new(t0);

    assert!(!w.due(t0 + 500, &prefs, false));
    // The poll is what catches a renamed ancestor, which fires no event.
    assert!(w.due(t0 + 2100, &prefs, false));
    // A focus poke overrides both timers.
    assert!(w.due(t0, &prefs, true));
}

#[test]
fn servicing_clears_the_dirty_timers_but_not_the_probe() {
    let mut w = WatchClock::new(7);
    w.mark_dirty(10);
    w.mark_dirty(20);
    assert_eq!(w.dirty_since, Some(10));
    assert_eq!(w.last_event, Some(20));
    w.clear_dirty();
    assert_eq!(w, WatchClock::new(7));
}

#[test]
fn a_panel_cares_about_itself_its_contents_and_its_ancestors() {
    assert!(cares_about("/home/u/docs", "/home/u/docs"));
    assert!(cares_about("/home/u/docs", "/home/u/docs/a.txt"));
    assert!(cares_about("/home/u/docs", "/home/u"));
    assert!(!cares_about("/home/u/docs", "/home/u/music"));
    assert!(!cares_about("/home/u/docs", "/home/u/docsx"));
}

#[test]
fn each_panel_watches_its_folder_and_its_parent_once() {
    let targets = watch_targets(&vec!["/a/b".to_string(), "/a/c".to_string(), "/a/b".to_string()]);
    assert_eq!(targets, ["/a/b", "/a", "/a/c"]);
    assert_eq!(watch_targets(&vec!["/".to_string()]), ["/"]);
}

#[test]
fn a_quiet_reread_is_dropped_only_when_nothing_changed() {
    assert!(unchanged(false, &Land::Preserve, true, false));
    assert!(!unchanged(true, &Land::Preserve, true, false));
    assert!(!unchanged(false, &Land::Fresh, true, false));
    assert!(!unchanged(false, &Land::Preserve, false, false));
    assert!(!unchanged(false, &Land::Preserve, true, true));
}

use fm_core::fs::service::{missing_from, watcher_for, WatcherKind};

#[test]
fn rearming_drops_what_is_no_longer_wanted_and_adds_what_is_new() {
    let watched = vec!["/a".to_string(), "/a/b".to_string(), "/old".to_string()];
    let wanted = vec!["/a/b".to_string(), "/a".to_string(), "/a/c".to_string()];
    assert_eq!(missing_from(&watched, &wanted), ["/old"]);
    assert_eq!(missing_from(&wanted, &watched), ["/a/c"]);
    assert!(missing_from(&wanted, &wanted).is_empty());
}

#[test]
fn network_mounts_are_polled_unless_polling_is_off() {
    assert_eq!(watcher_for(true, 0), Some(WatcherKind::Local));
    assert_eq!(watcher_for(false, 5000), Some(WatcherKind::Remote));
    assert_eq!(watcher_for(false, 0), None);
}
