use fm_core::nav::{
    clamp_scroll, child_name, deselect_all, move_cursor, parent_of, position_on,
    position_on_nearest_sorted, resort, select_all, set_cursor, set_geometry, set_listing,
    set_listing_preserving, toggle_range_and_move, toggle_selection,
};
use fm_core::types::{
    DirListing, Entry, EntryCategory, EntryKind, EntryMarker, Motion, PanelGeometry, PanelState,
};


fn nav_ent(name: &str, kind: EntryKind) -> Entry {
    Entry {
        name: name.to_string(),
        kind,
        size: 0,
        modified: 0,
        created: 0,
        permissions: 0,
        uid: 0,
        gid: 0,
        owner: None,
        group: None,
        nlink: 0,
        symlink_target: None,
        is_executable: false,
        category: EntryCategory::Plain,
        marker: EntryMarker::Okay,
        computed_size: None,
    }
}

/// Panel of `n` file entries named "0".."n-1", with the given geometry.
fn nav_panel(n: usize, columns: u16, rows: u16) -> PanelState {
    let entries = (0..n)
        .map(|i| nav_ent(&i.to_string(), EntryKind::File))
        .collect();
    PanelState {
        entries,
        cursor_index: 0,
        geometry: PanelGeometry {
            columns,
            rows_per_column: rows,
        },
        ..Default::default()
    }
}

fn mv(p: &mut PanelState, m: Motion) -> usize {
    move_cursor(p, m);
    p.cursor_index
}

#[test]
fn down_walks_column_then_wraps_to_next_column() {
    // 2 columns x 3 rows, 7 entries. Column-major: col0 = 0,1,2 ; col1 = 3,4,5.
    let mut p = nav_panel(7, 2, 3);
    p.cursor_index = 2; // bottom of column 0
    assert_eq!(mv(&mut p, Motion::Down), 3); // top of column 1
}

#[test]
fn right_moves_one_column_same_row() {
    let mut p = nav_panel(7, 2, 3);
    p.cursor_index = 1; // col0, row1
    assert_eq!(mv(&mut p, Motion::Right), 4); // col1, row1
}

#[test]
fn right_from_rightmost_column_steps_one_column_further() {
    // page = 6. From rightmost column (col1) row1 = index 4, Right -> index 7,
    // which the scrolled window renders in the rightmost column, same row.
    let mut p = nav_panel(13, 2, 3);
    p.cursor_index = 4;
    assert_eq!(mv(&mut p, Motion::Right), 7);
}

#[test]
fn right_past_end_lands_on_last_file() {
    let mut p = nav_panel(7, 2, 3);
    p.cursor_index = 5; // last full-column cell; +rows(3) = 8 > last(6)
    assert_eq!(mv(&mut p, Motion::Right), 6);
}

#[test]
fn left_from_leftmost_paginates_up_same_row() {
    let mut p = nav_panel(13, 2, 3);
    p.cursor_index = 7; // page1, col0, row1
    assert_eq!(mv(&mut p, Motion::Left), 4); // page0, col1, row1
}

#[test]
fn left_past_start_lands_on_first_entry() {
    let mut p = nav_panel(7, 2, 3);
    p.cursor_index = 1;
    assert_eq!(mv(&mut p, Motion::Left), 0); // '..' would be entry 0
}

#[test]
fn up_and_down_clamp_at_ends() {
    let mut p = nav_panel(7, 2, 3);
    p.cursor_index = 0;
    assert_eq!(mv(&mut p, Motion::Up), 0);
    p.cursor_index = 6;
    assert_eq!(mv(&mut p, Motion::Down), 6);
}

#[test]
fn page_and_home_end() {
    let mut p = nav_panel(20, 2, 3); // page = 6
    p.cursor_index = 1;
    assert_eq!(mv(&mut p, Motion::PageDown), 7);
    assert_eq!(mv(&mut p, Motion::PageUp), 1);
    assert_eq!(mv(&mut p, Motion::End), 19);
    assert_eq!(mv(&mut p, Motion::Home), 0);
}

#[test]
fn without_geometry_down_still_works_and_right_jumps_to_end() {
    let mut p = nav_panel(7, 0, 0); // geometry unset
    p.cursor_index = 0;
    assert_eq!(mv(&mut p, Motion::Down), 1);
    assert_eq!(mv(&mut p, Motion::Right), 6); // spans whole list -> last
}

// --- Sliding-window scrolling (§5.2) --------------------------------------
// All of these use a 2x3 grid over 13 entries: page = 6, max_top = 7.

fn scroll(p: &mut PanelState, m: Motion) -> (usize, usize) {
    move_cursor(p, m);
    (p.cursor_index, p.top_index)
}

#[test]
fn down_at_the_bottom_scrolls_one_entry() {
    let mut p = nav_panel(13, 2, 3);
    p.cursor_index = 5; // bottom of the rightmost column, window 0..=5
    // The window slides by exactly one: entry 3 moves from the top of the
    // right column to the bottom of the left one, entry 0 scrolls off.
    assert_eq!(scroll(&mut p, Motion::Down), (6, 1));
    assert_eq!(scroll(&mut p, Motion::Down), (7, 2));
}

#[test]
fn up_at_the_top_scrolls_one_entry_and_otherwise_stays_put() {
    let mut p = nav_panel(13, 2, 3);
    p.cursor_index = 6;
    p.top_index = 1; // window 1..=6
    // Still inside the window — nothing scrolls.
    assert_eq!(scroll(&mut p, Motion::Up), (5, 1));
    p.cursor_index = 1;
    assert_eq!(scroll(&mut p, Motion::Up), (0, 0)); // off the top edge
}

#[test]
fn right_at_the_edge_scrolls_one_column_left_mirrors_it() {
    let mut p = nav_panel(13, 2, 3);
    p.cursor_index = 5; // rightmost column, window 0..=5
    assert_eq!(scroll(&mut p, Motion::Right), (8, 3)); // window 3..=8
    // Back the same way: index 5 is still visible, so nothing scrolls yet.
    assert_eq!(scroll(&mut p, Motion::Left), (5, 3));
    assert_eq!(scroll(&mut p, Motion::Left), (2, 0)); // off the left edge
}

#[test]
fn page_motions_scroll_a_full_page_keeping_the_cursor_in_place() {
    let mut p = nav_panel(13, 2, 3);
    p.cursor_index = 1;
    assert_eq!(scroll(&mut p, Motion::PageDown), (7, 6)); // same cell, next page
    assert_eq!(scroll(&mut p, Motion::PageUp), (1, 0));
}

#[test]
fn home_and_end_jump_to_the_first_and_last_window() {
    let mut p = nav_panel(13, 2, 3);
    assert_eq!(scroll(&mut p, Motion::End), (12, 7)); // len - page
    assert_eq!(scroll(&mut p, Motion::Home), (0, 0));
}

#[test]
fn a_listing_shorter_than_a_page_never_scrolls() {
    let mut p = nav_panel(4, 2, 3); // page = 6 > len
    for m in [Motion::Down, Motion::Right, Motion::PageDown, Motion::End] {
        move_cursor(&mut p, m);
        assert_eq!(p.top_index, 0, "{m:?} should not scroll a short listing");
    }
}

#[test]
fn set_cursor_and_set_geometry_pull_the_window_onto_the_cursor() {
    let mut p = nav_panel(13, 2, 3);
    set_cursor(&mut p, 12); // a click far below the window
    assert_eq!(p.top_index, 7);
    // Shrinking the panel to 2 rows (page = 4) leaves the cursor off-screen
    // until the geometry change re-clamps the window.
    set_geometry(&mut p, 2, 2);
    assert_eq!(p.top_index, 9);
    assert_eq!(p.cursor_index, 12);
}

#[test]
fn set_listing_resets_the_window_and_position_on_scrolls_to_the_entry() {
    let mut p = nav_panel(13, 2, 3);
    p.cursor_index = 12;
    p.top_index = 7;
    let mut entries: Vec<Entry> = vec![nav_ent("..", EntryKind::Dir)];
    entries.extend((0..12).map(|i| nav_ent(&i.to_string(), EntryKind::File)));
    set_listing(
        &mut p,
        DirListing {
            path: "/dir".into(),
            access: None,
            entries,
        },
    );
    assert_eq!((p.cursor_index, p.top_index), (0, 0));
    // The "auto-position onto the folder just exited" rule must bring the
    // window along when that folder sits below the first screen.
    // (names sort lexicographically, so "9" is the last of "0".."11")
    position_on(&mut p, "9");
    assert_eq!(p.cursor_index, 12);
    assert_eq!(p.top_index, 7);
}

#[test]
fn set_listing_resets_cursor_and_position_on_finds_entry() {
    let mut p = nav_panel(1, 2, 3);
    p.cursor_index = 5; // stale
    let listing = DirListing {
        path: "/tmp/parent".into(),
        access: None,
        entries: vec![
            nav_ent("..", EntryKind::Dir),
            nav_ent("child", EntryKind::Dir),
            nav_ent("zeta.txt", EntryKind::File),
        ],
    };
    set_listing(&mut p, listing);
    assert_eq!(p.cursor_index, 0); // reset to '..'
    assert_eq!(p.path, "/tmp/parent");
    // Auto-position onto the folder just exited.
    position_on(&mut p, "child");
    assert_eq!(p.entries[p.cursor_index].name, "child");
}

#[test]
fn parent_and_child_helpers() {
    assert_eq!(parent_of("/a/b/c").as_deref(), Some("/a/b"));
    assert_eq!(child_name("/a/b/c").as_deref(), Some("c"));
    assert_eq!(parent_of("/"), None);
}

/// Panel whose entry 0 is `..`, followed by `n` files.
fn panel_with_dotdot(n: usize) -> PanelState {
    let mut entries = vec![nav_ent("..", EntryKind::Dir)];
    entries.extend((0..n).map(|i| nav_ent(&i.to_string(), EntryKind::File)));
    PanelState {
        entries,
        ..Default::default()
    }
}

#[test]
fn toggle_selection_adds_then_removes_and_skips_dotdot() {
    let mut p = panel_with_dotdot(3); // indices 0(..),1,2,3
    // Cursor on '..' -> no-op, and the cursor does not advance.
    p.cursor_index = 0;
    toggle_selection(&mut p);
    assert!(p.selection.is_empty());
    assert_eq!(p.cursor_index, 0);
    // Cursor on a real file -> select and step down (§5.3, NC behavior).
    p.cursor_index = 2;
    toggle_selection(&mut p);
    assert_eq!(p.selection, vec![2]);
    assert_eq!(p.cursor_index, 3);
    // Step back onto it and toggle off; the cursor advances again.
    p.cursor_index = 2;
    toggle_selection(&mut p);
    assert!(p.selection.is_empty());
    assert_eq!(p.cursor_index, 3);
}

#[test]
fn toggle_selection_on_last_entry_keeps_cursor() {
    let mut p = panel_with_dotdot(3); // indices 0(..),1,2,3; last = 3
    p.cursor_index = 3;
    toggle_selection(&mut p);
    assert_eq!(p.selection, vec![3]); // still marked
    assert_eq!(p.cursor_index, 3); // Down clamps at the last entry
}

#[test]
fn set_cursor_clamps_in_range_past_end_and_empty() {
    let mut p = panel_with_dotdot(3); // len 4, last = 3
    set_cursor(&mut p, 2);
    assert_eq!(p.cursor_index, 2);
    set_cursor(&mut p, 99);
    assert_eq!(p.cursor_index, 3); // clamped to last
    let mut empty = nav_panel(0, 2, 3);
    set_cursor(&mut empty, 5);
    assert_eq!(empty.cursor_index, 0); // empty -> 0
}

#[test]
fn select_all_excludes_dotdot_and_deselect_clears() {
    let mut p = panel_with_dotdot(3); // indices 0(..),1,2,3
    select_all(&mut p);
    assert_eq!(p.selection, vec![1, 2, 3]);
    deselect_all(&mut p);
    assert!(p.selection.is_empty());
}

#[test]
fn shift_right_flips_the_column_it_leaves_but_not_the_landing_entry() {
    let mut p = nav_panel(20, 2, 8);
    toggle_range_and_move(&mut p, Motion::Right); // 0 -> 8
    assert_eq!(p.selection, (0..8).collect::<Vec<_>>());
    assert_eq!(p.cursor_index, 8); // the entry landed on is untouched
}

#[test]
fn repeated_shift_right_paints_one_continuous_run() {
    let mut p = nav_panel(20, 2, 8);
    toggle_range_and_move(&mut p, Motion::Right); // flips 0..8
    toggle_range_and_move(&mut p, Motion::Right); // flips 8..16
    // Nothing was flipped twice, so there is no gap at the seam.
    assert_eq!(p.selection, (0..16).collect::<Vec<_>>());
    assert_eq!(p.cursor_index, 16);
}

#[test]
fn a_sweep_flips_each_entry_independently() {
    let mut p = nav_panel(20, 2, 8);
    p.selection = vec![1, 3, 4];
    toggle_range_and_move(&mut p, Motion::Right); // sweeps 0..8
    assert_eq!(p.selection, vec![0, 2, 5, 6, 7]);
}

#[test]
fn shift_left_mirrors_it_flipping_the_origin_not_the_landing_entry() {
    let mut p = nav_panel(20, 2, 8);
    p.cursor_index = 16;
    toggle_range_and_move(&mut p, Motion::Left); // 16 -> 8
    assert_eq!(p.selection, (9..=16).collect::<Vec<_>>());
    assert_eq!(p.cursor_index, 8);
}

#[test]
fn a_sweep_never_flips_dotdot() {
    let mut p = panel_with_dotdot(5); // 0(..),1..5
    p.cursor_index = 3;
    toggle_range_and_move(&mut p, Motion::Home); // 3 -> 0, sweeping 1..=3
    assert_eq!(p.selection, vec![1, 2, 3]);
    assert_eq!(p.cursor_index, 0);
    // Sweeping again from `..` has nowhere to go and nothing selectable to flip.
    toggle_range_and_move(&mut p, Motion::Left);
    assert_eq!(p.selection, vec![1, 2, 3]);
    assert_eq!(p.cursor_index, 0);
}

#[test]
fn a_clamped_sweep_at_the_last_entry_flips_in_place() {
    let mut p = nav_panel(20, 2, 8);
    p.cursor_index = 19;
    toggle_range_and_move(&mut p, Motion::Down);
    assert_eq!(p.selection, vec![19]);
    assert_eq!(p.cursor_index, 19); // Down clamps, like Space on the last entry
    // And pressing again flips it back off, also like Space there.
    toggle_range_and_move(&mut p, Motion::Down);
    assert!(p.selection.is_empty());
}

#[test]
fn shift_page_down_and_shift_end_flip_their_spans() {
    let mut p = nav_panel(40, 2, 8); // page = 16
    toggle_range_and_move(&mut p, Motion::PageDown); // 0 -> 16
    assert_eq!(p.selection, (0..16).collect::<Vec<_>>());
    toggle_range_and_move(&mut p, Motion::End); // 16 -> 39
    assert_eq!(p.selection, (0..39).collect::<Vec<_>>());
    assert_eq!(p.cursor_index, 39);
    // End lands *on* the last entry, so catching it takes one more press.
    toggle_range_and_move(&mut p, Motion::Down);
    assert_eq!(p.selection, (0..40).collect::<Vec<_>>());
}

#[test]
fn reversing_direction_does_not_undo_the_sweep() {
    let mut p = nav_panel(20, 2, 8);
    toggle_range_and_move(&mut p, Motion::Right); // flips 0..8, cursor -> 8
    toggle_range_and_move(&mut p, Motion::Left); // flips 1..=8, cursor -> 0
    // There is no anchor: the origin stays marked and the far end picks one up.
    // Documented behaviour (it is what FarManager does), not an undo.
    assert_eq!(p.selection, vec![0, 8]);
    assert_eq!(p.cursor_index, 0);
}

#[test]
fn selection_survives_cursor_movement() {
    let mut p = panel_with_dotdot(5);
    p.cursor_index = 2;
    toggle_selection(&mut p);
    move_cursor(&mut p, Motion::Down);
    move_cursor(&mut p, Motion::Down);
    assert_eq!(p.selection, vec![2]); // unchanged by navigation
}

/// A panel of named files in a fixed directory, sorted by name (the default).
fn named_panel(names: &[&str]) -> PanelState {
    let mut p = PanelState {
        path: "/dir".to_string(),
        ..Default::default()
    };
    set_listing(
        &mut p,
        DirListing {
            path: "/dir".to_string(),
            access: None,
            entries: names
                .iter()
                .map(|n| nav_ent(n, EntryKind::File))
                .collect(),
        },
    );
    p
}

#[test]
fn resort_keeps_cursor_and_selection_on_the_same_entries() {
    let mut p = named_panel(&["a.txt", "b.txt", "c.txt"]);
    // Give them distinct sizes so Size order is the reverse of name order.
    for (i, e) in p.entries.iter_mut().enumerate() {
        e.size = (i + 1) as u64;
    }
    p.cursor_index = 0; // a.txt (smallest)
    p.selection = vec![0, 2]; // a.txt, c.txt

    p.sort_mode = fm_core::types::SortMode::Size;
    resort(&mut p);

    // Size sorts largest first: c, b, a.
    let names: Vec<&str> = p.entries.iter().map(|e| e.name.as_str()).collect();
    assert_eq!(names, ["c.txt", "b.txt", "a.txt"]);
    assert_eq!(p.entries[p.cursor_index].name, "a.txt"); // cursor followed
    let mut sel: Vec<&str> = p.selection.iter().map(|&i| p.entries[i].name.as_str()).collect();
    sel.sort_unstable();
    assert_eq!(sel, ["a.txt", "c.txt"]); // selection followed
}

#[test]
fn preserving_relist_drops_names_that_vanished() {
    let mut p = named_panel(&["a.txt", "b.txt", "c.txt"]);
    p.cursor_index = 2; // c.txt
    p.selection = vec![0, 1, 2];

    // b.txt and c.txt are gone; d.txt appeared.
    set_listing_preserving(
        &mut p,
        DirListing {
            path: "/dir".to_string(),
            access: None,
            entries: vec![
                nav_ent("a.txt", EntryKind::File),
                nav_ent("d.txt", EntryKind::File),
            ],
        },
    );

    // Only the survivor stays selected. The cursor was on c.txt; walking
    // outward from there finds a.txt as the nearest surviving name, which is
    // also index 0 here.
    assert_eq!(p.selection, vec![0]);
    assert_eq!(p.entries[p.selection[0]].name, "a.txt");
    assert_eq!(p.cursor_index, 0);
}

#[test]
fn preserving_relist_moves_the_cursor_to_the_nearest_survivor_not_the_top() {
    let mut p = named_panel(&["a.txt", "b.txt", "c.txt", "d.txt"]);
    p.cursor_index = 1; // b.txt

    // b.txt is deleted from under us by another app.
    set_listing_preserving(
        &mut p,
        DirListing {
            path: "/dir".to_string(),
            access: None,
            entries: vec![
                nav_ent("a.txt", EntryKind::File),
                nav_ent("c.txt", EntryKind::File),
                nav_ent("d.txt", EntryKind::File),
            ],
        },
    );

    // The entry that took its place, not the top of the listing.
    assert_eq!(p.entries[p.cursor_index].name, "c.txt");
}

#[test]
fn preserving_relist_walks_backwards_when_nothing_after_the_cursor_survives() {
    let mut p = named_panel(&["a.txt", "b.txt", "c.txt", "d.txt"]);
    p.cursor_index = 2; // c.txt

    // Everything from the cursor down is gone.
    set_listing_preserving(
        &mut p,
        DirListing {
            path: "/dir".to_string(),
            access: None,
            entries: vec![
                nav_ent("a.txt", EntryKind::File),
                nav_ent("b.txt", EntryKind::File),
            ],
        },
    );

    assert_eq!(p.entries[p.cursor_index].name, "b.txt");
}

#[test]
fn preserving_relist_keeps_the_viewport_still() {
    // A long listing scrolled well past the first page. A background change
    // must not move the window: re-deriving it from a zeroed top_index pins
    // the cursor to the last visible row, which with a live watcher would
    // yank the panel on every unrelated file event.
    let mut p = nav_panel(100, 2, 10); // page = 20
    p.cursor_index = 60;
    clamp_scroll(&mut p);
    let top_before = p.top_index;
    let focused_before = p.entries[p.cursor_index].name.clone();
    assert!(top_before > 0, "precondition: scrolled off the first page");

    let same = DirListing {
        path: p.path.clone(),
        access: None,
        entries: p.entries.clone(),
    };
    set_listing_preserving(&mut p, same);

    assert_eq!(p.top_index, top_before, "viewport moved on a no-op refresh");
    // Tracked by name, not index: `set_listing` re-applies the sort, so the
    // same entry can legitimately sit at a different index afterwards.
    assert_eq!(p.entries[p.cursor_index].name, focused_before);
}

#[test]
fn nearest_sorted_lands_where_the_deleted_folder_used_to_be() {
    // The parent listing after ~/Projects/foo was deleted: the cursor should
    // land between "bar" and "quux", where "foo" used to sort.
    let mut p = PanelState {
        path: "/Projects".to_string(),
        entries: vec![
            nav_ent("..", EntryKind::Dir),
            nav_ent("bar", EntryKind::Dir),
            nav_ent("quux", EntryKind::Dir),
            nav_ent("readme.txt", EntryKind::File),
        ],
        ..Default::default()
    };

    position_on_nearest_sorted(&mut p, "foo");
    assert_eq!(p.entries[p.cursor_index].name, "quux");
}

#[test]
fn nearest_sorted_prefers_the_name_when_it_is_still_there() {
    let mut p = PanelState {
        path: "/Projects".to_string(),
        entries: vec![
            nav_ent("..", EntryKind::Dir),
            nav_ent("bar", EntryKind::Dir),
            nav_ent("foo", EntryKind::Dir),
        ],
        ..Default::default()
    };

    position_on_nearest_sorted(&mut p, "foo");
    assert_eq!(p.entries[p.cursor_index].name, "foo");
}

#[test]
fn nearest_sorted_falls_to_the_last_folder_when_the_name_sorts_past_them_all() {
    let mut p = PanelState {
        path: "/Projects".to_string(),
        entries: vec![
            nav_ent("..", EntryKind::Dir),
            nav_ent("alpha", EntryKind::Dir),
            nav_ent("beta", EntryKind::Dir),
            nav_ent("readme.txt", EntryKind::File),
        ],
        ..Default::default()
    };

    // "zeta" sorts after every folder, and must not land on the file.
    position_on_nearest_sorted(&mut p, "zeta");
    assert_eq!(p.entries[p.cursor_index].name, "beta");
}

#[test]
fn preserving_relist_never_selects_dotdot() {
    let mut p = panel_with_dotdot(3);
    p.selection = vec![1];
    let same = DirListing {
        path: p.path.clone(),
        access: None,
        entries: p.entries.clone(),
    };
    set_listing_preserving(&mut p, same);
    assert_eq!(p.selection, vec![1]); // the real entry, never `..` at index 0
}

