use fm_core::nav::search::{backspace, close, open, push};
use fm_core::types::{Entry, EntryCategory, EntryKind, EntryMarker, PanelGeometry, PanelState};


fn search_ent(name: &str) -> Entry {
    Entry {
        name: name.to_string(),
        kind: EntryKind::File,
        size: 0,
        modified: 0,
        created: 0,
        permissions: 0,
        uid: 0,
        gid: 0,
        owner: None,
        group: None,
        nlink: 0,
        symlink_target: None,
        is_executable: false,
        category: EntryCategory::Plain,
        marker: EntryMarker::Okay,
        computed_size: None,
    }
}

/// A panel over `names`, searching, with a one-column viewport `rows` tall.
fn searching(names: &[&str], rows: u16) -> PanelState {
    let mut state = PanelState {
        entries: names.iter().map(|n| search_ent(n)).collect(),
        geometry: PanelGeometry {
            columns: 1,
            rows_per_column: rows,
        },
        ..Default::default()
    };
    open(&mut state);
    state
}

fn type_in(state: &mut PanelState, text: &str) {
    for c in text.chars() {
        push(state, &c.to_string());
    }
}

fn query_of(state: &PanelState) -> &str {
    &state.search.as_ref().expect("box is open").query
}

fn misses(state: &PanelState) -> u32 {
    state.search.as_ref().expect("box is open").miss_rev
}

#[test]
fn opening_does_not_move_the_cursor() {
    let mut state = searching(&["..", "alpha", "beta"], 10);
    state.cursor_index = 2;
    open(&mut state);
    assert_eq!(state.cursor_index, 2);
    assert_eq!(query_of(&state), "");
}

#[test]
fn typing_a_prefix_jumps_to_the_first_match() {
    let mut state = searching(&["..", "alpha", "beta", "berry"], 10);
    type_in(&mut state, "be");
    assert_eq!(query_of(&state), "be");
    assert_eq!(state.entries[state.cursor_index].name, "beta");
}

/// Prefix, not substring: `erry` is inside `berry` but starts nothing.
#[test]
fn matching_is_a_prefix_not_a_substring() {
    let mut state = searching(&["..", "berry"], 10);
    push(&mut state, "e");
    assert_eq!(query_of(&state), "");
    assert_eq!(misses(&state), 1);
}

#[test]
fn matching_ignores_case_in_both_directions() {
    let mut state = searching(&["..", "README.md", "src"], 10);
    type_in(&mut state, "re");
    assert_eq!(state.entries[state.cursor_index].name, "README.md");

    let mut state = searching(&["..", "readme.md"], 10);
    type_in(&mut state, "RE");
    assert_eq!(state.entries[state.cursor_index].name, "readme.md");
}

/// `..` is never a candidate — Home already goes there (§5.3's rule that it
/// is not a real entry).
#[test]
fn parent_entry_is_never_matched() {
    let mut state = searching(&["..", "alpha"], 10);
    state.cursor_index = 1;
    push(&mut state, ".");
    assert_eq!(misses(&state), 1);
    assert_eq!(state.cursor_index, 1, "cursor must not jump to ..");
}

#[test]
fn a_miss_rejects_the_character_and_leaves_the_cursor() {
    let mut state = searching(&["..", "alpha", "beta"], 10);
    type_in(&mut state, "be");
    let at_match = state.cursor_index;

    push(&mut state, "z");
    assert_eq!(query_of(&state), "be", "the rejected char must not land");
    assert_eq!(state.cursor_index, at_match);
    assert_eq!(misses(&state), 1);

    // Consecutive misses each have to be reported, or the second beep is lost.
    push(&mut state, "q");
    assert_eq!(misses(&state), 2);

    // A hit after a miss still works — the query was never poisoned.
    push(&mut state, "t");
    assert_eq!(query_of(&state), "bet");
}

#[test]
fn backspace_walks_the_cursor_back() {
    let mut state = searching(&["..", "alpha", "beta", "berry"], 10);
    type_in(&mut state, "bet");
    assert_eq!(state.entries[state.cursor_index].name, "beta");

    backspace(&mut state);
    assert_eq!(query_of(&state), "be");
    assert_eq!(state.entries[state.cursor_index].name, "beta");
}

/// Emptying the query keeps the box open and the cursor where it is; only an
/// explicit Esc/Enter closes it (§5.9).
#[test]
fn backspacing_to_empty_keeps_the_box_open() {
    let mut state = searching(&["..", "alpha", "beta"], 10);
    type_in(&mut state, "b");
    let at_match = state.cursor_index;

    backspace(&mut state);
    assert_eq!(query_of(&state), "");
    assert_eq!(state.cursor_index, at_match, "an empty query moves nothing");

    backspace(&mut state);
    assert!(state.search.is_some(), "backspace must not close the box");
}

#[test]
fn multibyte_names_survive_backspace() {
    let mut state = searching(&["..", "日本語.txt", "naïve"], 10);
    type_in(&mut state, "日本");
    assert_eq!(state.entries[state.cursor_index].name, "日本語.txt");
    backspace(&mut state);
    assert_eq!(query_of(&state), "日");

    let mut state = searching(&["..", "naïve"], 10);
    type_in(&mut state, "naï");
    assert_eq!(state.entries[state.cursor_index].name, "naïve");
}

/// The reason this lives under `nav`: a hit goes through `set_cursor`, so the
/// window scrolls to bring an off-screen match into view (§5.2).
#[test]
fn a_match_below_the_fold_scrolls_into_view() {
    let mut names: Vec<String> = vec!["..".to_string()];
    names.extend((0..40).map(|i| format!("file{i:02}")));
    names.push("zebra".to_string());
    let refs: Vec<&str> = names.iter().map(|s| s.as_str()).collect();

    let mut state = searching(&refs, 10);
    assert_eq!(state.top_index, 0);

    type_in(&mut state, "z");
    assert_eq!(state.entries[state.cursor_index].name, "zebra");
    assert!(
        state.cursor_index >= state.top_index
            && state.cursor_index < state.top_index + 10,
        "cursor {} outside window [{}, {})",
        state.cursor_index,
        state.top_index,
        state.top_index + 10,
    );
}

#[test]
fn closing_keeps_the_cursor_on_the_match() {
    let mut state = searching(&["..", "alpha", "beta"], 10);
    type_in(&mut state, "be");
    let at_match = state.cursor_index;

    close(&mut state);
    assert!(state.search.is_none());
    assert_eq!(state.cursor_index, at_match);
}

/// Every entry point is a no-op with no box open, so a stray call from the
/// frontend cannot move the cursor behind the user's back.
#[test]
fn the_operations_are_inert_when_no_box_is_open() {
    let mut state = searching(&["..", "alpha", "beta"], 10);
    close(&mut state);
    state.cursor_index = 2;

    push(&mut state, "a");
    backspace(&mut state);
    assert!(state.search.is_none());
    assert_eq!(state.cursor_index, 2);
}

#[test]
fn reopening_starts_a_fresh_query() {
    let mut state = searching(&["..", "alpha", "beta"], 10);
    type_in(&mut state, "bez");
    assert_eq!(misses(&state), 1);

    open(&mut state);
    assert_eq!(query_of(&state), "");
    assert_eq!(misses(&state), 0);
}

