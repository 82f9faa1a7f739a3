use fm_core::terminal::history::{History, MAX_ENTRIES};


fn history(cmds: &[&str]) -> History {
    History::from_entries(cmds.iter().map(|s| s.to_string()).collect())
}

#[test]
fn up_walks_backwards_and_stops_at_the_oldest() {
    let mut h = history(&["one", "two", "three"]);
    assert_eq!(h.prev("").as_deref(), Some("three"));
    assert_eq!(h.prev("").as_deref(), Some("two"));
    assert_eq!(h.prev("").as_deref(), Some("one"));
    // Nothing older — the prompt keeps showing "one".
    assert_eq!(h.prev(""), None);
}

#[test]
fn down_returns_the_draft_the_user_was_typing() {
    let mut h = history(&["one", "two"]);
    assert_eq!(h.prev("half-typed").as_deref(), Some("two"));
    assert_eq!(h.prev("ignored").as_deref(), Some("one"));
    assert_eq!(h.next().as_deref(), Some("two"));
    assert_eq!(h.next().as_deref(), Some("half-typed"));
    assert_eq!(h.next(), None);
}

#[test]
fn down_alone_does_nothing() {
    let mut h = history(&["one"]);
    assert_eq!(h.next(), None);
}

#[test]
fn consecutive_duplicates_and_blanks_are_not_recorded() {
    let mut h = History::default();
    h.push("ls".into());
    h.push("ls".into());
    h.push("   ".into());
    h.push("pwd".into());
    h.push("ls".into()); // not consecutive — kept
    assert_eq!(h.entries(), ["ls", "pwd", "ls"]);
}

#[test]
fn the_list_is_capped() {
    let mut h = History::default();
    for i in 0..MAX_ENTRIES + 50 {
        h.push(format!("cmd {i}"));
    }
    assert_eq!(h.entries().len(), MAX_ENTRIES);
    // The oldest are the ones dropped.
    assert_eq!(h.entries()[0], format!("cmd {}", 50));
}

#[test]
fn running_a_command_cancels_recall() {
    let mut h = history(&["one", "two"]);
    h.prev("draft");
    h.push("three".into());
    // The cursor is back at the bottom, so Up starts from the newest again.
    assert_eq!(h.prev("").as_deref(), Some("three"));
}

#[test]
fn the_history_file_text_round_trips() {
    let h = history(&["make build", "echo 'hi there'", "cd /tmp"]);
    let text = h.to_text();
    assert_eq!(text, "make build\necho 'hi there'\ncd /tmp\n");
    let back = History::from_text(&text);
    assert_eq!(back.entries(), ["make build", "echo 'hi there'", "cd /tmp"]);
}

#[test]
fn reading_skips_blank_lines_and_trailing_whitespace() {
    let back = History::from_text("ls  \n\n   \r\npwd\r\nls\nls");
    assert_eq!(back.entries(), ["ls", "pwd", "ls"]);
    assert!(History::from_text("").entries().is_empty());
}

#[test]
fn the_draft_survives_any_walk_that_stays_in_recall() {
    let mut h = history(&["one", "two"]);
    assert_eq!(h.prev("draft").as_deref(), Some("two"));
    assert_eq!(h.prev("x").as_deref(), Some("one"));
    assert_eq!(h.prev("y"), None);
    assert_eq!(h.next().as_deref(), Some("two"));
    assert_eq!(h.prev("z").as_deref(), Some("one"));
    assert_eq!(h.next().as_deref(), Some("two"));
    assert_eq!(h.next().as_deref(), Some("draft"));
    assert_eq!(h.next(), None);
    assert_eq!(h.entries().len(), 2);
}
