use fm_core::terminal::scrollback::{Scrollback, MIN_LINES};
use fm_core::types::TerminalChunk;

/// The buffer's lines joined with newlines, then the partial line.
fn text(sb: &Scrollback) -> String {
    let snap = sb.snapshot();
    let mut out = snap.lines.join("\n");
    if !snap.pending.is_empty() {
        if !out.is_empty() {
            out.push('\n');
        }
        out.push_str(&snap.pending);
    }
    out
}


/// The frontend's mirror, implemented exactly as `App.svelte` does it.
/// Tests assert against this rather than restating the rule inline, so a
/// change to the contract has to be made in one place and shows up here.
#[derive(Default)]
struct Mirror {
    lines: Vec<String>,
    pending: String,
}

impl Mirror {
    fn apply(&mut self, chunk: &TerminalChunk) {
        self.lines.extend(chunk.lines.iter().cloned());
        self.lines.drain(0..(chunk.dropped as usize).min(self.lines.len()));
        self.pending = chunk.pending.clone();
    }

    fn assert_matches(&self, sb: &Scrollback) {
        let snap = sb.snapshot();
        assert_eq!(self.lines, snap.lines, "mirror drifted from the buffer");
        assert_eq!(self.pending, snap.pending, "pending line drifted");
    }
}

#[test]
fn splits_appends_into_lines_and_keeps_the_partial_tail() {
    let mut sb = Scrollback::new(1 << 20);

    let chunk = sb.append_str("one\ntwo\nthr");
    assert_eq!(chunk.lines, vec!["one", "two"]);
    assert_eq!(chunk.pending, "thr");
    assert_eq!(chunk.dropped, 0);

    // The partial line is completed by the *next* append, not re-emitted.
    let chunk = sb.append_str("ee\n");
    assert_eq!(chunk.lines, vec!["three"]);
    assert_eq!(chunk.pending, "");
    assert_eq!(text(&sb), "one\ntwo\nthree");
}

#[test]
fn evicting_reports_the_exact_line_count_the_mirror_must_drop() {
    // Cap fits roughly three "aaaa" lines (4 + 1 overhead each).
    let mut sb = Scrollback::new(15);
    let mut mirror = Mirror::default();

    mirror.apply(&sb.append_str("aaaa\nbbbb\ncccc\n"));
    assert_eq!(text(&sb), "aaaa\nbbbb\ncccc");
    mirror.assert_matches(&sb);

    let chunk = sb.append_str("dddd\n");
    assert_eq!(chunk.lines, vec!["dddd"]);
    assert_eq!(chunk.dropped, 1);
    assert_eq!(text(&sb), "bbbb\ncccc\ndddd");
    mirror.apply(&chunk);
    mirror.assert_matches(&sb);
}

/// The delta is **append-then-drop**, and this is the case that proves it
/// matters: one append that evicts more lines than the mirror held before it.
/// Dropping first clamps at zero and leaks the surplus, so the mirror ends up
/// permanently longer than the buffer — which is exactly what a burst of
/// program output into a small scrollback does.
#[test]
fn one_append_may_evict_more_lines_than_the_mirror_previously_held() {
    let mut sb = Scrollback::new(15);
    let mut mirror = Mirror::default();

    mirror.apply(&sb.append_str("aaaa\nbbbb\n"));
    mirror.assert_matches(&sb);

    // Five lines land at once into a buffer that holds three; the eviction
    // reaches past the two the mirror had and into the new arrivals.
    let chunk = sb.append_str("cccc\ndddd\neeee\nffff\ngggg\n");
    assert!(
        chunk.dropped as usize > 2,
        "expected the eviction to exceed the mirror's prior length, got {}",
        chunk.dropped
    );
    mirror.apply(&chunk);
    mirror.assert_matches(&sb);
    assert_eq!(text(&sb), "eeee\nffff\ngggg");
}

/// The end-to-end shape of the live bug: `seq 1 3000` into a 2 KB scrollback,
/// then a clear. Output arrives in whole pipe reads — ~1000 lines at a time,
/// far more than the buffer holds — so every burst evicts into its own new
/// lines. If the mirror drifts even once, the clear's `dropped` no longer
/// covers it and stale output survives on screen.
#[test]
fn a_burst_bigger_than_the_buffer_then_a_clear_leaves_the_mirror_empty() {
    const BURST: u32 = 1000;
    let mut sb = Scrollback::new(2048);
    let mut mirror = Mirror::default();

    for start in (1..=3000).step_by(BURST as usize) {
        let burst: String = (start..start + BURST).map(|n| format!("{n}\n")).collect();
        let held_before = mirror.lines.len();
        let chunk = sb.append_str(&burst);
        // The point of the test: the eviction reaches past everything the
        // mirror held and into the lines this very append added.
        assert!(
            chunk.dropped as usize > held_before,
            "expected the eviction to overlap the new lines: dropped={} held={held_before}",
            chunk.dropped
        );
        mirror.apply(&chunk);
        mirror.assert_matches(&sb);
    }
    assert!(sb.snapshot().lines.len() < 3000, "the cap should have evicted");

    mirror.apply(&sb.clear());
    mirror.assert_matches(&sb);
    assert!(mirror.lines.is_empty(), "clear must empty the mirror too");
}

#[test]
fn a_single_line_larger_than_the_cap_is_still_kept() {
    // MIN_LINES is the floor: we never evict our way down to nothing.
    let mut sb = Scrollback::new(8);
    sb.append_str(&format!("{}\n", "x".repeat(500)));
    sb.append_str("short\n");
    assert_eq!(sb.snapshot().lines.len(), MIN_LINES);
    assert!(sb.snapshot().lines.last().unwrap() == "short");
}

#[test]
fn lowering_the_cap_trims_immediately() {
    let mut sb = Scrollback::new(1 << 20);
    for i in 0..100 {
        sb.append_str(&format!("line {i}\n"));
    }
    assert_eq!(sb.snapshot().lines.len(), 100);
    sb.set_limit(30);
    let after = sb.snapshot().lines;
    assert!(after.len() < 100, "expected a trim, kept {}", after.len());
    // Trimming drops the oldest, so the newest line must survive.
    assert_eq!(after.last().unwrap(), "line 99");
}

#[test]
fn invalid_utf8_is_replaced_rather_than_dropping_the_line() {
    let mut sb = Scrollback::new(1 << 20);
    let chunk = sb.append(b"ok \xff\xfe bytes\n");
    assert_eq!(chunk.lines.len(), 1);
    assert!(chunk.lines[0].starts_with("ok "));
    assert!(chunk.lines[0].ends_with(" bytes"));
}

#[test]
fn append_line_flushes_a_partial_line_first() {
    let mut sb = Scrollback::new(1 << 20);
    sb.append_str("no newline yet");
    sb.append_line("[exit 1]");
    assert_eq!(text(&sb), "no newline yet\n[exit 1]");
    assert_eq!(sb.snapshot().pending, "");
}

#[test]
fn clear_empties_everything_and_reports_it_as_an_ordinary_delta() {
    let mut sb = Scrollback::new(1 << 20);
    sb.append_str("a\nb\npartial");
    let mut mirror = Mirror::default();
    mirror.lines = vec!["a".to_string(), "b".into()];
    mirror.pending = "partial".to_string();

    let chunk = sb.clear();
    assert_eq!(sb.snapshot().lines.len(), 0);
    assert_eq!(sb.snapshot().pending, "");

    // Applying the delta to a mirror must empty it too, with no special case.
    assert_eq!(chunk.dropped, 2);
    mirror.apply(&chunk);
    mirror.assert_matches(&sb);

    // And the byte accounting resets, so the next append is not over-trimmed.
    let chunk = sb.append_str("fresh\n");
    assert_eq!(chunk.dropped, 0);
}


#[test]
fn a_carriage_return_before_the_newline_is_dropped() {
    let mut sb = Scrollback::new(1 << 20);
    let chunk = sb.append(b"ok \xff\xfe bytes\r\n");
    assert_eq!(chunk.lines, vec!["ok \u{FFFD}\u{FFFD} bytes"]);
    assert_eq!(chunk.pending, "");
    assert_eq!(chunk.dropped, 0);
}

#[test]
fn crlf_output_stores_bare_lines_and_mid_line_returns_stay() {
    let mut sb = Scrollback::new(1 << 20);
    // The return waits in the partial line until its newline arrives.
    let chunk = sb.append_str("one\r");
    assert_eq!(chunk.pending, "one\r");
    let chunk = sb.append_str("\nprogress 1\rprogress 2\r\n\r\n");
    assert_eq!(chunk.lines, vec!["one", "progress 1\rprogress 2", ""]);
    assert_eq!(text(&sb), "one\nprogress 1\rprogress 2\n");
}
