use fm_core::types::{GotoTarget, TextEncoding, ViewMotion};
use fm_core::view::find::{ascii_lower, find_bytes, rfind_bytes, search_pattern};
use fm_core::view::hex::{hex_motion, hex_offset, hex_row, hex_rows, hex_snap};
use fm_core::view::page::{
    display_rows, expand_tabs, goto_offset, line_height, line_number_at, line_spans, line_start_in,
    next_line_from, percent, prev_line_start_in, record_line_starts, unit_value, LineSpan,
};

fn numbered(lines: usize) -> Vec<u8> {
    (1..=lines).map(|i| format!("line {i}\n")).collect::<String>().into_bytes()
}

#[test]
fn lines_end_at_lf_cr_or_crlf() {
    let spans = line_spans(b"a\r\nbb\ncc\rd", TextEncoding::Utf8, false);
    assert_eq!(
        spans,
        vec![
            LineSpan { start: 0, content: 1, total: 3 },
            LineSpan { start: 3, content: 2, total: 3 },
            LineSpan { start: 6, content: 2, total: 3 },
        ]
    );
    // The unterminated tail only counts at the end of the file.
    let spans = line_spans(b"a\r\nbb\ncc\rd", TextEncoding::Utf8, true);
    assert_eq!(spans.len(), 4);
    assert_eq!(spans[3], LineSpan { start: 9, content: 1, total: 1 });
}

#[test]
fn utf16_lines_step_by_whole_units() {
    let bytes = [b'a', 0, b'\n', 0, b'b', 0];
    assert_eq!(unit_value(&bytes, 2, TextEncoding::Utf16Le), Some(10));
    assert_eq!(unit_value(&bytes, 5, TextEncoding::Utf16Le), None);
    let spans = line_spans(&bytes, TextEncoding::Utf16Le, true);
    assert_eq!(
        spans,
        vec![LineSpan { start: 0, content: 2, total: 4 }, LineSpan { start: 4, content: 2, total: 2 }]
    );
}

#[test]
fn tabs_expand_to_the_next_stop() {
    assert_eq!(expand_tabs("a\tb", 4), "a   b");
    assert_eq!(expand_tabs("abcd\te", 4), "abcd    e");
    assert_eq!(expand_tabs("no tabs", 4), "no tabs");
}

#[test]
fn wrapped_rows_split_long_lines_and_label_only_the_first() {
    let (rows, gutter) = display_rows("0123456789abcdefghij", "1", true, 10, 0, 4, 10);
    assert_eq!(rows, ["0123456789", "abcdefghij"]);
    assert_eq!(gutter, ["1", ""]);

    // Unwrapped, the same line is clipped to the window width instead.
    let (rows, gutter) = display_rows("0123456789abcdefghij", "1", false, 10, 0, 4, 10);
    assert_eq!(rows, ["0123456789"]);
    assert_eq!(gutter, ["1"]);

    // No more rows than the window has room for.
    let (rows, _) = display_rows("0123456789abcdefghij", "1", true, 10, 0, 4, 1);
    assert_eq!(rows, ["0123456789"]);

    // An empty line is still one row.
    let (rows, gutter) = display_rows("", "7", true, 10, 0, 4, 5);
    assert_eq!(rows, [""]);
    assert_eq!(gutter, ["7"]);
}

#[test]
fn unwrapped_rows_slice_at_the_column_offset() {
    let (rows, _) = display_rows("0123456789abcdefghij", "", false, 10, 8, 4, 4);
    assert_eq!(rows, ["89abcdefgh"]);
    let (rows, _) = display_rows("short", "", false, 10, 8, 4, 4);
    assert_eq!(rows, [""]);
}

#[test]
fn the_next_line_starts_past_the_first_terminator() {
    let buf = numbered(3);
    assert_eq!(next_line_from(100, &buf, TextEncoding::Utf8, true, 121), 107);
    // A window without a whole line steps to its edge, unit aligned.
    assert_eq!(next_line_from(10, b"abc", TextEncoding::Utf16Le, false, 1000), 12);
    // Nothing read: the file's size.
    assert_eq!(next_line_from(50, b"", TextEncoding::Utf8, true, 50), 50);
}

#[test]
fn stepping_back_finds_the_previous_line() {
    // The window ends where "c\n" starts; the previous line is "b\n".
    assert_eq!(prev_line_start_in(b"a\nb\n", TextEncoding::Utf8), 2);
    assert_eq!(prev_line_start_in(b"a\r\nb\r\n", TextEncoding::Utf8), 3);
    assert_eq!(prev_line_start_in(b"only\n", TextEncoding::Utf8), 0);
    assert_eq!(prev_line_start_in(b"\r", TextEncoding::Utf8), 0);
    assert_eq!(prev_line_start_in(b"", TextEncoding::Utf8), 0);
}

#[test]
fn the_line_holding_an_offset_starts_after_the_last_break() {
    assert_eq!(line_start_in(b"one\ntw", TextEncoding::Utf8), 4);
    assert_eq!(line_start_in(b"one\n", TextEncoding::Utf8), 4);
    assert_eq!(line_start_in(b"none", TextEncoding::Utf8), 0);
}

#[test]
fn the_line_index_grows_forward_and_numbers_lines() {
    let buf = numbered(3); // line 1\nline 2\nline 3\n
    let spans = line_spans(&buf, TextEncoding::Utf8, true);
    let mut starts: Vec<u64> = vec![0];
    let reach = record_line_starts(&mut starts, 0, &spans, buf.len(), buf.len() as u64);
    // The end of the last line is the end of the file, so it is not a start.
    assert_eq!(starts, [0, 7, 14]);
    assert_eq!(reach, 21);
    assert_eq!(line_number_at(&starts, reach, 7), Some(2));
    assert_eq!(line_number_at(&starts, reach, 14), Some(3));
    assert_eq!(line_number_at(&starts, reach, 8), None);
    // Past the indexed region the number is unknown.
    assert_eq!(line_number_at(&starts, 7, 14), None);

    // Recording the same chunk again adds nothing.
    let again = record_line_starts(&mut starts, 0, &spans, buf.len(), buf.len() as u64);
    assert_eq!(starts, [0, 7, 14]);
    assert_eq!(again, 21);

    // A chunk without a whole line moves the reach past it.
    let mut s2: Vec<u64> = vec![0];
    assert_eq!(record_line_starts(&mut s2, 40, &Vec::new(), 100, 1000), 140);
    assert_eq!(s2, [0]);
}

#[test]
fn an_empty_file_renders_at_100_percent() {
    assert_eq!(percent(0, 0), 100);
    assert_eq!(percent(0, 200), 0);
    assert_eq!(percent(50, 200), 25);
    assert_eq!(percent(500, 200), 100);
}

#[test]
fn goto_reaches_percentages_and_offsets() {
    assert_eq!(goto_offset(GotoTarget::Offset(0x41), 256), Some(0x41));
    assert_eq!(goto_offset(GotoTarget::Offset(9999), 256), Some(256));
    assert_eq!(goto_offset(GotoTarget::Percent(50), 1000), Some(500));
    assert_eq!(goto_offset(GotoTarget::Percent(250), 1000), Some(1000));
    assert_eq!(goto_offset(GotoTarget::Line(700), 1000), None);
}

#[test]
fn a_wrapped_lines_height_ignores_its_terminator() {
    assert_eq!(line_height("0123456789abcdefghij\n", 10), 2);
    assert_eq!(line_height("0123456789a\r\n", 10), 2);
    assert_eq!(line_height("\n", 10), 1);
    assert_eq!(line_height("short", 10), 1);
}

#[test]
fn hex_rows_format_offsets_bytes_and_text() {
    let bytes: Vec<u8> = (0..=255u8).collect();
    let (gutter, rows) = hex_rows(&bytes[..64], 0, 16);
    assert_eq!(gutter[0], "00000000");
    assert!(rows[0].starts_with("00 01 02 03 04 05 06 07  08"));
    assert!(rows[0].ends_with("│ ................"));
    assert_eq!(rows.len(), 4);
    assert_eq!(gutter[3], "00000030");

    // Paging and snapping by offset.
    assert_eq!(hex_motion(0, 256, 16, 4, ViewMotion::PageDown), 64);
    assert_eq!(hex_offset(64), "00000040");
    assert_eq!(hex_snap(0x41, 256, 16), 0x40);
    let (_, rows) = hex_rows(&bytes[0x40..0x50], 0x40, 16);
    assert!(rows[0].ends_with("│ @ABCDEFGHIJKLMNO"));
    assert_eq!(hex_motion(0x40, 256, 16, 4, ViewMotion::End), 256 - 64);
}

#[test]
fn a_short_hex_row_is_padded_to_the_full_width() {
    let row = hex_row(b"ABC", 16);
    assert_eq!(row, format!("{:<50} │ ABC", "41 42 43"));
    assert!(hex_row(b"\x7FELF", 16).starts_with("7F 45 4C 46"));
}

#[test]
fn hex_offsets_grow_past_eight_digits() {
    assert_eq!(hex_offset(0), "00000000");
    assert_eq!(hex_offset(0xABCDEF), "00ABCDEF");
    assert_eq!(hex_offset(0x1_2345_6789), "123456789");
}

#[test]
fn hex_motion_stays_on_rows_and_inside_the_file() {
    assert_eq!(hex_motion(0, 256, 16, 4, ViewMotion::LineDown), 16);
    assert_eq!(hex_motion(240, 256, 16, 4, ViewMotion::LineDown), 240);
    assert_eq!(hex_motion(16, 256, 16, 4, ViewMotion::LineUp), 0);
    assert_eq!(hex_motion(0, 256, 16, 4, ViewMotion::LineUp), 0);
    assert_eq!(hex_motion(200, 256, 16, 4, ViewMotion::PageUp), 128);
    assert_eq!(hex_motion(200, 256, 16, 4, ViewMotion::Home), 0);
    assert_eq!(hex_motion(37, 256, 16, 4, ViewMotion::ColRight), 32);
    // An empty file has nowhere to go.
    assert_eq!(hex_motion(0, 0, 16, 4, ViewMotion::End), 0);
    assert_eq!(hex_motion(0, 0, 16, 4, ViewMotion::PageDown), 0);
}

#[test]
fn search_is_case_insensitive_on_raw_bytes() {
    assert_eq!(ascii_lower(b"LINE 400 \xC9"), b"line 400 \xC9");
    let hay = ascii_lower(&numbered(500));
    let pat = search_pattern("LINE 400", TextEncoding::Utf8).unwrap();
    let hit = find_bytes(&hay, &pat).unwrap();
    assert_eq!(&hay[hit..hit + 9], b"line 400\n");
    assert_eq!(find_bytes(b"abcabc", b"bc"), Some(1));
    assert_eq!(rfind_bytes(b"abcabc", b"bc"), Some(4));
    assert_eq!(find_bytes(b"abc", b"zz"), None);
    assert_eq!(rfind_bytes(b"ab", b"abc"), None);
}

#[test]
fn a_search_pattern_is_written_in_the_files_encoding() {
    assert_eq!(search_pattern("", TextEncoding::Utf8), None);
    assert_eq!(search_pattern("Ab", TextEncoding::Utf16Le), Some(vec![b'a', 0, b'b', 0]));
    assert_eq!(search_pattern("Ab", TextEncoding::Utf16Be), Some(vec![0, b'a', 0, b'b']));
    assert_eq!(search_pattern("Ab", TextEncoding::Utf8Bom), Some(vec![b'a', b'b']));
    assert_eq!(search_pattern("\u{20AC}", TextEncoding::Latin1), None);
    assert_eq!(search_pattern("\u{E9}", TextEncoding::Latin1), Some(vec![0xE9]));
}
