use fm_core::text::{decimal_i64, decimal_u64};
use fm_core::types::{Eol, SaveOutcome, TextEncoding};
use fm_core::view::edit::{doc_id, encoding_label, normalize_eol, restore_eol, save_step, SaveStep};

#[test]
fn crlf_text_is_edited_as_lf_and_saved_as_crlf() {
    let text = normalize_eol("one\r\ntwo\r\n");
    assert_eq!(text, "one\ntwo\n");
    assert_eq!(restore_eol(&text, Eol::Crlf), "one\r\ntwo\r\n");
    match save_step(false, false, None, &text, Eol::Crlf, TextEncoding::Utf8) {
        SaveStep::Write(bytes) => assert_eq!(bytes, b"one\r\ntwo\r\n"),
        other => panic!("expected a write, got {other:?}"),
    }
}

#[test]
fn lone_carriage_returns_become_newlines() {
    assert_eq!(normalize_eol("a\rb\r\nc\n"), "a\nb\nc\n");
    assert_eq!(restore_eol("a\nb", Eol::Cr), "a\rb");
    assert_eq!(restore_eol("a\nb", Eol::Lf), "a\nb");
}

#[test]
fn a_bom_is_written_back_on_save() {
    match save_step(false, false, None, "hi\n", Eol::Lf, TextEncoding::Utf8Bom) {
        SaveStep::Write(bytes) => assert_eq!(bytes, b"\xEF\xBB\xBFhi\n"),
        other => panic!("expected a write, got {other:?}"),
    }
}

#[test]
fn latin1_saves_as_latin1_and_refuses_what_it_cannot_hold() {
    match save_step(false, false, None, "caf\u{e9}\n", Eol::Lf, TextEncoding::Latin1) {
        SaveStep::Write(bytes) => assert_eq!(bytes, b"caf\xE9\n"),
        other => panic!("expected a write, got {other:?}"),
    }
    match save_step(false, false, None, "\u{20AC}", Eol::Lf, TextEncoding::Latin1) {
        SaveStep::Report(SaveOutcome::Failed(m)) => {
            assert_eq!(m, "the text contains characters that Latin-1 cannot represent")
        }
        other => panic!("expected a refusal, got {other:?}"),
    }
}

#[test]
fn a_change_on_disk_conflicts_until_forced() {
    match save_step(false, false, Some("changed on disk".to_string()), "x", Eol::Lf, TextEncoding::Utf8) {
        SaveStep::Report(SaveOutcome::Conflict(m)) => assert_eq!(m, "changed on disk"),
        other => panic!("expected a conflict, got {other:?}"),
    }
    assert!(matches!(
        save_step(false, true, Some("changed on disk".to_string()), "x", Eol::Lf, TextEncoding::Utf8),
        SaveStep::Write(_)
    ));
}

#[test]
fn a_read_only_document_will_not_save() {
    assert!(matches!(
        save_step(true, true, None, "x", Eol::Lf, TextEncoding::Utf8),
        SaveStep::Report(SaveOutcome::ReadOnly)
    ));
}

#[test]
fn encodings_are_named_for_people() {
    assert_eq!(encoding_label(TextEncoding::Utf8Bom), "UTF-8");
    assert_eq!(encoding_label(TextEncoding::Utf16Le), "UTF-16LE");
    assert_eq!(encoding_label(TextEncoding::Utf16Be), "UTF-16BE");
    assert_eq!(encoding_label(TextEncoding::Latin1), "Latin-1");
}

#[test]
fn document_ids_and_decimals() {
    assert_eq!(doc_id(3), "e3");
    assert_eq!(decimal_u64(0), "0");
    assert_eq!(decimal_u64(18_446_744_073_709_551_615), "18446744073709551615");
    assert_eq!(decimal_i64(-42), "-42");
    assert_eq!(decimal_i64(i64::MIN), "-9223372036854775808");
}
