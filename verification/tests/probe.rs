use fm_core::types::{Eol, MediaKind, TextEncoding};
use fm_core::view::probe::classify;


fn kind(sample: &[u8]) -> (MediaKind, TextEncoding) {
    let p = classify(sample, sample.len() as u64, None);
    (p.media, p.encoding)
}

#[test]
fn plain_ascii_and_utf8_are_text() {
    assert_eq!(kind(b"hello, world\n"), (MediaKind::Text, TextEncoding::Utf8));
    assert_eq!(
        kind("привет — ok\n".as_bytes()),
        (MediaKind::Text, TextEncoding::Utf8)
    );
}

#[test]
fn empty_file_is_an_editable_text_buffer() {
    assert_eq!(kind(b""), (MediaKind::Text, TextEncoding::Utf8));
}

#[test]
fn boms_name_the_encoding() {
    assert_eq!(kind(b"\xEF\xBB\xBFhi"), (MediaKind::Text, TextEncoding::Utf8Bom));
    assert_eq!(kind(b"\xFF\xFEh\0i\0"), (MediaKind::Text, TextEncoding::Utf16Le));
    assert_eq!(kind(b"\xFE\xFF\0h\0i"), (MediaKind::Text, TextEncoding::Utf16Be));
}

#[test]
fn nul_byte_means_binary() {
    assert_eq!(kind(b"MZ\x90\x00\x03\x00rest"), (MediaKind::Binary, TextEncoding::Utf8));
}

#[test]
fn latin1_text_without_nuls_is_still_text() {
    // 0xE9 is `é` in Latin-1 and invalid UTF-8 on its own.
    assert_eq!(kind(b"caf\xE9 au lait\n"), (MediaKind::Text, TextEncoding::Latin1));
}

#[test]
fn high_entropy_without_nuls_is_binary() {
    // Bytes in 0x80..0x9F are neither valid UTF-8 nor printable Latin-1.
    let noise: Vec<u8> = (0..200u16).map(|i| 0x80 + (i % 0x20) as u8).collect();
    assert_eq!(kind(&noise).0, MediaKind::Binary);
}

#[test]
fn images_come_from_magic_or_extension() {
    assert_eq!(kind(b"\x89PNG\r\n\x1a\n\0\0\0\rIHDR").0, MediaKind::Image);
    assert_eq!(kind(b"\xFF\xD8\xFF\xE0\x00\x10JFIF").0, MediaKind::Image);
    assert_eq!(kind(b"GIF89a...").0, MediaKind::Image);
    assert_eq!(kind(b"RIFF\x24\0\0\0WEBPVP8 ").0, MediaKind::Image);
    // SVG is text on disk but a picture to the user.
    let svg = classify(b"<svg xmlns=\"...\"/>", 18, Some("svg"));
    assert_eq!(svg.media, MediaKind::Image);
}

#[test]
fn truncated_utf8_at_the_sample_edge_is_still_utf8() {
    // "é" is 0xC3 0xA9; cut it in half at the end of the sample.
    let mut s = b"a fine file ".to_vec();
    s.push(0xC3);
    assert_eq!(kind(&s), (MediaKind::Text, TextEncoding::Utf8));
    // A stray 0xC3 in the *middle* is not a truncation, so it falls through
    // to the printable-ratio test and reads as legacy text.
    let mut s = vec![0xC3];
    s.extend_from_slice(b" a fine file");
    assert_eq!(kind(&s), (MediaKind::Text, TextEncoding::Latin1));
}

#[test]
fn eol_style_is_detected_and_defaults_to_lf() {
    assert_eq!(classify(b"a\r\nb\r\n", 6, None).eol, Eol::Crlf);
    assert_eq!(classify(b"a\nb\n", 4, None).eol, Eol::Lf);
    assert_eq!(classify(b"a\rb\r", 4, None).eol, Eol::Cr);
    assert_eq!(classify(b"no breaks here", 14, None).eol, Eol::Lf);
    // UTF-16LE: the `\n` unit is 0x0A 0x00, found by stepping two bytes.
    assert_eq!(classify(b"\xFF\xFEa\0\r\0\n\0", 8, None).eol, Eol::Crlf);
}
