use fm_core::types::TextEncoding;
use fm_core::view::codec::{decode, encode, strip_bom, unit, UTF8_BOM};


#[test]
fn utf8_round_trips_and_keeps_its_bom() {
    let text = "héllo — wörld\n";
    assert_eq!(decode(text.as_bytes(), TextEncoding::Utf8), text);

    let bytes = encode(text, TextEncoding::Utf8Bom).unwrap();
    assert!(bytes.starts_with(&UTF8_BOM));
    assert_eq!(
        decode(strip_bom(&bytes, TextEncoding::Utf8Bom), TextEncoding::Utf8Bom),
        text
    );
}

#[test]
fn a_window_cut_mid_character_drops_the_partial_tail() {
    let full = "aé".as_bytes(); // 'é' is two bytes
    let cut = &full[..full.len() - 1];
    assert_eq!(decode(cut, TextEncoding::Utf8), "a");
}

#[test]
fn latin1_maps_bytes_to_chars_and_refuses_what_it_cannot_hold() {
    assert_eq!(decode(b"caf\xE9", TextEncoding::Latin1), "café");
    assert_eq!(encode("café", TextEncoding::Latin1).unwrap(), b"caf\xE9");
    // Em dash has no Latin-1 representation, so the save is refused.
    assert_eq!(encode("a — b", TextEncoding::Latin1), None);
}

#[test]
fn utf16_round_trips_in_both_byte_orders() {
    for enc in [TextEncoding::Utf16Le, TextEncoding::Utf16Be] {
        let bytes = encode("hi ω\n", enc).unwrap();
        assert_eq!(decode(strip_bom(&bytes, enc), enc), "hi ω\n");
        assert_eq!(unit(enc), 2);
    }
}

#[test]
fn an_odd_trailing_byte_is_ignored_rather_than_shifting_the_decode() {
    let bytes = b"h\0i\0!"; // 5 bytes: two whole UTF-16LE units plus a stray
    assert_eq!(decode(bytes, TextEncoding::Utf16Le), "hi");
}


#[test]
fn a_utf16_window_cut_inside_a_surrogate_pair_drops_the_half() {
    // "a" then the high half of U+1F600: the low half lies in the next window.
    assert_eq!(decode(&[0x61, 0x00, 0x3D, 0xD8], TextEncoding::Utf16Le), "a");
    assert_eq!(decode(&[0x00, 0x61, 0xD8, 0x3D], TextEncoding::Utf16Be), "a");
    // With both halves present the character decodes whole.
    assert_eq!(decode(&[0x61, 0x00, 0x3D, 0xD8, 0x00, 0xDE], TextEncoding::Utf16Le), "a\u{1F600}");
    // A lone low half is malformed input, not a cut: it still shows as U+FFFD.
    assert_eq!(decode(&[0x00, 0xDE, 0x61, 0x00], TextEncoding::Utf16Le), "\u{FFFD}a");
}

#[test]
fn text_outside_the_basic_plane_round_trips_in_every_unicode_encoding() {
    let text = "x \u{1F600} ω\r\n";
    for enc in [TextEncoding::Utf8, TextEncoding::Utf8Bom, TextEncoding::Utf16Le, TextEncoding::Utf16Be] {
        let bytes = encode(text, enc).unwrap();
        assert_eq!(decode(strip_bom(&bytes, enc), enc), text);
    }
    let cut = &"aé".as_bytes()[..2];
    assert_eq!(decode(cut, TextEncoding::Utf8), "a");
}
