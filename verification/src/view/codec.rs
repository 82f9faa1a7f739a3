//! Decoding and encoding for the handful of encodings the viewer and editor
//! detect: UTF-8 with or without a BOM, UTF-16 in both byte orders, and
//! Latin-1.
//!
//! Decoding is lossy by design: the viewer must render something for every
//! file rather than fail. Encoding refuses text the encoding cannot hold.
use vstd::prelude::*;
use vstd::utf8::{decode_utf8, encode_utf8, encode_utf8_decode_utf8, encode_utf8_valid_utf8, valid_utf8};
use crate::text::{chars_of, spec_utf8_lossy, string_from_chars, utf8_lossy};
use crate::types::TextEncoding;

verus! {

/// The UTF-8 byte-order mark.
pub const UTF8_BOM: [u8; 3] = [0xEF, 0xBB, 0xBF];

/// How far `std::str::from_utf8` finds `bytes` valid before its first error
/// (`Utf8Error::valid_up_to`). A function of its argument alone.
pub uninterp spec fn spec_utf8_valid_up_to(bytes: Seq<u8>) -> int;

/// Whether `std::str::from_utf8`'s error on `bytes` is an input that ended in
/// the middle of a character (`Utf8Error::error_len` is `None`). A function of
/// its argument alone.
pub uninterp spec fn spec_utf8_cut_short(bytes: Seq<u8>) -> bool;

/// What `String::from_utf16_lossy` makes of `units`: unpaired surrogates
/// become U+FFFD. A function of its argument alone.
pub uninterp spec fn spec_utf16_lossy(units: Seq<u16>) -> Seq<char>;

/// `std::str::from_utf8(bytes)`: `None` when the bytes are valid UTF-8,
/// otherwise the error's `valid_up_to` and whether its `error_len` is `None`.
/// `valid_up_to` is the longest valid prefix: the bytes before it are valid,
/// and no longer prefix is.
#[verifier::external_body]
pub(crate) fn utf8_check(bytes: &[u8]) -> (r: Option<(usize, bool)>)
    ensures
        r is None <==> valid_utf8(bytes@),
        r matches Some((k, cut)) ==> k as int == spec_utf8_valid_up_to(bytes@) && k <= bytes@.len() && valid_utf8(
            bytes@.take(k as int),
        ) && (forall|j: int| k < j <= bytes@.len() ==> !valid_utf8(#[trigger] bytes@.take(j)))
            && cut == spec_utf8_cut_short(bytes@),
{
    match std::str::from_utf8(bytes) {
        Ok(_) => None,
        Err(e) => Some((e.valid_up_to(), e.error_len().is_none())),
    }
}

/// `String::from_utf16_lossy(units)`. Units that are the UTF-16 encoding of
/// a text decode to exactly that text.
#[verifier::external_body]
fn utf16_lossy(units: &[u16]) -> (r: String)
    ensures
        r@ == spec_utf16_lossy(units@),
        forall|t: Seq<char>| #[trigger] utf16_units(t) == units@ ==> r@ == t,
{
    String::from_utf16_lossy(units)
}

/// Where the last complete UTF-8 sequence ends: the whole input when it is
/// valid or malformed, the start of the cut character when it ends midway.
pub open spec fn utf8_end(bytes: Seq<u8>) -> int {
    if valid_utf8(bytes) {
        bytes.len() as int
    } else if spec_utf8_cut_short(bytes) {
        spec_utf8_valid_up_to(bytes)
    } else {
        bytes.len() as int
    }
}

/// Latin-1: each byte is the character with that code point.
pub open spec fn latin1_chars(bytes: Seq<u8>) -> Seq<char> {
    Seq::new(bytes.len(), |i: int| bytes[i] as char)
}

/// The UTF-16 units of `bytes` taken two at a time, little-endian, a stray
/// last byte ignored.
pub open spec fn le_units(bytes: Seq<u8>) -> Seq<u16> {
    Seq::new(bytes.len() / 2, |i: int| (bytes[2 * i] + 256 * bytes[2 * i + 1]) as u16)
}

/// The UTF-16 units of `bytes` taken two at a time, big-endian, a stray last
/// byte ignored.
pub open spec fn be_units(bytes: Seq<u8>) -> Seq<u16> {
    Seq::new(bytes.len() / 2, |i: int| (256 * bytes[2 * i] + bytes[2 * i + 1]) as u16)
}

/// Whether a UTF-16 unit is a high (leading) surrogate.
pub open spec fn is_high_surrogate(u: u16) -> bool {
    0xD800 <= u <= 0xDBFF
}

/// The units with a trailing high surrogate dropped: a window cut inside a
/// surrogate pair ends with one, and the next window starts with its pair.
pub open spec fn whole_units(units: Seq<u16>) -> Seq<u16> {
    if units.len() > 0 && is_high_surrogate(units.last()) { units.drop_last() } else { units }
}

/// What UTF-8 bytes read as: their text when they are valid, otherwise what
/// `String::from_utf8_lossy` makes of them.
pub open spec fn utf8_text(bytes: Seq<u8>) -> Seq<char> {
    if valid_utf8(bytes) { decode_utf8(bytes) } else { spec_utf8_lossy(bytes) }
}

/// What UTF-16 units read as: the text they encode when there is one,
/// otherwise what `String::from_utf16_lossy` makes of them.
pub open spec fn utf16_text(units: Seq<u16>) -> Seq<char> {
    if exists|t: Seq<char>| #[trigger] utf16_units(t) == units {
        choose|t: Seq<char>| #[trigger] utf16_units(t) == units
    } else {
        spec_utf16_lossy(units)
    }
}

/// What `bytes` read as in `encoding`: a trailing partial character (UTF-8
/// sequence or UTF-16 surrogate pair) is dropped, and so is a stray last
/// UTF-16 byte.
pub open spec fn decoded(bytes: Seq<u8>, encoding: TextEncoding) -> Seq<char> {
    match encoding {
        TextEncoding::Utf8 | TextEncoding::Utf8Bom => utf8_text(bytes.take(utf8_end(bytes))),
        TextEncoding::Latin1 => latin1_chars(bytes),
        TextEncoding::Utf16Le => utf16_text(whole_units(le_units(bytes))),
        TextEncoding::Utf16Be => utf16_text(whole_units(be_units(bytes))),
    }
}

/// A whole-file buffer with the encoding's byte-order mark taken off its
/// head; a buffer shorter than the mark is left alone.
pub open spec fn without_bom(bytes: Seq<u8>, encoding: TextEncoding) -> Seq<u8> {
    if bytes.len() >= bom_len(encoding) { bytes.skip(bom_len(encoding)) } else { bytes }
}

/// The UTF-16 units of one character: itself below U+10000, a surrogate
/// pair above.
pub open spec fn char_units(c: char) -> Seq<u16> {
    let v = c as u32;
    if v < 0x10000 {
        seq![v as u16]
    } else {
        seq![(0xD800 + (v - 0x10000) / 0x400) as u16, (0xDC00 + (v - 0x10000) % 0x400) as u16]
    }
}

/// The UTF-16 units of a text.
pub open spec fn utf16_units(text: Seq<char>) -> Seq<u16>
    decreases text.len(),
{
    if text.len() == 0 { Seq::empty() } else { utf16_units(text.drop_last()) + char_units(text.last()) }
}

/// Units written as bytes, little-endian when `le`, else big-endian.
pub open spec fn unit_bytes(units: Seq<u16>, le: bool) -> Seq<u8>
    decreases units.len(),
{
    if units.len() == 0 {
        Seq::empty()
    } else {
        let u = units.last();
        let lo = (u % 256) as u8;
        let hi = (u / 256) as u8;
        unit_bytes(units.drop_last(), le) + if le { seq![lo, hi] } else { seq![hi, lo] }
    }
}

/// Whether Latin-1 can hold every character of `text`.
pub open spec fn latin1_holds(text: Seq<char>) -> bool {
    forall|i: int| 0 <= i < text.len() ==> (#[trigger] text[i] as u32) <= 0xFF
}

/// The bytes of `text` in `encoding`, BOM included where the encoding carries
/// one; `None` when the encoding cannot hold the text.
pub open spec fn encoded(text: Seq<char>, encoding: TextEncoding) -> Option<Seq<u8>> {
    match encoding {
        TextEncoding::Utf8 => Some(encode_utf8(text)),
        TextEncoding::Utf8Bom => Some(seq![0xEFu8, 0xBBu8, 0xBFu8] + encode_utf8(text)),
        TextEncoding::Latin1 => if latin1_holds(text) {
            Some(Seq::new(text.len(), |i: int| (text[i] as u32) as u8))
        } else {
            None
        },
        TextEncoding::Utf16Le => Some(seq![0xFFu8, 0xFEu8] + unit_bytes(utf16_units(text), true)),
        TextEncoding::Utf16Be => Some(seq![0xFEu8, 0xFFu8] + unit_bytes(utf16_units(text), false)),
    }
}

/// The length of the encoding's byte-order mark.
pub open spec fn bom_len(encoding: TextEncoding) -> int {
    match encoding {
        TextEncoding::Utf8Bom => 3,
        TextEncoding::Utf16Le | TextEncoding::Utf16Be => 2,
        _ => 0,
    }
}

/// Where the last complete UTF-8 sequence of `bytes` ends.
fn valid_utf8_end(bytes: &[u8]) -> (r: usize)
    ensures
        r as int == utf8_end(bytes@),
        r <= bytes@.len(),
{
    match utf8_check(bytes) {
        None => bytes.len(),
        Some((k, cut)) => if cut { k } else { bytes.len() },
    }
}

/// The UTF-16 units of `bytes`, two bytes each.
fn units_of(bytes: &[u8], le: bool) -> (r: Vec<u16>)
    ensures
        r@ == if le { le_units(bytes@) } else { be_units(bytes@) },
{
    let len = bytes.len();
    let n = len / 2;
    assert(2 * n <= bytes@.len());
    let mut out: Vec<u16> = Vec::new();
    let mut i: usize = 0;
    while i < n
        invariant
            len == bytes@.len(),
            n == bytes@.len() / 2,
            2 * n <= bytes@.len(),
            i <= n,
            out@.len() == i,
            forall|k: int| 0 <= k < i ==> #[trigger] out@[k] == if le {
                le_units(bytes@)[k]
            } else {
                be_units(bytes@)[k]
            },
        decreases n - i,
    {
        let a = bytes[2 * i] as u16;
        let b = bytes[2 * i + 1] as u16;
        let u: u16 = if le { a + 256 * b } else { 256 * a + b };
        out.push(u);
        i = i + 1;
    }
    proof {
        if le {
            assert(out@ =~= le_units(bytes@));
        } else {
            assert(out@ =~= be_units(bytes@));
        }
    }
    out
}

/// Decode `bytes` as `encoding`. `bytes` may be a window cut out of a larger
/// file, so a trailing partial character (a cut UTF-8 sequence, or a UTF-16
/// high surrogate whose pair lies past the window) is dropped rather than
/// rendered as a replacement glyph; a stray last UTF-16 byte is ignored.
pub fn decode(bytes: &[u8], encoding: TextEncoding) -> (r: String)
    ensures
        r@ == decoded(bytes@, encoding),
{
    match encoding {
        TextEncoding::Utf8 | TextEncoding::Utf8Bom => {
            let end = valid_utf8_end(bytes);
            let head = vstd::slice::slice_subrange(bytes, 0, end);
            assert(head@ =~= bytes@.take(end as int));
            utf8_lossy(head)
        },
        TextEncoding::Latin1 => {
            let mut cs: Vec<char> = Vec::new();
            let mut i: usize = 0;
            while i < bytes.len()
                invariant
                    i <= bytes@.len(),
                    cs@ == latin1_chars(bytes@).take(i as int),
                decreases bytes@.len() - i,
            {
                let c = bytes[i] as char;
                cs.push(c);
                assert(cs@ =~= latin1_chars(bytes@).take(i + 1));
                i = i + 1;
            }
            assert(latin1_chars(bytes@).take(i as int) =~= latin1_chars(bytes@));
            string_from_chars(&cs)
        },
        TextEncoding::Utf16Le => {
            let units = units_of(bytes, true);
            utf16_whole(&units)
        },
        TextEncoding::Utf16Be => {
            let units = units_of(bytes, false);
            utf16_whole(&units)
        },
    }
}

/// The text of `units` once a trailing high surrogate is dropped.
fn utf16_whole(units: &Vec<u16>) -> (r: String)
    ensures
        r@ == utf16_text(whole_units(units@)),
{
    let n = units.len();
    let whole = if n > 0 && 0xD800 <= units[n - 1] && units[n - 1] <= 0xDBFF {
        vstd::slice::slice_subrange(units.as_slice(), 0, n - 1)
    } else {
        units.as_slice()
    };
    assert(whole@ =~= whole_units(units@));
    let r = utf16_lossy(whole);
    proof {
        if exists|t: Seq<char>| #[trigger] utf16_units(t) == whole@ {
            let t = choose|t: Seq<char>| #[trigger] utf16_units(t) == whole@;
            assert(r@ == t);
        }
    }
    r
}

/// Append `bytes` to `out`.
fn extend_bytes(out: &mut Vec<u8>, bytes: &[u8])
    ensures
        final(out)@ == old(out)@ + bytes@,
{
    let mut i: usize = 0;
    let ghost start = out@;
    while i < bytes.len()
        invariant
            i <= bytes@.len(),
            out@ == start + bytes@.take(i as int),
        decreases bytes@.len() - i,
    {
        out.push(bytes[i]);
        assert(out@ =~= start + bytes@.take(i + 1));
        i = i + 1;
    }
    assert(bytes@.take(i as int) =~= bytes@);
}

/// The UTF-16 bytes of `text` after `bom`.
fn encode_utf16_bytes(text: &str, le: bool, bom: [u8; 2]) -> (r: Vec<u8>)
    ensures
        r@ == seq![bom[0], bom[1]] + unit_bytes(utf16_units(text@), le),
{
    let cs = chars_of(text);
    let mut out: Vec<u8> = Vec::new();
    out.push(bom[0]);
    out.push(bom[1]);
    let ghost head = seq![bom[0], bom[1]];
    let mut i: usize = 0;
    assert(cs@.take(0) =~= Seq::<char>::empty());
    assert(out@ =~= head + unit_bytes(utf16_units(cs@.take(0)), le));
    while i < cs.len()
        invariant
            i <= cs@.len(),
            cs@ == text@,
            head == seq![bom[0], bom[1]],
            out@ == head + unit_bytes(utf16_units(cs@.take(i as int)), le),
        decreases cs@.len() - i,
    {
        let c = cs[i];
        let v = c as u32;
        let ghost prefix = cs@.take(i as int);
        assert(cs@.take(i + 1).drop_last() =~= prefix);
        assert(cs@.take(i + 1).last() == c);
        let ghost before = utf16_units(prefix);
        if v < 0x10000 {
            let u = v as u16;
            let lo = (u % 256) as u8;
            let hi = (u / 256) as u8;
            if le {
                out.push(lo);
                out.push(hi);
            } else {
                out.push(hi);
                out.push(lo);
            }
            proof {
                let us = before.push(u);
                assert(utf16_units(cs@.take(i + 1)) =~= us);
                assert(us.drop_last() =~= before);
            }
            assert(out@ =~= head + unit_bytes(utf16_units(cs@.take(i + 1)), le));
        } else {
            let w = v - 0x10000;
            let u1 = (0xD800 + w / 0x400) as u16;
            let u2 = (0xDC00 + w % 0x400) as u16;
            let lo1 = (u1 % 256) as u8;
            let hi1 = (u1 / 256) as u8;
            let lo2 = (u2 % 256) as u8;
            let hi2 = (u2 / 256) as u8;
            if le {
                out.push(lo1);
                out.push(hi1);
                out.push(lo2);
                out.push(hi2);
            } else {
                out.push(hi1);
                out.push(lo1);
                out.push(hi2);
                out.push(lo2);
            }
            proof {
                let us = before + seq![u1, u2];
                assert(char_units(c) =~= seq![u1, u2]);
                assert(utf16_units(cs@.take(i + 1)) =~= us);
                assert(us.drop_last() =~= before.push(u1));
                assert(before.push(u1).drop_last() =~= before);
                assert(before.push(u1).last() == u1);
                assert(us.last() == u2);
                let b1 = if le { seq![(u1 % 256) as u8, (u1 / 256) as u8] } else { seq![(u1 / 256) as u8, (u1 % 256) as u8] };
                let b2 = if le { seq![(u2 % 256) as u8, (u2 / 256) as u8] } else { seq![(u2 / 256) as u8, (u2 % 256) as u8] };
                assert(unit_bytes(before.push(u1), le) == unit_bytes(before, le) + b1);
                assert(unit_bytes(us, le) == unit_bytes(before.push(u1), le) + b2);
            }
            assert(out@ =~= head + unit_bytes(utf16_units(cs@.take(i + 1)), le));
        }
        i = i + 1;
    }
    assert(cs@.take(i as int) =~= text@);
    out
}

/// Encode `text` as `encoding`, including the BOM where the encoding carries
/// one. `None` when the text holds characters the encoding cannot represent.
pub fn encode(text: &str, encoding: TextEncoding) -> (r: Option<Vec<u8>>)
    ensures
        match r {
            Some(v) => encoded(text@, encoding) == Some(v@),
            None => encoded(text@, encoding) is None,
        },
{
    match encoding {
        TextEncoding::Utf8 => {
            let mut out: Vec<u8> = Vec::new();
            extend_bytes(&mut out, text.as_bytes());
            assert(out@ =~= encode_utf8(text@));
            Some(out)
        },
        TextEncoding::Utf8Bom => {
            let mut out: Vec<u8> = Vec::new();
            out.push(0xEF);
            out.push(0xBB);
            out.push(0xBF);
            extend_bytes(&mut out, text.as_bytes());
            assert(out@ =~= seq![0xEFu8, 0xBBu8, 0xBFu8] + encode_utf8(text@));
            Some(out)
        },
        TextEncoding::Latin1 => {
            let cs = chars_of(text);
            let mut out: Vec<u8> = Vec::new();
            let mut i: usize = 0;
            while i < cs.len()
                invariant
                    encoding == TextEncoding::Latin1,
                    i <= cs@.len(),
                    cs@ == text@,
                    out@.len() == i,
                    forall|k: int| 0 <= k < i ==> (#[trigger] cs@[k] as u32) <= 0xFF && out@[k] == (cs@[k] as u32) as u8,
                decreases cs@.len() - i,
            {
                let v = cs[i] as u32;
                if v > 0xFF {
                    assert(!latin1_holds(text@)) by {
                        assert((text@[i as int] as u32) > 0xFF);
                    }
                    assert(encoding == TextEncoding::Latin1);
                    assert(encoded(text@, TextEncoding::Latin1) is None);
                    return None;
                }
                out.push(v as u8);
                i = i + 1;
            }
            assert(out@ =~= Seq::new(text@.len(), |k: int| (text@[k] as u32) as u8));
            Some(out)
        },
        TextEncoding::Utf16Le => Some(encode_utf16_bytes(text, true, [0xFF, 0xFE])),
        TextEncoding::Utf16Be => Some(encode_utf16_bytes(text, false, [0xFE, 0xFF])),
    }
}

/// Strip the encoding's byte-order mark from the head of a whole-file buffer
/// (a buffer shorter than the mark is left alone).
pub fn strip_bom(bytes: &[u8], encoding: TextEncoding) -> (r: &[u8])
    ensures
        r@ == without_bom(bytes@, encoding),
{
    let bom: usize = match encoding {
        TextEncoding::Utf8Bom => 3,
        TextEncoding::Utf16Le | TextEncoding::Utf16Be => 2,
        _ => 0,
    };
    if bytes.len() >= bom {
        let r = vstd::slice::slice_subrange(bytes, bom, bytes.len());
        assert(r@ =~= bytes@.skip(bom as int));
        r
    } else {
        bytes
    }
}

/// Bytes per character unit: 2 for UTF-16, 1 otherwise.
pub fn unit(encoding: TextEncoding) -> (r: u64)
    ensures
        r == if encoding == TextEncoding::Utf16Le || encoding == TextEncoding::Utf16Be { 2u64 } else { 1u64 },
{
    match encoding {
        TextEncoding::Utf16Le | TextEncoding::Utf16Be => 2,
        _ => 1,
    }
}

// ---------------------------------------------------------------------------
// Laws
// ---------------------------------------------------------------------------

/// Text saved as UTF-8, with or without a BOM, reads back unchanged once the
/// BOM is stripped.
pub proof fn lemma_utf8_round_trip(text: Seq<char>, encoding: TextEncoding)
    requires
        encoding == TextEncoding::Utf8 || encoding == TextEncoding::Utf8Bom,
    ensures
        encoded(text, encoding) is Some,
        ({
            let bytes = encoded(text, encoding).unwrap();
            let body = if bytes.len() >= bom_len(encoding) { bytes.skip(bom_len(encoding)) } else { bytes };
            valid_utf8(body) && utf8_end(body) == body.len() && decode_utf8(body) == text
        }),
{
    encode_utf8_valid_utf8(text);
    encode_utf8_decode_utf8(text);
    let bytes = encoded(text, encoding).unwrap();
    if encoding == TextEncoding::Utf8Bom {
        assert(bytes.skip(3) =~= encode_utf8(text));
    } else {
        assert(bytes.skip(0) =~= encode_utf8(text));
    }
}

/// Latin-1 round trip: text Latin-1 can hold decodes back from its bytes.
pub proof fn lemma_latin1_round_trip(text: Seq<char>)
    requires
        latin1_holds(text),
    ensures
        encoded(text, TextEncoding::Latin1) is Some,
        latin1_chars(encoded(text, TextEncoding::Latin1).unwrap()) == text,
{
    let bytes = encoded(text, TextEncoding::Latin1).unwrap();
    assert forall|i: int| 0 <= i < text.len() implies #[trigger] latin1_chars(bytes)[i] == text[i] by {
        assert((text[i] as u32) <= 0xFF);
        vstd::utf8::char_u32_cast(text[i], text[i] as u32);
    }
    assert(latin1_chars(bytes) =~= text);
}

/// The character a surrogate pair stands for.
spec fn pair_char(high: u16, low: u16) -> char {
    ((0x10000 + (high - 0xD800) * 0x400 + (low - 0xDC00)) as u32) as char
}

/// Reads UTF-16 units back from the end, one character at a time; the left
/// inverse of [`utf16_units`] that shows it never maps two texts to the same
/// units.
spec fn units_text(units: Seq<u16>) -> Seq<char>
    decreases units.len(),
{
    if units.len() == 0 {
        Seq::empty()
    } else if units.len() >= 2 && 0xDC00 <= units.last() <= 0xDFFF {
        units_text(units.take(units.len() - 2)).push(pair_char(units[units.len() - 2], units.last()))
    } else {
        units_text(units.drop_last()).push((units.last() as u32) as char)
    }
}

proof fn lemma_units_text(text: Seq<char>)
    ensures
        units_text(utf16_units(text)) == text,
    decreases text.len(),
{
    if text.len() > 0 {
        let c = text.last();
        let v = c as u32;
        let prev = utf16_units(text.drop_last());
        let us = utf16_units(text);
        lemma_units_text(text.drop_last());
        vstd::utf8::char_u32_cast(c, v);
        assert(v <= 0xD7FF || 0xE000 <= v <= 0x10FFFF);
        if v < 0x10000 {
            assert(us == prev + seq![v as u16]);
            assert(us.drop_last() =~= prev);
            assert(us.last() == v as u16);
            assert((us.last() as u32) == v);
        } else {
            let w = v - 0x10000;
            let u1 = (0xD800 + w / 0x400) as u16;
            let u2 = (0xDC00 + w % 0x400) as u16;
            assert(char_units(c) == seq![u1, u2]);
            assert(us == prev + seq![u1, u2]);
            assert(us.take(us.len() - 2) =~= prev);
            assert(us[us.len() - 2] == u1);
            assert(us.last() == u2);
            assert(w == 0x400 * (w / 0x400) + w % 0x400);
            assert(((0x10000 + (u1 - 0xD800) * 0x400 + (u2 - 0xDC00)) as u32) == v);
        }
        assert(text.drop_last().push(c) =~= text);
    }
}

/// Two texts with the same UTF-16 units are the same text.
proof fn lemma_utf16_units_injective(a: Seq<char>, b: Seq<char>)
    requires
        utf16_units(a) == utf16_units(b),
    ensures
        a == b,
{
    lemma_units_text(a);
    lemma_units_text(b);
}

/// The units of a text never end in a high surrogate.
proof fn lemma_units_end_whole(text: Seq<char>)
    ensures
        whole_units(utf16_units(text)) == utf16_units(text),
{
    if text.len() > 0 {
        let c = text.last();
        let v = c as u32;
        let us = utf16_units(text);
        vstd::utf8::char_u32_cast(c, v);
        assert(v <= 0xD7FF || 0xE000 <= v <= 0x10FFFF);
        if v < 0x10000 {
            assert(us.last() == v as u16);
        } else {
            let w = v - 0x10000;
            assert(us.last() == (0xDC00 + w % 0x400) as u16);
        }
    }
}

/// Units written as bytes lie two bytes apiece, low byte first when `le`.
proof fn lemma_unit_bytes(units: Seq<u16>, le: bool)
    ensures
        unit_bytes(units, le).len() == 2 * units.len(),
        forall|i: int|
            0 <= i < units.len() ==> {
                let u = #[trigger] units[i];
                let lo = (u % 256) as u8;
                let hi = (u / 256) as u8;
                &&& unit_bytes(units, le)[2 * i] == if le { lo } else { hi }
                &&& unit_bytes(units, le)[2 * i + 1] == if le { hi } else { lo }
            },
    decreases units.len(),
{
    if units.len() > 0 {
        let prev = units.drop_last();
        lemma_unit_bytes(prev, le);
        let u = units.last();
        let lo = (u % 256) as u8;
        let hi = (u / 256) as u8;
        let tail = if le { seq![lo, hi] } else { seq![hi, lo] };
        assert(unit_bytes(units, le) == unit_bytes(prev, le) + tail);
        assert forall|i: int| 0 <= i < units.len() implies {
            let u = #[trigger] units[i];
            let lo = (u % 256) as u8;
            let hi = (u / 256) as u8;
            &&& unit_bytes(units, le)[2 * i] == if le { lo } else { hi }
            &&& unit_bytes(units, le)[2 * i + 1] == if le { hi } else { lo }
        } by {
            if i < units.len() - 1 {
                assert(units[i] == prev[i]);
            }
        }
    }
}

/// Reading back the bytes units were written as gives the units.
proof fn lemma_units_read_back(units: Seq<u16>)
    ensures
        le_units(unit_bytes(units, true)) == units,
        be_units(unit_bytes(units, false)) == units,
{
    lemma_unit_bytes(units, true);
    lemma_unit_bytes(units, false);
    let l = unit_bytes(units, true);
    let b = unit_bytes(units, false);
    assert forall|i: int| 0 <= i < units.len() implies #[trigger] le_units(l)[i] == units[i] && be_units(b)[i] == units[i] by {
        let u = units[i];
        assert(u == (u % 256) + 256 * (u / 256));
        assert(l[2 * i] == (u % 256) as u8 && l[2 * i + 1] == (u / 256) as u8);
        assert(b[2 * i] == (u / 256) as u8 && b[2 * i + 1] == (u % 256) as u8);
    }
    assert(le_units(l) =~= units);
    assert(be_units(b) =~= units);
}

/// Round trip: text saved in any encoding that can hold it reads back
/// unchanged once the byte-order mark is stripped.
pub proof fn lemma_round_trip(text: Seq<char>, encoding: TextEncoding)
    requires
        encoding == TextEncoding::Latin1 ==> latin1_holds(text),
    ensures
        encoded(text, encoding) is Some,
        decoded(without_bom(encoded(text, encoding).unwrap(), encoding), encoding) == text,
{
    let bytes = encoded(text, encoding).unwrap();
    let body = without_bom(bytes, encoding);
    match encoding {
        TextEncoding::Utf8 | TextEncoding::Utf8Bom => {
            lemma_utf8_round_trip(text, encoding);
            assert(body.take(body.len() as int) =~= body);
        },
        TextEncoding::Latin1 => {
            lemma_latin1_round_trip(text);
            assert(body =~= bytes);
        },
        TextEncoding::Utf16Le | TextEncoding::Utf16Be => {
            let us = utf16_units(text);
            let le = encoding == TextEncoding::Utf16Le;
            assert(body =~= unit_bytes(us, le));
            lemma_units_read_back(us);
            lemma_units_end_whole(text);
            assert(utf16_units(text) == us);
            let t = choose|t: Seq<char>| #[trigger] utf16_units(t) == us;
            lemma_utf16_units_injective(t, text);
        },
    }
}

} // verus!
