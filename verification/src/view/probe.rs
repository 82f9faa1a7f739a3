//! File-type sniffing for the embedded viewer and editor.
//!
//! Only the head of a file is read; this module decides from it whether the
//! file is text (with an encoding and a line-ending style), binary, or an
//! image. The order of the tests is the conventional one: a byte-order mark
//! first, then image magic numbers, then "a NUL byte means binary", then UTF-8
//! validity, and finally a printable-ratio test that catches legacy
//! single-byte text.
use vstd::prelude::*;
use vstd::utf8::valid_utf8;
use crate::paths::{path_extension, std_path_extension};
use crate::text::{lowercase, spec_lowercase, str_eq};
use crate::types::{Eol, FileProbe, MediaKind, TextEncoding};
use crate::view::codec::{spec_utf8_cut_short, spec_utf8_valid_up_to, utf8_check};

verus! {

/// How much of a file's head to sniff.
pub const SAMPLE: usize = 8192;

/// The encoding named by a byte-order mark at the start of `s`.
pub open spec fn bom_of(s: Seq<u8>) -> Option<TextEncoding> {
    if s.len() >= 3 && s[0] == 0xEF && s[1] == 0xBB && s[2] == 0xBF {
        Some(TextEncoding::Utf8Bom)
    } else if s.len() >= 2 && s[0] == 0xFF && s[1] == 0xFE {
        Some(TextEncoding::Utf16Le)
    } else if s.len() >= 2 && s[0] == 0xFE && s[1] == 0xFF {
        Some(TextEncoding::Utf16Be)
    } else {
        None
    }
}

/// Whether `s` starts with `p`.
pub open spec fn has_prefix(s: Seq<u8>, p: Seq<u8>) -> bool {
    p.len() <= s.len() && s.take(p.len() as int) == p
}

/// Whether `s` starts with the magic number of a PNG, JPEG, GIF, BMP, WebP or
/// TIFF image.
pub open spec fn image_magic(s: Seq<u8>) -> bool {
    ||| has_prefix(s, seq![0x89u8, 0x50u8, 0x4Eu8, 0x47u8, 0x0Du8, 0x0Au8, 0x1Au8, 0x0Au8])
    ||| has_prefix(s, seq![0xFFu8, 0xD8u8, 0xFFu8])
    ||| has_prefix(s, seq![0x47u8, 0x49u8, 0x46u8, 0x38u8, 0x37u8, 0x61u8])
    ||| has_prefix(s, seq![0x47u8, 0x49u8, 0x46u8, 0x38u8, 0x39u8, 0x61u8])
    ||| has_prefix(s, seq![0x42u8, 0x4Du8])
    ||| (has_prefix(s, seq![0x52u8, 0x49u8, 0x46u8, 0x46u8]) && s.len() >= 12 && s.subrange(8, 12) == seq![
        0x57u8,
        0x45u8,
        0x42u8,
        0x50u8,
    ])
    ||| has_prefix(s, seq![0x49u8, 0x49u8, 0x2Au8, 0x00u8])
    ||| has_prefix(s, seq![0x4Du8, 0x4Du8, 0x00u8, 0x2Au8])
}

/// Whether the extension names an image format whose container is not
/// sniffed (HEIC, TIFF, ICO) or SVG, which is text shown as a picture.
pub open spec fn image_ext(ext: Option<Seq<char>>) -> bool {
    match ext {
        Some(e) => e == "heic"@ || e == "heif"@ || e == "ico"@ || e == "svg"@ || e == "avif"@ || e == "tif"@
            || e == "tiff"@,
        None => false,
    }
}

/// Whether `s` is valid UTF-8 but for a multi-byte sequence cut off by the
/// end of the sample.
pub open spec fn utf8_but_cut(s: Seq<u8>) -> bool {
    valid_utf8(s) || (spec_utf8_cut_short(s) && spec_utf8_valid_up_to(s) + 4 > s.len())
}

/// Printable for the ratio test: graphic characters, common whitespace, and
/// the high range where accented Latin-1 letters live.
pub open spec fn printable(b: u8) -> bool {
    b == 0x09 || b == 0x0A || b == 0x0D || (0x20 <= b && b <= 0x7E) || b >= 0xA0
}

/// How many bytes of `s` are printable.
pub open spec fn printable_count(s: Seq<u8>) -> int
    decreases s.len(),
{
    if s.len() == 0 { 0 } else { printable_count(s.drop_last()) + if printable(s.last()) { 1int } else { 0int } }
}

/// Whether at least 95% of `s` is printable.
pub open spec fn mostly_printable(s: Seq<u8>) -> bool {
    printable_count(s) * 20 >= s.len() * 19
}

/// What the head sample says a file is, and its encoding.
pub open spec fn detected(s: Seq<u8>, ext: Option<Seq<char>>) -> (MediaKind, TextEncoding) {
    if bom_of(s) is Some {
        (MediaKind::Text, bom_of(s).unwrap())
    } else if image_magic(s) || image_ext(ext) {
        (MediaKind::Image, TextEncoding::Utf8)
    } else if s.len() == 0 {
        (MediaKind::Text, TextEncoding::Utf8)
    } else if s.contains(0u8) {
        (MediaKind::Binary, TextEncoding::Utf8)
    } else if utf8_but_cut(s) {
        (MediaKind::Text, TextEncoding::Utf8)
    } else if mostly_printable(s) {
        (MediaKind::Text, TextEncoding::Latin1)
    } else {
        (MediaKind::Binary, TextEncoding::Utf8)
    }
}

/// The line-ending style from the first break at or after `i`, looking at
/// every `step`-th byte.
pub open spec fn eol_from(s: Seq<u8>, i: int, step: int) -> Eol
    decreases (if s.len() > i { s.len() - i } else { 0 }),
{
    if i >= s.len() || step <= 0 {
        Eol::Lf
    } else if s[i] == 0x0A {
        Eol::Lf
    } else if s[i] == 0x0D {
        if i + step < s.len() && s[i + step] == 0x0A { Eol::Crlf } else { Eol::Cr }
    } else {
        eol_from(s, i + step, step)
    }
}

/// The file's line-ending style, from the first break in the sample. UTF-16
/// is read on every other byte (the low byte of each unit), so an ASCII `\n`
/// is still found; no break at all means LF.
pub open spec fn eol_of(s: Seq<u8>, encoding: TextEncoding) -> Eol {
    let step = if encoding == TextEncoding::Utf16Le || encoding == TextEncoding::Utf16Be { 2int } else { 1int };
    let start = if encoding == TextEncoding::Utf16Be { 1int } else { 0int };
    eol_from(s, start, step)
}

fn has_prefix_exec(s: &[u8], p: &[u8]) -> (r: bool)
    ensures
        r == has_prefix(s@, p@),
{
    if p.len() > s.len() {
        return false;
    }
    let mut i: usize = 0;
    while i < p.len()
        invariant
            p@.len() <= s@.len(),
            i <= p@.len(),
            forall|k: int| 0 <= k < i ==> s@[k] == p@[k],
        decreases p@.len() - i,
    {
        if s[i] != p[i] {
            assert(s@.take(p@.len() as int)[i as int] != p@[i as int]);
            return false;
        }
        i = i + 1;
    }
    assert(s@.take(p@.len() as int) =~= p@);
    true
}

/// The encoding named by a byte-order mark, if the sample starts with one.
fn bom_encoding(sample: &[u8]) -> (r: Option<TextEncoding>)
    ensures
        r == bom_of(sample@),
{
    let n = sample.len();
    if n >= 3 && sample[0] == 0xEF && sample[1] == 0xBB && sample[2] == 0xBF {
        Some(TextEncoding::Utf8Bom)
    } else if n >= 2 && sample[0] == 0xFF && sample[1] == 0xFE {
        Some(TextEncoding::Utf16Le)
    } else if n >= 2 && sample[0] == 0xFE && sample[1] == 0xFF {
        Some(TextEncoding::Utf16Be)
    } else {
        None
    }
}

fn is_image_magic(sample: &[u8]) -> (r: bool)
    ensures
        r == image_magic(sample@),
{
    let png: [u8; 8] = [0x89, 0x50, 0x4E, 0x47, 0x0D, 0x0A, 0x1A, 0x0A];
    let jpeg: [u8; 3] = [0xFF, 0xD8, 0xFF];
    let gif7: [u8; 6] = [0x47, 0x49, 0x46, 0x38, 0x37, 0x61];
    let gif9: [u8; 6] = [0x47, 0x49, 0x46, 0x38, 0x39, 0x61];
    let bmp: [u8; 2] = [0x42, 0x4D];
    let riff: [u8; 4] = [0x52, 0x49, 0x46, 0x46];
    let tiff_le: [u8; 4] = [0x49, 0x49, 0x2A, 0x00];
    let tiff_be: [u8; 4] = [0x4D, 0x4D, 0x00, 0x2A];
    let webp = has_prefix_exec(sample, &riff) && sample.len() >= 12 && sample[8] == 0x57 && sample[9] == 0x45
        && sample[10] == 0x42 && sample[11] == 0x50;
    proof {
        if has_prefix(sample@, riff@) && sample@.len() >= 12 {
            assert(webp == (sample@.subrange(8, 12) == seq![0x57u8, 0x45u8, 0x42u8, 0x50u8])) by {
                if sample@.subrange(8, 12) == seq![0x57u8, 0x45u8, 0x42u8, 0x50u8] {
                    assert(sample@.subrange(8, 12)[0] == sample@[8]);
                    assert(sample@.subrange(8, 12)[1] == sample@[9]);
                    assert(sample@.subrange(8, 12)[2] == sample@[10]);
                    assert(sample@.subrange(8, 12)[3] == sample@[11]);
                }
                if webp {
                    assert(sample@.subrange(8, 12) =~= seq![0x57u8, 0x45u8, 0x42u8, 0x50u8]);
                }
            }
        }
    }
    assert(png@ =~= seq![0x89u8, 0x50u8, 0x4Eu8, 0x47u8, 0x0Du8, 0x0Au8, 0x1Au8, 0x0Au8]);
    assert(jpeg@ =~= seq![0xFFu8, 0xD8u8, 0xFFu8]);
    assert(gif7@ =~= seq![0x47u8, 0x49u8, 0x46u8, 0x38u8, 0x37u8, 0x61u8]);
    assert(gif9@ =~= seq![0x47u8, 0x49u8, 0x46u8, 0x38u8, 0x39u8, 0x61u8]);
    assert(bmp@ =~= seq![0x42u8, 0x4Du8]);
    assert(riff@ =~= seq![0x52u8, 0x49u8, 0x46u8, 0x46u8]);
    assert(tiff_le@ =~= seq![0x49u8, 0x49u8, 0x2Au8, 0x00u8]);
    assert(tiff_be@ =~= seq![0x4Du8, 0x4Du8, 0x00u8, 0x2Au8]);
    has_prefix_exec(sample, &png) || has_prefix_exec(sample, &jpeg) || has_prefix_exec(sample, &gif7)
        || has_prefix_exec(sample, &gif9) || has_prefix_exec(sample, &bmp) || webp || has_prefix_exec(
        sample,
        &tiff_le,
    ) || has_prefix_exec(sample, &tiff_be)
}

fn image_extension(ext: Option<&str>) -> (r: bool)
    ensures
        r == image_ext(
            match ext {
                Some(e) => Some(e@),
                None => None,
            },
        ),
{
    match ext {
        Some(e) => str_eq(e, "heic") || str_eq(e, "heif") || str_eq(e, "ico") || str_eq(e, "svg") || str_eq(
            e,
            "avif",
        ) || str_eq(e, "tif") || str_eq(e, "tiff"),
        None => false,
    }
}

/// Whether `sample` is valid UTF-8, tolerating a trailing multi-byte
/// sequence that the end of the sample ran through.
fn is_utf8_ignoring_truncation(sample: &[u8]) -> (r: bool)
    ensures
        r == utf8_but_cut(sample@),
{
    match utf8_check(sample) {
        None => true,
        Some((k, cut)) => cut && sample.len() - k < 4,
    }
}

fn is_printable(b: u8) -> (r: bool)
    ensures
        r == printable(b),
{
    b == 0x09 || b == 0x0A || b == 0x0D || (0x20 <= b && b <= 0x7E) || b >= 0xA0
}

fn has_nul(sample: &[u8]) -> (r: bool)
    ensures
        r == sample@.contains(0u8),
{
    let mut i: usize = 0;
    while i < sample.len()
        invariant
            i <= sample@.len(),
            forall|k: int| 0 <= k < i ==> sample@[k] != 0u8,
        decreases sample@.len() - i,
    {
        if sample[i] == 0 {
            assert(sample@[i as int] == 0u8);
            return true;
        }
        i = i + 1;
    }
    false
}

fn count_printable(sample: &[u8]) -> (r: usize)
    ensures
        r as int == printable_count(sample@),
{
    let mut n: usize = 0;
    let mut i: usize = 0;
    while i < sample.len()
        invariant
            i <= sample@.len(),
            n <= i,
            n as int == printable_count(sample@.take(i as int)),
        decreases sample@.len() - i,
    {
        assert(sample@.take(i + 1).drop_last() =~= sample@.take(i as int));
        if is_printable(sample[i]) {
            n = n + 1;
        }
        i = i + 1;
    }
    assert(sample@.take(i as int) =~= sample@);
    n
}

/// What the sample says the file is.
fn detect(sample: &[u8], ext: Option<&str>) -> (r: (MediaKind, TextEncoding))
    ensures
        r == detected(
            sample@,
            match ext {
                Some(e) => Some(e@),
                None => None,
            },
        ),
{
    match bom_encoding(sample) {
        Some(enc) => {
            return (MediaKind::Text, enc);
        },
        None => {},
    }
    if is_image_magic(sample) || image_extension(ext) {
        return (MediaKind::Image, TextEncoding::Utf8);
    }
    if sample.len() == 0 {
        return (MediaKind::Text, TextEncoding::Utf8);
    }
    if has_nul(sample) {
        return (MediaKind::Binary, TextEncoding::Utf8);
    }
    if is_utf8_ignoring_truncation(sample) {
        return (MediaKind::Text, TextEncoding::Utf8);
    }
    let printable = count_printable(sample) as u128;
    let len = sample.len() as u128;
    if printable * 20 >= len * 19 {
        (MediaKind::Text, TextEncoding::Latin1)
    } else {
        (MediaKind::Binary, TextEncoding::Utf8)
    }
}

/// The file's line-ending style, from the first break in the sample.
fn detect_eol(sample: &[u8], encoding: TextEncoding) -> (r: Eol)
    ensures
        r == eol_of(sample@, encoding),
{
    let step: usize = match encoding {
        TextEncoding::Utf16Le => 2,
        TextEncoding::Utf16Be => 2,
        _ => 1,
    };
    let start: usize = match encoding {
        TextEncoding::Utf16Be => 1,
        _ => 0,
    };
    let n = sample.len();
    let mut i: usize = start;
    while i < n
        invariant
            n == sample@.len(),
            1 <= step <= 2,
            eol_from(sample@, i as int, step as int) == eol_of(sample@, encoding),
        decreases n - i,
    {
        if sample[i] == 0x0A {
            return Eol::Lf;
        }
        if sample[i] == 0x0D {
            if n - i > step && sample[i + step] == 0x0A {
                return Eol::Crlf;
            }
            return Eol::Cr;
        }
        assert(eol_from(sample@, i as int, step as int) == eol_from(sample@, i + step, step as int));
        if n - i <= step {
            assert(eol_from(sample@, i + step, step as int) == Eol::Lf);
            i = n;
        } else {
            i = i + step;
        }
    }
    Eol::Lf
}

/// The pure half of sniffing a file: classify its head sample, given its
/// size and extension.
pub fn classify(sample: &[u8], size: u64, ext: Option<&str>) -> (r: FileProbe)
    ensures
        r.size == size,
        (r.media, r.encoding) == detected(
            sample@,
            match ext {
                Some(e) => Some(e@),
                None => None,
            },
        ),
        r.eol == eol_of(sample@, r.encoding),
{
    let (media, encoding) = detect(sample, ext);
    FileProbe { size, media, encoding, eol: detect_eol(sample, encoding) }
}

/// Lower-cased extension of `path` (no dot), or `None`.
pub fn extension(path: &str) -> (r: Option<String>)
    ensures
        match r {
            Some(e) => path_extension(path@) matches Some(x) && e@ == spec_lowercase(x),
            None => path_extension(path@) is None,
        },
{
    match std_path_extension(path) {
        Some(e) => Some(lowercase(e.as_str())),
        None => None,
    }
}

} // verus!
