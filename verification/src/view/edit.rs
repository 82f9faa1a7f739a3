//! The embedded editor's documents: what a save writes, and how line endings
//! and encodings survive a round trip through the editor.
//!
//! The editor edits text with `\n` line endings; the file's own style is
//! remembered and put back on save, so opening a CRLF file and changing one
//! word does not rewrite every line. Saving preserves the file's encoding, and
//! refuses text the encoding cannot hold rather than mangling it. Reading and
//! writing the file (atomically, with its permission bits) is the caller's
//! business.
use vstd::prelude::*;
use crate::text::{chars_of, decimal_nat, decimal_u64, owned, push_str, string_from_chars};
use crate::types::{Eol, SaveOutcome, TextEncoding};
use crate::view::codec::{encode, encoded};

verus! {

/// `text` with every line ending (`\r\n`, or a lone `\r`) made `\n`.
pub open spec fn normalized(text: Seq<char>) -> Seq<char>
    decreases text.len(),
{
    if text.len() == 0 {
        Seq::empty()
    } else if text[0] == '\r' {
        if text.len() > 1 && text[1] == '\n' {
            seq!['\n'] + normalized(text.skip(2))
        } else {
            seq!['\n'] + normalized(text.drop_first())
        }
    } else {
        seq![text[0]] + normalized(text.drop_first())
    }
}

/// The line break `eol` writes.
pub open spec fn eol_text(eol: Eol) -> Seq<char> {
    match eol {
        Eol::Lf => seq!['\n'],
        Eol::Crlf => seq!['\r', '\n'],
        Eol::Cr => seq!['\r'],
    }
}

/// `text` with each `\n` written as `eol`.
pub open spec fn restored(text: Seq<char>, eol: Eol) -> Seq<char>
    decreases text.len(),
{
    if text.len() == 0 {
        Seq::empty()
    } else {
        (if text[0] == '\n' { eol_text(eol) } else { seq![text[0]] }) + restored(text.drop_first(), eol)
    }
}

/// Make every line ending `\n`, for editing.
pub fn normalize_eol(text: &str) -> (r: String)
    ensures
        r@ == normalized(text@),
{
    let cs = chars_of(text);
    let n = cs.len();
    let ghost t = cs@;
    let mut out: Vec<char> = Vec::new();
    let mut i: usize = 0;
    assert(t.skip(0) =~= t);
    while i < n
        invariant
            i <= n,
            n == t.len(),
            t == text@,
            t == cs@,
            out@ + normalized(t.skip(i as int)) == normalized(t),
        decreases n - i,
    {
        let ghost rest = t.skip(i as int);
        assert(rest[0] == t[i as int]);
        assert(rest.drop_first() =~= t.skip(i + 1));
        let c = cs[i];
        if c == '\r' {
            if i + 1 < n && cs[i + 1] == '\n' {
                assert(rest[1] == t[i + 1]);
                assert(rest.skip(2) =~= t.skip(i + 2));
                out.push('\n');
                assert(out@ + normalized(t.skip(i + 2)) =~= normalized(t));
                i = i + 2;
            } else {
                proof {
                    if rest.len() > 1 {
                        assert(rest[1] == t[i + 1]);
                    }
                }
                out.push('\n');
                assert(out@ + normalized(t.skip(i + 1)) =~= normalized(t));
                i = i + 1;
            }
        } else {
            out.push(c);
            assert(out@ + normalized(t.skip(i + 1)) =~= normalized(t));
            i = i + 1;
        }
    }
    assert(t.skip(i as int) =~= Seq::<char>::empty());
    assert(out@ =~= normalized(t));
    string_from_chars(&out)
}

/// Write each `\n` of `text` as `eol`, for saving.
pub fn restore_eol(text: &str, eol: Eol) -> (r: String)
    ensures
        r@ == restored(text@, eol),
{
    let cs = chars_of(text);
    let n = cs.len();
    let ghost t = cs@;
    let mut out: Vec<char> = Vec::new();
    let mut i: usize = 0;
    assert(t.skip(0) =~= t);
    while i < n
        invariant
            i <= n,
            n == t.len(),
            t == text@,
            t == cs@,
            out@ + restored(t.skip(i as int), eol) == restored(t, eol),
        decreases n - i,
    {
        let ghost rest = t.skip(i as int);
        assert(rest[0] == t[i as int]);
        assert(rest.drop_first() =~= t.skip(i + 1));
        let c = cs[i];
        if c == '\n' {
            match eol {
                Eol::Lf => out.push('\n'),
                Eol::Crlf => {
                    out.push('\r');
                    out.push('\n');
                },
                Eol::Cr => out.push('\r'),
            }
        } else {
            out.push(c);
        }
        assert(out@ + restored(t.skip(i + 1), eol) =~= restored(t, eol));
        i = i + 1;
    }
    assert(t.skip(i as int) =~= Seq::<char>::empty());
    assert(out@ =~= restored(t, eol));
    string_from_chars(&out)
}

/// How an encoding is named to the user.
pub open spec fn encoding_name(encoding: TextEncoding) -> Seq<char> {
    match encoding {
        TextEncoding::Utf8 | TextEncoding::Utf8Bom => "UTF-8"@,
        TextEncoding::Utf16Le => "UTF-16LE"@,
        TextEncoding::Utf16Be => "UTF-16BE"@,
        TextEncoding::Latin1 => "Latin-1"@,
    }
}

/// How an encoding is named to the user.
pub fn encoding_label(encoding: TextEncoding) -> (r: &'static str)
    ensures
        r@ == encoding_name(encoding),
{
    match encoding {
        TextEncoding::Utf8 | TextEncoding::Utf8Bom => "UTF-8",
        TextEncoding::Utf16Le => "UTF-16LE",
        TextEncoding::Utf16Be => "UTF-16BE",
        TextEncoding::Latin1 => "Latin-1",
    }
}

/// What a save comes to before anything is written.
#[derive(Debug)]
pub enum SaveStep {
    /// Write these bytes over the file.
    Write(Vec<u8>),
    /// Nothing to write; report this.
    Report(SaveOutcome),
}

/// The refusal when the text holds characters the encoding cannot hold.
pub open spec fn unencodable(encoding: TextEncoding) -> Seq<char> {
    "the text contains characters that "@ + encoding_name(encoding) + " cannot represent"@
}

/// Decide a save of `text` to a document opened read-only or not, in
/// `encoding` with line endings `eol`: a read-only document refuses; unless
/// `force`d, a change on disk since opening (`changed`, its reason) is a
/// conflict; text the encoding cannot hold is refused; otherwise the bytes to
/// write are the text with its line endings restored, encoded.
pub fn save_step(read_only: bool, force: bool, changed: Option<String>, text: &str, eol: Eol, encoding: TextEncoding) -> (r: SaveStep)
    ensures
        read_only ==> (r matches SaveStep::Report(SaveOutcome::ReadOnly)),
        !read_only && !force && changed is Some ==> (r matches SaveStep::Report(SaveOutcome::Conflict(m)) && m
            == changed.unwrap()),
        !read_only && (force || changed is None) ==> match encoded(restored(text@, eol), encoding) {
            Some(bytes) => (r matches SaveStep::Write(b) && b@ == bytes),
            None => (r matches SaveStep::Report(SaveOutcome::Failed(m)) && m@ == unencodable(encoding)),
        },
{
    if read_only {
        return SaveStep::Report(SaveOutcome::ReadOnly);
    }
    if !force {
        match changed {
            Some(reason) => {
                return SaveStep::Report(SaveOutcome::Conflict(reason));
            },
            None => {},
        }
    }
    let back = restore_eol(text, eol);
    match encode(back.as_str(), encoding) {
        Some(bytes) => SaveStep::Write(bytes),
        None => {
            let mut m = owned("the text contains characters that ");
            push_str(&mut m, encoding_label(encoding));
            push_str(&mut m, " cannot represent");
            SaveStep::Report(SaveOutcome::Failed(m))
        },
    }
}

/// The id of the `n`-th document opened: `e` and the number.
pub fn doc_id(n: u64) -> (r: String)
    ensures
        r@ == seq!['e'] + decimal_nat(n as nat),
{
    let mut s = owned("e");
    push_str(&mut s, decimal_u64(n).as_str());
    proof {
        reveal_strlit("e");
    }
    assert(s@ =~= seq!['e'] + decimal_nat(n as nat));
    s
}

// ---------------------------------------------------------------------------
// Laws
// ---------------------------------------------------------------------------

/// Normalizing leaves text without carriage returns alone.
pub proof fn lemma_normalized_plain(text: Seq<char>)
    requires
        !text.contains('\r'),
    ensures
        normalized(text) == text,
    decreases text.len(),
{
    if text.len() > 0 {
        assert(text[0] != '\r');
        assert(!text.drop_first().contains('\r')) by {
            if text.drop_first().contains('\r') {
                let k = choose|k: int| 0 <= k < text.drop_first().len() && text.drop_first()[k] == '\r';
                assert(text[k + 1] == '\r');
            }
        }
        lemma_normalized_plain(text.drop_first());
        assert(seq![text[0]] + text.drop_first() =~= text);
    }
}

/// What the editor saves, it reads back: text edited with `\n` line endings
/// (and no stray carriage returns), written with any line-ending style and
/// normalized again on opening, is the text that was saved.
pub proof fn lemma_eol_round_trip(text: Seq<char>, eol: Eol)
    requires
        !text.contains('\r'),
    ensures
        normalized(restored(text, eol)) == text,
    decreases text.len(),
{
    if text.len() > 0 {
        let rest = text.drop_first();
        assert(!rest.contains('\r')) by {
            if rest.contains('\r') {
                let k = choose|k: int| 0 <= k < rest.len() && rest[k] == '\r';
                assert(text[k + 1] == '\r');
            }
        }
        lemma_eol_round_trip(rest, eol);
        let tail = restored(rest, eol);
        let r = restored(text, eol);
        if text[0] == '\n' {
            match eol {
                Eol::Lf => {
                    assert(r =~= seq!['\n'] + tail);
                    assert(r.drop_first() =~= tail);
                },
                Eol::Crlf => {
                    assert(r =~= seq!['\r', '\n'] + tail);
                    assert(r.skip(2) =~= tail);
                },
                Eol::Cr => {
                    assert(r =~= seq!['\r'] + tail);
                    assert(r.drop_first() =~= tail);
                    if tail.len() > 1 {
                        // The next character of the restored text is never a
                        // `\n` that could pair with this `\r`: every `\n` was
                        // written as `\r`.
                        lemma_restored_cr_has_no_lf(rest);
                    } else if tail.len() == 1 {
                        lemma_restored_cr_has_no_lf(rest);
                    }
                },
            }
        } else {
            assert(r =~= seq![text[0]] + tail);
            assert(r.drop_first() =~= tail);
        }
        assert(seq![text[0]] + rest =~= text);
    }
}

/// Written with classic-Mac endings, text holds no `\n` at all.
proof fn lemma_restored_cr_has_no_lf(text: Seq<char>)
    ensures
        !restored(text, Eol::Cr).contains('\n'),
    decreases text.len(),
{
    if text.len() > 0 {
        lemma_restored_cr_has_no_lf(text.drop_first());
        let head = if text[0] == '\n' { seq!['\r'] } else { seq![text[0]] };
        let tail = restored(text.drop_first(), Eol::Cr);
        assert(restored(text, Eol::Cr) == head + tail);
        if (head + tail).contains('\n') {
            let k = choose|k: int| 0 <= k < (head + tail).len() && (head + tail)[k] == '\n';
            if k >= 1 {
                assert(tail[k - 1] == '\n');
            }
        }
    }
}

} // verus!
