//! How a chord is spelled for a human.
//!
//! The keymap stores chords in the internal form the frontend builds from a
//! `KeyboardEvent` (`"Meta+Shift+t"`, `"ArrowDown"`, `" "`). This module turns
//! them into what the user reads: `⌘⇧T`, `↓`, `Space`. macOS spells modifiers as
//! glyphs run together; elsewhere they keep their names and the `+`
//! separators.
use vstd::prelude::*;
use crate::text::{chars_of, owned, push_str, split_char, split_on, str_eq, string_views};

verus! {

/// `str::to_uppercase`: the full Unicode upper-case mapping. A function of its
/// argument alone.
pub uninterp spec fn spec_uppercase(s: Seq<char>) -> Seq<char>;

/// `str::to_uppercase`.
#[verifier::external_body]
fn uppercase(s: &str) -> (r: String)
    ensures
        r@ == spec_uppercase(s@),
{
    s.to_uppercase()
}

/// How modifiers are written.
#[derive(Debug, Clone, Copy, PartialEq, Eq, Structural)]
pub enum ChordStyle {
    /// macOS: `⌃ ⌘ ⌥ ⇧` run together.
    Glyphs,
    /// Elsewhere: `Ctrl+`, `Super+`, `Alt+`, `Shift+`.
    Names,
}

/// How one modifier part of a chord is written, separator included.
pub open spec fn modifier_text(part: Seq<char>, style: ChordStyle) -> Seq<char> {
    match style {
        ChordStyle::Glyphs => if part == "Ctrl"@ {
            "⌃"@
        } else if part == "Meta"@ {
            "⌘"@
        } else if part == "Alt"@ {
            "⌥"@
        } else if part == "Shift"@ {
            "⇧"@
        } else {
            part
        },
        ChordStyle::Names => if part == "Meta"@ { "Super+"@ } else { part + seq!['+'] },
    }
}

/// The printable name of the key of a chord.
pub open spec fn key_text(key: Seq<char>) -> Seq<char> {
    if key == " "@ {
        "Space"@
    } else if key == "ArrowUp"@ {
        "↑"@
    } else if key == "ArrowDown"@ {
        "↓"@
    } else if key == "ArrowLeft"@ {
        "←"@
    } else if key == "ArrowRight"@ {
        "→"@
    } else if key == "PageUp"@ {
        "PgUp"@
    } else if key == "PageDown"@ {
        "PgDn"@
    } else if key == "Backspace"@ {
        "⌫"@
    } else if key == "Escape"@ {
        "Esc"@
    } else if key == "Delete"@ {
        "Del"@
    } else if key.len() == 1 {
        spec_uppercase(key)
    } else {
        key
    }
}

/// The text of the first `k` parts of a chord: every part but the last is a
/// modifier.
pub open spec fn chord_prefix_text(parts: Seq<Seq<char>>, k: int, style: ChordStyle) -> Seq<char>
    decreases k,
{
    if k <= 0 {
        Seq::empty()
    } else {
        chord_prefix_text(parts, k - 1, style) + if k == parts.len() {
            key_text(parts[k - 1])
        } else {
            modifier_text(parts[k - 1], style)
        }
    }
}

/// What the user reads for `chord`.
pub open spec fn chord_text(chord: Seq<char>, style: ChordStyle) -> Seq<char> {
    let parts = split_on(chord, '+');
    chord_prefix_text(parts, parts.len() as int, style)
}

fn modifier_symbol(part: &str, style: ChordStyle) -> (r: String)
    ensures
        r@ == modifier_text(part@, style),
{
    match style {
        ChordStyle::Glyphs => {
            if str_eq(part, "Ctrl") {
                owned("⌃")
            } else if str_eq(part, "Meta") {
                owned("⌘")
            } else if str_eq(part, "Alt") {
                owned("⌥")
            } else if str_eq(part, "Shift") {
                owned("⇧")
            } else {
                owned(part)
            }
        },
        ChordStyle::Names => {
            if str_eq(part, "Meta") {
                owned("Super+")
            } else {
                let mut s = owned(part);
                push_str(&mut s, "+");
                proof {
                    reveal_strlit("+");
                }
                assert(s@ =~= part@ + seq!['+']);
                s
            }
        },
    }
}

fn key_label(key: &str) -> (r: String)
    ensures
        r@ == key_text(key@),
{
    if str_eq(key, " ") {
        owned("Space")
    } else if str_eq(key, "ArrowUp") {
        owned("↑")
    } else if str_eq(key, "ArrowDown") {
        owned("↓")
    } else if str_eq(key, "ArrowLeft") {
        owned("←")
    } else if str_eq(key, "ArrowRight") {
        owned("→")
    } else if str_eq(key, "PageUp") {
        owned("PgUp")
    } else if str_eq(key, "PageDown") {
        owned("PgDn")
    } else if str_eq(key, "Backspace") {
        owned("⌫")
    } else if str_eq(key, "Escape") {
        owned("Esc")
    } else if str_eq(key, "Delete") {
        owned("Del")
    } else if chars_of(key).len() == 1 {
        uppercase(key)
    } else {
        owned(key)
    }
}

/// Turn an internal chord string (`"Meta+Shift+t"`, `"ArrowDown"`, `" "`) into
/// what the user sees in `style`: `"⌘⇧T"` with glyphs, `"Ctrl+Shift+T"` with
/// names; `"↓"` and `"Space"` either way. Modifier order is the chord's own.
/// The caller picks the style for its platform: glyphs on macOS, names
/// elsewhere.
pub fn display_chord(chord: &str, style: ChordStyle) -> (r: String)
    ensures
        r@ == chord_text(chord@, style),
{
    let parts = split_char(chord, '+');
    let ghost ps = string_views(parts@);
    let n = parts.len();
    let mut out = String::new();
    let mut i: usize = 0;
    assert(out@ =~= chord_prefix_text(ps, 0, style));
    while i < n
        invariant
            i <= n,
            n == parts@.len(),
            ps == string_views(parts@),
            ps == split_on(chord@, '+'),
            out@ == chord_prefix_text(ps, i as int, style),
        decreases n - i,
    {
        let part = parts[i].as_str();
        assert(ps[i as int] == part@);
        if i + 1 == n {
            let t = key_label(part);
            push_str(&mut out, t.as_str());
        } else {
            let t = modifier_symbol(part, style);
            push_str(&mut out, t.as_str());
        }
        i = i + 1;
    }
    out
}

// ---------------------------------------------------------------------------
// Laws
// ---------------------------------------------------------------------------

/// The keys the user reads as a symbol or an abbreviation, each with what
/// they read.
pub open spec fn named_key_symbols() -> Seq<(Seq<char>, Seq<char>)> {
    seq![
        (seq![' '], seq!['S', 'p', 'a', 'c', 'e']),
        (seq!['A', 'r', 'r', 'o', 'w', 'U', 'p'], seq!['\u{2191}']),
        (seq!['A', 'r', 'r', 'o', 'w', 'D', 'o', 'w', 'n'], seq!['\u{2193}']),
        (seq!['A', 'r', 'r', 'o', 'w', 'L', 'e', 'f', 't'], seq!['\u{2190}']),
        (seq!['A', 'r', 'r', 'o', 'w', 'R', 'i', 'g', 'h', 't'], seq!['\u{2192}']),
        (seq!['P', 'a', 'g', 'e', 'U', 'p'], seq!['P', 'g', 'U', 'p']),
        (seq!['P', 'a', 'g', 'e', 'D', 'o', 'w', 'n'], seq!['P', 'g', 'D', 'n']),
        (seq!['B', 'a', 'c', 'k', 's', 'p', 'a', 'c', 'e'], seq!['\u{232b}']),
        (seq!['E', 's', 'c', 'a', 'p', 'e'], seq!['E', 's', 'c']),
        (seq!['D', 'e', 'l', 'e', 't', 'e'], seq!['D', 'e', 'l'])
    ]
}

/// Each named key reads as its own symbol, and no two named keys read the
/// same: `ArrowLeft` is `←`, `ArrowRight` is `→`, and so on.
pub proof fn lemma_named_keys_read_as_their_symbols()
    ensures
        forall|k: int| 0 <= k < named_key_symbols().len() ==> key_text(#[trigger] named_key_symbols()[k].0)
            == named_key_symbols()[k].1,
        forall|j: int, k: int|
            0 <= j < named_key_symbols().len() && 0 <= k < named_key_symbols().len() && j != k ==> key_text(
                #[trigger] named_key_symbols()[j].0,
            ) != key_text(#[trigger] named_key_symbols()[k].0),
{
    reveal_strlit(" ");
    reveal_strlit("Space");
    reveal_strlit("ArrowUp");
    reveal_strlit("↑");
    reveal_strlit("ArrowDown");
    reveal_strlit("↓");
    reveal_strlit("ArrowLeft");
    reveal_strlit("←");
    reveal_strlit("ArrowRight");
    reveal_strlit("→");
    reveal_strlit("PageUp");
    reveal_strlit("PgUp");
    reveal_strlit("PageDown");
    reveal_strlit("PgDn");
    reveal_strlit("Backspace");
    reveal_strlit("⌫");
    reveal_strlit("Escape");
    reveal_strlit("Esc");
    reveal_strlit("Delete");
    reveal_strlit("Del");
    assert(named_key_symbols()[0].0 =~= " "@);
    assert(named_key_symbols()[0].1 =~= "Space"@);
    assert(named_key_symbols()[1].0 =~= "ArrowUp"@);
    assert(named_key_symbols()[1].1 =~= "↑"@);
    assert(named_key_symbols()[2].0 =~= "ArrowDown"@);
    assert(named_key_symbols()[2].1 =~= "↓"@);
    assert(named_key_symbols()[3].0 =~= "ArrowLeft"@);
    assert(named_key_symbols()[3].1 =~= "←"@);
    assert(named_key_symbols()[4].0 =~= "ArrowRight"@);
    assert(named_key_symbols()[4].1 =~= "→"@);
    assert(named_key_symbols()[5].0 =~= "PageUp"@);
    assert(named_key_symbols()[5].1 =~= "PgUp"@);
    assert(named_key_symbols()[6].0 =~= "PageDown"@);
    assert(named_key_symbols()[6].1 =~= "PgDn"@);
    assert(named_key_symbols()[7].0 =~= "Backspace"@);
    assert(named_key_symbols()[7].1 =~= "⌫"@);
    assert(named_key_symbols()[8].0 =~= "Escape"@);
    assert(named_key_symbols()[8].1 =~= "Esc"@);
    assert(named_key_symbols()[9].0 =~= "Delete"@);
    assert(named_key_symbols()[9].1 =~= "Del"@);
    assert forall|j: int, k: int|
        0 <= j < named_key_symbols().len() && 0 <= k < named_key_symbols().len() && j != k implies named_key_symbols()[j].1
            != named_key_symbols()[k].1 by {
        if j == 0 {
            if k == 1 { assert(named_key_symbols()[0].1.len() != named_key_symbols()[1].1.len()); }
            if k == 2 { assert(named_key_symbols()[0].1.len() != named_key_symbols()[2].1.len()); }
            if k == 3 { assert(named_key_symbols()[0].1.len() != named_key_symbols()[3].1.len()); }
            if k == 4 { assert(named_key_symbols()[0].1.len() != named_key_symbols()[4].1.len()); }
            if k == 5 { assert(named_key_symbols()[0].1.len() != named_key_symbols()[5].1.len()); }
            if k == 6 { assert(named_key_symbols()[0].1.len() != named_key_symbols()[6].1.len()); }
            if k == 7 { assert(named_key_symbols()[0].1.len() != named_key_symbols()[7].1.len()); }
            if k == 8 { assert(named_key_symbols()[0].1.len() != named_key_symbols()[8].1.len()); }
            if k == 9 { assert(named_key_symbols()[0].1.len() != named_key_symbols()[9].1.len()); }
        } else if j == 1 {
            if k == 0 { assert(named_key_symbols()[1].1.len() != named_key_symbols()[0].1.len()); }
            if k == 2 { assert(named_key_symbols()[1].1[0] != named_key_symbols()[2].1[0]); }
            if k == 3 { assert(named_key_symbols()[1].1[0] != named_key_symbols()[3].1[0]); }
            if k == 4 { assert(named_key_symbols()[1].1[0] != named_key_symbols()[4].1[0]); }
            if k == 5 { assert(named_key_symbols()[1].1.len() != named_key_symbols()[5].1.len()); }
            if k == 6 { assert(named_key_symbols()[1].1.len() != named_key_symbols()[6].1.len()); }
            if k == 7 { assert(named_key_symbols()[1].1[0] != named_key_symbols()[7].1[0]); }
            if k == 8 { assert(named_key_symbols()[1].1.len() != named_key_symbols()[8].1.len()); }
            if k == 9 { assert(named_key_symbols()[1].1.len() != named_key_symbols()[9].1.len()); }
        } else if j == 2 {
            if k == 0 { assert(named_key_symbols()[2].1.len() != named_key_symbols()[0].1.len()); }
            if k == 1 { assert(named_key_symbols()[2].1[0] != named_key_symbols()[1].1[0]); }
            if k == 3 { assert(named_key_symbols()[2].1[0] != named_key_symbols()[3].1[0]); }
            if k == 4 { assert(named_key_symbols()[2].1[0] != named_key_symbols()[4].1[0]); }
            if k == 5 { assert(named_key_symbols()[2].1.len() != named_key_symbols()[5].1.len()); }
            if k == 6 { assert(named_key_symbols()[2].1.len() != named_key_symbols()[6].1.len()); }
            if k == 7 { assert(named_key_symbols()[2].1[0] != named_key_symbols()[7].1[0]); }
            if k == 8 { assert(named_key_symbols()[2].1.len() != named_key_symbols()[8].1.len()); }
            if k == 9 { assert(named_key_symbols()[2].1.len() != named_key_symbols()[9].1.len()); }
        } else if j == 3 {
            if k == 0 { assert(named_key_symbols()[3].1.len() != named_key_symbols()[0].1.len()); }
            if k == 1 { assert(named_key_symbols()[3].1[0] != named_key_symbols()[1].1[0]); }
            if k == 2 { assert(named_key_symbols()[3].1[0] != named_key_symbols()[2].1[0]); }
            if k == 4 { assert(named_key_symbols()[3].1[0] != named_key_symbols()[4].1[0]); }
            if k == 5 { assert(named_key_symbols()[3].1.len() != named_key_symbols()[5].1.len()); }
            if k == 6 { assert(named_key_symbols()[3].1.len() != named_key_symbols()[6].1.len()); }
            if k == 7 { assert(named_key_symbols()[3].1[0] != named_key_symbols()[7].1[0]); }
            if k == 8 { assert(named_key_symbols()[3].1.len() != named_key_symbols()[8].1.len()); }
            if k == 9 { assert(named_key_symbols()[3].1.len() != named_key_symbols()[9].1.len()); }
        } else if j == 4 {
            if k == 0 { assert(named_key_symbols()[4].1.len() != named_key_symbols()[0].1.len()); }
            if k == 1 { assert(named_key_symbols()[4].1[0] != named_key_symbols()[1].1[0]); }
            if k == 2 { assert(named_key_symbols()[4].1[0] != named_key_symbols()[2].1[0]); }
            if k == 3 { assert(named_key_symbols()[4].1[0] != named_key_symbols()[3].1[0]); }
            if k == 5 { assert(named_key_symbols()[4].1.len() != named_key_symbols()[5].1.len()); }
            if k == 6 { assert(named_key_symbols()[4].1.len() != named_key_symbols()[6].1.len()); }
            if k == 7 { assert(named_key_symbols()[4].1[0] != named_key_symbols()[7].1[0]); }
            if k == 8 { assert(named_key_symbols()[4].1.len() != named_key_symbols()[8].1.len()); }
            if k == 9 { assert(named_key_symbols()[4].1.len() != named_key_symbols()[9].1.len()); }
        } else if j == 5 {
            if k == 0 { assert(named_key_symbols()[5].1.len() != named_key_symbols()[0].1.len()); }
            if k == 1 { assert(named_key_symbols()[5].1.len() != named_key_symbols()[1].1.len()); }
            if k == 2 { assert(named_key_symbols()[5].1.len() != named_key_symbols()[2].1.len()); }
            if k == 3 { assert(named_key_symbols()[5].1.len() != named_key_symbols()[3].1.len()); }
            if k == 4 { assert(named_key_symbols()[5].1.len() != named_key_symbols()[4].1.len()); }
            if k == 6 { assert(named_key_symbols()[5].1[2] != named_key_symbols()[6].1[2]); }
            if k == 7 { assert(named_key_symbols()[5].1.len() != named_key_symbols()[7].1.len()); }
            if k == 8 { assert(named_key_symbols()[5].1.len() != named_key_symbols()[8].1.len()); }
            if k == 9 { assert(named_key_symbols()[5].1.len() != named_key_symbols()[9].1.len()); }
        } else if j == 6 {
            if k == 0 { assert(named_key_symbols()[6].1.len() != named_key_symbols()[0].1.len()); }
            if k == 1 { assert(named_key_symbols()[6].1.len() != named_key_symbols()[1].1.len()); }
            if k == 2 { assert(named_key_symbols()[6].1.len() != named_key_symbols()[2].1.len()); }
            if k == 3 { assert(named_key_symbols()[6].1.len() != named_key_symbols()[3].1.len()); }
            if k == 4 { assert(named_key_symbols()[6].1.len() != named_key_symbols()[4].1.len()); }
            if k == 5 { assert(named_key_symbols()[6].1[2] != named_key_symbols()[5].1[2]); }
            if k == 7 { assert(named_key_symbols()[6].1.len() != named_key_symbols()[7].1.len()); }
            if k == 8 { assert(named_key_symbols()[6].1.len() != named_key_symbols()[8].1.len()); }
            if k == 9 { assert(named_key_symbols()[6].1.len() != named_key_symbols()[9].1.len()); }
        } else if j == 7 {
            if k == 0 { assert(named_key_symbols()[7].1.len() != named_key_symbols()[0].1.len()); }
            if k == 1 { assert(named_key_symbols()[7].1[0] != named_key_symbols()[1].1[0]); }
            if k == 2 { assert(named_key_symbols()[7].1[0] != named_key_symbols()[2].1[0]); }
            if k == 3 { assert(named_key_symbols()[7].1[0] != named_key_symbols()[3].1[0]); }
            if k == 4 { assert(named_key_symbols()[7].1[0] != named_key_symbols()[4].1[0]); }
            if k == 5 { assert(named_key_symbols()[7].1.len() != named_key_symbols()[5].1.len()); }
            if k == 6 { assert(named_key_symbols()[7].1.len() != named_key_symbols()[6].1.len()); }
            if k == 8 { assert(named_key_symbols()[7].1.len() != named_key_symbols()[8].1.len()); }
            if k == 9 { assert(named_key_symbols()[7].1.len() != named_key_symbols()[9].1.len()); }
        } else if j == 8 {
            if k == 0 { assert(named_key_symbols()[8].1.len() != named_key_symbols()[0].1.len()); }
            if k == 1 { assert(named_key_symbols()[8].1.len() != named_key_symbols()[1].1.len()); }
            if k == 2 { assert(named_key_symbols()[8].1.len() != named_key_symbols()[2].1.len()); }
            if k == 3 { assert(named_key_symbols()[8].1.len() != named_key_symbols()[3].1.len()); }
            if k == 4 { assert(named_key_symbols()[8].1.len() != named_key_symbols()[4].1.len()); }
            if k == 5 { assert(named_key_symbols()[8].1.len() != named_key_symbols()[5].1.len()); }
            if k == 6 { assert(named_key_symbols()[8].1.len() != named_key_symbols()[6].1.len()); }
            if k == 7 { assert(named_key_symbols()[8].1.len() != named_key_symbols()[7].1.len()); }
            if k == 9 { assert(named_key_symbols()[8].1[0] != named_key_symbols()[9].1[0]); }
        } else if j == 9 {
            if k == 0 { assert(named_key_symbols()[9].1.len() != named_key_symbols()[0].1.len()); }
            if k == 1 { assert(named_key_symbols()[9].1.len() != named_key_symbols()[1].1.len()); }
            if k == 2 { assert(named_key_symbols()[9].1.len() != named_key_symbols()[2].1.len()); }
            if k == 3 { assert(named_key_symbols()[9].1.len() != named_key_symbols()[3].1.len()); }
            if k == 4 { assert(named_key_symbols()[9].1.len() != named_key_symbols()[4].1.len()); }
            if k == 5 { assert(named_key_symbols()[9].1.len() != named_key_symbols()[5].1.len()); }
            if k == 6 { assert(named_key_symbols()[9].1.len() != named_key_symbols()[6].1.len()); }
            if k == 7 { assert(named_key_symbols()[9].1.len() != named_key_symbols()[7].1.len()); }
            if k == 8 { assert(named_key_symbols()[9].1[0] != named_key_symbols()[8].1[0]); }
        }
    }
}

/// A chord ending in a named key reads as its modifiers followed by that
/// key's symbol, in either style.
pub proof fn lemma_chord_ends_in_its_key_symbol(chord: Seq<char>, style: ChordStyle, k: int)
    requires
        0 <= k < named_key_symbols().len(),
        split_on(chord, '+').len() > 0,
        split_on(chord, '+').last() == named_key_symbols()[k].0,
    ensures
        chord_text(chord, style) == chord_prefix_text(
            split_on(chord, '+'),
            split_on(chord, '+').len() - 1,
            style,
        ) + named_key_symbols()[k].1,
{
    lemma_named_keys_read_as_their_symbols();
    assert(key_text(named_key_symbols()[k].0) == named_key_symbols()[k].1);
}

/// The modifiers, each with how it is written on macOS and elsewhere.
pub open spec fn modifier_symbols() -> Seq<(Seq<char>, Seq<char>, Seq<char>)> {
    seq![
        (seq!['C', 't', 'r', 'l'], seq!['\u{2303}'], seq!['C', 't', 'r', 'l', '+']),
        (seq!['M', 'e', 't', 'a'], seq!['\u{2318}'], seq!['S', 'u', 'p', 'e', 'r', '+']),
        (seq!['A', 'l', 't'], seq!['\u{2325}'], seq!['A', 'l', 't', '+']),
        (seq!['S', 'h', 'i', 'f', 't'], seq!['\u{21e7}'], seq!['S', 'h', 'i', 'f', 't', '+'])
    ]
}

/// Each modifier is written as its own glyph on macOS (`Ctrl` `⌃`, `Meta`
/// `⌘`, `Alt` `⌥`, `Shift` `⇧`), no two alike, and by name with a `+`
/// elsewhere, `Meta` as `Super+`.
pub proof fn lemma_modifiers_read_as_their_symbols()
    ensures
        forall|k: int| 0 <= k < modifier_symbols().len() ==> modifier_text(#[trigger] modifier_symbols()[k].0, ChordStyle::Glyphs)
            == modifier_symbols()[k].1 && modifier_text(modifier_symbols()[k].0, ChordStyle::Names)
            == modifier_symbols()[k].2,
        forall|j: int, k: int|
            0 <= j < modifier_symbols().len() && 0 <= k < modifier_symbols().len() && j != k ==> modifier_text(
                #[trigger] modifier_symbols()[j].0,
                ChordStyle::Glyphs,
            ) != modifier_text(#[trigger] modifier_symbols()[k].0, ChordStyle::Glyphs),
{
    reveal_strlit("Ctrl");
    reveal_strlit("Meta");
    reveal_strlit("Alt");
    reveal_strlit("Shift");
    reveal_strlit("⌃");
    reveal_strlit("⌘");
    reveal_strlit("⌥");
    reveal_strlit("⇧");
    reveal_strlit("Super+");
    assert(modifier_symbols()[0].0 =~= "Ctrl"@);
    assert(modifier_symbols()[0].1 =~= "⌃"@);
    assert(modifier_symbols()[1].0 =~= "Meta"@);
    assert(modifier_symbols()[1].1 =~= "⌘"@);
    assert(modifier_symbols()[2].0 =~= "Alt"@);
    assert(modifier_symbols()[2].1 =~= "⌥"@);
    assert(modifier_symbols()[3].0 =~= "Shift"@);
    assert(modifier_symbols()[3].1 =~= "⇧"@);
    assert(modifier_symbols()[1].2 =~= "Super+"@);
    assert(modifier_symbols()[0].2 =~= "Ctrl"@ + seq!['+']);
    assert(modifier_symbols()[2].2 =~= "Alt"@ + seq!['+']);
    assert(modifier_symbols()[3].2 =~= "Shift"@ + seq!['+']);
    assert forall|j: int, k: int|
        0 <= j < modifier_symbols().len() && 0 <= k < modifier_symbols().len() && j != k implies modifier_symbols()[j].1
            != modifier_symbols()[k].1 by {
            if j == 0 && k == 1 { assert(modifier_symbols()[0].1[0] != modifier_symbols()[1].1[0]); }
            if j == 0 && k == 2 { assert(modifier_symbols()[0].1[0] != modifier_symbols()[2].1[0]); }
            if j == 0 && k == 3 { assert(modifier_symbols()[0].1[0] != modifier_symbols()[3].1[0]); }
            if j == 1 && k == 0 { assert(modifier_symbols()[1].1[0] != modifier_symbols()[0].1[0]); }
            if j == 1 && k == 2 { assert(modifier_symbols()[1].1[0] != modifier_symbols()[2].1[0]); }
            if j == 1 && k == 3 { assert(modifier_symbols()[1].1[0] != modifier_symbols()[3].1[0]); }
            if j == 2 && k == 0 { assert(modifier_symbols()[2].1[0] != modifier_symbols()[0].1[0]); }
            if j == 2 && k == 1 { assert(modifier_symbols()[2].1[0] != modifier_symbols()[1].1[0]); }
            if j == 2 && k == 3 { assert(modifier_symbols()[2].1[0] != modifier_symbols()[3].1[0]); }
            if j == 3 && k == 0 { assert(modifier_symbols()[3].1[0] != modifier_symbols()[0].1[0]); }
            if j == 3 && k == 1 { assert(modifier_symbols()[3].1[0] != modifier_symbols()[1].1[0]); }
            if j == 3 && k == 2 { assert(modifier_symbols()[3].1[0] != modifier_symbols()[2].1[0]); }
    }
}

} // verus!
