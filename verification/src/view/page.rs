//! What a viewer page is made of: logical lines found in a read window,
//! tab expansion, wrapping and horizontal slicing, the rows of a hex dump,
//! and case-insensitive byte search. Reading the file is the caller's
//! business; these decide what the bytes it read look like on screen.
use vstd::prelude::*;
use crate::text::{chars_of, string_from_chars};
use crate::types::{GotoTarget, TextEncoding};

verus! {

// ---------------------------------------------------------------------------
// Character units and logical lines
// ---------------------------------------------------------------------------

/// Bytes per character unit: 2 for UTF-16, 1 otherwise.
pub open spec fn unit_len(enc: TextEncoding) -> int {
    if enc == TextEncoding::Utf16Le || enc == TextEncoding::Utf16Be { 2 } else { 1 }
}

/// The character unit at byte `i`, widened so UTF-16 and single-byte
/// encodings compare alike; `None` past the end of the buffer.
pub open spec fn unit_at(buf: Seq<u8>, i: int, enc: TextEncoding) -> Option<u16> {
    match enc {
        TextEncoding::Utf16Le => if 0 <= i && i + 1 < buf.len() {
            Some((buf[i] + 256 * buf[i + 1]) as u16)
        } else {
            None
        },
        TextEncoding::Utf16Be => if 0 <= i && i + 1 < buf.len() {
            Some((256 * buf[i] + buf[i + 1]) as u16)
        } else {
            None
        },
        _ => if 0 <= i && i < buf.len() { Some(buf[i] as u16) } else { None },
    }
}

/// The character unit at byte `i`.
pub fn unit_value(buf: &[u8], i: usize, enc: TextEncoding) -> (r: Option<u16>)
    ensures
        r == unit_at(buf@, i as int, enc),
{
    let n = buf.len();
    match enc {
        TextEncoding::Utf16Le => if i < n && n - i > 1 {
            Some((buf[i] as u16) + 256 * (buf[i + 1] as u16))
        } else {
            None
        },
        TextEncoding::Utf16Be => if i < n && n - i > 1 {
            Some(256 * (buf[i] as u16) + (buf[i + 1] as u16))
        } else {
            None
        },
        _ => if i < n {
            Some(buf[i] as u16)
        } else {
            None
        },
    }
}

/// Whether the unit at `i` ends a line.
pub open spec fn is_break(buf: Seq<u8>, i: int, enc: TextEncoding) -> bool {
    unit_at(buf, i, enc) == Some(10u16) || unit_at(buf, i, enc) == Some(13u16)
}

/// The first line break at or after `i`, stepping a unit at a time, that
/// fits whole in the buffer; `None` when there is none.
pub open spec fn next_break(buf: Seq<u8>, i: int, enc: TextEncoding) -> Option<int>
    decreases buf.len() - i,
{
    if i < 0 || i + unit_len(enc) > buf.len() {
        None
    } else if is_break(buf, i, enc) {
        Some(i)
    } else {
        next_break(buf, i + unit_len(enc), enc)
    }
}

/// One logical line inside a read buffer: where it starts, how many bytes of
/// content it has, and how many bytes it occupies with its terminator.
#[derive(Debug, Clone, Copy, PartialEq, Eq, Structural)]
pub struct LineSpan {
    pub start: usize,
    pub content: usize,
    pub total: usize,
}

/// The lines of `buf` from `start`: each terminated by `\n`, `\r`, or
/// `\r\n`; a trailing unterminated piece counts only at the end of the file.
pub open spec fn spans_from(buf: Seq<u8>, enc: TextEncoding, at_eof: bool, start: int) -> Seq<LineSpan>
    decreases (if start <= buf.len() { buf.len() - start + 1 } else { 0 }),
{
    if start < 0 || start > buf.len() {
        Seq::empty()
    } else {
        match next_break(buf, start, enc) {
            Some(p) => {
                let u = unit_len(enc);
                let total = p + u - start + if unit_at(buf, p, enc) == Some(13u16) && unit_at(buf, p + u, enc)
                    == Some(10u16) {
                    u
                } else {
                    0
                };
                if total <= 0 || p < start {
                    Seq::empty()
                } else {
                    seq![LineSpan { start: start as usize, content: (p - start) as usize, total: total as usize }]
                        + spans_from(buf, enc, at_eof, start + total)
                }
            },
            None => if at_eof && start < buf.len() {
                seq![
                    LineSpan {
                        start: start as usize,
                        content: (buf.len() - start) as usize,
                        total: (buf.len() - start) as usize,
                    },
                ]
            } else {
                Seq::empty()
            },
        }
    }
}

proof fn lemma_next_break_bounds(buf: Seq<u8>, i: int, enc: TextEncoding)
    ensures
        next_break(buf, i, enc) matches Some(p) ==> i <= p && p + unit_len(enc) <= buf.len() && is_break(buf, p, enc),
    decreases buf.len() - i,
{
    if !(i < 0 || i + unit_len(enc) > buf.len()) && !is_break(buf, i, enc) {
        lemma_next_break_bounds(buf, i + unit_len(enc), enc);
    }
}

/// Split a buffer into logical lines. Only terminated lines are returned
/// unless `at_eof`, so a line cut by the window's end is never mistaken for a
/// short line.
pub fn line_spans(buf: &[u8], enc: TextEncoding, at_eof: bool) -> (r: Vec<LineSpan>)
    ensures
        r@ == spans_from(buf@, enc, at_eof, 0),
        forall|k: int| 0 <= k < r@.len() ==> (#[trigger] r@[k]).start + r@[k].total <= buf@.len(),
{
    let u: usize = if enc == TextEncoding::Utf16Le || enc == TextEncoding::Utf16Be { 2 } else { 1 };
    let n = buf.len();
    proof {
        lemma_spans_bounded(buf@, enc, at_eof, 0);
    }
    let mut spans: Vec<LineSpan> = Vec::new();
    let mut start: usize = 0;
    let mut i: usize = 0;
    while i <= n && n - i >= u
        invariant
            n == buf@.len(),
            u as int == unit_len(enc),
            start <= i <= n,
            spans@ + spans_from(buf@, enc, at_eof, start as int) == spans_from(buf@, enc, at_eof, 0),
            next_break(buf@, start as int, enc) == next_break(buf@, i as int, enc),
        decreases n - i,
    {
        let uv = unit_value(buf, i, enc);
        assert(uv is Some);
        let v = match uv {
            Some(x) => x,
            None => 0,
        };
        if v == 10 || v == 13 {
            assert(is_break(buf@, i as int, enc));
            let mut total = i + u - start;
            if v == 13 && unit_value(buf, i + u, enc) == Some(10u16) {
                total = total + u;
            }
            let span = LineSpan { start, content: i - start, total };
            proof {
                assert(next_break(buf@, i as int, enc) == Some(i as int));
                assert(spans_from(buf@, enc, at_eof, start as int) == seq![span] + spans_from(
                    buf@,
                    enc,
                    at_eof,
                    start + total,
                ));
            }
            let ghost before = spans@;
            spans.push(span);
            assert(spans@ + spans_from(buf@, enc, at_eof, start + total) =~= before + (seq![span] + spans_from(
                buf@,
                enc,
                at_eof,
                start + total,
            )));
            start = start + total;
            i = start;
        } else {
            assert(!is_break(buf@, i as int, enc));
            i = i + u;
        }
    }
    proof {
        assert(next_break(buf@, i as int, enc) is None);
    }
    if at_eof && start < n {
        let span = LineSpan { start, content: n - start, total: n - start };
        let ghost before = spans@;
        spans.push(span);
        assert(spans@ =~= before + spans_from(buf@, enc, at_eof, start as int));
    } else {
        assert(spans@ =~= spans@ + spans_from(buf@, enc, at_eof, start as int));
    }
    spans
}

// ---------------------------------------------------------------------------
// Tabs, wrapping and slicing
// ---------------------------------------------------------------------------

/// `n` spaces.
pub open spec fn spaces(n: int) -> Seq<char> {
    Seq::new(if n > 0 { n as nat } else { 0 }, |i: int| ' ')
}

/// `text` with each tab expanded to the next multiple of `width`, the
/// current column being `col`.
pub open spec fn tabs_from(text: Seq<char>, col: int, width: int) -> Seq<char>
    decreases text.len(),
{
    if text.len() == 0 || width <= 0 {
        text
    } else if text[0] == '\t' {
        let pad = width - col % width;
        spaces(pad) + tabs_from(text.drop_first(), col + pad, width)
    } else {
        seq![text[0]] + tabs_from(text.drop_first(), col + 1, width)
    }
}

proof fn lemma_tabs_col_mod(text: Seq<char>, col: int, width: int)
    requires
        width > 0,
    ensures
        tabs_from(text, col, width) == tabs_from(text, col % width, width),
    decreases text.len(),
{
    if text.len() > 0 {
        if text[0] == '\t' {
            let pad = width - col % width;
            let pad2 = width - (col % width) % width;
            assert((col % width) % width == col % width) by (nonlinear_arith)
                requires
                    width > 0,
            ;
            lemma_tabs_col_mod(text.drop_first(), col + pad, width);
            lemma_tabs_col_mod(text.drop_first(), col % width + pad2, width);
            assert((col + pad) % width == (col % width + pad2) % width) by (nonlinear_arith)
                requires
                    width > 0,
                    pad == width - col % width,
                    pad2 == pad,
            ;
        } else {
            lemma_tabs_col_mod(text.drop_first(), col + 1, width);
            lemma_tabs_col_mod(text.drop_first(), col % width + 1, width);
            assert((col + 1) % width == (col % width + 1) % width) by (nonlinear_arith)
                requires
                    width > 0,
            ;
        }
    }
}

/// Expand tabs to the next tab stop, so columns line up the way they do in
/// an editor.
pub fn expand_tabs(text: &str, width: usize) -> (r: String)
    requires
        width > 0,
    ensures
        r@ == tabs_from(text@, 0, width as int),
{
    let cs = chars_of(text);
    let n = cs.len();
    let ghost t = cs@;
    let mut out: Vec<char> = Vec::new();
    let mut col: usize = 0;
    let mut i: usize = 0;
    assert(t.skip(0) =~= t);
    while i < n
        invariant
            width > 0,
            n == t.len(),
            t == text@,
            t == cs@,
            i <= n,
            col < width,
            out@ + tabs_from(t.skip(i as int), col as int, width as int) == tabs_from(t, 0, width as int),
        decreases n - i,
    {
        let ghost rest = t.skip(i as int);
        assert(rest[0] == t[i as int]);
        assert(rest.drop_first() =~= t.skip(i + 1));
        let c = cs[i];
        if c == '\t' {
            let pad = width - col;
            let ghost before = out@;
            let mut k: usize = 0;
            while k < pad
                invariant
                    k <= pad,
                    out@ == before + spaces(k as int),
                decreases pad - k,
            {
                out.push(' ');
                assert(out@ =~= before + spaces(k + 1));
                k = k + 1;
            }
            proof {
                assert((col as int) % (width as int) == col as int) by (nonlinear_arith)
                    requires
                        col < width,
                ;
                lemma_tabs_col_mod(t.skip(i + 1), col + pad, width as int);
                assert((col + pad) % (width as int) == 0) by (nonlinear_arith)
                    requires
                        col + pad == width,
                        width > 0,
                ;
            }
            assert(out@ + tabs_from(t.skip(i + 1), 0, width as int) =~= tabs_from(t, 0, width as int));
            col = 0;
        } else {
            out.push(c);
            proof {
                lemma_tabs_col_mod(t.skip(i + 1), col + 1, width as int);
            }
            let next: usize = if col + 1 == width { 0 } else { col + 1 };
            proof {
                if col + 1 == width {
                    assert((col + 1) % (width as int) == 0) by (nonlinear_arith)
                        requires
                            col + 1 == width,
                            width > 0,
                    ;
                } else {
                    assert((col + 1) % (width as int) == col + 1) by (nonlinear_arith)
                        requires
                            col + 1 < width,
                            width > 0,
                    ;
                }
            }
            assert(out@ + tabs_from(t.skip(i + 1), next as int, width as int) =~= tabs_from(t, 0, width as int));
            col = next;
        }
        i = i + 1;
    }
    assert(t.skip(i as int) =~= Seq::<char>::empty());
    assert(out@ =~= tabs_from(t, 0, width as int));
    string_from_chars(&out)
}

/// Where the `j`-th wrapped row of a line of `len` characters ends.
pub open spec fn wrap_end(len: int, cols: int, j: int) -> int {
    if (j + 1) * cols < len { (j + 1) * cols } else { len }
}

/// The `j`-th wrapped row of `chars`, `cols` characters wide.
pub open spec fn wrap_piece(chars: Seq<char>, cols: int, j: int) -> Seq<char> {
    chars.subrange(j * cols, wrap_end(chars.len() as int, cols, j))
}

/// The gutter label of the `j`-th row of a line: the label on the first,
/// nothing on the others.
pub open spec fn gutter_of(label: Seq<char>, j: int) -> Seq<char> {
    if j == 0 { label } else { Seq::empty() }
}

/// How many rows a line of `len` characters wraps into.
pub open spec fn wrap_count(len: int, cols: int) -> int {
    (len + cols - 1) / cols
}

/// The display rows of one logical line, with their gutter labels: sliced at
/// `col_offset` and cut to `cols` when not wrapping; otherwise wrapped into
/// rows of `cols` characters, no more than `room` of them, only the first
/// one labelled.
pub open spec fn line_rows(
    chars: Seq<char>,
    label: Seq<char>,
    wrap: bool,
    cols: int,
    col_offset: int,
    room: int,
) -> Seq<(Seq<char>, Seq<char>)> {
    if !wrap {
        let from = if col_offset < chars.len() { col_offset } else { chars.len() as int };
        let to = if from + cols < chars.len() { from + cols } else { chars.len() as int };
        seq![(chars.subrange(from, to), label)]
    } else if chars.len() == 0 {
        seq![(Seq::empty(), label)]
    } else {
        let n = wrap_count(chars.len() as int, cols);
        let k = if n < room { n } else if room > 0 { room } else { 0 };
        Seq::new(k as nat, |j: int| (wrap_piece(chars, cols, j), gutter_of(label, j)))
    }
}

/// The characters `cs[from..to]` as a string.
fn piece_of(cs: &Vec<char>, from: usize, to: usize) -> (r: String)
    requires
        from <= to <= cs@.len(),
    ensures
        r@ == cs@.subrange(from as int, to as int),
{
    let mut piece: Vec<char> = Vec::new();
    let mut k: usize = from;
    while k < to
        invariant
            from <= k <= to,
            to <= cs@.len(),
            piece@ == cs@.subrange(from as int, k as int),
        decreases to - k,
    {
        piece.push(cs[k]);
        assert(piece@ =~= cs@.subrange(from as int, k + 1));
        k = k + 1;
    }
    string_from_chars(&piece)
}

proof fn lemma_wrap_step(n: int, cols: int, i: int, start: int)
    requires
        cols > 0,
        n > 0,
        start == i * cols,
        start < n,
        0 <= i,
    ensures
        (i + 1) * cols == start + cols,
        i < wrap_count(n, cols),
        (start + cols < n) == (i + 1 < wrap_count(n, cols)),
        wrap_count(n, cols) >= 1,
{
    assert((i + 1) * cols == start + cols) by (nonlinear_arith)
        requires
            start == i * cols,
    ;
    assert(i < (n + cols - 1) / cols && ((start + cols < n) == (i + 1 < (n + cols - 1) / cols))) by (nonlinear_arith)
        requires
            start == i * cols,
            cols > 0,
            start < n,
            0 <= i,
    ;
}

/// Each of `rows`, with its gutter entry, is the wrapped row of `cs` at its
/// index.
pub open spec fn rows_agree(rows: Seq<String>, gutter: Seq<String>, cs: Seq<char>, label: Seq<char>, cols: int) -> bool {
    &&& rows.len() == gutter.len()
    &&& forall|j: int|
        0 <= j < rows.len() ==> (#[trigger] rows[j])@ == wrap_piece(cs, cols, j) && gutter[j]@ == gutter_of(label, j)
}

/// The display strings `texts` and gutter labels `gutter` are exactly `rows`.
pub open spec fn rows_are(texts: Seq<String>, gutter: Seq<String>, rows: Seq<(Seq<char>, Seq<char>)>) -> bool {
    &&& texts.len() == rows.len()
    &&& gutter.len() == rows.len()
    &&& forall|i: int| 0 <= i < rows.len() ==> (#[trigger] texts[i])@ == rows[i].0 && gutter[i]@ == rows[i].1
}

/// Wrap `cs` into rows of `cols` characters, at most `room` of them.
fn wrapped_rows(cs: &Vec<char>, label: &str, cols: usize, room: usize) -> (r: (Vec<String>, Vec<String>))
    requires
        cols > 0,
        cs@.len() > 0,
    ensures
        rows_are(r.0@, r.1@, line_rows(cs@, label@, true, cols as int, 0, room as int)),
{
    let n = cs.len();
    let ghost total = wrap_count(n as int, cols as int);
    let mut out_rows: Vec<String> = Vec::new();
    let mut out_gutter: Vec<String> = Vec::new();
    let mut start: usize = 0;
    let mut i: usize = 0;
    proof {
        lemma_wrap_step(n as int, cols as int, 0, 0);
    }
    while start < n && i < room
        invariant
            cols > 0,
            n == cs@.len(),
            n > 0,
            total == wrap_count(n as int, cols as int),
            start < n ==> start == i * cols,
            i <= total,
            i <= room,
            (start < n) == (i < total),
            out_rows@.len() == i,
            rows_agree(out_rows@, out_gutter@, cs@, label@, cols as int),
        decreases n - start,
    {
        proof {
            lemma_wrap_step(n as int, cols as int, i as int, start as int);
        }
        let end: usize = if n - start > cols { start + cols } else { n };
        assert(end == wrap_end(n as int, cols as int, i as int));
        let row = piece_of(cs, start, end);
        let ghost rows_before = out_rows@;
        let ghost gutter_before = out_gutter@;
        out_rows.push(row);
        if i == 0 {
            out_gutter.push(crate::text::owned(label));
        } else {
            out_gutter.push(String::new());
        }
        assert forall|j: int| 0 <= j < out_rows@.len() implies (#[trigger] out_rows@[j])@ == wrap_piece(
            cs@,
            cols as int,
            j,
        ) && out_gutter@[j]@ == gutter_of(label@, j) by {
            if j < i {
                assert(out_rows@[j] == rows_before[j]);
                assert(out_gutter@[j] == gutter_before[j]);
            }
        }
        assert(rows_agree(out_rows@, out_gutter@, cs@, label@, cols as int));
        start = end;
        i = i + 1;
    }
    proof {
        let rows = line_rows(cs@, label@, true, cols as int, 0, room as int);
        assert(rows.len() == i);
        assert forall|j: int| 0 <= j < rows.len() implies (#[trigger] out_rows@[j])@ == rows[j].0
            && out_gutter@[j]@ == rows[j].1 by {
            assert(rows[j] == (wrap_piece(cs@, cols as int, j), gutter_of(label@, j)));
            assert(out_rows@[j]@ == wrap_piece(cs@, cols as int, j));
            assert(out_gutter@[j]@ == gutter_of(label@, j));
        }
        assert(rows_are(out_rows@, out_gutter@, rows));
    }
    (out_rows, out_gutter)
}

/// The display rows of one logical line of `text` (tabs expanded to
/// `tab_width`), labelled `label`, given `room` rows left in the window.
pub fn display_rows(
    text: &str,
    label: &str,
    wrap: bool,
    cols: usize,
    col_offset: u64,
    tab_width: usize,
    room: usize,
) -> (r: (Vec<String>, Vec<String>))
    requires
        tab_width > 0,
        wrap ==> cols > 0,
    ensures
        rows_are(
            r.0@,
            r.1@,
            line_rows(tabs_from(text@, 0, tab_width as int), label@, wrap, cols as int, col_offset as int, room as int),
        ),
{
    let expanded = expand_tabs(text, tab_width);
    let cs = chars_of(expanded.as_str());
    let n = cs.len();
    if !wrap {
        let from: usize = if col_offset < n as u64 { col_offset as usize } else { n };
        let to: usize = if n - from > cols { from + cols } else { n };
        let mut out_rows: Vec<String> = Vec::new();
        let mut out_gutter: Vec<String> = Vec::new();
        out_rows.push(piece_of(&cs, from, to));
        out_gutter.push(crate::text::owned(label));
        assert(rows_are(out_rows@, out_gutter@, line_rows(cs@, label@, wrap, cols as int, col_offset as int, room as int)));
        return (out_rows, out_gutter);
    }
    if n == 0 {
        let mut out_rows: Vec<String> = Vec::new();
        let mut out_gutter: Vec<String> = Vec::new();
        out_rows.push(String::new());
        out_gutter.push(crate::text::owned(label));
        assert(out_rows@[0]@ =~= Seq::<char>::empty());
        assert(rows_are(out_rows@, out_gutter@, line_rows(cs@, label@, wrap, cols as int, col_offset as int, room as int)));
        return (out_rows, out_gutter);
    }
    let r = wrapped_rows(&cs, label, cols, room);
    assert(line_rows(cs@, label@, true, cols as int, 0, room as int) == line_rows(
        cs@,
        label@,
        wrap,
        cols as int,
        col_offset as int,
        room as int,
    ));
    r
}

// ---------------------------------------------------------------------------
// Line geometry
// ---------------------------------------------------------------------------

/// The first line break at or before `i`, stepping back a unit at a time and
/// never below the first unit of the buffer.
pub open spec fn scan_back(buf: Seq<u8>, i: int, enc: TextEncoding) -> Option<int>
    decreases i,
{
    if i < 0 {
        None
    } else if is_break(buf, i, enc) {
        Some(i)
    } else if i < unit_len(enc) {
        None
    } else {
        scan_back(buf, i - unit_len(enc), enc)
    }
}

/// `a - b`, or 0 when `b` is larger.
pub open spec fn sat_sub(a: int, b: int) -> int {
    if a > b { a - b } else { 0 }
}

/// Where the line after the last break found scanning back from `i` starts:
/// just past that break, or the buffer's start when there is none.
pub open spec fn after_break(buf: Seq<u8>, i: int, enc: TextEncoding) -> int {
    match scan_back(buf, i, enc) {
        Some(p) => p + unit_len(enc),
        None => 0,
    }
}

/// Within a window that ends at a line start, where the line before it
/// starts: the terminator that ended the previous line (LF, CR or CRLF) is
/// stepped over first.
pub open spec fn prev_start(buf: Seq<u8>, enc: TextEncoding) -> int {
    let u = unit_len(enc);
    let i0 = sat_sub(buf.len() as int, u);
    let i1 = if unit_at(buf, i0, enc) == Some(10u16) { sat_sub(i0, u) } else { i0 };
    if unit_at(buf, i1, enc) == Some(13u16) && i1 >= u {
        after_break(buf, i1 - u, enc)
    } else if i1 == 0 && unit_at(buf, 0, enc) == Some(13u16) {
        0
    } else {
        after_break(buf, i1, enc)
    }
}

/// Within a window that ends at some offset, where the line holding that
/// offset starts.
pub open spec fn containing_start(buf: Seq<u8>, enc: TextEncoding) -> int {
    after_break(buf, sat_sub(buf.len() as int, unit_len(enc)), enc)
}

proof fn lemma_scan_back_bounds(buf: Seq<u8>, i: int, enc: TextEncoding)
    ensures
        scan_back(buf, i, enc) matches Some(p) ==> 0 <= p <= i && is_break(buf, p, enc),
    decreases i,
{
    if i >= 0 && !is_break(buf, i, enc) && i >= unit_len(enc) {
        lemma_scan_back_bounds(buf, i - unit_len(enc), enc);
    }
}

/// Scan back from `i` for a line break; see [`after_break`].
fn after_break_exec(buf: &[u8], i: usize, enc: TextEncoding) -> (r: usize)
    requires
        i < buf@.len(),
    ensures
        r == after_break(buf@, i as int, enc),
        r <= buf@.len(),
{
    let u: usize = if enc == TextEncoding::Utf16Le || enc == TextEncoding::Utf16Be { 2 } else { 1 };
    let n = buf.len();
    let mut j: usize = i;
    while true
        invariant
            n == buf@.len(),
            j <= i < buf@.len(),
            u as int == unit_len(enc),
            scan_back(buf@, j as int, enc) == scan_back(buf@, i as int, enc),
        decreases j,
    {
        let v = unit_value(buf, j, enc);
        if v == Some(10u16) || v == Some(13u16) {
            proof {
                lemma_scan_back_bounds(buf@, i as int, enc);
                if enc == TextEncoding::Utf16Le || enc == TextEncoding::Utf16Be {
                    assert(j + 1 < buf@.len());
                }
                assert(j + u <= buf@.len());
                assert(scan_back(buf@, j as int, enc) == Some(j as int));
            }
            return j + u;
        }
        if j < u {
            return 0;
        }
        j = j - u;
    }
    0
}

/// Where the line before the one starting at the end of `buf` starts, as an
/// index into `buf`; see [`prev_start`].
pub fn prev_line_start_in(buf: &[u8], enc: TextEncoding) -> (r: usize)
    ensures
        r == prev_start(buf@, enc),
{
    let u: usize = if enc == TextEncoding::Utf16Le || enc == TextEncoding::Utf16Be { 2 } else { 1 };
    let n = buf.len();
    if n == 0 {
        assert(unit_at(buf@, 0, enc) is None);
        assert(scan_back(buf@, 0, enc) is None);
        return 0;
    }
    let i0: usize = if n > u { n - u } else { 0 };
    let i1: usize = if unit_value(buf, i0, enc) == Some(10u16) {
        if i0 > u { i0 - u } else { 0 }
    } else {
        i0
    };
    if unit_value(buf, i1, enc) == Some(13u16) && i1 >= u {
        after_break_exec(buf, i1 - u, enc)
    } else if i1 == 0 && unit_value(buf, 0, enc) == Some(13u16) {
        0
    } else {
        after_break_exec(buf, i1, enc)
    }
}

/// Where the line holding the end of `buf` starts, as an index into `buf`;
/// see [`containing_start`].
pub fn line_start_in(buf: &[u8], enc: TextEncoding) -> (r: usize)
    ensures
        r == containing_start(buf@, enc),
{
    let u: usize = if enc == TextEncoding::Utf16Le || enc == TextEncoding::Utf16Be { 2 } else { 1 };
    let n = buf.len();
    if n == 0 {
        assert(scan_back(buf@, 0, enc) is None);
        return 0;
    }
    let i0: usize = if n > u { n - u } else { 0 };
    after_break_exec(buf, i0, enc)
}

/// Where the line after the one starting at `offset` starts, given the window
/// `buf` read there: past the first line in the window; when the window holds
/// no whole line, its edge rounded down to a character unit; the file's size
/// when nothing was read.
pub open spec fn next_start(offset: int, buf: Seq<u8>, enc: TextEncoding, at_eof: bool, size: int) -> int {
    if buf.len() == 0 {
        size
    } else {
        let spans = spans_from(buf, enc, at_eof, 0);
        if spans.len() > 0 {
            offset + spans[0].start + spans[0].total
        } else {
            (offset + buf.len()) / unit_len(enc) * unit_len(enc)
        }
    }
}

proof fn lemma_spans_bounded(buf: Seq<u8>, enc: TextEncoding, at_eof: bool, start: int)
    requires
        0 <= start,
        buf.len() <= usize::MAX,
    ensures
        forall|k: int|
            0 <= k < spans_from(buf, enc, at_eof, start).len() ==> start <= (#[trigger] spans_from(
                buf,
                enc,
                at_eof,
                start,
            )[k]).start && spans_from(buf, enc, at_eof, start)[k].start + spans_from(buf, enc, at_eof, start)[k].total
                <= buf.len(),
    decreases (if start <= buf.len() { buf.len() - start + 1 } else { 0 }),
{
    if 0 <= start <= buf.len() {
        lemma_next_break_bounds(buf, start, enc);
        match next_break(buf, start, enc) {
            Some(p) => {
                let u = unit_len(enc);
                let total = p + u - start + if unit_at(buf, p, enc) == Some(13u16) && unit_at(buf, p + u, enc)
                    == Some(10u16) {
                    u
                } else {
                    0
                };
                if !(total <= 0 || p < start) {
                    if unit_at(buf, p, enc) == Some(13u16) && unit_at(buf, p + u, enc) == Some(10u16) {
                        assert(p + u + u <= buf.len());
                    }
                    assert(start + total <= buf.len());
                    lemma_spans_bounded(buf, enc, at_eof, start + total);
                    let rest = spans_from(buf, enc, at_eof, start + total);
                    let all = spans_from(buf, enc, at_eof, start);
                    let span = LineSpan { start: start as usize, content: (p - start) as usize, total: total as usize };
                    assert(all == seq![span] + rest);
                    assert forall|k: int| 0 <= k < all.len() implies start <= (#[trigger] all[k]).start
                        && all[k].start + all[k].total <= buf.len() by {
                        if k > 0 {
                            assert(all[k] == rest[k - 1]);
                        }
                    }
                }
            },
            None => {},
        }
    }
}

/// Where the line after the one starting at `offset` starts; see
/// [`next_start`]. A window that reaches the end of the file or holds at
/// least one character unit always leads past `offset`, so stepping down
/// never stalls.
pub fn next_line_from(offset: u64, buf: &[u8], enc: TextEncoding, at_eof: bool, size: u64) -> (r: u64)
    requires
        offset + buf@.len() <= u64::MAX,
    ensures
        r == next_start(offset as int, buf@, enc, at_eof, size as int),
        buf@.len() > 0 && (at_eof || buf@.len() >= unit_len(enc)) ==> r > offset,
{
    if buf.len() == 0 {
        return size;
    }
    let spans = line_spans(buf, enc, at_eof);
    proof {
        lemma_spans_bounded(buf@, enc, at_eof, 0);
        lemma_next_break_bounds(buf@, 0, enc);
        if at_eof {
            assert(spans_from(buf@, enc, at_eof, 0).len() > 0);
        }
    }
    if spans.len() > 0 {
        let first = spans[0];
        assert(first.start + first.total <= buf@.len());
        offset + (first.start + first.total) as u64
    } else {
        let u: u64 = if enc == TextEncoding::Utf16Le || enc == TextEncoding::Utf16Be { 2 } else { 1 };
        let e = offset + buf.len() as u64;
        assert(e / u * u <= e) by (nonlinear_arith)
            requires
                u > 0,
        ;
        assert(buf@.len() >= u ==> e / u * u > offset) by (nonlinear_arith)
            requires
                u > 0,
                e == offset + buf@.len(),
        ;
        e / u * u
    }
}

// ---------------------------------------------------------------------------
// The line index
// ---------------------------------------------------------------------------

/// Offsets in strictly increasing order.
pub open spec fn ascending(s: Seq<u64>) -> bool {
    forall|i: int, j: int| 0 <= i < j < s.len() ==> s[i] < s[j]
}

/// The 1-based number of the line starting at `offset`, when the index
/// reaches that far and the offset is a recorded line start.
pub open spec fn line_number(starts: Seq<u64>, indexed_to: int, offset: int) -> Option<int> {
    if offset > indexed_to && offset != 0 {
        None
    } else if exists|i: int| 0 <= i < starts.len() && starts[i] == offset {
        Some((choose|i: int| 0 <= i < starts.len() && starts[i] == offset) + 1)
    } else {
        None
    }
}

/// The 1-based line number at `offset`; see [`line_number`]. `None` means
/// unknown: the gutter goes blank rather than paying for a full scan.
pub fn line_number_at(starts: &Vec<u64>, indexed_to: u64, offset: u64) -> (r: Option<u64>)
    requires
        ascending(starts@),
    ensures
        r matches Some(k) ==> line_number(starts@, indexed_to as int, offset as int) == Some(k as int),
        r is None ==> line_number(starts@, indexed_to as int, offset as int) is None,
{
    if offset > indexed_to && offset != 0 {
        return None;
    }
    let mut lo: usize = 0;
    let mut hi: usize = starts.len();
    while lo < hi
        invariant
            hi <= starts@.len(),
            lo <= hi,
            !(offset > indexed_to && offset != 0),
            ascending(starts@),
            forall|i: int| 0 <= i < lo ==> starts@[i] < offset,
            forall|i: int| hi <= i < starts@.len() ==> starts@[i] > offset,
        decreases hi - lo,
    {
        let mid = lo + (hi - lo) / 2;
        let v = starts[mid];
        if v == offset {
            proof {
                assert(0 <= mid < starts@.len() && starts@[mid as int] == offset);
                assert(exists|i: int| 0 <= i < starts@.len() && starts@[i] == offset);
                let w = choose|i: int| 0 <= i < starts@.len() && starts@[i] == offset;
                assert(w == mid as int) by {
                    if w < mid {
                        assert(starts@[w] < starts@[mid as int]);
                    } else if w > mid {
                        assert(starts@[mid as int] < starts@[w]);
                    }
                }
            }
            proof {
                assert(!(offset > indexed_to && offset != 0));
                assert(line_number(starts@, indexed_to as int, offset as int) == Some(mid as int + 1));
            }
            return Some(mid as u64 + 1);
        } else if v < offset {
            lo = mid + 1;
        } else {
            hi = mid;
        }
    }
    assert(!exists|i: int| 0 <= i < starts@.len() && starts@[i] == offset);
    None
}

/// The last recorded line start, or 0 for an empty index.
pub open spec fn last_start(s: Seq<u64>) -> int {
    if s.len() == 0 { 0 } else { s.last() as int }
}

/// The index after recording the line starts that follow `spans`, read from
/// `from`: each span's end is recorded when it lies past the last recorded
/// start and inside the file.
pub open spec fn recorded(starts: Seq<u64>, from: int, spans: Seq<LineSpan>, size: int) -> Seq<u64>
    decreases spans.len(),
{
    if spans.len() == 0 {
        starts
    } else {
        let before = recorded(starts, from, spans.drop_last(), size);
        let next = from + spans.last().start + spans.last().total;
        if next > last_start(before) && next < size { before.push(next as u64) } else { before }
    }
}

/// How far the index reaches after a chunk of `buf_len` bytes read at `from`
/// was split into `spans`: the end of the last span, or past the whole chunk
/// when it held no line.
pub open spec fn indexed_after(from: int, spans: Seq<LineSpan>, buf_len: int) -> int {
    if spans.len() == 0 { from + buf_len } else { from + spans.last().start + spans.last().total }
}

proof fn lemma_recorded_ascending(starts: Seq<u64>, from: int, spans: Seq<LineSpan>, size: int)
    requires
        ascending(starts),
        0 <= from,
        size <= u64::MAX,
    ensures
        ascending(recorded(starts, from, spans, size)),
        recorded(starts, from, spans, size).len() >= starts.len(),
        forall|i: int| 0 <= i < starts.len() ==> recorded(starts, from, spans, size)[i] == starts[i],
    decreases spans.len(),
{
    if spans.len() > 0 {
        lemma_recorded_ascending(starts, from, spans.drop_last(), size);
        let before = recorded(starts, from, spans.drop_last(), size);
        let next = from + spans.last().start + spans.last().total;
        if next > last_start(before) && next < size {
            let after = before.push(next as u64);
            assert forall|i: int, j: int| 0 <= i < j < after.len() implies after[i] < after[j] by {
                if j == before.len() {
                    if i < before.len() - 1 {
                        assert(before[i] < before[before.len() - 1]);
                    }
                }
            }
        }
    }
}

/// Record the line starts that a chunk read at `from` holds; returns how far
/// the index now reaches. See [`recorded`] and [`indexed_after`].
pub fn record_line_starts(starts: &mut Vec<u64>, from: u64, spans: &Vec<LineSpan>, buf_len: usize, size: u64) -> (r: u64)
    requires
        from + buf_len <= u64::MAX,
        forall|k: int| 0 <= k < spans@.len() ==> (#[trigger] spans@[k]).start + spans@[k].total <= buf_len,
    ensures
        final(starts)@ == recorded(old(starts)@, from as int, spans@, size as int),
        r == indexed_after(from as int, spans@, buf_len as int),
        ascending(old(starts)@) ==> ascending(final(starts)@),
{
    let ghost original = starts@;
    let mut end: u64 = from;
    let mut k: usize = 0;
    while k < spans.len()
        invariant
            from + buf_len <= u64::MAX,
            forall|q: int| 0 <= q < spans@.len() ==> (#[trigger] spans@[q]).start + spans@[q].total <= buf_len,
            k <= spans@.len(),
            starts@ == recorded(original, from as int, spans@.take(k as int), size as int),
            k > 0 ==> end == from + spans@[k - 1].start + spans@[k - 1].total,
        decreases spans@.len() - k,
    {
        let span = spans[k];
        let next: u64 = from + (span.start + span.total) as u64;
        let last: u64 = if starts.len() == 0 { 0 } else { starts[starts.len() - 1] };
        proof {
            assert(spans@.take(k + 1).drop_last() =~= spans@.take(k as int));
            assert(spans@.take(k + 1).last() == span);
        }
        if next > last && next < size {
            starts.push(next);
        }
        end = next;
        k = k + 1;
    }
    assert(spans@.take(k as int) =~= spans@);
    proof {
        if ascending(original) {
            lemma_recorded_ascending(original, from as int, spans@, size as int);
        }
    }
    if spans.len() == 0 {
        from + buf_len as u64
    } else {
        end
    }
}

// ---------------------------------------------------------------------------
// Position figures
// ---------------------------------------------------------------------------

/// The status line's percentage: how far into the file the window top is,
/// 100 for an empty file.
pub open spec fn percent_at(top: int, size: int) -> int {
    if size == 0 { 100 } else { (if top < size { top } else { size }) * 100 / size }
}

/// The status line's percentage; see [`percent_at`].
pub fn percent(top: u64, size: u64) -> (r: u8)
    requires
        (if top < size { top } else { size }) * 100 <= u64::MAX,
    ensures
        r == percent_at(top as int, size as int),
{
    if size == 0 {
        return 100;
    }
    let t: u64 = if top < size { top } else { size };
    let p = t * 100 / size;
    assert(p <= 100) by (nonlinear_arith)
        requires
            p == (t * 100) as int / (size as int),
            t <= size,
            size > 0,
    ;
    p as u8
}

/// Where a Goto lands before it is snapped to a row: an offset is clamped to
/// the file, a percentage (capped at 100) is that share of the file's bytes.
/// A line number is `None`: only the line index can place it.
pub open spec fn goto_place(target: GotoTarget, size: int) -> Option<int> {
    match target {
        GotoTarget::Offset(o) => Some(if o < size { o as int } else { size }),
        GotoTarget::Percent(p) => Some(size * (if p < 100 { p as int } else { 100 }) / 100),
        GotoTarget::Line(_) => None,
    }
}

/// Where a Goto by offset or percentage lands; see [`goto_place`].
pub fn goto_offset(target: GotoTarget, size: u64) -> (r: Option<u64>)
    requires
        size * 100 <= u64::MAX,
    ensures
        match r {
            Some(o) => goto_place(target, size as int) == Some(o as int),
            None => goto_place(target, size as int) is None,
        },
{
    match target {
        GotoTarget::Offset(o) => Some(if o < size { o } else { size }),
        GotoTarget::Percent(p) => {
            let q: u64 = if p < 100 { p as u64 } else { 100 };
            assert(size * q <= size * 100) by (nonlinear_arith)
                requires
                    q <= 100,
            ;
            Some(size * q / 100)
        },
        GotoTarget::Line(_) => None,
    }
}

/// `s` without its trailing line terminators.
pub open spec fn without_eol(s: Seq<char>) -> Seq<char>
    decreases s.len(),
{
    if s.len() > 0 && (s.last() == '\n' || s.last() == '\r') { without_eol(s.drop_last()) } else { s }
}

/// How many display rows a line occupies when wrapped at `cols`: its
/// characters (terminators aside) over the width, rounded up, at least one.
pub open spec fn wrapped_height(text: Seq<char>, cols: int) -> int {
    let n = without_eol(text).len() as int;
    let k = (n + cols - 1) / cols;
    if k > 1 { k } else { 1 }
}

/// How many display rows `text` occupies when wrapped at `cols`; see
/// [`wrapped_height`].
pub fn line_height(text: &str, cols: usize) -> (r: usize)
    requires
        cols > 0,
    ensures
        r == wrapped_height(text@, cols as int),
{
    let cs = chars_of(text);
    let mut n: usize = cs.len();
    assert(cs@.take(n as int) =~= cs@);
    while n > 0 && (cs[n - 1] == '\n' || cs[n - 1] == '\r')
        invariant
            n <= cs@.len(),
            without_eol(cs@.take(n as int)) == without_eol(cs@),
        decreases n,
    {
        assert(cs@.take(n as int).drop_last() =~= cs@.take(n - 1));
        n = n - 1;
    }
    assert(without_eol(cs@.take(n as int)) == cs@.take(n as int));
    let q = n / cols;
    assert(n % cols > 0 ==> q + 1 <= n) by (nonlinear_arith)
        requires
            cols > 0,
            q == n / cols,
    ;
    let k = if n % cols > 0 { q + 1 } else { q };
    assert(k == (n + cols - 1) / (cols as int)) by (nonlinear_arith)
        requires
            cols > 0,
            q == n / cols,
            k == if n % cols > 0 { q + 1 } else { q as int },
    ;
    if k > 1 { k } else { 1 }
}

} // verus!
