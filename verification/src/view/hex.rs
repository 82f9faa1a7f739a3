//! The viewer's hex mode: the layout of a dump row, and motion over
//! row-aligned offsets.
use vstd::prelude::*;
use crate::text::string_from_chars;
use crate::types::ViewMotion;

verus! {

// ---------------------------------------------------------------------------
// Hex digits
// ---------------------------------------------------------------------------

/// The upper-case hex digit for `d` (0..16).
pub open spec fn hex_digit(d: int) -> char {
    if d < 10 { (48 + d) as char } else { (55 + d) as char }
}

/// `n` in upper-case hex, without leading zeros.
pub open spec fn hex_nat(n: nat) -> Seq<char>
    decreases n,
{
    if n < 16 { seq![hex_digit(n as int)] } else { hex_nat(n / 16).push(hex_digit((n % 16) as int)) }
}

/// `s` with zeros in front up to `width` characters.
pub open spec fn zero_pad(s: Seq<char>, width: int) -> Seq<char> {
    if s.len() < width { Seq::new((width - s.len()) as nat, |i: int| '0') + s } else { s }
}

/// A byte as two hex digits, as `{:02X}` writes it.
pub open spec fn byte_hex(b: u8) -> Seq<char> {
    seq![hex_digit((b / 16) as int), hex_digit((b % 16) as int)]
}

fn hex_digit_of(d: u64) -> (c: char)
    requires
        d < 16,
    ensures
        c == hex_digit(d as int),
{
    let b: u8 = if d < 10 { 48u8 + (d as u8) } else { 55u8 + (d as u8) };
    b as char
}

fn hex_digits(n: u64) -> (r: Vec<char>)
    ensures
        r@ == hex_nat(n as nat),
{
    let mut m: u64 = n / 16;
    let mut acc: Vec<char> = Vec::new();
    acc.push(hex_digit_of(n % 16));
    while m > 0
        invariant
            m > 0 ==> hex_nat(n as nat) == hex_nat(m as nat) + acc@,
            m == 0 ==> hex_nat(n as nat) == acc@,
        decreases m,
    {
        let c = hex_digit_of(m % 16);
        let ghost old_acc = acc@;
        acc.insert(0, c);
        assert(acc@ =~= seq![c] + old_acc);
        proof {
            if m >= 16 {
                assert(hex_nat(m as nat) == hex_nat((m / 16) as nat).push(c));
                assert(hex_nat((m / 16) as nat).push(c) + old_acc =~= hex_nat((m / 16) as nat) + acc@);
            } else {
                assert(hex_nat(m as nat) =~= seq![c]);
            }
        }
        m = m / 16;
    }
    acc
}

/// A file offset as the hex gutter shows it: upper-case, at least eight
/// digits (`{:08X}`).
pub fn hex_offset(offset: u64) -> (r: String)
    ensures
        r@ == zero_pad(hex_nat(offset as nat), 8),
{
    let digits = hex_digits(offset);
    let mut out: Vec<char> = Vec::new();
    let len = digits.len();
    if len < 8 {
        let mut k: usize = 0;
        while k < 8 - len
            invariant
                len < 8,
                k <= 8 - len,
                out@ == Seq::new(k as nat, |i: int| '0'),
            decreases 8 - len - k,
        {
            out.push('0');
            assert(out@ =~= Seq::new((k + 1) as nat, |i: int| '0'));
            k = k + 1;
        }
    }
    let ghost zeros = out@;
    let mut j: usize = 0;
    while j < len
        invariant
            len == digits@.len(),
            j <= len,
            out@ == zeros + digits@.take(j as int),
        decreases len - j,
    {
        out.push(digits[j]);
        assert(out@ =~= zeros + digits@.take(j + 1));
        j = j + 1;
    }
    assert(digits@.take(len as int) =~= digits@);
    assert(out@ =~= zero_pad(hex_nat(offset as nat), 8));
    string_from_chars(&out)
}

// ---------------------------------------------------------------------------
// Dump rows
// ---------------------------------------------------------------------------

/// The hex column of a row holding the first `n` bytes of `chunk`: byte pairs
/// separated by a space, with an extra space before every eighth byte.
pub open spec fn hex_upto(chunk: Seq<u8>, n: int) -> Seq<char>
    decreases n,
{
    if n <= 0 || n > chunk.len() {
        Seq::empty()
    } else {
        let sep: Seq<char> = if n - 1 == 0 {
            Seq::empty()
        } else if (n - 1) % 8 == 0 {
            seq![' ', ' ']
        } else {
            seq![' ']
        };
        hex_upto(chunk, n - 1) + sep + byte_hex(chunk[n - 1])
    }
}

/// `s` padded with spaces on the right to `width` characters.
pub open spec fn pad_right(s: Seq<char>, width: int) -> Seq<char> {
    if s.len() < width { s + Seq::new((width - s.len()) as nat, |i: int| ' ') } else { s }
}

/// The printable column of a row: printable ASCII as itself, anything else
/// as a dot.
pub open spec fn ascii_column(chunk: Seq<u8>) -> Seq<char> {
    Seq::new(chunk.len(), |i: int| if 0x20 <= chunk[i] && chunk[i] < 0x7F { chunk[i] as char } else { '.' })
}

/// One dump row for `chunk` in a layout of `bpr` bytes per row: the hex
/// column padded to the width of a full row, a bar, the printable column.
pub open spec fn hex_line(chunk: Seq<u8>, bpr: int) -> Seq<char> {
    pad_right(hex_upto(chunk, chunk.len() as int), bpr * 3 + bpr / 8) + seq![' ', '│', ' '] + ascii_column(chunk)
}

/// The `i`-th row's bytes when `buf` is cut into rows of `bpr`.
pub open spec fn row_chunk(buf: Seq<u8>, bpr: int, i: int) -> Seq<u8> {
    buf.subrange(i * bpr, if (i + 1) * bpr < buf.len() { (i + 1) * bpr } else { buf.len() as int })
}

/// How many rows `len` bytes fill at `bpr` per row.
pub open spec fn row_count(len: int, bpr: int) -> int {
    (len + bpr - 1) / bpr
}

fn push_byte_hex(out: &mut Vec<char>, b: u8)
    ensures
        final(out)@ == old(out)@ + byte_hex(b),
{
    let hi = hex_digit_of((b / 16) as u64);
    let lo = hex_digit_of((b % 16) as u64);
    out.push(hi);
    out.push(lo);
    assert(final(out)@ =~= old(out)@ + byte_hex(b));
}

/// One dump row for `chunk`; see [`hex_line`].
pub fn hex_row(chunk: &[u8], bpr: usize) -> (r: String)
    requires
        bpr * 3 + bpr / 8 <= usize::MAX,
    ensures
        r@ == hex_line(chunk@, bpr as int),
{
    let n = chunk.len();
    let mut out: Vec<char> = Vec::new();
    let mut j: usize = 0;
    while j < n
        invariant
            n == chunk@.len(),
            j <= n,
            out@ == hex_upto(chunk@, j as int),
        decreases n - j,
    {
        let ghost before = out@;
        if j > 0 {
            out.push(' ');
        }
        if j > 0 && j % 8 == 0 {
            out.push(' ');
        }
        push_byte_hex(&mut out, chunk[j]);
        proof {
            let sep: Seq<char> = if j == 0 {
                Seq::empty()
            } else if j % 8 == 0 {
                seq![' ', ' ']
            } else {
                seq![' ']
            };
            assert(out@ =~= before + sep + byte_hex(chunk@[j as int]));
        }
        j = j + 1;
    }
    let width: usize = bpr * 3 + bpr / 8;
    let ghost field = out@;
    if out.len() < width {
        let len = out.len();
        let mut k: usize = 0;
        while k < width - len
            invariant
                len == field.len(),
                len < width,
                k <= width - len,
                out@ == field + Seq::new(k as nat, |i: int| ' '),
            decreases width - len - k,
        {
            out.push(' ');
            assert(out@ =~= field + Seq::new((k + 1) as nat, |i: int| ' '));
            k = k + 1;
        }
    }
    assert(out@ =~= pad_right(field, bpr * 3 + bpr / 8));
    let ghost padded = out@;
    out.push(' ');
    out.push('│');
    out.push(' ');
    let ghost barred = out@;
    let mut i: usize = 0;
    while i < n
        invariant
            n == chunk@.len(),
            i <= n,
            out@ == barred + ascii_column(chunk@).take(i as int),
        decreases n - i,
    {
        let b = chunk[i];
        let c: char = if 0x20 <= b && b < 0x7F { b as char } else { '.' };
        out.push(c);
        assert(out@ =~= barred + ascii_column(chunk@).take(i + 1));
        i = i + 1;
    }
    assert(ascii_column(chunk@).take(n as int) =~= ascii_column(chunk@));
    assert(out@ =~= hex_line(chunk@, bpr as int));
    string_from_chars(&out)
}

proof fn lemma_row_step(len: int, bpr: int, i: int, start: int)
    requires
        bpr > 0,
        start == i * bpr,
        start < len,
        0 <= i,
    ensures
        (i + 1) * bpr == start + bpr,
        i <= start,
        i < row_count(len, bpr),
        (start + bpr < len) == (i + 1 < row_count(len, bpr)),
{
    assert((i + 1) * bpr == start + bpr && i <= start) by (nonlinear_arith)
        requires
            start == i * bpr,
            bpr > 0,
            0 <= i,
    ;
    assert(i < (len + bpr - 1) / bpr && ((start + bpr < len) == (i + 1 < (len + bpr - 1) / bpr))) by (nonlinear_arith)
        requires
            start == i * bpr,
            bpr > 0,
            start < len,
            0 <= i,
    ;
}

/// The dump of `buf`, read from offset `top`: one row per `bpr` bytes, each
/// with its offset in the gutter.
pub fn hex_rows(buf: &[u8], top: u64, bpr: usize) -> (r: (Vec<String>, Vec<String>))
    requires
        bpr > 0,
        bpr * 3 + bpr / 8 <= usize::MAX,
        top + buf@.len() <= u64::MAX,
    ensures
        r.0@.len() == row_count(buf@.len() as int, bpr as int),
        r.1@.len() == r.0@.len(),
        forall|i: int|
            0 <= i < r.0@.len() ==> (#[trigger] r.0@[i])@ == zero_pad(hex_nat((top + i * bpr) as nat), 8)
                && r.1@[i]@ == hex_line(row_chunk(buf@, bpr as int, i), bpr as int),
{
    let n = buf.len();
    let mut gutter: Vec<String> = Vec::new();
    let mut rows: Vec<String> = Vec::new();
    let mut start: usize = 0;
    let mut i: usize = 0;
    proof {
        assert(row_count(0, bpr as int) == 0) by (nonlinear_arith)
            requires
                bpr > 0,
        ;
        assert(n > 0 ==> row_count(n as int, bpr as int) > 0) by (nonlinear_arith)
            requires
                bpr > 0,
        ;
    }
    while start < n
        invariant
            bpr > 0,
            bpr * 3 + bpr / 8 <= usize::MAX,
            n == buf@.len(),
            top + n <= u64::MAX,
            start <= n,
            start < n ==> start == i * bpr,
            start == n ==> i == row_count(n as int, bpr as int),
            (start < n) ==> i < row_count(n as int, bpr as int),
            gutter@.len() == i,
            rows@.len() == i,
            forall|j: int|
                0 <= j < i ==> (#[trigger] gutter@[j])@ == zero_pad(hex_nat((top + j * bpr) as nat), 8)
                    && rows@[j]@ == hex_line(row_chunk(buf@, bpr as int, j), bpr as int),
        decreases n - start,
    {
        proof {
            lemma_row_step(n as int, bpr as int, i as int, start as int);
        }
        let end: usize = if n - start > bpr { start + bpr } else { n };
        let chunk = vstd::slice::slice_subrange(buf, start, end);
        assert(chunk@ == row_chunk(buf@, bpr as int, i as int));
        let label = hex_offset(top + start as u64);
        let row = hex_row(chunk, bpr);
        let ghost g_before = gutter@;
        let ghost r_before = rows@;
        gutter.push(label);
        rows.push(row);
        assert forall|j: int| 0 <= j < i + 1 implies (#[trigger] gutter@[j])@ == zero_pad(
            hex_nat((top + j * bpr) as nat),
            8,
        ) && rows@[j]@ == hex_line(row_chunk(buf@, bpr as int, j), bpr as int) by {
            if j < i {
                assert(gutter@[j] == g_before[j]);
                assert(rows@[j] == r_before[j]);
            }
        }
        start = end;
        i = i + 1;
    }
    (gutter, rows)
}

// ---------------------------------------------------------------------------
// Motion
// ---------------------------------------------------------------------------

proof fn lemma_round_down(x: int, b: int)
    requires
        x >= 0,
        b > 0,
    ensures
        0 <= x / b * b <= x,
        (x / b * b) % b == 0,
{
    assert(0 <= x / b * b <= x && (x / b * b) % b == 0) by (nonlinear_arith)
        requires
            x >= 0,
            b > 0,
    ;
}

/// `a - b`, or 0 when `b` is larger.
pub open spec fn minus(a: int, b: int) -> int {
    if a > b { a - b } else { 0 }
}

/// The top of the last row of a file of `size` bytes.
pub open spec fn last_row_top(size: int, bpr: int) -> int {
    minus(size, 1) / bpr * bpr
}

/// Where a hex-mode motion takes the window top, before row alignment.
pub open spec fn hex_target(top: int, size: int, bpr: int, rows: int, motion: ViewMotion) -> int {
    let page = bpr * rows;
    let last = last_row_top(size, bpr);
    match motion {
        ViewMotion::LineDown => if top + bpr < last { top + bpr } else { last },
        ViewMotion::LineUp => minus(top, bpr),
        ViewMotion::PageDown => if top + page < last { top + page } else { last },
        ViewMotion::PageUp => minus(top, page),
        ViewMotion::Home => 0,
        ViewMotion::End => minus(last, minus(page, bpr)),
        ViewMotion::ColLeft | ViewMotion::ColRight => top,
    }
}

/// Hex motion: pure arithmetic over row-aligned offsets. The new top is
/// [`hex_target`] rounded down to a row boundary.
pub fn hex_motion(top: u64, size: u64, bpr: u64, rows: u64, motion: ViewMotion) -> (r: u64)
    requires
        bpr > 0,
        top + bpr <= u64::MAX,
        top + bpr * rows <= u64::MAX,
    ensures
        r == hex_target(top as int, size as int, bpr as int, rows as int, motion) / (bpr as int) * (bpr as int),
        r % bpr == 0,
        top <= last_row_top(size as int, bpr as int) ==> r <= last_row_top(size as int, bpr as int),
{
    let page: u64 = bpr * rows;
    let s1 = size.saturating_sub(1);
    proof {
        lemma_round_down(s1 as int, bpr as int);
    }
    let last: u64 = s1 / bpr * bpr;
    assert(last == last_row_top(size as int, bpr as int));
    let t: u64 = match motion {
        ViewMotion::LineDown => if top + bpr < last { top + bpr } else { last },
        ViewMotion::LineUp => top.saturating_sub(bpr),
        ViewMotion::PageDown => if top + page < last { top + page } else { last },
        ViewMotion::PageUp => top.saturating_sub(page),
        ViewMotion::Home => 0,
        ViewMotion::End => last.saturating_sub(page.saturating_sub(bpr)),
        ViewMotion::ColLeft | ViewMotion::ColRight => top,
    };
    assert(t == hex_target(top as int, size as int, bpr as int, rows as int, motion));
    proof {
        lemma_round_down(t as int, bpr as int);
    }
    let r = t / bpr * bpr;
    proof {
        if top <= last {
            assert(t <= last);
        }
    }
    r
}

/// Snap an offset to the start of its hex row, clamped to the file.
pub fn hex_snap(offset: u64, size: u64, bpr: u64) -> (r: u64)
    requires
        bpr > 0,
    ensures
        r == (if offset < size { offset } else { size }) / bpr * bpr,
        r % bpr == 0,
        r <= size,
{
    let o = if offset < size { offset } else { size };
    proof {
        lemma_round_down(o as int, bpr as int);
    }
    o / bpr * bpr
}

} // verus!
