//! Character-level helpers over strings, stated on their `Seq<char>` views.
//!
//! Strings are compared the way `str`'s `Ord` compares them: byte-wise over
//! UTF-8, which is the same as comparing their characters by code point, in
//! order.
use vstd::prelude::*;
use vstd::utf8::{decode_utf8, valid_utf8};

verus! {

/// Lower-cased form of a string, as `str::to_lowercase` computes it (full
/// Unicode case mapping). A function of its argument alone.
pub uninterp spec fn spec_lowercase(s: Seq<char>) -> Seq<char>;

/// `str::to_lowercase`: the full Unicode lower-case mapping of `s`.
#[verifier::external_body]
pub(crate) fn lowercase(s: &str) -> (r: String)
    ensures
        r@ == spec_lowercase(s@),
{
    s.to_lowercase()
}

/// What `String::from_utf8_lossy` makes of `bytes`: invalid sequences become
/// U+FFFD. A function of its argument alone.
pub uninterp spec fn spec_utf8_lossy(bytes: Seq<u8>) -> Seq<char>;

/// `String::from_utf8_lossy(bytes).into_owned()`. Valid UTF-8 decodes
/// unchanged.
#[verifier::external_body]
pub(crate) fn utf8_lossy(bytes: &[u8]) -> (r: String)
    ensures
        r@ == spec_utf8_lossy(bytes@),
        valid_utf8(bytes@) ==> r@ == decode_utf8(bytes@),
{
    String::from_utf8_lossy(bytes).into_owned()
}

/// `String::push`: appends one character.
#[verifier::external_body]
pub(crate) fn push_char(s: &mut String, c: char)
    ensures
        final(s)@ == old(s)@.push(c),
{
    s.push(c)
}

/// `String::push_str`: appends a whole string.
#[verifier::external_body]
pub(crate) fn push_str(s: &mut String, t: &str)
    ensures
        final(s)@ == old(s)@ + t@,
{
    s.push_str(t)
}

/// The characters of `s`, in order.
pub fn chars_of(s: &str) -> (v: Vec<char>)
    ensures
        v@ == s@,
{
    let mut v: Vec<char> = Vec::new();
    for c in it: s.chars()
        invariant
            v@ == it.seq().take(it.index() as int),
    {
        v.push(c);
    }
    v
}

/// A string holding exactly the characters of `v`.
pub fn string_from_chars(v: &Vec<char>) -> (s: String)
    ensures
        s@ == v@,
{
    let mut s = String::new();
    let mut i: usize = 0;
    while i < v.len()
        invariant
            i <= v.len(),
            s@ == v@.take(i as int),
        decreases v.len() - i,
    {
        push_char(&mut s, v[i]);
        assert(v@.take(i as int).push(v@[i as int]) =~= v@.take(i + 1));
        i = i + 1;
    }
    assert(v@.take(v.len() as int) =~= v@);
    s
}

/// A copy of `s`.
pub fn owned(s: &str) -> (r: String)
    ensures
        r@ == s@,
{
    let v = chars_of(s);
    string_from_chars(&v)
}

/// Whether two strings hold the same characters.
pub fn str_eq(a: &str, b: &str) -> (r: bool)
    ensures
        r == (a@ == b@),
{
    let x = chars_of(a);
    let y = chars_of(b);
    chars_eq(&x, &y)
}

/// Whether two character vectors are equal.
pub fn chars_eq(x: &Vec<char>, y: &Vec<char>) -> (r: bool)
    ensures
        r == (x@ == y@),
{
    if x.len() != y.len() {
        return false;
    }
    let mut i: usize = 0;
    while i < x.len()
        invariant
            x.len() == y.len(),
            i <= x.len(),
            forall|k: int| 0 <= k < i ==> x@[k] == y@[k],
        decreases x.len() - i,
    {
        if x[i] != y[i] {
            return false;
        }
        i = i + 1;
    }
    assert(x@ =~= y@);
    true
}

/// `p` is a prefix of `s`.
pub open spec fn is_prefix(p: Seq<char>, s: Seq<char>) -> bool {
    p.len() <= s.len() && s.take(p.len() as int) == p
}

/// Whether `s` starts with `p`.
pub fn starts_with_chars(s: &Vec<char>, p: &Vec<char>) -> (r: bool)
    ensures
        r == is_prefix(p@, s@),
{
    if p.len() > s.len() {
        return false;
    }
    let mut i: usize = 0;
    while i < p.len()
        invariant
            p.len() <= s.len(),
            i <= p.len(),
            forall|k: int| 0 <= k < i ==> s@[k] == p@[k],
        decreases p.len() - i,
    {
        if s[i] != p[i] {
            assert(s@.take(p.len() as int)[i as int] != p@[i as int]);
            return false;
        }
        i = i + 1;
    }
    assert(s@.take(p.len() as int) =~= p@);
    true
}

/// Whether `c` occurs in `s`.
pub fn has_char(s: &Vec<char>, c: char) -> (r: bool)
    ensures
        r == s@.contains(c),
{
    let mut i: usize = 0;
    while i < s.len()
        invariant
            i <= s.len(),
            forall|k: int| 0 <= k < i ==> s@[k] != c,
        decreases s.len() - i,
    {
        if s[i] == c {
            assert(s@[i as int] == c);
            return true;
        }
        i = i + 1;
    }
    false
}

/// Three-way lexicographic order of two character sequences, by code point:
/// `-1`, `0` or `1`.
pub open spec fn lex_order(a: Seq<char>, b: Seq<char>) -> int
    decreases a.len(),
{
    if a.len() == 0 {
        if b.len() == 0 { 0 } else { -1 }
    } else if b.len() == 0 {
        1
    } else if a[0] < b[0] {
        -1
    } else if a[0] > b[0] {
        1
    } else {
        lex_order(a.drop_first(), b.drop_first())
    }
}

/// Swapping the arguments negates the order.
pub proof fn lemma_lex_order_antisym(a: Seq<char>, b: Seq<char>)
    ensures
        lex_order(a, b) == -lex_order(b, a),
        -1 <= lex_order(a, b) <= 1,
    decreases a.len(),
{
    if a.len() > 0 && b.len() > 0 && a[0] == b[0] {
        lemma_lex_order_antisym(a.drop_first(), b.drop_first());
    }
}

/// Order `0` is equality.
pub proof fn lemma_lex_order_zero(a: Seq<char>, b: Seq<char>)
    ensures
        lex_order(a, b) == 0 <==> a == b,
    decreases a.len(),
{
    if a.len() > 0 && b.len() > 0 {
        if a[0] == b[0] {
            lemma_lex_order_zero(a.drop_first(), b.drop_first());
            assert(a[0] == b[0]);
            if a.drop_first() == b.drop_first() {
                assert(a =~= seq![a[0]] + a.drop_first());
                assert(b =~= seq![b[0]] + b.drop_first());
            }
            if a == b {
                assert(a.drop_first() =~= b.drop_first());
            }
        } else {
            assert(a[0] != b[0]);
        }
    } else if a.len() == 0 && b.len() == 0 {
        assert(a =~= b);
    }
}

/// Lexicographic order of two character vectors.
pub fn lex_order_exec(a: &Vec<char>, b: &Vec<char>) -> (r: i8)
    ensures
        r as int == lex_order(a@, b@),
{
    let mut i: usize = 0;
    assert(a@.skip(0) =~= a@);
    assert(b@.skip(0) =~= b@);
    while i < a.len() && i < b.len()
        invariant
            i <= a.len(),
            i <= b.len(),
            lex_order(a@, b@) == lex_order(a@.skip(i as int), b@.skip(i as int)),
        decreases a.len() - i,
    {
        let x = a[i];
        let y = b[i];
        assert(a@.skip(i as int)[0] == a@[i as int]);
        assert(b@.skip(i as int)[0] == b@[i as int]);
        if x < y {
            return -1;
        }
        if x > y {
            return 1;
        }
        assert(a@.skip(i as int).drop_first() =~= a@.skip(i + 1));
        assert(b@.skip(i as int).drop_first() =~= b@.skip(i + 1));
        i = i + 1;
    }
    if a.len() == i && b.len() == i {
        0
    } else if a.len() == i {
        -1
    } else {
        1
    }
}

/// Whether `c` is whitespace in Unicode's sense, as `char::is_whitespace`
/// decides it.
pub open spec fn is_ws(c: char) -> bool {
    c == ' ' || c == '\t' || c == '\n' || c == '\r' || c == '\x0B' || c == '\x0C'
        || c == '\u{85}' || c == '\u{A0}' || c == '\u{1680}' || ('\u{2000}' <= c
        && c <= '\u{200A}') || c == '\u{2028}' || c == '\u{2029}' || c == '\u{202F}'
        || c == '\u{205F}' || c == '\u{3000}'
}

/// Executable whitespace test.
pub fn is_ws_exec(c: char) -> (r: bool)
    ensures
        r == is_ws(c),
{
    c == ' ' || c == '\t' || c == '\n' || c == '\r' || c == '\x0B' || c == '\x0C'
        || c == '\u{85}' || c == '\u{A0}' || c == '\u{1680}' || ('\u{2000}' <= c
        && c <= '\u{200A}') || c == '\u{2028}' || c == '\u{2029}' || c == '\u{202F}'
        || c == '\u{205F}' || c == '\u{3000}'
}

/// Index of the first non-whitespace character (or the length).
pub open spec fn trim_start_at(s: Seq<char>) -> int
    decreases s.len(),
{
    if s.len() == 0 || !is_ws(s[0]) { 0 } else { 1 + trim_start_at(s.drop_first()) }
}

/// One past the last non-whitespace character (or zero).
pub open spec fn trim_end_at(s: Seq<char>) -> int
    decreases s.len(),
{
    if s.len() == 0 || !is_ws(s.last()) { s.len() as int } else { trim_end_at(s.drop_last()) }
}

/// `s` without leading and trailing whitespace, as `str::trim` gives it.
pub open spec fn trimmed(s: Seq<char>) -> Seq<char> {
    let e = trim_end_at(s);
    s.take(e).skip(trim_start_at(s.take(e)))
}

proof fn lemma_trim_start_bounds(s: Seq<char>)
    ensures
        0 <= trim_start_at(s) <= s.len(),
        forall|k: int| 0 <= k < trim_start_at(s) ==> is_ws(#[trigger] s[k]),
        trim_start_at(s) < s.len() ==> !is_ws(s[trim_start_at(s)]),
    decreases s.len(),
{
    if s.len() > 0 && is_ws(s[0]) {
        lemma_trim_start_bounds(s.drop_first());
        assert forall|k: int| 0 <= k < trim_start_at(s) implies is_ws(#[trigger] s[k]) by {
            if k > 0 {
                assert(s[k] == s.drop_first()[k - 1]);
            }
        }
    }
}

proof fn lemma_trim_end_bounds(s: Seq<char>)
    ensures
        0 <= trim_end_at(s) <= s.len(),
        forall|k: int| trim_end_at(s) <= k < s.len() ==> is_ws(#[trigger] s[k]),
        trim_end_at(s) > 0 ==> !is_ws(s[trim_end_at(s) - 1]),
    decreases s.len(),
{
    if s.len() > 0 && is_ws(s.last()) {
        lemma_trim_end_bounds(s.drop_last());
        assert forall|k: int| trim_end_at(s) <= k < s.len() implies is_ws(#[trigger] s[k]) by {
            if k < s.len() - 1 {
                assert(s[k] == s.drop_last()[k]);
            }
        }
    }
}

/// Trimming never lengthens.
pub proof fn lemma_trimmed_len(s: Seq<char>)
    ensures
        trimmed(s).len() <= s.len(),
{
    lemma_trim_end_bounds(s);
    lemma_trim_start_bounds(s.take(trim_end_at(s)));
}

/// `v` with leading and trailing whitespace removed.
pub fn trim_chars(v: &Vec<char>) -> (r: Vec<char>)
    ensures
        r@ == trimmed(v@),
{
    let mut e: usize = v.len();
    assert(v@.take(v.len() as int) =~= v@);
    while e > 0 && is_ws_exec(v[e - 1])
        invariant
            e <= v.len(),
            trim_end_at(v@) == trim_end_at(v@.take(e as int)),
        decreases e,
    {
        assert(v@.take(e as int).drop_last() =~= v@.take(e - 1));
        e = e - 1;
    }
    assert(trim_end_at(v@.take(e as int)) == e);
    let ghost t = v@.take(e as int);
    let mut b: usize = 0;
    assert(t.skip(0) =~= t);
    while b < e && is_ws_exec(v[b])
        invariant
            b <= e,
            e <= v.len(),
            t == v@.take(e as int),
            trim_start_at(t) == b + trim_start_at(t.skip(b as int)),
        decreases e - b,
    {
        assert(t.skip(b as int)[0] == v@[b as int]);
        assert(t.skip(b as int).drop_first() =~= t.skip(b + 1));
        b = b + 1;
    }
    assert(trim_start_at(t.skip(b as int)) == 0) by {
        if b < e {
            assert(t.skip(b as int)[0] == v@[b as int]);
        }
    }
    let mut r: Vec<char> = Vec::new();
    let mut i: usize = b;
    while i < e
        invariant
            b <= i <= e,
            e <= v.len(),
            r@ == v@.subrange(b as int, i as int),
        decreases e - i,
    {
        r.push(v[i]);
        assert(v@.subrange(b as int, i as int).push(v@[i as int]) =~= v@.subrange(b as int, i + 1));
        i = i + 1;
    }
    assert(trimmed(v@) =~= v@.subrange(b as int, e as int));
    r
}

/// The string `s`, trimmed, as characters.
pub fn trim_str(s: &str) -> (r: Vec<char>)
    ensures
        r@ == trimmed(s@),
{
    let v = chars_of(s);
    trim_chars(&v)
}

/// The pieces of `rest` between occurrences of `sep`, after the finished
/// pieces `done` and the piece `cur` read so far.
pub open spec fn split_scan(done: Seq<Seq<char>>, cur: Seq<char>, rest: Seq<char>, sep: char) -> Seq<Seq<char>>
    decreases rest.len(),
{
    if rest.len() == 0 {
        done.push(cur)
    } else if rest[0] == sep {
        split_scan(done.push(cur), Seq::empty(), rest.drop_first(), sep)
    } else {
        split_scan(done, cur.push(rest[0]), rest.drop_first(), sep)
    }
}

/// Splits `s` at every occurrence of `sep`, as `str::split` does with a
/// one-character pattern.
pub open spec fn split_on(s: Seq<char>, sep: char) -> Seq<Seq<char>> {
    split_scan(Seq::empty(), Seq::empty(), s, sep)
}

/// Splitting always yields at least one piece more than was finished.
pub proof fn lemma_split_scan_len(done: Seq<Seq<char>>, cur: Seq<char>, rest: Seq<char>, sep: char)
    ensures
        split_scan(done, cur, rest, sep).len() >= done.len() + 1,
    decreases rest.len(),
{
    if rest.len() > 0 {
        if rest[0] == sep {
            lemma_split_scan_len(done.push(cur), Seq::empty(), rest.drop_first(), sep);
        } else {
            lemma_split_scan_len(done, cur.push(rest[0]), rest.drop_first(), sep);
        }
    }
}

/// `s` split at every `sep`.
pub fn split_char(s: &str, sep: char) -> (r: Vec<String>)
    ensures
        string_views(r@) == split_on(s@, sep),
{
    let cs = chars_of(s);
    let mut done: Vec<String> = Vec::new();
    let mut cur: Vec<char> = Vec::new();
    let mut i: usize = 0;
    assert(cs@.skip(0) =~= s@);
    assert(string_views(done@) =~= Seq::<Seq<char>>::empty());
    while i < cs.len()
        invariant
            i <= cs@.len(),
            cs@ == s@,
            split_scan(string_views(done@), cur@, cs@.skip(i as int), sep) == split_on(s@, sep),
        decreases cs@.len() - i,
    {
        let c = cs[i];
        assert(cs@.skip(i as int)[0] == c);
        assert(cs@.skip(i as int).drop_first() =~= cs@.skip(i + 1));
        if c == sep {
            let ghost before = string_views(done@);
            done.push(string_from_chars(&cur));
            assert(string_views(done@) =~= before.push(cur@));
            cur = Vec::new();
        } else {
            cur.push(c);
        }
        i = i + 1;
    }
    assert(cs@.skip(i as int) =~= Seq::<char>::empty());
    let ghost before = string_views(done@);
    done.push(string_from_chars(&cur));
    assert(string_views(done@) =~= before.push(cur@));
    done
}

/// The texts of a list of strings.
pub open spec fn string_views(v: Seq<String>) -> Seq<Seq<char>> {
    Seq::new(v.len(), |i: int| v[i]@)
}

/// The decimal digit `d` as a character.
pub open spec fn digit_char(d: int) -> char {
    (48 + d) as char
}

/// `n` written in decimal, as `{}` formats an unsigned integer.
pub open spec fn decimal_nat(n: nat) -> Seq<char>
    decreases n,
{
    if n < 10 { seq![digit_char(n as int)] } else { decimal_nat(n / 10).push(digit_char((n % 10) as int)) }
}

/// `n` written in decimal with a leading `-` when negative, as `{}` formats a
/// signed integer.
pub open spec fn decimal_int(n: int) -> Seq<char> {
    if n < 0 { seq!['-'] + decimal_nat((-n) as nat) } else { decimal_nat(n as nat) }
}

fn digit_of(d: u64) -> (c: char)
    requires
        d < 10,
    ensures
        c == digit_char(d as int),
{
    let b: u8 = 48u8 + (d as u8);
    b as char
}

/// The decimal digits of `n`.
pub fn decimal_u64(n: u64) -> (r: String)
    ensures
        r@ == decimal_nat(n as nat),
{
    let mut m: u64 = n / 10;
    let mut acc: Vec<char> = Vec::new();
    acc.push(digit_of(n % 10));
    while m > 0
        invariant
            m > 0 ==> decimal_nat(n as nat) == decimal_nat(m as nat) + acc@,
            m == 0 ==> decimal_nat(n as nat) == acc@,
        decreases m,
    {
        let c = digit_of(m % 10);
        let ghost old_acc = acc@;
        acc.insert(0, c);
        assert(acc@ =~= seq![c] + old_acc);
        proof {
            if m >= 10 {
                assert(decimal_nat(m as nat) == decimal_nat((m / 10) as nat).push(c));
                assert(decimal_nat((m / 10) as nat).push(c) + old_acc =~= decimal_nat((m / 10) as nat) + acc@);
            } else {
                assert(decimal_nat(m as nat) =~= seq![c]);
            }
        }
        m = m / 10;
    }
    string_from_chars(&acc)
}

/// `n` in decimal, with a leading `-` when negative.
pub fn decimal_i64(n: i64) -> (r: String)
    ensures
        r@ == decimal_int(n as int),
{
    if n < 0 {
        let mag: u64 = if n == i64::MIN { 9223372036854775808u64 } else { (-n) as u64 };
        let digits = decimal_u64(mag);
        let mut out = String::new();
        push_char(&mut out, '-');
        push_str(&mut out, digits.as_str());
        out
    } else {
        decimal_u64(n as u64)
    }
}

} // verus!
