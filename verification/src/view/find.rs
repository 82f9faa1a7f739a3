//! The viewer's search: the needle is encoded into the file's own encoding
//! and matched on raw, ASCII-folded bytes, which works uniformly for UTF-8,
//! Latin-1 and UTF-16 without decoding the file.
use vstd::prelude::*;
use crate::types::TextEncoding;
use crate::view::codec::{bom_len, encode, encoded, strip_bom};

verus! {

/// `b` with ASCII upper case folded to lower case.
pub open spec fn lower_byte(b: u8) -> u8 {
    if 65 <= b && b <= 90 { (b + 32) as u8 } else { b }
}

/// Every byte of `s` ASCII-folded.
pub open spec fn folded(s: Seq<u8>) -> Seq<u8> {
    Seq::new(s.len(), |i: int| lower_byte(s[i]))
}

/// ASCII-fold a buffer so search is case-insensitive without decoding it.
pub fn ascii_lower(bytes: &[u8]) -> (r: Vec<u8>)
    ensures
        r@ == folded(bytes@),
{
    let mut out: Vec<u8> = Vec::new();
    let mut i: usize = 0;
    while i < bytes.len()
        invariant
            i <= bytes@.len(),
            out@ == folded(bytes@.take(i as int)),
        decreases bytes@.len() - i,
    {
        let b = bytes[i];
        let l: u8 = if 65 <= b && b <= 90 { b + 32 } else { b };
        out.push(l);
        assert(out@ =~= folded(bytes@.take(i + 1)));
        i = i + 1;
    }
    assert(bytes@.take(i as int) =~= bytes@);
    out
}

/// Whether `needle` occurs in `hay` at byte `p`.
pub open spec fn occurs_at(hay: Seq<u8>, needle: Seq<u8>, p: int) -> bool {
    0 <= p && p + needle.len() <= hay.len() && hay.subrange(p, p + needle.len()) == needle
}

fn occurs_at_exec(hay: &[u8], needle: &[u8], p: usize) -> (r: bool)
    requires
        p + needle@.len() <= hay@.len(),
    ensures
        r == occurs_at(hay@, needle@, p as int),
{
    let n = hay.len();
    let mut k: usize = 0;
    while k < needle.len()
        invariant
            n == hay@.len(),
            k <= needle@.len(),
            p + needle@.len() <= hay@.len(),
            forall|j: int| 0 <= j < k ==> hay@[p + j] == needle@[j],
        decreases needle@.len() - k,
    {
        if hay[p + k] != needle[k] {
            assert(hay@.subrange(p as int, p + needle@.len())[k as int] != needle@[k as int]);
            return false;
        }
        k = k + 1;
    }
    assert(hay@.subrange(p as int, p + needle@.len()) =~= needle@);
    true
}

/// The first place `needle` occurs in `hay`.
pub fn find_bytes(hay: &[u8], needle: &[u8]) -> (r: Option<usize>)
    requires
        needle@.len() > 0,
    ensures
        match r {
            Some(p) => occurs_at(hay@, needle@, p as int) && forall|q: int|
                0 <= q < p ==> !occurs_at(hay@, needle@, q),
            None => forall|q: int| !occurs_at(hay@, needle@, q),
        },
{
    if needle.len() > hay.len() {
        return None;
    }
    let last = hay.len() - needle.len();
    let mut p: usize = 0;
    while p <= last
        invariant
            last + needle@.len() == hay@.len(),
            needle@.len() > 0,
            hay@.len() == hay.len(),
            p <= last + 1,
            forall|q: int| 0 <= q < p ==> !occurs_at(hay@, needle@, q),
        decreases last + 1 - p,
    {
        if occurs_at_exec(hay, needle, p) {
            return Some(p);
        }
        p = p + 1;
    }
    None
}

/// The last place `needle` occurs in `hay`.
pub fn rfind_bytes(hay: &[u8], needle: &[u8]) -> (r: Option<usize>)
    requires
        needle@.len() > 0,
    ensures
        match r {
            Some(p) => occurs_at(hay@, needle@, p as int) && forall|q: int|
                p < q ==> !occurs_at(hay@, needle@, q),
            None => forall|q: int| !occurs_at(hay@, needle@, q),
        },
{
    if needle.len() > hay.len() {
        return None;
    }
    let mut p: usize = hay.len() - needle.len() + 1;
    while p > 0
        invariant
            p + needle@.len() <= hay@.len() + 1,
            forall|q: int| p <= q ==> !occurs_at(hay@, needle@, q),
        decreases p,
    {
        if occurs_at_exec(hay, needle, p - 1) {
            return Some(p - 1);
        }
        p = p - 1;
    }
    None
}

/// The byte pattern a search for `needle` looks for in a file of `encoding`:
/// the needle encoded, without a byte-order mark, ASCII-folded. `None` when
/// the needle is empty, cannot be written in the encoding, or comes to no
/// bytes.
pub open spec fn pattern_of(needle: Seq<char>, encoding: TextEncoding) -> Option<Seq<u8>> {
    if needle.len() == 0 {
        None
    } else {
        match encoded(needle, encoding) {
            None => None,
            Some(bytes) => {
                let body = if bytes.len() >= bom_len(encoding) { bytes.skip(bom_len(encoding)) } else { bytes };
                if body.len() == 0 { None } else { Some(folded(body)) }
            },
        }
    }
}

/// What a search for `needle` matches in a file of `encoding`; see
/// [`pattern_of`].
pub fn search_pattern(needle: &str, encoding: TextEncoding) -> (r: Option<Vec<u8>>)
    ensures
        match r {
            Some(p) => pattern_of(needle@, encoding) == Some(p@),
            None => pattern_of(needle@, encoding) is None,
        },
{
    if needle.is_empty() {
        return None;
    }
    match encode(needle, encoding) {
        None => None,
        Some(bytes) => {
            let pat = ascii_lower(strip_bom(bytes.as_slice(), encoding));
            if pat.len() == 0 {
                None
            } else {
                Some(pat)
            }
        },
    }
}

} // verus!
