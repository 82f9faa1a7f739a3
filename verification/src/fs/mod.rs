//! Filesystem engine: what a listing holds and the order it is shown in.
//!
//! Reading directories is I/O and stays with the caller; what the core owns is
//! what each entry says about itself, which names may be created or renamed
//! to, and the order a listing is shown in. `..` is pinned first, directories are
//! grouped ahead of files in every mode, and within those groups each mode
//! has its own key, with ties broken on the case-insensitive name.
use vstd::prelude::*;
use vstd::multiset::Multiset;
use crate::text::{chars_of, lex_order, lex_order_exec, lemma_lex_order_antisym, lowercase, spec_lowercase, string_from_chars};
use crate::filetype::{category_of, classify};
use crate::paths::{path_parent, std_path_parent};
use crate::nav::copy_entry;
use crate::text::{owned, trim_str, trimmed};
use crate::types::{DirListing, Entry, EntryCategory, EntryKind, EntryMarker, SortMode};

pub mod service;
pub mod watch;

verus! {

broadcast use vstd::seq_lib::group_to_multiset_ensures;

/// The synthetic parent entry's name.
pub open spec fn is_dotdot(name: Seq<char>) -> bool {
    name == seq!['.', '.']
}

/// Whether `name` is the synthetic parent entry `..`.
pub fn is_dotdot_name(name: &str) -> (r: bool)
    ensures
        r == is_dotdot(name@),
{
    let v = chars_of(name);
    v.len() == 2 && v[0] == '.' && v[1] == '.' && {
        assert(v@ =~= seq!['.', '.']);
        true
    }
}

/// Three-way order of two integers.
pub open spec fn int_order(x: int, y: int) -> int {
    if x < y { -1 } else if x > y { 1 } else { 0 }
}

/// Lexicographic combination: `first`, unless it ties.
pub open spec fn then_order(first: int, second: int) -> int {
    if first != 0 { first } else { second }
}

/// Case-insensitive name order.
pub open spec fn name_order(a: Entry, b: Entry) -> int {
    lex_order(spec_lowercase(a.name@), spec_lowercase(b.name@))
}

/// Index of the last `.` in `name`, or `-1` when there is none.
pub open spec fn last_dot(name: Seq<char>) -> int {
    crate::paths::last_dot_in(name)
}

/// The sort key of the extension: lower-cased text after the last dot, empty
/// when there is none or the only dot leads the name.
pub open spec fn ext_key(name: Seq<char>) -> Seq<char> {
    let i = last_dot(name);
    if i > 0 { spec_lowercase(name.skip(i + 1)) } else { Seq::empty() }
}

/// Folders rank before everything else.
pub open spec fn dir_rank(e: Entry) -> int {
    if e.kind == EntryKind::Dir { 0 } else { 1 }
}

/// The order a listing is shown in under `mode`: negative when `a` comes
/// first.
pub open spec fn entry_order(a: Entry, b: Entry, mode: SortMode) -> int {
    let ad = is_dotdot(a.name@);
    let bd = is_dotdot(b.name@);
    if ad != bd {
        if ad { -1 } else { 1 }
    } else {
        let within = match mode {
            SortMode::NameFoldersFirst => name_order(a, b),
            SortMode::TypeName => then_order(lex_order(ext_key(a.name@), ext_key(b.name@)), name_order(a, b)),
            SortMode::Size => if a.kind == EntryKind::Dir && b.kind == EntryKind::Dir {
                name_order(a, b)
            } else {
                then_order(int_order(b.size as int, a.size as int), name_order(a, b))
            },
            SortMode::Date => then_order(int_order(b.modified as int, a.modified as int), name_order(a, b)),
        };
        then_order(int_order(dir_rank(a), dir_rank(b)), within)
    }
}

/// Every neighbouring pair is in order.
pub open spec fn sorted_by(s: Seq<Entry>, mode: SortMode) -> bool {
    forall|i: int| 0 <= i < s.len() - 1 ==> #[trigger] entry_order(s[i], s[i + 1], mode) <= 0
}

/// Swapping the two entries negates their order.
pub proof fn lemma_entry_order_antisym(a: Entry, b: Entry, mode: SortMode)
    ensures
        entry_order(a, b, mode) == -entry_order(b, a, mode),
{
    lemma_lex_order_antisym(spec_lowercase(a.name@), spec_lowercase(b.name@));
    lemma_lex_order_antisym(ext_key(a.name@), ext_key(b.name@));
}

/// Index of the last `.` in `v`, if any.
fn last_dot_exec(v: &Vec<char>) -> (r: Option<usize>)
    ensures
        match r {
            Some(i) => i as int == last_dot(v@),
            None => last_dot(v@) == -1,
        },
{
    let mut i: usize = v.len();
    assert(v@.take(v.len() as int) =~= v@);
    while i > 0
        invariant
            i <= v.len(),
            last_dot(v@) == last_dot(v@.take(i as int)),
        decreases i,
    {
        assert(v@.take(i as int).last() == v@[i - 1]);
        if v[i - 1] == '.' {
            return Some(i - 1);
        }
        assert(v@.take(i as int).drop_last() =~= v@.take(i - 1));
        i = i - 1;
    }
    None
}

/// The characters of `v` from `start` on.
pub fn tail_from(v: &Vec<char>, start: usize) -> (r: Vec<char>)
    requires
        start <= v.len(),
    ensures
        r@ == v@.skip(start as int),
{
    let mut tail: Vec<char> = Vec::new();
    let mut k: usize = start;
    while k < v.len()
        invariant
            start <= k <= v.len(),
            tail@ == v@.subrange(start as int, k as int),
        decreases v.len() - k,
    {
        tail.push(v[k]);
        assert(v@.subrange(start as int, k as int).push(v@[k as int]) =~= v@.subrange(start as int, k + 1));
        k = k + 1;
    }
    assert(tail@ =~= v@.skip(start as int));
    tail
}

/// The lower-cased form of a character sequence.
pub fn lowercase_chars(v: &Vec<char>) -> (r: Vec<char>)
    ensures
        r@ == spec_lowercase(v@),
{
    let s = string_from_chars(v);
    let low = lowercase(s.as_str());
    chars_of(low.as_str())
}

/// The extension sort key of `name`.
fn ext_key_exec(name: &str) -> (r: Vec<char>)
    ensures
        r@ == ext_key(name@),
{
    let v = chars_of(name);
    match last_dot_exec(&v) {
        Some(i) if i > 0 => {
            proof { lemma_last_dot_bounds(v@); }
            let tail = tail_from(&v, i + 1);
            lowercase_chars(&tail)
        },
        _ => Vec::new(),
    }
}

/// `last_dot` is `-1` or the index of a `.`.
pub proof fn lemma_last_dot_bounds(name: Seq<char>)
    ensures
        -1 <= last_dot(name) < name.len(),
        last_dot(name) >= 0 ==> name[last_dot(name)] == '.',
        forall|k: int| last_dot(name) < k < name.len() ==> name[k] != '.',
    decreases name.len(),
{
    if name.len() > 0 && name.last() != '.' {
        lemma_last_dot_bounds(name.drop_last());
        assert forall|k: int| last_dot(name) < k < name.len() implies name[k] != '.' by {
            if k < name.len() - 1 {
                assert(name[k] == name.drop_last()[k]);
            }
        }
    }
}

/// Three-way order of two integers.
fn int_order_exec(x: i128, y: i128) -> (r: i8)
    ensures
        r as int == int_order(x as int, y as int),
{
    if x < y { -1 } else if x > y { 1 } else { 0 }
}

/// Case-insensitive name order of two entries.
fn name_order_exec(a: &Entry, b: &Entry) -> (r: i8)
    ensures
        r as int == name_order(*a, *b),
{
    let x = lowercase(a.name.as_str());
    let y = lowercase(b.name.as_str());
    let xs = chars_of(x.as_str());
    let ys = chars_of(y.as_str());
    lex_order_exec(&xs, &ys)
}

/// The listing order of two entries under `mode`.
pub fn entry_order_exec(a: &Entry, b: &Entry, mode: SortMode) -> (r: i8)
    ensures
        r as int == entry_order(*a, *b, mode),
{
    let ad = is_dotdot_name(a.name.as_str());
    let bd = is_dotdot_name(b.name.as_str());
    if ad != bd {
        return if ad { -1 } else { 1 };
    }
    let ar: i128 = if a.kind == EntryKind::Dir { 0 } else { 1 };
    let br: i128 = if b.kind == EntryKind::Dir { 0 } else { 1 };
    let grouped = int_order_exec(ar, br);
    if grouped != 0 {
        return grouped;
    }
    match mode {
        SortMode::NameFoldersFirst => name_order_exec(a, b),
        SortMode::TypeName => {
            let ea = ext_key_exec(a.name.as_str());
            let eb = ext_key_exec(b.name.as_str());
            let e = lex_order_exec(&ea, &eb);
            if e != 0 { e } else { name_order_exec(a, b) }
        },
        SortMode::Size => {
            if a.kind == EntryKind::Dir && b.kind == EntryKind::Dir {
                name_order_exec(a, b)
            } else {
                let s = int_order_exec(b.size as i128, a.size as i128);
                if s != 0 { s } else { name_order_exec(a, b) }
            }
        },
        SortMode::Date => {
            let d = int_order_exec(b.modified as i128, a.modified as i128);
            if d != 0 { d } else { name_order_exec(a, b) }
        },
    }
}

/// Whether the listing order under `mode` cannot tell `a` and `b` apart.
pub open spec fn ties(a: Entry, b: Entry, mode: SortMode) -> bool {
    entry_order(a, b, mode) == 0
}

/// The test for tying with `e` under `mode`.
pub open spec fn ties_with(e: Entry, mode: SortMode) -> spec_fn(Entry) -> bool {
    |y: Entry| ties(y, e, mode)
}

/// The entries of `s` that tie with `e` under `mode`, in their order in `s`.
pub open spec fn tie_class(s: Seq<Entry>, e: Entry, mode: SortMode) -> Seq<Entry> {
    s.filter(ties_with(e, mode))
}

/// Tying is transitive: it means agreeing on every part of the sort key.
pub proof fn lemma_ties_transitive(a: Entry, b: Entry, c: Entry, mode: SortMode)
    requires
        ties(a, b, mode),
        ties(b, c, mode),
    ensures
        ties(a, c, mode),
{
    let (la, lb, lc) = (spec_lowercase(a.name@), spec_lowercase(b.name@), spec_lowercase(c.name@));
    let (ea, eb, ec) = (ext_key(a.name@), ext_key(b.name@), ext_key(c.name@));
    crate::text::lemma_lex_order_zero(la, lb);
    crate::text::lemma_lex_order_zero(lb, lc);
    crate::text::lemma_lex_order_zero(la, lc);
    crate::text::lemma_lex_order_zero(ea, eb);
    crate::text::lemma_lex_order_zero(eb, ec);
    crate::text::lemma_lex_order_zero(ea, ec);
}

/// Filtering a sequence none of whose elements passes leaves nothing.
proof fn lemma_filter_none(s: Seq<Entry>, p: spec_fn(Entry) -> bool)
    requires
        forall|i: int| 0 <= i < s.len() ==> !p(#[trigger] s[i]),
    ensures
        s.filter(p) == Seq::<Entry>::empty(),
    decreases s.len(),
{
    reveal(Seq::filter);
    if s.len() > 0 {
        assert forall|i: int| 0 <= i < s.drop_last().len() implies !p(#[trigger] s.drop_last()[i]) by {
            assert(s.drop_last()[i] == s[i]);
        }
        lemma_filter_none(s.drop_last(), p);
        assert(!p(s[s.len() - 1]));
    }
}

/// Inserting `x` at `j`, ahead of every entry after it that it sorts
/// strictly before, puts it last in its tie class.
proof fn lemma_insert_tie_class(before: Seq<Entry>, j: int, x: Entry, e: Entry, mode: SortMode)
    requires
        0 <= j <= before.len(),
        forall|k: int| j <= k < before.len() ==> entry_order(x, #[trigger] before[k], mode) < 0,
    ensures
        tie_class(before.insert(j, x), e, mode) == if ties(x, e, mode) {
            tie_class(before, e, mode).push(x)
        } else {
            tie_class(before, e, mode)
        },
{
    reveal_with_fuel(Seq::filter, 2);
    let p = ties_with(e, mode);
    let head = before.take(j);
    let tail = before.skip(j);
    assert(before.insert(j, x) =~= head + seq![x] + tail);
    assert(head + tail =~= before);
    Seq::filter_distributes_over_add(head + seq![x], tail, p);
    Seq::filter_distributes_over_add(head, seq![x], p);
    Seq::filter_distributes_over_add(head, tail, p);
    assert(seq![x].drop_last() =~= Seq::<Entry>::empty());
    assert(Seq::<Entry>::empty().filter(p) =~= Seq::<Entry>::empty());
    if ties(x, e, mode) {
        assert forall|i: int| 0 <= i < tail.len() implies !p(#[trigger] tail[i]) by {
            let y = tail[i];
            assert(y == before[j + i]);
            if ties(y, e, mode) {
                lemma_entry_order_antisym(y, e, mode);
                lemma_ties_transitive(x, e, y, mode);
            }
        }
        lemma_filter_none(tail, p);
        assert(seq![x].filter(p) =~= seq![x]);
        assert(head.filter(p) + seq![x] + Seq::<Entry>::empty() =~= (head.filter(p) + Seq::<Entry>::empty()).push(x));
    } else {
        assert(seq![x].filter(p) =~= Seq::<Entry>::empty());
        assert(head.filter(p) + Seq::<Entry>::empty() =~= head.filter(p));
    }
}

/// Inserting one element adds it to the multiset.
proof fn lemma_insert_to_multiset<A>(s: Seq<A>, j: int, x: A)
    requires
        0 <= j <= s.len(),
    ensures
        s.insert(j, x).to_multiset() =~= s.to_multiset().insert(x),
{
    let t = s.insert(j, x);
    assert(t.remove(j) =~= s);
    assert(t.to_multiset().count(x) > 0) by {
        assert(t[j] == x);
        assert(t.contains(x));
    }
    assert(t.remove(j).to_multiset() =~= t.to_multiset().remove(x));
}

/// Sort a listing in place under `mode`: `..` pinned first, directories
/// grouped ahead of files, then the mode's own key, ties broken on the
/// case-insensitive name. The result holds exactly the entries it was given,
/// and the sort is stable: entries that tie keep the order they came in.
pub fn sort_entries(entries: &mut Vec<Entry>, mode: SortMode)
    ensures
        sorted_by(final(entries)@, mode),
        final(entries)@.to_multiset() == old(entries)@.to_multiset(),
        final(entries)@.len() == old(entries)@.len(),
        forall|e: Entry| #[trigger] tie_class(final(entries)@, e, mode) == tie_class(old(entries)@, e, mode),
{
    let mut src: Vec<Entry> = Vec::new();
    std::mem::swap(&mut src, entries);
    let ghost orig = src@;
    let mut out: Vec<Entry> = Vec::new();
    assert(orig.skip(0) =~= orig);
    assert forall|e: Entry| #[trigger] tie_class(out@, e, mode) == tie_class(orig.take(0), e, mode) by {
        assert(orig.take(0) =~= out@);
    }
    while src.len() > 0
        invariant
            sorted_by(out@, mode),
            src@.to_multiset().add(out@.to_multiset()) =~= orig.to_multiset(),
            src@.len() <= orig.len(),
            src@ == orig.skip(orig.len() - src@.len()),
            forall|e: Entry| #[trigger] tie_class(out@, e, mode) == tie_class(orig.take(orig.len() - src@.len()), e, mode),
        decreases src.len(),
    {
        let ghost c = orig.len() - src@.len();
        let x = src.remove(0);
        assert(x == orig[c]);
        assert(src@ =~= orig.skip(c + 1));
        let mut j: usize = out.len();
        while j > 0 && entry_order_exec(&x, &out[j - 1], mode) < 0
            invariant
                j <= out.len(),
                sorted_by(out@, mode),
                forall|k: int| j <= k < out.len() ==> entry_order(x, #[trigger] out@[k], mode) < 0,
            decreases j,
        {
            j = j - 1;
        }
        proof {
            if j > 0 {
                lemma_entry_order_antisym(x, out@[j - 1], mode);
            }
            lemma_insert_to_multiset(out@, j as int, x);
        }
        let ghost before = out@;
        assert(forall|k: int| j <= k < before.len() ==> entry_order(x, #[trigger] before[k], mode) < 0);
        assert(j > 0 ==> entry_order(before[j - 1], x, mode) <= 0);
        out.insert(j, x);
        assert forall|e: Entry| #[trigger] tie_class(out@, e, mode) == tie_class(orig.take(c + 1), e, mode) by {
            lemma_insert_tie_class(before, j as int, x, e, mode);
            reveal(Seq::filter);
            let p = ties_with(e, mode);
            let t = orig.take(c + 1);
            assert(t.drop_last() =~= orig.take(c));
            assert(t.last() == x);
        }
        assert(sorted_by(out@, mode)) by {
            assert forall|i: int| 0 <= i < out@.len() - 1 implies #[trigger] entry_order(out@[i], out@[i + 1], mode) <= 0 by {
                if i + 1 < j {
                    assert(out@[i] == before[i] && out@[i + 1] == before[i + 1]);
                    assert(entry_order(before[i], before[i + 1], mode) <= 0);
                } else if i + 1 == j {
                    assert(out@[i] == before[i] && out@[i + 1] == x);
                } else if i == j {
                    assert(out@[i] == x && out@[i + 1] == before[i]);
                    assert(entry_order(x, before[i], mode) < 0);
                } else {
                    assert(out@[i] == before[i - 1] && out@[i + 1] == before[i]);
                    assert(entry_order(before[i - 1], before[(i - 1) + 1], mode) <= 0);
                }
            }
        }
    }
    proof {
        assert(src@.to_multiset() =~= Multiset::empty());
        assert(orig.to_multiset().len() == orig.len());
        assert(orig.take(orig.len() as int) =~= orig);
    }
    *entries = out;
}

// ---------------------------------------------------------------------------
// Entries and listings
// ---------------------------------------------------------------------------

/// What one `stat` of a directory entry reported.
#[derive(Debug, Clone, Copy, PartialEq, Eq, Structural)]
pub struct MetaFacts {
    pub size: u64,
    /// Modification time, Unix seconds.
    pub modified: i64,
    /// Creation time, Unix seconds; `0` when not reported.
    pub created: i64,
    pub permissions: u32,
    pub uid: u32,
    pub gid: u32,
    pub nlink: u32,
    /// Any of the three x bits is set.
    pub is_executable: bool,
    pub is_dir: bool,
    pub is_file: bool,
}

/// The kind of a non-symlink entry: a directory, a regular file, or anything
/// else (a device, a socket, a pipe).
pub fn kind_of(is_dir: bool, is_file: bool) -> (r: EntryKind)
    ensures
        r == if is_dir { EntryKind::Dir } else if is_file { EntryKind::File } else { EntryKind::Special },
{
    if is_dir {
        EntryKind::Dir
    } else if is_file {
        EntryKind::File
    } else {
        EntryKind::Special
    }
}

/// Whether `e` is a bare entry named `name` of `kind` with `marker`: every
/// number zero and nothing else known.
pub open spec fn bare_entry(e: Entry, name: Seq<char>, kind: EntryKind, marker: EntryMarker) -> bool {
    &&& e.name@ == name
    &&& e.kind == kind
    &&& e.size == 0 && e.modified == 0 && e.created == 0 && e.permissions == 0
    &&& e.uid == 0 && e.gid == 0 && e.nlink == 0
    &&& e.owner is None && e.group is None && e.symlink_target is None
    &&& !e.is_executable
    &&& e.marker == marker
    &&& e.computed_size is None
}

/// The synthetic parent-directory entry.
pub fn dotdot_entry() -> (r: Entry)
    ensures
        bare_entry(r, seq!['.', '.'], EntryKind::Dir, EntryMarker::Okay),
        r.category == EntryCategory::Dir,
{
    let e = Entry {
        name: owned(".."),
        kind: EntryKind::Dir,
        size: 0,
        modified: 0,
        created: 0,
        permissions: 0,
        uid: 0,
        gid: 0,
        owner: None,
        group: None,
        nlink: 0,
        symlink_target: None,
        is_executable: false,
        category: EntryCategory::Dir,
        marker: EntryMarker::Okay,
        computed_size: None,
    };
    proof {
        reveal_strlit("..");
    }
    assert(e.name@ =~= seq!['.', '.']);
    e
}

/// An entry whose metadata could not be read: surfaced as a denied marker so
/// a single bad child never fails the whole listing.
pub fn unreadable_entry(name: String) -> (r: Entry)
    ensures
        bare_entry(r, name@, EntryKind::Special, EntryMarker::Denied),
        r.category == EntryCategory::Plain,
{
    Entry {
        name,
        kind: EntryKind::Special,
        size: 0,
        modified: 0,
        created: 0,
        permissions: 0,
        uid: 0,
        gid: 0,
        owner: None,
        group: None,
        nlink: 0,
        symlink_target: None,
        is_executable: false,
        category: EntryCategory::Plain,
        marker: EntryMarker::Denied,
        computed_size: None,
    }
}

/// The entry built from what was read about it. `link` is the entry's own
/// metadata (a symlink not followed); `target` is what a symlink points at,
/// `None` when it does not resolve. A symlink keeps its own kind and is
/// marked broken when its target does not resolve; sizes, times and
/// permissions come from the target when it resolves, else from the entry
/// itself. Owner and group names are left for the caller to fill in.
pub fn entry_from_meta(
    name: String,
    is_symlink: bool,
    link: &MetaFacts,
    target: Option<&MetaFacts>,
    symlink_target: Option<String>,
) -> (r: Entry)
    ensures
        r.name@ == name@,
        r.kind == if is_symlink { EntryKind::Symlink } else if link.is_dir { EntryKind::Dir } else if link.is_file {
            EntryKind::File
        } else {
            EntryKind::Special
        },
        r.marker == if is_symlink && target is None { EntryMarker::Broken } else { EntryMarker::Okay },
        ({
            let m = if is_symlink && target is Some { *target.unwrap() } else { *link };
            &&& r.size == m.size && r.modified == m.modified && r.created == m.created
            &&& r.permissions == m.permissions && r.uid == m.uid && r.gid == m.gid && r.nlink == m.nlink
            &&& r.is_executable == m.is_executable
        }),
        r.symlink_target == (if is_symlink { symlink_target } else { None }),
        r.owner is None && r.group is None && r.computed_size is None,
        r.category == category_of(r),
{
    let marker = if is_symlink && target.is_none() { EntryMarker::Broken } else { EntryMarker::Okay };
    let kind = if is_symlink { EntryKind::Symlink } else { kind_of(link.is_dir, link.is_file) };
    let m: MetaFacts = match target {
        Some(t) => if is_symlink { *t } else { *link },
        None => *link,
    };
    let mut e = Entry {
        name,
        kind,
        size: m.size,
        modified: m.modified,
        created: m.created,
        permissions: m.permissions,
        uid: m.uid,
        gid: m.gid,
        owner: None,
        group: None,
        nlink: m.nlink,
        symlink_target: if is_symlink { symlink_target } else { None },
        is_executable: m.is_executable,
        category: EntryCategory::Plain,
        marker,
        computed_size: None,
    };
    let c = classify(&e);
    e.category = c;
    e
}

/// Whether a name is hidden: it starts with a dot.
pub open spec fn is_hidden_name(name: Seq<char>) -> bool {
    name.len() > 0 && name[0] == '.'
}

/// The children a listing shows: all of them, or only those not hidden.
pub open spec fn shown(children: Seq<Entry>, show_hidden: bool) -> Seq<Entry> {
    children.filter(|e: Entry| show_hidden || !is_hidden_name(e.name@))
}

/// Assemble a listing of `path` from the entries read from it: hidden
/// entries dropped unless shown, the rest sorted per `sort`, and `..` pinned
/// first unless `path` is a filesystem root.
pub fn list_dir(path: &str, children: Vec<Entry>, show_hidden: bool, sort: SortMode) -> (r: DirListing)
    ensures
        r.path@ == path@,
        r.access is None,
        ({
            let head = if path_parent(path@) is Some { 1int } else { 0int };
            &&& r.entries@.len() == head + shown(children@, show_hidden).len()
            &&& head == 1 ==> bare_entry(r.entries@[0], seq!['.', '.'], EntryKind::Dir, EntryMarker::Okay)
                && r.entries@[0].category == EntryCategory::Dir
            &&& r.entries@.skip(head).to_multiset() == shown(children@, show_hidden).to_multiset()
            &&& sorted_by(r.entries@.skip(head), sort)
        }),
{
    let ghost pred = |e: Entry| show_hidden || !is_hidden_name(e.name@);
    let mut kept: Vec<Entry> = Vec::new();
    let mut rest = children;
    let ghost all = rest@;
    let mut i: usize = 0;
    let n = rest.len();
    proof {
        reveal_with_fuel(Seq::filter, 1);
        assert(all.take(0) =~= Seq::<Entry>::empty());
        assert(all.take(0).filter(pred) =~= Seq::<Entry>::empty());
    }
    while i < n
        invariant
            n == rest@.len(),
            rest@ == all,
            i <= n,
            pred == (|e: Entry| show_hidden || !is_hidden_name(e.name@)),
            kept@ == all.take(i as int).filter(pred),
        decreases n - i,
    {
        let e = &rest[i];
        let cs = chars_of(e.name.as_str());
        let hidden = cs.len() > 0 && cs[0] == '.';
        proof {
            assert(all.take(i + 1).drop_last() =~= all.take(i as int));
            assert(all.take(i + 1).last() == all[i as int]);
            reveal_with_fuel(Seq::filter, 1);
        }
        if show_hidden || !hidden {
            kept.push(copy_entry(e));
        }
        i = i + 1;
    }
    assert(all.take(n as int) =~= all);
    assert(kept@ =~= shown(all, show_hidden));
    sort_entries(&mut kept, sort);
    let mut entries: Vec<Entry> = Vec::new();
    let has_parent = std_path_parent(path).is_some();
    if has_parent {
        entries.push(dotdot_entry());
    }
    let ghost head = entries@;
    let mut k: usize = 0;
    let ghost sorted = kept@;
    let total = kept.len();
    let mut src = kept;
    while src.len() > 0
        invariant
            total == sorted.len(),
            head.len() <= 1,
            entries@ == head + sorted.take(k as int),
            src@ == sorted.skip(k as int),
            k <= sorted.len(),
        decreases src@.len(),
    {
        let e = src.remove(0);
        assert(sorted.skip(k as int)[0] == e);
        assert(sorted.skip(k as int).drop_first() =~= sorted.skip(k + 1));
        entries.push(e);
        assert(sorted.take(k + 1) =~= sorted.take(k as int).push(e));
        k = k + 1;
    }
    assert(sorted.skip(k as int).len() == 0);
    assert(sorted.take(k as int) =~= sorted);
    let r = DirListing { path: owned(path), entries, access: None };
    assert(r.entries@.skip(head.len() as int) =~= sorted);
    r
}

// ---------------------------------------------------------------------------
// Names for new and renamed entries
// ---------------------------------------------------------------------------

/// The directory name F7 creates, trimmed: refused when blank. It may be a
/// nested relative path, created in full.
pub fn new_dir_name(name: &str) -> (r: Result<String, String>)
    ensures
        match r {
            Ok(n) => trimmed(name@).len() > 0 && n@ == trimmed(name@),
            Err(m) => trimmed(name@).len() == 0 && m@ == "directory name cannot be empty"@,
        },
{
    let t = trim_str(name);
    if t.len() == 0 {
        return Err(owned("directory name cannot be empty"));
    }
    Ok(crate::text::string_from_chars(&t))
}

/// What an in-place rename comes to once its name is checked.
#[derive(Debug, Clone, PartialEq, Eq)]
pub enum RenamePlan {
    /// The new name is the old one: nothing to do.
    Unchanged,
    /// Rename to this bare name (trimmed).
    To(String),
}

/// Why an in-place rename of `old` to `new` is refused, if it is: the parent
/// entry cannot be renamed, and the new name must be a bare, non-blank name
/// other than `.` and `..`.
pub open spec fn rename_refusal(old: Seq<char>, new: Seq<char>) -> Option<Seq<char>> {
    let t = trimmed(new);
    if old == seq!['.', '.'] {
        Some("cannot rename the parent directory"@)
    } else if t.len() == 0 {
        Some("name cannot be empty"@)
    } else if t == seq!['.'] || t == seq!['.', '.'] {
        Some("invalid name"@)
    } else if t.contains('/') {
        Some("name cannot contain a path separator"@)
    } else {
        None
    }
}

/// Check an in-place rename (Shift+F6): the new name must be a bare file name
/// so the rename can never turn into a move. Whether something already sits at
/// the new name is the caller's question.
pub fn rename_plan(old: &str, new: &str) -> (r: Result<RenamePlan, String>)
    ensures
        match r {
            Err(m) => rename_refusal(old@, new@) == Some(m@),
            Ok(RenamePlan::Unchanged) => rename_refusal(old@, new@) is None && trimmed(new@) == old@,
            Ok(RenamePlan::To(n)) => rename_refusal(old@, new@) is None && trimmed(new@) != old@ && n@ == trimmed(
                new@,
            ),
        },
{
    if is_dotdot_name(old) {
        return Err(owned("cannot rename the parent directory"));
    }
    let t = trim_str(new);
    if t.len() == 0 {
        return Err(owned("name cannot be empty"));
    }
    if (t.len() == 1 && t[0] == '.') || (t.len() == 2 && t[0] == '.' && t[1] == '.') {
        proof {
            if t@.len() == 1 {
                assert(t@ =~= seq!['.']);
            } else {
                assert(t@ =~= seq!['.', '.']);
            }
        }
        return Err(owned("invalid name"));
    }
    proof {
        if t@ == seq!['.'] {
            assert(t@.len() == 1);
        }
        if t@ == seq!['.', '.'] {
            assert(t@.len() == 2);
        }
    }
    if crate::text::has_char(&t, '/') {
        return Err(owned("name cannot contain a path separator"));
    }
    let n = crate::text::string_from_chars(&t);
    if crate::text::str_eq(n.as_str(), old) {
        return Ok(RenamePlan::Unchanged);
    }
    Ok(RenamePlan::To(n))
}

/// The refusal when the new name is already taken: renaming never overwrites.
pub fn rename_collision(new: &str) -> (r: String)
    ensures
        r@ == "a file named \""@ + new@ + "\" already exists"@,
{
    let mut m = owned("a file named \"");
    crate::text::push_str(&mut m, new);
    crate::text::push_str(&mut m, "\" already exists");
    m
}

/// The type order reads the same lower-cased extension the colour classifier
/// does: a name's type key is its extension, or nothing when it has none.
pub proof fn lemma_type_key_is_the_extension(name: Seq<char>)
    ensures
        ext_key(name) == match crate::filetype::ext_of(name) {
            Some(e) => e,
            None => Seq::<char>::empty(),
        },
{
}

/// The type order ignores the case of extensions: two names whose
/// extensions differ only in case have the same type key, and two files or
/// two folders with such names are ordered by name alone.
pub proof fn lemma_type_order_ignores_extension_case(a: Entry, b: Entry)
    requires
        last_dot(a.name@) > 0,
        last_dot(b.name@) > 0,
        spec_lowercase(a.name@.skip(last_dot(a.name@) + 1)) == spec_lowercase(b.name@.skip(last_dot(b.name@) + 1)),
    ensures
        ext_key(a.name@) == ext_key(b.name@),
        !is_dotdot(a.name@) && !is_dotdot(b.name@) && dir_rank(a) == dir_rank(b) ==> entry_order(a, b, SortMode::TypeName)
            == name_order(a, b),
{
    crate::text::lemma_lex_order_zero(ext_key(a.name@), ext_key(b.name@));
}

} // verus!
