//! The F1 help book: an About topic and the live list of shortcuts.
//!
//! The whole book is built here and handed over as data; the renderer picks a
//! topic and paints it. That includes the search filter: which rows match a
//! query is a matching rule, so it lives here.
use vstd::prelude::*;
use crate::actions::{action_view, catalog, catalog_table, category_views, ActionInfo, ActionView, CategoryView};
use crate::config::{binding_view, binding_views, BindingView};
use crate::keys::{chord_text, ChordStyle};
use crate::plugin::HelpTopic;
use crate::text::{
    chars_of, is_ws, is_ws_exec, lowercase, owned, push_char, push_str, spec_lowercase, split_char, split_on,
    str_eq, string_from_chars, string_views,
};
use crate::types::{
    AboutBody, AppInfo, HelpBody, HelpBook, HelpLine, HelpLink, HelpTopicView, KeyBinding, ShortcutGroup,
    ShortcutItem, ShortcutSection, ShortcutsBody,
};

verus! {

/// Everything a topic needs to render itself.
pub struct HelpCtx<'a> {
    pub app: &'a AppInfo,
    /// The keymap in force.
    pub keymap: &'a [KeyBinding],
    /// The user's raw search text; empty means "show everything".
    pub query: &'a str,
    /// How chords are spelled on this platform.
    pub style: ChordStyle,
}

// ---------------------------------------------------------------------------
// Search terms and matching
// ---------------------------------------------------------------------------

/// The whitespace-separated words of `rest` after the words `done` and the
/// word `cur` read so far, as `str::split_whitespace` yields them.
pub open spec fn words_scan(done: Seq<Seq<char>>, cur: Seq<char>, rest: Seq<char>) -> Seq<Seq<char>>
    decreases rest.len(),
{
    if rest.len() == 0 {
        if cur.len() > 0 { done.push(cur) } else { done }
    } else if is_ws(rest[0]) {
        words_scan(if cur.len() > 0 { done.push(cur) } else { done }, Seq::empty(), rest.drop_first())
    } else {
        words_scan(done, cur.push(rest[0]), rest.drop_first())
    }
}

/// The query split into lower-cased terms.
pub open spec fn terms_of(query: Seq<char>) -> Seq<Seq<char>> {
    let w = words_scan(Seq::empty(), Seq::empty(), query);
    Seq::new(w.len(), |i: int| spec_lowercase(w[i]))
}

/// Whether `t` occurs in `h`.
pub open spec fn occurs_in(t: Seq<char>, h: Seq<char>) -> bool {
    exists|i: int| 0 <= i && i + t.len() <= h.len() && #[trigger] h.subrange(i, i + t.len()) == t
}

/// Words one part of a chord is also findable by, so `cmd` finds `⌘`.
pub open spec fn alias_text(part: Seq<char>) -> Seq<char> {
    if part == "Meta"@ {
        "meta cmd command"@
    } else if part == "Ctrl"@ {
        "ctrl control"@
    } else if part == "Alt"@ {
        "alt option"@
    } else if part == "Shift"@ {
        "shift"@
    } else if part == "ArrowUp"@ {
        "arrow up"@
    } else if part == "ArrowDown"@ {
        "arrow down"@
    } else if part == "ArrowLeft"@ {
        "arrow left"@
    } else if part == "ArrowRight"@ {
        "arrow right"@
    } else if part == "PageUp"@ {
        "page up pgup"@
    } else if part == "PageDown"@ {
        "page down pgdn"@
    } else if part == "Backspace"@ {
        "backspace"@
    } else if part == "Escape"@ {
        "escape esc"@
    } else if part == "Delete"@ {
        "delete del"@
    } else if part == "Enter"@ {
        "enter return"@
    } else if part == " "@ {
        "space"@
    } else {
        Seq::empty()
    }
}

/// Each piece followed by a space, run together.
pub open spec fn spaced(s: Seq<Seq<char>>) -> Seq<char>
    decreases s.len(),
{
    if s.len() == 0 { Seq::empty() } else { spaced(s.drop_last()) + s.last() + seq![' '] }
}

/// The aliases of each part of a chord, spaced.
pub open spec fn aliases_of(chord: Seq<char>) -> Seq<char> {
    let parts = split_on(chord, '+');
    spaced(Seq::new(parts.len(), |i: int| alias_text(parts[i])))
}

/// Each chord as typed, followed by the aliases of its parts.
pub open spec fn chords_hay(chords: Seq<Seq<char>>) -> Seq<char>
    decreases chords.len(),
{
    if chords.len() == 0 {
        Seq::empty()
    } else {
        chords_hay(chords.drop_last()) + chords.last() + seq![' '] + aliases_of(chords.last())
    }
}

/// Everything a shortcut row can be found by: its context, its category, its
/// action id, title and description, its chords as typed with their aliases,
/// and its keys as painted.
pub open spec fn row_hay(
    section_title: Seq<char>,
    category_title: Seq<char>,
    info: ActionView,
    chords: Seq<Seq<char>>,
    keys: Seq<Seq<char>>,
) -> Seq<char> {
    spaced(seq![section_title, category_title, info.id, info.title, info.description]) + chords_hay(chords) + spaced(
        keys,
    )
}

/// Whether a row survives the filter: every term occurs in its lower-cased
/// haystack.
pub open spec fn row_matches(terms: Seq<Seq<char>>, hay: Seq<char>) -> bool {
    terms.len() == 0 || forall|k: int| 0 <= k < terms.len() ==> occurs_in(#[trigger] terms[k], spec_lowercase(hay))
}

/// The query split into lower-cased terms.
fn query_terms(query: &str) -> (r: Vec<String>)
    ensures
        string_views(r@) == terms_of(query@),
{
    let cs = chars_of(query);
    let mut words: Vec<String> = Vec::new();
    let mut cur: Vec<char> = Vec::new();
    let mut i: usize = 0;
    assert(cs@.skip(0) =~= query@);
    assert(string_views(words@) =~= Seq::<Seq<char>>::empty());
    while i < cs.len()
        invariant
            i <= cs@.len(),
            cs@ == query@,
            words_scan(string_views(words@), cur@, cs@.skip(i as int)) == words_scan(
                Seq::empty(),
                Seq::empty(),
                query@,
            ),
        decreases cs@.len() - i,
    {
        let c = cs[i];
        assert(cs@.skip(i as int)[0] == c);
        assert(cs@.skip(i as int).drop_first() =~= cs@.skip(i + 1));
        if is_ws_exec(c) {
            if cur.len() > 0 {
                let ghost before = string_views(words@);
                words.push(string_from_chars(&cur));
                assert(string_views(words@) =~= before.push(cur@));
            }
            cur = Vec::new();
        } else {
            cur.push(c);
        }
        i = i + 1;
    }
    assert(cs@.skip(i as int) =~= Seq::<char>::empty());
    if cur.len() > 0 {
        let ghost before = string_views(words@);
        words.push(string_from_chars(&cur));
        assert(string_views(words@) =~= before.push(cur@));
    }
    let ghost w = string_views(words@);
    let mut out: Vec<String> = Vec::new();
    let mut k: usize = 0;
    while k < words.len()
        invariant
            k <= words@.len(),
            w == string_views(words@),
            out@.len() == k,
            forall|j: int| 0 <= j < k ==> (#[trigger] out@[j])@ == spec_lowercase(w[j]),
        decreases words@.len() - k,
    {
        out.push(lowercase(words[k].as_str()));
        k = k + 1;
    }
    assert(string_views(out@) =~= terms_of(query@));
    out
}

/// Whether `t` occurs in `h`.
fn occurs(t: &Vec<char>, h: &Vec<char>) -> (r: bool)
    ensures
        r == occurs_in(t@, h@),
{
    if t.len() == 0 {
        assert(h@.subrange(0int, 0int + t@.len()) =~= t@);
        return true;
    }
    if t.len() > h.len() {
        return false;
    }
    let n = t.len();
    let hl = h.len();
    let last = hl - n;
    let mut i: usize = 0;
    while i <= last
        invariant
            n == t@.len(),
            hl == h@.len(),
            0 < n <= h@.len(),
            last == h@.len() - n,
            i <= last + 1,
            forall|p: int| 0 <= p < i ==> #[trigger] h@.subrange(p, p + n) != t@,
        decreases last + 1 - i,
    {
        let mut j: usize = 0;
        let mut same = true;
        while j < n && same
            invariant
                n == t@.len(),
                hl == h@.len(),
                j <= n,
                i <= last,
                last == h@.len() - n,
                forall|q: int| 0 <= q < j ==> h@[i + q] == t@[q],
                !same ==> j < n && h@[i + j] != t@[j as int],
            decreases n - j + (if same { 1int } else { 0int }),
        {
            assert(i + j < h@.len());
            let k = i + j;
            if h[k] != t[j] {
                same = false;
            } else {
                j = j + 1;
            }
        }
        if same {
            assert(h@.subrange(i as int, i + n) =~= t@);
            return true;
        }
        assert(h@.subrange(i as int, i + n)[j as int] != t@[j as int]);
        assert(i < h@.len());
        i = i + 1;
    }
    assert forall|p: int| 0 <= p && p + t@.len() <= h@.len() implies #[trigger] h@.subrange(p, p + t@.len()) != t@ by {
        assert(p < i);
    }
    false
}

/// The alias words of one chord part.
fn part_aliases(part: &str) -> (r: &'static str)
    ensures
        r@ == alias_text(part@),
{
    if str_eq(part, "Meta") {
        "meta cmd command"
    } else if str_eq(part, "Ctrl") {
        "ctrl control"
    } else if str_eq(part, "Alt") {
        "alt option"
    } else if str_eq(part, "Shift") {
        "shift"
    } else if str_eq(part, "ArrowUp") {
        "arrow up"
    } else if str_eq(part, "ArrowDown") {
        "arrow down"
    } else if str_eq(part, "ArrowLeft") {
        "arrow left"
    } else if str_eq(part, "ArrowRight") {
        "arrow right"
    } else if str_eq(part, "PageUp") {
        "page up pgup"
    } else if str_eq(part, "PageDown") {
        "page down pgdn"
    } else if str_eq(part, "Backspace") {
        "backspace"
    } else if str_eq(part, "Escape") {
        "escape esc"
    } else if str_eq(part, "Delete") {
        "delete del"
    } else if str_eq(part, "Enter") {
        "enter return"
    } else if str_eq(part, " ") {
        "space"
    } else {
        proof {
            reveal_strlit("");
        }
        ""
    }
}

/// Append `piece` and a space.
fn push_spaced(hay: &mut String, piece: &str)
    ensures
        final(hay)@ == old(hay)@ + piece@ + seq![' '],
{
    push_str(hay, piece);
    push_char(hay, ' ');
}

/// Whether one shortcut row survives the filter.
fn matches(
    terms: &Vec<String>,
    section_title: &str,
    category_title: &str,
    info: &ActionInfo,
    chords: &Vec<String>,
    keys: &Vec<String>,
) -> (r: bool)
    ensures
        r == row_matches(
            string_views(terms@),
            row_hay(section_title@, category_title@, action_view(*info), string_views(chords@), string_views(keys@)),
        ),
{
    if terms.len() == 0 {
        return true;
    }
    let mut hay = String::new();
    push_spaced(&mut hay, section_title);
    push_spaced(&mut hay, category_title);
    push_spaced(&mut hay, info.id);
    push_spaced(&mut hay, info.title);
    push_spaced(&mut hay, info.description);
    let ghost head = hay@;
    proof {
        let s5 = seq![section_title@, category_title@, info.id@, info.title@, info.description@];
        let s4 = s5.drop_last();
        let s3 = s4.drop_last();
        let s2 = s3.drop_last();
        let s1 = s2.drop_last();
        let s0 = s1.drop_last();
        assert(s0 =~= Seq::<Seq<char>>::empty());
        assert(spaced(s0) =~= Seq::<char>::empty());
        assert(spaced(s1) =~= section_title@ + seq![' ']);
        assert(spaced(s2) =~= section_title@ + seq![' '] + category_title@ + seq![' ']);
        assert(spaced(s3) =~= spaced(s2) + info.id@ + seq![' ']);
        assert(spaced(s4) =~= spaced(s3) + info.title@ + seq![' ']);
        assert(spaced(s5) =~= spaced(s4) + info.description@ + seq![' ']);
        assert(spaced(s5) =~= head);
    }
    let ghost cs = string_views(chords@);
    let mut i: usize = 0;
    assert(cs.take(0) =~= Seq::<Seq<char>>::empty());
    while i < chords.len()
        invariant
            i <= chords@.len(),
            cs == string_views(chords@),
            hay@ == head + chords_hay(cs.take(i as int)),
        decreases chords@.len() - i,
    {
        let chord = chords[i].as_str();
        let ghost before = hay@;
        push_spaced(&mut hay, chord);
        let parts = split_char(chord, '+');
        let ghost ps = string_views(parts@);
        let ghost al = Seq::new(ps.len(), |k: int| alias_text(ps[k]));
        let ghost mid = hay@;
        let mut k: usize = 0;
        assert(al.take(0) =~= Seq::<Seq<char>>::empty());
        while k < parts.len()
            invariant
                k <= parts@.len(),
                ps == string_views(parts@),
                al == Seq::new(ps.len(), |k: int| alias_text(ps[k])),
                hay@ == mid + spaced(al.take(k as int)),
            decreases parts@.len() - k,
        {
            let a = part_aliases(parts[k].as_str());
            push_spaced(&mut hay, a);
            assert(al.take(k + 1).drop_last() =~= al.take(k as int));
            assert(al.take(k + 1).last() == a@);
            assert(hay@ =~= mid + spaced(al.take(k + 1)));
            k = k + 1;
        }
        assert(al.take(k as int) =~= al);
        assert(cs.take(i + 1).drop_last() =~= cs.take(i as int));
        assert(cs.take(i + 1).last() == chord@);
        assert(hay@ =~= head + chords_hay(cs.take(i + 1)));
        i = i + 1;
    }
    assert(cs.take(i as int) =~= cs);
    let ghost mid2 = hay@;
    let ghost ks = string_views(keys@);
    let mut j: usize = 0;
    assert(ks.take(0) =~= Seq::<Seq<char>>::empty());
    while j < keys.len()
        invariant
            j <= keys@.len(),
            ks == string_views(keys@),
            hay@ == mid2 + spaced(ks.take(j as int)),
        decreases keys@.len() - j,
    {
        push_spaced(&mut hay, keys[j].as_str());
        assert(ks.take(j + 1).drop_last() =~= ks.take(j as int));
        assert(hay@ =~= mid2 + spaced(ks.take(j + 1)));
        j = j + 1;
    }
    assert(ks.take(j as int) =~= ks);
    let lower = chars_of(lowercase(hay.as_str()).as_str());
    let ghost ts = string_views(terms@);
    let mut t: usize = 0;
    let mut all = true;
    while t < terms.len() && all
        invariant
            t <= terms@.len(),
            ts == string_views(terms@),
            all ==> forall|k: int| 0 <= k < t ==> occurs_in(#[trigger] ts[k], lower@),
            !all ==> !(forall|k: int| 0 <= k < ts.len() ==> occurs_in(#[trigger] ts[k], lower@)),
        decreases terms@.len() - t,
    {
        let tc = chars_of(terms[t].as_str());
        if !occurs(&tc, &lower) {
            assert(!occurs_in(ts[t as int], lower@));
            all = false;
        }
        t = t + 1;
    }
    all
}

// ---------------------------------------------------------------------------
// The shortcuts topic
// ---------------------------------------------------------------------------

/// Keyboard contexts in the order they are presented, with their headings. A
/// context absent from here is not shown.
pub open spec fn sections_table() -> Seq<(Seq<char>, Seq<char>)> {
    seq![
        ("panels"@, "Panels"@),
        ("search"@, "Quick search"@),
        ("viewer"@, "Viewer"@),
        ("editor"@, "Editor"@),
        ("terminal"@, "Terminal"@),
        ("help"@, "Help"@),
    ]
}

/// All chords bound to `action` in `context`, in keymap order.
pub open spec fn chords_of(km: Seq<BindingView>, context: Seq<char>, action: Seq<char>) -> Seq<Seq<char>>
    decreases km.len(),
{
    if km.len() == 0 {
        Seq::empty()
    } else {
        chords_of(km.drop_last(), context, action) + if km.last().context == context && km.last().action == action {
            km.last().keys
        } else {
            Seq::empty()
        }
    }
}

/// The chords as the user reads them.
pub open spec fn painted(chords: Seq<Seq<char>>, style: ChordStyle) -> Seq<Seq<char>> {
    Seq::new(chords.len(), |i: int| chord_text(chords[i], style))
}

/// The text of one shortcut row.
pub struct ItemView {
    pub action: Seq<char>,
    pub keys: Seq<Seq<char>>,
    pub title: Seq<char>,
    pub description: Seq<char>,
}

/// The text of one group of rows.
pub struct GroupView {
    pub category: Seq<char>,
    pub title: Seq<char>,
    pub items: Seq<ItemView>,
}

/// The text of one section.
pub struct SectionView {
    pub context: Seq<char>,
    pub title: Seq<char>,
    pub groups: Seq<GroupView>,
}

/// The row for `info` in section `sec`, if it is bound there and survives
/// the filter.
pub open spec fn row_of(
    km: Seq<BindingView>, style: ChordStyle,
    terms: Seq<Seq<char>>,
    sec: (Seq<char>, Seq<char>),
    cat: CategoryView,
    info: ActionView,
) -> Option<ItemView> {
    let chords = chords_of(km, sec.0, info.id);
    let keys = painted(chords, style);
    if chords.len() > 0 && row_matches(terms, row_hay(sec.1, cat.title, info, chords, keys)) {
        Some(ItemView { action: info.id, keys, title: info.title, description: info.description })
    } else {
        None
    }
}

/// The rows of the first `k` actions of `cat` in section `sec`.
pub open spec fn items_upto(
    km: Seq<BindingView>, style: ChordStyle,
    terms: Seq<Seq<char>>,
    sec: (Seq<char>, Seq<char>),
    cat: CategoryView,
    k: int,
) -> Seq<ItemView>
    decreases k,
{
    if k <= 0 {
        Seq::empty()
    } else {
        let prev = items_upto(km, style, terms, sec, cat, k - 1);
        match row_of(km, style, terms, sec, cat, cat.actions[k - 1]) {
            Some(item) => prev.push(item),
            None => prev,
        }
    }
}

/// How many of the first `k` actions of `cat` are bound in section `sec`.
pub open spec fn bound_upto(km: Seq<BindingView>, sec: (Seq<char>, Seq<char>), cat: CategoryView, k: int) -> int
    decreases k,
{
    if k <= 0 {
        0
    } else {
        bound_upto(km, sec, cat, k - 1) + if chords_of(km, sec.0, cat.actions[k - 1].id).len() > 0 {
            1int
        } else {
            0int
        }
    }
}

/// The groups of section `sec` from the first `j` categories: those with at
/// least one row.
pub open spec fn groups_upto(
    km: Seq<BindingView>, style: ChordStyle,
    terms: Seq<Seq<char>>,
    sec: (Seq<char>, Seq<char>),
    cats: Seq<CategoryView>,
    j: int,
) -> Seq<GroupView>
    decreases j,
{
    if j <= 0 {
        Seq::empty()
    } else {
        let prev = groups_upto(km, style, terms, sec, cats, j - 1);
        let cat = cats[j - 1];
        let items = items_upto(km, style, terms, sec, cat, cat.actions.len() as int);
        if items.len() > 0 {
            prev.push(GroupView { category: cat.id, title: cat.title, items })
        } else {
            prev
        }
    }
}

/// How many actions of the first `j` categories are bound in section `sec`,
/// and how many of those survive the filter.
pub open spec fn counts_upto(
    km: Seq<BindingView>, style: ChordStyle,
    terms: Seq<Seq<char>>,
    sec: (Seq<char>, Seq<char>),
    cats: Seq<CategoryView>,
    j: int,
) -> (int, int)
    decreases j,
{
    if j <= 0 {
        (0, 0)
    } else {
        let prev = counts_upto(km, style, terms, sec, cats, j - 1);
        let cat = cats[j - 1];
        let n = cat.actions.len() as int;
        (prev.0 + bound_upto(km, sec, cat, n), prev.1 + items_upto(km, style, terms, sec, cat, n).len())
    }
}

/// The sections from the first `s` contexts: those with at least one group.
pub open spec fn sections_upto(
    km: Seq<BindingView>, style: ChordStyle,
    terms: Seq<Seq<char>>,
    secs: Seq<(Seq<char>, Seq<char>)>,
    cats: Seq<CategoryView>,
    s: int,
) -> Seq<SectionView>
    decreases s,
{
    if s <= 0 {
        Seq::empty()
    } else {
        let prev = sections_upto(km, style, terms, secs, cats, s - 1);
        let sec = secs[s - 1];
        let groups = groups_upto(km, style, terms, sec, cats, cats.len() as int);
        if groups.len() > 0 {
            prev.push(SectionView { context: sec.0, title: sec.1, groups })
        } else {
            prev
        }
    }
}

/// The bound and surviving row counts over the first `s` contexts.
pub open spec fn totals_upto(
    km: Seq<BindingView>, style: ChordStyle,
    terms: Seq<Seq<char>>,
    secs: Seq<(Seq<char>, Seq<char>)>,
    cats: Seq<CategoryView>,
    s: int,
) -> (int, int)
    decreases s,
{
    if s <= 0 {
        (0, 0)
    } else {
        let prev = totals_upto(km, style, terms, secs, cats, s - 1);
        let c = counts_upto(km, style, terms, secs[s - 1], cats, cats.len() as int);
        (prev.0 + c.0, prev.1 + c.1)
    }
}

/// The text of a row value.
pub open spec fn item_view(i: ShortcutItem) -> ItemView {
    ItemView { action: i.action@, keys: string_views(i.keys@), title: i.title@, description: i.description@ }
}

/// The texts of a list of rows.
pub open spec fn item_views(v: Seq<ShortcutItem>) -> Seq<ItemView> {
    Seq::new(v.len(), |i: int| item_view(v[i]))
}

/// The text of a group value.
pub open spec fn group_view(g: ShortcutGroup) -> GroupView {
    GroupView { category: g.category@, title: g.title@, items: item_views(g.items@) }
}

/// The texts of a list of groups.
pub open spec fn group_views(v: Seq<ShortcutGroup>) -> Seq<GroupView> {
    Seq::new(v.len(), |i: int| group_view(v[i]))
}

/// The text of a section value.
pub open spec fn section_view(s: ShortcutSection) -> SectionView {
    SectionView { context: s.context@, title: s.title@, groups: group_views(s.groups@) }
}

/// The texts of a list of sections.
pub open spec fn section_views(v: Seq<ShortcutSection>) -> Seq<SectionView> {
    Seq::new(v.len(), |i: int| section_view(v[i]))
}

/// What the shortcuts topic shows for `keymap` and `query`: every shortcut in
/// force, grouped by context and then by category, filtered by the query,
/// with the surviving and the unfiltered row counts.
pub open spec fn shortcuts_of(km: Seq<BindingView>, style: ChordStyle, query: Seq<char>) -> (Seq<SectionView>, int, int) {
    let terms = terms_of(query);
    let secs = sections_table();
    let cats = catalog_table();
    let t = totals_upto(km, style, terms, secs, cats, secs.len() as int);
    (sections_upto(km, style, terms, secs, cats, secs.len() as int), t.1, t.0)
}

/// All chords bound to `action` in `context`.
fn chords_for(keymap: &[KeyBinding], context: &str, action: &str) -> (r: Vec<String>)
    ensures
        string_views(r@) == chords_of(binding_views(keymap@), context@, action@),
{
    let ghost km = binding_views(keymap@);
    let mut out: Vec<String> = Vec::new();
    let mut i: usize = 0;
    assert(km.take(0) =~= Seq::<BindingView>::empty());
    assert(string_views(out@) =~= Seq::<Seq<char>>::empty());
    while i < keymap.len()
        invariant
            i <= keymap@.len(),
            km == binding_views(keymap@),
            string_views(out@) == chords_of(km.take(i as int), context@, action@),
        decreases keymap@.len() - i,
    {
        let b = &keymap[i];
        assert(km.take(i + 1).drop_last() =~= km.take(i as int));
        assert(km.take(i + 1).last() == binding_view(*b));
        if str_eq(b.context.as_str(), context) && str_eq(b.action.as_str(), action) {
            let ghost before = string_views(out@);
            let mut k: usize = 0;
            while k < b.keys.len()
                invariant
                    k <= b.keys@.len(),
                    string_views(out@) == before + string_views(b.keys@).take(k as int),
                decreases b.keys@.len() - k,
            {
                let ghost prev = string_views(out@);
                out.push(owned(b.keys[k].as_str()));
                assert(string_views(out@) =~= prev.push(b.keys@[k as int]@));
                assert(string_views(b.keys@).take(k + 1) =~= string_views(b.keys@).take(k as int).push(b.keys@[k as int]@));
                k = k + 1;
            }
            assert(string_views(b.keys@).take(k as int) =~= string_views(b.keys@));
        } else {
            assert(string_views(out@) =~= string_views(out@) + Seq::<Seq<char>>::empty());
        }
        i = i + 1;
    }
    assert(km.take(i as int) =~= km);
    out
}

/// The chords as the user reads them.
fn paint(chords: &Vec<String>, style: ChordStyle) -> (r: Vec<String>)
    ensures
        string_views(r@) == painted(string_views(chords@), style),
{
    let mut out: Vec<String> = Vec::new();
    let mut i: usize = 0;
    while i < chords.len()
        invariant
            i <= chords@.len(),
            out@.len() == i,
            forall|k: int| 0 <= k < i ==> (#[trigger] out@[k])@ == chord_text(chords@[k]@, style),
        decreases chords@.len() - i,
    {
        out.push(crate::keys::display_chord(chords[i].as_str(), style));
        i = i + 1;
    }
    assert(string_views(out@) =~= painted(string_views(chords@), style));
    out
}

/// The contexts in presentation order, with their headings.
fn section_list() -> (r: Vec<(&'static str, &'static str)>)
    ensures
        r@.len() == sections_table().len(),
        forall|i: int| 0 <= i < r@.len() ==> (#[trigger] r@[i]).0@ == sections_table()[i].0 && r@[i].1@
            == sections_table()[i].1,
{
    let mut v: Vec<(&'static str, &'static str)> = Vec::new();
    v.push(("panels", "Panels"));
    v.push(("search", "Quick search"));
    v.push(("viewer", "Viewer"));
    v.push(("editor", "Editor"));
    v.push(("terminal", "Terminal"));
    v.push(("help", "Help"));
    v
}

proof fn lemma_catalog_shape()
    ensures
        catalog_table().len() == 14,
        forall|j: int| 0 <= j < 14 ==> (#[trigger] catalog_table()[j]).actions.len() <= 11,
{
    assert(crate::actions::cursor_actions().len() == 8);
}

proof fn lemma_bound_upto(km: Seq<BindingView>, style: ChordStyle, sec: (Seq<char>, Seq<char>), cat: CategoryView, k: int)
    ensures
        0 <= bound_upto(km, sec, cat, k) <= if k < 0 { 0 } else { k },
        0 <= items_upto(km, style, Seq::empty(), sec, cat, k).len(),
    decreases k,
{
    if k > 0 {
        lemma_bound_upto(km, style, sec, cat, k - 1);
    }
}

proof fn lemma_items_le_bound(
    km: Seq<BindingView>, style: ChordStyle,
    terms: Seq<Seq<char>>,
    sec: (Seq<char>, Seq<char>),
    cat: CategoryView,
    k: int,
)
    ensures
        items_upto(km, style, terms, sec, cat, k).len() <= bound_upto(km, sec, cat, k),
    decreases k,
{
    if k > 0 {
        lemma_items_le_bound(km, style, terms, sec, cat, k - 1);
    }
}

/// The shortcuts topic's body for `ctx`.
fn shortcuts_body(ctx: &HelpCtx) -> (r: ShortcutsBody)
    ensures
        r.query@ == ctx.query@,
        section_views(r.sections@) == shortcuts_of(binding_views(ctx.keymap@), ctx.style, ctx.query@).0,
        r.match_count as int == shortcuts_of(binding_views(ctx.keymap@), ctx.style, ctx.query@).1,
        r.total_count as int == shortcuts_of(binding_views(ctx.keymap@), ctx.style, ctx.query@).2,
{
    let terms = query_terms(ctx.query);
    let cats = catalog();
    let secs = section_list();
    let ghost km = binding_views(ctx.keymap@);
    let ghost ts = string_views(terms@);
    let ghost table = catalog_table();
    let ghost st = sections_table();
    proof {
        lemma_catalog_shape();
    }
    let mut total: u32 = 0;
    let mut matched: u32 = 0;
    let mut sections: Vec<ShortcutSection> = Vec::new();
    let mut s: usize = 0;
    assert(section_views(sections@) =~= Seq::<SectionView>::empty());
    while s < secs.len()
        invariant
            s <= secs@.len(),
            secs@.len() == st.len(),
            st == sections_table(),
            forall|i: int| 0 <= i < secs@.len() ==> (#[trigger] secs@[i]).0@ == st[i].0 && secs@[i].1@ == st[i].1,
            category_views(cats@) == table,
            table == catalog_table(),
            table.len() == 14,
            forall|j: int| 0 <= j < 14 ==> (#[trigger] table[j]).actions.len() <= 11,
            km == binding_views(ctx.keymap@),
            ts == string_views(terms@),
            ts == terms_of(ctx.query@),
            section_views(sections@) == sections_upto(km, ctx.style, ts, st, table, s as int),
            total as int == totals_upto(km, ctx.style, ts, st, table, s as int).0,
            matched as int == totals_upto(km, ctx.style, ts, st, table, s as int).1,
            total <= s * 154,
            matched <= total,
        decreases secs@.len() - s,
    {
        let (context, section_title) = secs[s];
        let ghost sec = st[s as int];
        assert(sec == (context@, section_title@));
        let mut groups: Vec<ShortcutGroup> = Vec::new();
        let mut sec_total: u32 = 0;
        let mut sec_matched: u32 = 0;
        let mut j: usize = 0;
        assert(group_views(groups@) =~= Seq::<GroupView>::empty());
        while j < cats.len()
            invariant
                j <= cats@.len(),
                category_views(cats@) == table,
                table.len() == 14,
                forall|q: int| 0 <= q < 14 ==> (#[trigger] table[q]).actions.len() <= 11,
                sec == (context@, section_title@),
                km == binding_views(ctx.keymap@),
                ts == string_views(terms@),
                group_views(groups@) == groups_upto(km, ctx.style, ts, sec, table, j as int),
                sec_total as int == counts_upto(km, ctx.style, ts, sec, table, j as int).0,
                sec_matched as int == counts_upto(km, ctx.style, ts, sec, table, j as int).1,
                sec_total <= j * 11,
                sec_matched <= sec_total,
            decreases cats@.len() - j,
        {
            let category = &cats[j];
            let ghost cat = table[j as int];
            assert(category_views(cats@)[j as int] == cat);
            let mut items: Vec<ShortcutItem> = Vec::new();
            let mut cat_total: u32 = 0;
            let mut k: usize = 0;
            assert(item_views(items@) =~= Seq::<ItemView>::empty());
            while k < category.actions.len()
                invariant
                    k <= category.actions@.len(),
                    crate::actions::category_view(*category) == cat,
                    cat.actions.len() <= 11,
                    sec == (context@, section_title@),
                    km == binding_views(ctx.keymap@),
                    ts == string_views(terms@),
                    item_views(items@) == items_upto(km, ctx.style, ts, sec, cat, k as int),
                    cat_total as int == bound_upto(km, sec, cat, k as int),
                    cat_total <= k,
                decreases category.actions@.len() - k,
            {
                let info = category.actions[k];
                assert(cat.actions[k as int] == action_view(info));
                let chords = chords_for(ctx.keymap, context, info.id);
                if chords.len() > 0 {
                    cat_total = cat_total + 1;
                    let keys = paint(&chords, ctx.style);
                    if matches(&terms, section_title, category.title, &info, &chords, &keys) {
                        let ghost before = item_views(items@);
                        let item = ShortcutItem {
                            action: owned(info.id),
                            keys,
                            title: owned(info.title),
                            description: owned(info.description),
                        };
                        items.push(item);
                        assert(item_views(items@) =~= before.push(item_view(item)));
                    }
                }
                k = k + 1;
            }
            proof {
                lemma_items_le_bound(km, ctx.style, ts, sec, cat, k as int);
            }
            let ni = items.len();
            assert(ni as int == items_upto(km, ctx.style, ts, sec, cat, cat.actions.len() as int).len());
            sec_total = sec_total + cat_total;
            sec_matched = sec_matched + (ni as u32);
            if ni > 0 {
                let ghost before = group_views(groups@);
                let g = ShortcutGroup { category: owned(category.id), title: owned(category.title), items };
                groups.push(g);
                assert(group_views(groups@) =~= before.push(group_view(g)));
            }
            j = j + 1;
        }
        total = total + sec_total;
        matched = matched + sec_matched;
        if groups.len() > 0 {
            let ghost before = section_views(sections@);
            let sc = ShortcutSection { context: owned(context), title: owned(section_title), groups };
            sections.push(sc);
            assert(section_views(sections@) =~= before.push(section_view(sc)));
        }
        s = s + 1;
    }
    ShortcutsBody { query: owned(ctx.query), match_count: matched, total_count: total, sections }
}

// ---------------------------------------------------------------------------
// The about topic and the book
// ---------------------------------------------------------------------------

/// A copy of an app description, field by field.
fn copy_app(app: &AppInfo) -> (r: AppInfo)
    ensures
        r.name@ == app.name@,
        r.version@ == app.version@,
        r.description@ == app.description@,
        r.license@ == app.license@,
        r.homepage@ == app.homepage@,
        r.repository@ == app.repository@,
        r.sponsor@ == app.sponsor@,
{
    AppInfo {
        name: owned(app.name.as_str()),
        version: owned(app.version.as_str()),
        description: owned(app.description.as_str()),
        license: owned(app.license.as_str()),
        homepage: owned(app.homepage.as_str()),
        repository: owned(app.repository.as_str()),
        sponsor: owned(app.sponsor.as_str()),
    }
}

/// The links the About topic offers: website, source code and sponsorship,
/// each only when its address is set.
pub open spec fn about_links(app: AppInfo) -> Seq<(Seq<char>, Seq<char>)> {
    let all = seq![
        ("Website"@, app.homepage@),
        ("Source code"@, app.repository@),
        ("Support this project"@, app.sponsor@),
    ];
    all.filter(|l: (Seq<char>, Seq<char>)| l.1.len() > 0)
}

/// The texts of a list of links.
pub open spec fn link_views(v: Seq<HelpLink>) -> Seq<(Seq<char>, Seq<char>)> {
    Seq::new(v.len(), |i: int| (v[i].label@, v[i].url@))
}

/// The texts of a list of label/value rows.
pub open spec fn line_views(v: Seq<HelpLine>) -> Seq<(Seq<char>, Seq<char>)> {
    Seq::new(v.len(), |i: int| (v[i].label@, v[i].value@))
}

/// The rows the About topic shows: version, license and shortcut schema.
pub open spec fn about_lines(app: AppInfo) -> Seq<(Seq<char>, Seq<char>)> {
    seq![("Version"@, app.version@), ("License"@, app.license@), ("Shortcut schema"@, "Default"@)]
}

/// Whether `r` describes the same app as `app`.
pub open spec fn same_app(r: AppInfo, app: AppInfo) -> bool {
    &&& r.name@ == app.name@
    &&& r.version@ == app.version@
    &&& r.description@ == app.description@
    &&& r.license@ == app.license@
    &&& r.homepage@ == app.homepage@
    &&& r.repository@ == app.repository@
    &&& r.sponsor@ == app.sponsor@
}

/// Add a link unless its address is empty.
fn push_link(links: &mut Vec<HelpLink>, label: &str, url: &str)
    ensures
        link_views(final(links)@) == link_views(old(links)@) + seq![(label@, url@)].filter(
            |l: (Seq<char>, Seq<char>)| l.1.len() > 0,
        ),
{
    let ghost before = link_views(links@);
    let ghost one = seq![(label@, url@)];
    proof {
        reveal_with_fuel(Seq::filter, 2);
        assert(one.drop_last() =~= Seq::<(Seq<char>, Seq<char>)>::empty());
    }
    if chars_of(url).len() > 0 {
        let l = HelpLink { label: owned(label), url: owned(url) };
        links.push(l);
        assert(one.filter(|l: (Seq<char>, Seq<char>)| l.1.len() > 0) =~= one);
        assert(link_views(links@) =~= before + one);
    } else {
        assert(url@.len() == 0);
        assert(one.filter(|l: (Seq<char>, Seq<char>)| l.1.len() > 0) =~= Seq::<(Seq<char>, Seq<char>)>::empty());
        assert(link_views(links@) =~= before + Seq::<(Seq<char>, Seq<char>)>::empty());
    }
}

/// The About topic's body: the app, its version, license and shortcut
/// schema, and the links that are set.
fn about_body(app: &AppInfo) -> (r: AboutBody)
    ensures
        same_app(r.app, *app),
        line_views(r.lines@) == about_lines(*app),
        link_views(r.links@) == about_links(*app),
{
    let mut lines: Vec<HelpLine> = Vec::new();
    lines.push(HelpLine { label: owned("Version"), value: owned(app.version.as_str()) });
    lines.push(HelpLine { label: owned("License"), value: owned(app.license.as_str()) });
    lines.push(HelpLine { label: owned("Shortcut schema"), value: owned("Default") });
    assert(line_views(lines@) =~= about_lines(*app));
    let mut links: Vec<HelpLink> = Vec::new();
    assert(link_views(links@) =~= Seq::<(Seq<char>, Seq<char>)>::empty());
    push_link(&mut links, "Website", app.homepage.as_str());
    push_link(&mut links, "Source code", app.repository.as_str());
    push_link(&mut links, "Support this project", app.sponsor.as_str());
    proof {
        let a = seq![("Website"@, app.homepage@)];
        let b = seq![("Source code"@, app.repository@)];
        let c = seq![("Support this project"@, app.sponsor@)];
        let f = |l: (Seq<char>, Seq<char>)| l.1.len() > 0;
        Seq::filter_distributes_over_add(a, b, f);
        Seq::filter_distributes_over_add(a + b, c, f);
        assert(a + b + c =~= seq![
            ("Website"@, app.homepage@),
            ("Source code"@, app.repository@),
            ("Support this project"@, app.sponsor@),
        ]);
        assert(Seq::<(Seq<char>, Seq<char>)>::empty() + a.filter(f) =~= a.filter(f));
    }
    AboutBody { app: copy_app(app), lines, links }
}

/// Name, version, and what this is.
pub struct AboutTopic;

/// Every shortcut in force, grouped and filtered.
pub struct ShortcutsTopic;

impl HelpTopic for AboutTopic {
    fn id(&self) -> (r: &str)
        ensures
            r@ == "about"@,
    {
        "about"
    }

    fn title(&self) -> (r: &str)
        ensures
            r@ == "About"@,
    {
        "About"
    }

    fn body(&self, ctx: &HelpCtx) -> (r: HelpBody)
        ensures
            r matches HelpBody::About(a) && same_app(a.app, *ctx.app) && line_views(a.lines@) == about_lines(
                *ctx.app,
            ) && link_views(a.links@) == about_links(*ctx.app),
    {
        HelpBody::About(about_body(ctx.app))
    }
}

impl HelpTopic for ShortcutsTopic {
    fn id(&self) -> (r: &str)
        ensures
            r@ == "shortcuts"@,
    {
        "shortcuts"
    }

    fn title(&self) -> (r: &str)
        ensures
            r@ == "Shortcuts"@,
    {
        "Shortcuts"
    }

    fn body(&self, ctx: &HelpCtx) -> (r: HelpBody)
        ensures
            r matches HelpBody::Shortcuts(b) && b.query@ == ctx.query@ && section_views(b.sections@)
                == shortcuts_of(binding_views(ctx.keymap@), ctx.style, ctx.query@).0 && b.match_count as int == shortcuts_of(
                binding_views(ctx.keymap@), ctx.style,
                ctx.query@,
            ).1 && b.total_count as int == shortcuts_of(binding_views(ctx.keymap@), ctx.style, ctx.query@).2,
    {
        HelpBody::Shortcuts(shortcuts_body(ctx))
    }
}

/// Build the whole help book: About first, then Shortcuts.
pub fn book(app: &AppInfo, keymap: &[KeyBinding], query: &str, style: ChordStyle) -> (r: HelpBook)
    ensures
        r.topics@.len() == 2,
        r.topics@[0].id@ == "about"@,
        r.topics@[0].title@ == "About"@,
        r.topics@[0].body matches HelpBody::About(a) && same_app(a.app, *app) && line_views(a.lines@)
            == about_lines(*app) && link_views(a.links@) == about_links(*app),
        r.topics@[1].id@ == "shortcuts"@,
        r.topics@[1].title@ == "Shortcuts"@,
        r.topics@[1].body matches HelpBody::Shortcuts(b) && b.query@ == query@ && section_views(b.sections@)
            == shortcuts_of(binding_views(keymap@), style, query@).0 && b.match_count as int == shortcuts_of(
            binding_views(keymap@), style,
            query@,
        ).1 && b.total_count as int == shortcuts_of(binding_views(keymap@), style, query@).2,
{
    let ctx = HelpCtx { app, keymap, query, style };
    let about = AboutTopic;
    let shortcuts = ShortcutsTopic;
    let mut topics: Vec<HelpTopicView> = Vec::new();
    topics.push(HelpTopicView { id: owned(about.id()), title: owned(about.title()), body: about.body(&ctx) });
    topics.push(
        HelpTopicView { id: owned(shortcuts.id()), title: owned(shortcuts.title()), body: shortcuts.body(&ctx) },
    );
    HelpBook { topics }
}

/// Turn an internal chord string into what the user sees, in `style`, as
/// the help book paints it.
pub fn display_chord(chord: &str, style: ChordStyle) -> (r: String)
    ensures
        r@ == chord_text(chord@, style),
{
    crate::keys::display_chord(chord, style)
}

// ---------------------------------------------------------------------------
// Laws
// ---------------------------------------------------------------------------

/// More terms narrow the list rather than widen it: a row that survives a
/// query survives every query made of fewer of its terms.
pub proof fn lemma_more_terms_narrow(terms: Seq<Seq<char>>, extra: Seq<Seq<char>>, hay: Seq<char>)
    requires
        row_matches(terms + extra, hay),
    ensures
        row_matches(terms, hay),
{
    if terms.len() > 0 {
        assert forall|k: int| 0 <= k < terms.len() implies occurs_in(#[trigger] terms[k], spec_lowercase(hay)) by {
            assert((terms + extra)[k] == terms[k]);
        }
    }
}

proof fn lemma_blank_words(done: Seq<Seq<char>>, rest: Seq<char>)
    requires
        forall|i: int| 0 <= i < rest.len() ==> is_ws(#[trigger] rest[i]),
    ensures
        words_scan(done, Seq::empty(), rest) == done,
    decreases rest.len(),
{
    if rest.len() > 0 {
        assert(is_ws(rest[0]));
        assert forall|i: int| 0 <= i < rest.drop_first().len() implies is_ws(#[trigger] rest.drop_first()[i]) by {
            assert(rest.drop_first()[i] == rest[i + 1]);
        }
        lemma_blank_words(done, rest.drop_first());
    }
}

proof fn lemma_unfiltered_items(km: Seq<BindingView>, style: ChordStyle, sec: (Seq<char>, Seq<char>), cat: CategoryView, k: int)
    ensures
        items_upto(km, style, Seq::empty(), sec, cat, k).len() == bound_upto(km, sec, cat, k),
    decreases k,
{
    if k > 0 {
        lemma_unfiltered_items(km, style, sec, cat, k - 1);
    }
}

proof fn lemma_unfiltered_counts(km: Seq<BindingView>, style: ChordStyle, sec: (Seq<char>, Seq<char>), cats: Seq<CategoryView>, j: int)
    ensures
        counts_upto(km, style, Seq::empty(), sec, cats, j).0 == counts_upto(km, style, Seq::empty(), sec, cats, j).1,
    decreases j,
{
    if j > 0 {
        lemma_unfiltered_counts(km, style, sec, cats, j - 1);
        lemma_unfiltered_items(km, style, sec, cats[j - 1], cats[j - 1].actions.len() as int);
    }
}

proof fn lemma_unfiltered_totals(
    km: Seq<BindingView>, style: ChordStyle,
    secs: Seq<(Seq<char>, Seq<char>)>,
    cats: Seq<CategoryView>,
    s: int,
)
    ensures
        totals_upto(km, style, Seq::empty(), secs, cats, s).0 == totals_upto(km, style, Seq::empty(), secs, cats, s).1,
    decreases s,
{
    if s > 0 {
        lemma_unfiltered_totals(km, style, secs, cats, s - 1);
        lemma_unfiltered_counts(km, style, secs[s - 1], cats, cats.len() as int);
    }
}

/// With nothing typed in the search field, every bound shortcut is listed:
/// the surviving count equals the unfiltered count.
pub proof fn lemma_blank_query_lists_everything(km: Seq<BindingView>, style: ChordStyle, query: Seq<char>)
    requires
        forall|i: int| 0 <= i < query.len() ==> is_ws(#[trigger] query[i]),
    ensures
        shortcuts_of(km, style, query).1 == shortcuts_of(km, style, query).2,
{
    lemma_blank_words(Seq::empty(), query);
    assert(terms_of(query) =~= Seq::<Seq<char>>::empty());
    lemma_unfiltered_totals(km, style, sections_table(), catalog_table(), sections_table().len() as int);
}

} // verus!
