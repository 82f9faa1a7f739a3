//! Navigation & selection — the single cursor-index state machine.
//!
//! The whole Left/Right/Up/Down/Page/Home/End traversal is one function over
//! one flat `cursor_index`, because the frontend renders each page
//! column-major: a page holds `columns * rows_per_column` entries and cell
//! `(col, row)` sits at flat offset `col * rows_per_column + row`. Down is
//! `+1`, Right is `+rows_per_column`, a page is `columns * rows_per_column`,
//! and everything is clamped to `[0, len - 1]`.
//!
//! The viewport is a sliding window: `top_index` holds the first visible
//! entry, and stepping off an edge scrolls by the motion's own step. The
//! window stays inside `[0, len - page]`.
use vstd::prelude::*;
use crate::fs::{is_dotdot, is_dotdot_name, sort_entries, sorted_by, tie_class};
use crate::text::{chars_eq, chars_of, lex_order, lex_order_exec, spec_lowercase};
use crate::types::{DirListing, Entry, EntryKind, Motion, PanelState};
use crate::paths::{path_file_name, path_parent, std_path_file_name, std_path_parent};

pub mod search;

verus! {

broadcast use vstd::seq_lib::group_seq_properties;

// ---------------------------------------------------------------------------
// The model
// ---------------------------------------------------------------------------

/// Whether an entry can be selected: the synthetic `..` never is.
pub open spec fn selectable(e: Entry) -> bool {
    !is_dotdot(e.name@)
}

/// `a - b`, floored at zero.
pub open spec fn sat_sub(a: int, b: int) -> int {
    if a > b { a - b } else { 0 }
}

/// The smaller of two integers.
pub open spec fn min_of(a: int, b: int) -> int {
    if a < b { a } else { b }
}

/// Entries per column. Unset geometry (`rows_per_column == 0`) is one column
/// spanning the whole listing.
pub open spec fn rows_of(s: PanelState) -> int {
    let len = if s.entries.len() == 0 { 1 } else { s.entries.len() as int };
    if s.geometry.rows_per_column == 0 { len } else { s.geometry.rows_per_column as int }
}

/// Columns on screen, at least one.
pub open spec fn cols_of(s: PanelState) -> int {
    if s.geometry.columns == 0 { 1 } else { s.geometry.columns as int }
}

/// Entries per page: `rows * columns`, saturating at `usize::MAX`.
pub open spec fn page_of(s: PanelState) -> int {
    let p = rows_of(s) * cols_of(s);
    if p > usize::MAX { usize::MAX as int } else { p }
}

/// The last window start that leaves no blank space below the listing.
pub open spec fn max_top_of(s: PanelState) -> int {
    sat_sub(s.entries.len() as int, page_of(s))
}

/// The smallest adjustment of `top` that keeps `cursor` inside a window of
/// `page` entries, and the window inside `[0, max_top]`.
pub open spec fn visible_top(top: int, cursor: int, page: int, max_top: int) -> int {
    let lower = sat_sub(cursor + 1, page);
    let c = if top < lower { lower } else if top > cursor { cursor } else { top };
    if c < max_top { c } else { max_top }
}

/// Where a motion takes the cursor.
pub open spec fn step_target(cur: int, last: int, rows: int, page: int, m: Motion) -> int {
    match m {
        Motion::Up => sat_sub(cur, 1),
        Motion::Down => min_of(cur + 1, last),
        Motion::Left => sat_sub(cur, rows),
        Motion::Right => min_of(cur + rows, last),
        Motion::PageUp => sat_sub(cur, page),
        Motion::PageDown => min_of(cur + page, last),
        Motion::Home => 0,
        Motion::End => last,
    }
}

/// Where a motion wants the window to start before the minimal adjustment:
/// by the motion's own step when the cursor leaves the window.
pub open spec fn desired_top(top: int, next: int, rows: int, page: int, max_top: int, m: Motion) -> int {
    match m {
        Motion::Home => 0,
        Motion::End => max_top,
        Motion::PageDown => min_of(top + page, max_top),
        Motion::PageUp => sat_sub(top, page),
        Motion::Right => if next >= top + page { min_of(top + rows, max_top) } else { top },
        Motion::Left => if next < top { sat_sub(top, rows) } else { top },
        _ => top,
    }
}

/// The cursor after a motion.
pub open spec fn moved_cursor(s: PanelState, m: Motion) -> int {
    let len = s.entries.len() as int;
    if len == 0 {
        0
    } else {
        let cur = min_of(s.cursor_index as int, len - 1);
        step_target(cur, len - 1, rows_of(s), page_of(s), m)
    }
}

/// The window start after a motion.
pub open spec fn moved_top(s: PanelState, m: Motion) -> int {
    let len = s.entries.len() as int;
    if len == 0 {
        0
    } else {
        let next = moved_cursor(s, m);
        let top = min_of(s.top_index as int, max_top_of(s));
        let desired = desired_top(top, next, rows_of(s), page_of(s), max_top_of(s), m);
        visible_top(desired, next, page_of(s), max_top_of(s))
    }
}

/// The window start after scrolling as little as needed to show the cursor.
pub open spec fn clamped_top(s: PanelState) -> int {
    let len = s.entries.len() as int;
    if len == 0 {
        0
    } else {
        visible_top(s.top_index as int, min_of(s.cursor_index as int, len - 1), page_of(s), max_top_of(s))
    }
}

/// The cursor on an entry and the entry on screen: the window invariant.
pub open spec fn window_ok(s: PanelState) -> bool {
    let len = s.entries.len() as int;
    if len == 0 {
        s.cursor_index == 0 && s.top_index == 0
    } else {
        &&& s.cursor_index < len
        &&& s.top_index <= s.cursor_index
        &&& s.cursor_index < s.top_index + page_of(s)
        &&& s.top_index <= max_top_of(s)
    }
}

/// Every selected index names a selectable entry, and none is listed twice.
pub open spec fn selection_ok(s: PanelState) -> bool {
    &&& forall|k: int| 0 <= k < s.selection.len() ==> (#[trigger] s.selection@[k]) < s.entries.len()
        && selectable(s.entries@[s.selection@[k] as int])
    &&& s.selection@.no_duplicates()
}

/// Strictly increasing: sorted and free of repeats.
pub open spec fn ascending(v: Seq<usize>) -> bool {
    forall|a: int, b: int| 0 <= a < b < v.len() ==> v[a] < v[b]
}

/// Position of the first occurrence of `x` in `v`, or `-1`.
pub open spec fn first_index(v: Seq<usize>, x: usize) -> int
    decreases v.len(),
{
    if v.len() == 0 {
        -1
    } else if v.last() == x && first_index(v.drop_last(), x) < 0 {
        v.len() - 1
    } else {
        first_index(v.drop_last(), x)
    }
}

/// Whether `i` is marked after flipping the selectable entries of `[lo, hi)`.
pub open spec fn flipped(entries: Seq<Entry>, sel: Seq<usize>, lo: int, hi: int, i: usize) -> bool {
    sel.contains(i) != (lo <= i < hi && selectable(entries[i as int]))
}

// ---------------------------------------------------------------------------
// Arithmetic facts
// ---------------------------------------------------------------------------

proof fn lemma_page_positive(s: PanelState)
    ensures
        rows_of(s) >= 1,
        cols_of(s) >= 1,
        page_of(s) >= 1,
        page_of(s) >= rows_of(s) || page_of(s) == usize::MAX,
{
    let r = rows_of(s);
    let c = cols_of(s);
    assert(r * c >= r) by (nonlinear_arith)
        requires
            r >= 1,
            c >= 1,
    ;
}

/// `visible_top` always yields a window that shows the cursor and stays inside
/// the listing.
pub proof fn lemma_visible_top(top: int, cursor: int, page: int, max_top: int, len: int)
    requires
        0 <= cursor < len,
        page >= 1,
        max_top == sat_sub(len, page),
    ensures
        0 <= visible_top(top, cursor, page, max_top) <= cursor,
        cursor < visible_top(top, cursor, page, max_top) + page,
        visible_top(top, cursor, page, max_top) <= max_top,
{
}

// ---------------------------------------------------------------------------
// Geometry
// ---------------------------------------------------------------------------

/// Effective `(rows_per_column, page_size)` for a panel.
fn geometry_of(state: &PanelState) -> (r: (usize, usize))
    ensures
        r.0 as int == rows_of(*state),
        r.1 as int == page_of(*state),
{
    proof { lemma_page_positive(*state); }
    let len: usize = if state.entries.len() == 0 { 1 } else { state.entries.len() };
    let rows: usize = if state.geometry.rows_per_column == 0 {
        len
    } else {
        state.geometry.rows_per_column as usize
    };
    let cols: usize = if state.geometry.columns == 0 { 1 } else { state.geometry.columns as usize };
    let page: usize = match rows.checked_mul(cols) {
        Some(p) => p,
        None => usize::MAX,
    };
    (rows, page)
}

/// `a + b`, saturating at `usize::MAX`.
fn add_sat(a: usize, b: usize) -> (r: usize)
    ensures
        r as int == if a + b > usize::MAX { usize::MAX as int } else { a + b },
{
    if a > usize::MAX - b { usize::MAX } else { a + b }
}

/// `a - b`, floored at zero.
fn sub_sat(a: usize, b: usize) -> (r: usize)
    ensures
        r as int == sat_sub(a as int, b as int),
{
    if a > b { a - b } else { 0 }
}

/// The smaller of two indices.
fn min_usize(a: usize, b: usize) -> (r: usize)
    ensures
        r as int == min_of(a as int, b as int),
{
    if a < b { a } else { b }
}

/// The smallest adjustment of `top` that keeps `cursor` in view.
fn visible_top_exec(top: usize, cursor: usize, page: usize, max_top: usize) -> (r: usize)
    requires
        cursor < usize::MAX,
    ensures
        r as int == visible_top(top as int, cursor as int, page as int, max_top as int),
{
    let lower = sub_sat(cursor + 1, page);
    let c = if top < lower { lower } else if top > cursor { cursor } else { top };
    min_usize(c, max_top)
}

// ---------------------------------------------------------------------------
// Cursor motion
// ---------------------------------------------------------------------------

/// Apply a cursor [`Motion`]: move `cursor_index` per the traversal above and
/// scroll the window by the motion's own step when the cursor leaves it. With
/// unset geometry the listing is one column spanning every entry.
pub fn move_cursor(state: &mut PanelState, motion: Motion)
    ensures
        *final(state) == (PanelState {
            cursor_index: moved_cursor(*old(state), motion) as usize,
            top_index: moved_top(*old(state), motion) as usize,
            ..*old(state)
        }),
        window_ok(*final(state)),
{
    let len = state.entries.len();
    if len == 0 {
        state.cursor_index = 0;
        state.top_index = 0;
        return;
    }
    proof { lemma_page_positive(*state); }
    let last = len - 1;
    let cur = min_usize(state.cursor_index, last);
    let (rows, page) = geometry_of(state);
    let next: usize = match motion {
        Motion::Up => sub_sat(cur, 1),
        Motion::Down => min_usize(add_sat(cur, 1), last),
        Motion::Left => sub_sat(cur, rows),
        Motion::Right => min_usize(add_sat(cur, rows), last),
        Motion::PageUp => sub_sat(cur, page),
        Motion::PageDown => min_usize(add_sat(cur, page), last),
        Motion::Home => 0,
        Motion::End => last,
    };
    let max_top = sub_sat(len, page);
    let top = min_usize(state.top_index, max_top);
    let desired: usize = match motion {
        Motion::Home => 0,
        Motion::End => max_top,
        Motion::PageDown => min_usize(add_sat(top, page), max_top),
        Motion::PageUp => sub_sat(top, page),
        Motion::Right => if next >= add_sat(top, page) { min_usize(add_sat(top, rows), max_top) } else { top },
        Motion::Left => if next < top { sub_sat(top, rows) } else { top },
        _ => top,
    };
    proof {
        assert(next as int == moved_cursor(*old(state), motion));
        assert(next < len);
    }
    state.cursor_index = next;
    state.top_index = visible_top_exec(desired, next, page, max_top);
    proof {
        lemma_visible_top(desired as int, next as int, page as int, max_top as int, len as int);
    }
}

/// Scroll the window as little as needed to bring the cursor back into view.
pub fn clamp_scroll(state: &mut PanelState)
    ensures
        *final(state) == (PanelState { top_index: clamped_top(*old(state)) as usize, ..*old(state) }),
        old(state).cursor_index < old(state).entries.len() || old(state).cursor_index == 0
            ==> window_ok(*final(state)),
{
    let len = state.entries.len();
    if len == 0 {
        state.top_index = 0;
        return;
    }
    proof { lemma_page_positive(*state); }
    let (_, page) = geometry_of(state);
    let cursor = min_usize(state.cursor_index, len - 1);
    state.top_index = visible_top_exec(state.top_index, cursor, page, sub_sat(len, page));
    proof {
        lemma_visible_top(old(state).top_index as int, cursor as int, page as int, sat_sub(len as int, page as int), len as int);
    }
}

/// Record the panel's rendered layout and re-clamp the scroll, so a resize
/// never leaves the cursor off-screen.
pub fn set_geometry(state: &mut PanelState, columns: u16, rows: u16)
    ensures
        final(state).geometry.columns == columns,
        final(state).geometry.rows_per_column == rows,
        *final(state) == (PanelState {
            top_index: final(state).top_index,
            geometry: final(state).geometry,
            ..*old(state)
        }),
        final(state).top_index == clamped_top(PanelState { geometry: final(state).geometry, ..*old(state) }),
        old(state).cursor_index < old(state).entries.len() || old(state).cursor_index == 0
            ==> window_ok(*final(state)),
{
    state.geometry.columns = columns;
    state.geometry.rows_per_column = rows;
    clamp_scroll(state);
}

/// Move the cursor to an explicit index, clamped to `[0, len - 1]` (0 when
/// empty), and bring it into view.
pub fn set_cursor(state: &mut PanelState, index: usize)
    ensures
        final(state).cursor_index as int == if old(state).entries.len() == 0 {
            0
        } else {
            min_of(index as int, old(state).entries.len() - 1)
        },
        *final(state) == (PanelState {
            cursor_index: final(state).cursor_index,
            top_index: clamped_top(PanelState { cursor_index: final(state).cursor_index, ..*old(state) }) as usize,
            ..*old(state)
        }),
        window_ok(*final(state)),
{
    let len = state.entries.len();
    state.cursor_index = if len == 0 { 0 } else { min_usize(index, len - 1) };
    clamp_scroll(state);
}

// ---------------------------------------------------------------------------
// Listings
// ---------------------------------------------------------------------------

/// Replace a panel's listing: assign path and entries, re-apply the panel's
/// sort, put the cursor back on top and clear the selection. An open quick
/// search closes with it.
pub fn set_listing(state: &mut PanelState, listing: DirListing)
    ensures
        final(state).path == listing.path,
        final(state).access == listing.access,
        sorted_by(final(state).entries@, old(state).sort_mode),
        final(state).entries@.to_multiset() == listing.entries@.to_multiset(),
        final(state).entries@.len() == listing.entries@.len(),
        forall|e: Entry| #[trigger] tie_class(final(state).entries@, e, old(state).sort_mode) == tie_class(
            listing.entries@,
            e,
            old(state).sort_mode,
        ),
        final(state).cursor_index == 0,
        final(state).top_index == 0,
        final(state).selection@.len() == 0,
        final(state).search is None,
        final(state).view_mode == old(state).view_mode,
        final(state).sort_mode == old(state).sort_mode,
        final(state).show_hidden == old(state).show_hidden,
        final(state).geometry == old(state).geometry,
        final(state).notice == old(state).notice,
        window_ok(*final(state)),
        selection_ok(*final(state)),
{
    state.path = listing.path;
    state.entries = listing.entries;
    state.access = listing.access;
    sort_entries(&mut state.entries, state.sort_mode);
    state.cursor_index = 0;
    state.top_index = 0;
    state.selection = Vec::new();
    state.search = None;
    proof { lemma_page_positive(*state); }
}


// ---------------------------------------------------------------------------
// Re-listing the same directory
// ---------------------------------------------------------------------------

/// The names of `entries`, in order.
pub open spec fn names_of(entries: Seq<Entry>) -> Seq<Seq<char>> {
    Seq::new(entries.len(), |i: int| entries[i].name@)
}

/// The names of the selected entries that exist, in selection order.
pub open spec fn selected_names(entries: Seq<Entry>, sel: Seq<usize>) -> Seq<Seq<char>>
    decreases sel.len(),
{
    if sel.len() == 0 {
        Seq::empty()
    } else {
        let rest = selected_names(entries, sel.drop_last());
        if sel.last() < entries.len() { rest.push(entries[sel.last() as int].name@) } else { rest }
    }
}

/// The views of a list of character vectors.
pub open spec fn views(v: Seq<Vec<char>>) -> Seq<Seq<char>> {
    Seq::new(v.len(), |i: int| v[i]@)
}

/// The order in which a vanished cursor entry looks for a survivor: the entry
/// itself, then the ones after it, then the ones before it, nearest first.
pub open spec fn walk_order(names: Seq<Seq<char>>, c: int) -> Seq<Seq<char>> {
    names.skip(c) + names.take(c).reverse()
}

/// Position in `entries` of the first name of `walk` that is there, or `-1`.
pub open spec fn first_hit(walk: Seq<Seq<char>>, entries: Seq<Entry>) -> int
    decreases walk.len(),
{
    if walk.len() == 0 {
        -1
    } else if first_name_pos(entries, walk[0]) >= 0 {
        first_name_pos(entries, walk[0])
    } else {
        first_hit(walk.drop_first(), entries)
    }
}

/// Where the cursor goes after re-reading the same directory, before clamping.
pub open spec fn preserved_target(old_entries: Seq<Entry>, old_cursor: int, new_entries: Seq<Entry>) -> int {
    let len = old_entries.len() as int;
    if len == 0 {
        0
    } else {
        let c = min_of(old_cursor, len - 1);
        let h = first_hit(walk_order(names_of(old_entries), c), new_entries);
        if h >= 0 { h } else { c }
    }
}

proof fn lemma_first_hit(walk: Seq<Seq<char>>, entries: Seq<Entry>)
    ensures
        -1 <= first_hit(walk, entries) < entries.len(),
    decreases walk.len(),
{
    lemma_first_name_pos(entries, if walk.len() > 0 { walk[0] } else { Seq::empty() });
    if walk.len() > 0 {
        lemma_first_hit(walk.drop_first(), entries);
    }
}

/// Whether `name` is among `names`.
fn name_listed(names: &Vec<Vec<char>>, name: &Vec<char>) -> (r: bool)
    ensures
        r == views(names@).contains(name@),
{
    let mut i: usize = 0;
    while i < names.len()
        invariant
            i <= names.len(),
            forall|k: int| 0 <= k < i ==> views(names@)[k] != name@,
        decreases names.len() - i,
    {
        if chars_eq(&names[i], name) {
            assert(views(names@)[i as int] == name@);
            return true;
        }
        i = i + 1;
    }
    false
}

/// The names of `entries`, as character vectors.
fn collect_names(entries: &Vec<Entry>) -> (r: Vec<Vec<char>>)
    ensures
        views(r@) == names_of(entries@),
{
    let mut out: Vec<Vec<char>> = Vec::new();
    let mut i: usize = 0;
    while i < entries.len()
        invariant
            i <= entries.len(),
            out@.len() == i,
            forall|k: int| 0 <= k < i ==> (#[trigger] out@[k])@ == entries@[k].name@,
        decreases entries.len() - i,
    {
        out.push(chars_of(entries[i].name.as_str()));
        i = i + 1;
    }
    assert(views(out@) =~= names_of(entries@));
    out
}

/// The names of the selected entries that exist, as character vectors.
fn collect_selected(entries: &Vec<Entry>, sel: &Vec<usize>) -> (r: Vec<Vec<char>>)
    ensures
        views(r@) == selected_names(entries@, sel@),
{
    let mut out: Vec<Vec<char>> = Vec::new();
    let mut k: usize = 0;
    while k < sel.len()
        invariant
            k <= sel.len(),
            views(out@) =~= selected_names(entries@, sel@.take(k as int)),
        decreases sel.len() - k,
    {
        assert(sel@.take(k + 1).drop_last() =~= sel@.take(k as int));
        let j = sel[k];
        if j < entries.len() {
            out.push(chars_of(entries[j].name.as_str()));
        }
        assert(views(out@) =~= selected_names(entries@, sel@.take(k + 1)));
        k = k + 1;
    }
    assert(sel@.take(sel.len() as int) =~= sel@);
    out
}

/// Indices, ascending, of the selectable entries whose names are listed.
fn select_named(entries: &Vec<Entry>, names: &Vec<Vec<char>>) -> (r: Vec<usize>)
    ensures
        ascending(r@),
        forall|j: usize| r@.contains(j) <==> (j < entries.len() && selectable(entries@[j as int])
            && views(names@).contains(entries@[j as int].name@)),
        forall|a: int| 0 <= a < r@.len() ==> (#[trigger] r@[a]) < entries.len() && selectable(entries@[r@[a] as int]),
        r@.no_duplicates(),
{
    let ghost es = entries@;
    let mut out: Vec<usize> = Vec::new();
    let mut i: usize = 0;
    while i < entries.len()
        invariant
            i <= entries.len(),
            es == entries@,
            ascending(out@),
            forall|a: int| 0 <= a < out@.len() ==> (#[trigger] out@[a]) < i,
            forall|j: usize| out@.contains(j) <==> (j < i && selectable(es[j as int])
                && views(names@).contains(es[j as int].name@)),
        decreases entries.len() - i,
    {
        let n = chars_of(entries[i].name.as_str());
        if is_selectable(&entries[i]) && name_listed(names, &n) {
            let ghost before = out@;
            out.push(i);
            proof {
                assert forall|j: usize| out@.contains(j) <==> (j < i + 1 && selectable(es[j as int])
                    && views(names@).contains(es[j as int].name@)) by {
                    if out@.contains(j) && j != i {
                        let w = choose|w: int| 0 <= w < out@.len() && out@[w] == j;
                        assert(before[w] == j);
                    }
                    if j < i && selectable(es[j as int]) && views(names@).contains(es[j as int].name@) {
                        assert(before.contains(j));
                        let w = choose|w: int| 0 <= w < before.len() && before[w] == j;
                        assert(out@[w] == j);
                    }
                    if j == i {
                        assert(out@[out@.len() - 1] == j);
                    }
                }
            }
        }
        i = i + 1;
    }
    proof {
        assert forall|a: int| 0 <= a < out@.len() implies (#[trigger] out@[a]) < entries.len()
            && selectable(es[out@[a] as int]) by {
            assert(out@.contains(out@[a]));
        }
        assert(out@.no_duplicates()) by {
            assert forall|a: int, b: int| 0 <= a < out@.len() && 0 <= b < out@.len() && a != b implies out@[a] != out@[b] by {
                if a < b {} else {}
            }
        }
    }
    out
}

/// Walk outward from `old_cursor` through the old names and return where the
/// first one that survived now sits, or `old_cursor` when none did.
fn walk_target(old_names: &Vec<Vec<char>>, old_cursor: usize, entries: &Vec<Entry>) -> (r: usize)
    requires
        old_cursor < old_names.len(),
    ensures
        r as int == ({
            let h = first_hit(walk_order(views(old_names@), old_cursor as int), entries@);
            if h >= 0 { h } else { old_cursor as int }
        }),
{
    let old_len = old_names.len();
    let ghost es = entries@;
    let ghost walk = walk_order(views(old_names@), old_cursor as int);
    let mut hit: Option<usize> = None;
    let mut w: usize = old_cursor;
    assert(walk.skip(0) =~= walk);
    proof { lemma_first_hit(walk, es); }
    while w < old_len && hit.is_none()
        invariant
            old_cursor <= w <= old_len,
            old_cursor < old_len,
            old_len == old_names.len(),
            es == entries@,
            walk == walk_order(views(old_names@), old_cursor as int),
            hit is None ==> first_hit(walk, es) == first_hit(walk.skip(w - old_cursor), es),
            hit matches Some(t) ==> t as int == first_hit(walk, es),
        decreases old_len - w,
    {
        assert(walk.skip(w - old_cursor)[0] == old_names@[w as int]@);
        assert(walk.skip(w - old_cursor).drop_first() =~= walk.skip(w + 1 - old_cursor));
        if let Some(p) = find_name(entries, &old_names[w]) {
            hit = Some(p);
        }
        w = w + 1;
    }
    let mut b: usize = old_cursor;
    while b > 0 && hit.is_none()
        invariant
            b <= old_cursor < old_len,
            old_len == old_names.len(),
            es == entries@,
            walk == walk_order(views(old_names@), old_cursor as int),
            hit is None ==> first_hit(walk, es) == first_hit(walk.skip(old_len - b), es),
            hit matches Some(t) ==> t as int == first_hit(walk, es),
        decreases b,
    {
        assert(walk.skip(old_len - b)[0] == old_names@[b - 1]@);
        assert(walk.skip(old_len - b).drop_first() =~= walk.skip(old_len - b + 1));
        if let Some(p) = find_name(entries, &old_names[b - 1]) {
            hit = Some(p);
        }
        b = b - 1;
    }
    match hit {
        Some(t) => t,
        None => {
            assert(walk.skip(old_len as int) =~= Seq::<Seq<char>>::empty());
            old_cursor
        },
    }
}

/// A field-for-field copy of an optional string.
fn copy_opt_string(o: &Option<String>) -> (r: Option<String>)
    ensures
        r == *o,
{
    match o {
        Some(s) => Some(s.clone()),
        None => None,
    }
}

/// A field-for-field copy of an entry.
pub fn copy_entry(e: &Entry) -> (r: Entry)
    ensures
        r == *e,
{
    Entry {
        name: e.name.clone(),
        kind: e.kind,
        size: e.size,
        modified: e.modified,
        created: e.created,
        permissions: e.permissions,
        uid: e.uid,
        gid: e.gid,
        owner: copy_opt_string(&e.owner),
        group: copy_opt_string(&e.group),
        nlink: e.nlink,
        symlink_target: copy_opt_string(&e.symlink_target),
        is_executable: e.is_executable,
        category: e.category,
        marker: e.marker,
        computed_size: e.computed_size,
    }
}

/// A copy of a whole list of entries.
pub fn copy_entries(v: &Vec<Entry>) -> (r: Vec<Entry>)
    ensures
        r@ == v@,
{
    let mut out: Vec<Entry> = Vec::new();
    let mut i: usize = 0;
    while i < v.len()
        invariant
            i <= v.len(),
            out@ == v@.take(i as int),
        decreases v.len() - i,
    {
        out.push(copy_entry(&v[i]));
        assert(v@.take(i as int).push(v@[i as int]) =~= v@.take(i + 1));
        i = i + 1;
    }
    assert(v@.take(v.len() as int) =~= v@);
    out
}

/// Replace a panel's listing for the same directory, keeping the user's place:
/// the selection survives by name, the cursor stays on its entry or moves to
/// the nearest surviving neighbour (after it first, then before), the viewport
/// stays put unless the cursor would leave it, and an open quick-search box
/// outlives the re-read.
pub fn set_listing_preserving(state: &mut PanelState, listing: DirListing)
    ensures
        final(state).path == listing.path,
        final(state).access == listing.access,
        sorted_by(final(state).entries@, old(state).sort_mode),
        final(state).entries@.to_multiset() == listing.entries@.to_multiset(),
        final(state).entries@.len() == listing.entries@.len(),
        forall|e: Entry| #[trigger] tie_class(final(state).entries@, e, old(state).sort_mode) == tie_class(
            listing.entries@,
            e,
            old(state).sort_mode,
        ),
        final(state).search == old(state).search,
        final(state).view_mode == old(state).view_mode,
        final(state).sort_mode == old(state).sort_mode,
        final(state).show_hidden == old(state).show_hidden,
        final(state).geometry == old(state).geometry,
        final(state).notice == old(state).notice,
        ascending(final(state).selection@),
        forall|i: usize| final(state).selection@.contains(i) <==> (i < final(state).entries.len()
            && selectable(final(state).entries@[i as int]) && selected_names(
            old(state).entries@,
            old(state).selection@,
        ).contains(final(state).entries@[i as int].name@)),
        final(state).cursor_index as int == if final(state).entries.len() == 0 {
            0
        } else {
            min_of(
                preserved_target(old(state).entries@, old(state).cursor_index as int, final(state).entries@),
                final(state).entries.len() - 1,
            )
        },
        final(state).top_index as int == clamped_top(PanelState {
            top_index: old(state).top_index,
            ..*final(state)
        }),
        window_ok(*final(state)),
        selection_ok(*final(state)),
{
    let ghost olds = *old(state);
    let old_len = state.entries.len();
    let old_names = collect_names(&state.entries);
    assert(views(old_names@).len() == old_names@.len());
    let old_cursor = if old_len == 0 { 0 } else { min_usize(state.cursor_index, old_len - 1) };
    let selected = collect_selected(&state.entries, &state.selection);
    let search = state.search.take();
    let old_top = state.top_index;
    set_listing(state, listing);
    state.search = search;
    state.top_index = old_top;
    state.selection = select_named(&state.entries, &selected);
    let target: usize = if old_len == 0 { 0 } else { walk_target(&old_names, old_cursor, &state.entries) };
    set_cursor(state, target);
}

/// Re-apply the panel's current sort mode to the entries already loaded,
/// keeping the cursor and selection on the same entries. No I/O.
pub fn resort(state: &mut PanelState)
    ensures
        final(state).path == old(state).path,
        final(state).access == old(state).access,
        sorted_by(final(state).entries@, old(state).sort_mode),
        final(state).entries@.to_multiset() == old(state).entries@.to_multiset(),
        forall|e: Entry| #[trigger] tie_class(final(state).entries@, e, old(state).sort_mode) == tie_class(
            old(state).entries@,
            e,
            old(state).sort_mode,
        ),
        final(state).search == old(state).search,
        final(state).sort_mode == old(state).sort_mode,
        ascending(final(state).selection@),
        forall|i: usize| final(state).selection@.contains(i) <==> (i < final(state).entries.len()
            && selectable(final(state).entries@[i as int]) && selected_names(
            old(state).entries@,
            old(state).selection@,
        ).contains(final(state).entries@[i as int].name@)),
        final(state).cursor_index as int == if final(state).entries.len() == 0 {
            0
        } else {
            min_of(
                preserved_target(old(state).entries@, old(state).cursor_index as int, final(state).entries@),
                final(state).entries.len() - 1,
            )
        },
        window_ok(*final(state)),
        selection_ok(*final(state)),
{
    let listing = DirListing { path: state.path.clone(), entries: copy_entries(&state.entries), access: state.access.take() };
    set_listing_preserving(state, listing);
}

// ---------------------------------------------------------------------------
// Finding entries
// ---------------------------------------------------------------------------

/// Position of the first entry named `name`, or `-1`.
pub open spec fn first_name_pos(entries: Seq<Entry>, name: Seq<char>) -> int
    decreases entries.len(),
{
    if entries.len() == 0 {
        -1
    } else if entries[0].name@ == name {
        0
    } else {
        let r = first_name_pos(entries.drop_first(), name);
        if r < 0 { -1 } else { r + 1 }
    }
}

proof fn lemma_first_name_pos(entries: Seq<Entry>, name: Seq<char>)
    ensures
        -1 <= first_name_pos(entries, name) < entries.len(),
        first_name_pos(entries, name) >= 0 ==> entries[first_name_pos(entries, name)].name@ == name,
        forall|k: int| 0 <= k < entries.len() && (first_name_pos(entries, name) < 0 || k < first_name_pos(entries, name))
            ==> (#[trigger] entries[k]).name@ != name,
    decreases entries.len(),
{
    if entries.len() > 0 && entries[0].name@ != name {
        lemma_first_name_pos(entries.drop_first(), name);
        assert forall|k: int| 0 <= k < entries.len() && (first_name_pos(entries, name) < 0 || k < first_name_pos(entries, name))
            implies (#[trigger] entries[k]).name@ != name by {
            if k > 0 {
                assert(entries[k] == entries.drop_first()[k - 1]);
            }
        }
    }
}

/// Position of the first entry named `name` (as characters), if any.
fn find_name(entries: &Vec<Entry>, name: &Vec<char>) -> (r: Option<usize>)
    ensures
        match r {
            Some(i) => i as int == first_name_pos(entries@, name@),
            None => first_name_pos(entries@, name@) == -1,
        },
{
    proof { lemma_first_name_pos(entries@, name@); }
    let mut i: usize = 0;
    while i < entries.len()
        invariant
            i <= entries.len(),
            forall|k: int| 0 <= k < i ==> (#[trigger] entries@[k]).name@ != name@,
        decreases entries.len() - i,
    {
        let n = chars_of(entries[i].name.as_str());
        if chars_eq(&n, name) {
            proof {
                lemma_first_name_pos_at(entries@, name@, i as int);
            }
            return Some(i);
        }
        i = i + 1;
    }
    proof { lemma_first_name_pos_none(entries@, name@); }
    None
}

proof fn lemma_first_name_pos_at(entries: Seq<Entry>, name: Seq<char>, i: int)
    requires
        0 <= i < entries.len(),
        entries[i].name@ == name,
        forall|k: int| 0 <= k < i ==> (#[trigger] entries[k]).name@ != name,
    ensures
        first_name_pos(entries, name) == i,
    decreases entries.len(),
{
    if i > 0 {
        assert forall|k: int| 0 <= k < i - 1 implies (#[trigger] entries.drop_first()[k]).name@ != name by {
            assert(entries.drop_first()[k] == entries[k + 1]);
        }
        lemma_first_name_pos_at(entries.drop_first(), name, i - 1);
    }
}

proof fn lemma_first_name_pos_none(entries: Seq<Entry>, name: Seq<char>)
    requires
        forall|k: int| 0 <= k < entries.len() ==> (#[trigger] entries[k]).name@ != name,
    ensures
        first_name_pos(entries, name) == -1,
    decreases entries.len(),
{
    if entries.len() > 0 {
        assert forall|k: int| 0 <= k < entries.len() - 1 implies (#[trigger] entries.drop_first()[k]).name@ != name by {
            assert(entries.drop_first()[k] == entries[k + 1]);
        }
        lemma_first_name_pos_none(entries.drop_first(), name);
    }
}

/// Move the cursor onto the entry with the given name, if present, and bring
/// it into view. Used for landing on the folder just exited.
pub fn position_on(state: &mut PanelState, name: &str)
    ensures
        first_name_pos(old(state).entries@, name@) >= 0 ==> *final(state) == (PanelState {
            cursor_index: first_name_pos(old(state).entries@, name@) as usize,
            top_index: clamped_top(PanelState {
                cursor_index: first_name_pos(old(state).entries@, name@) as usize,
                ..*old(state)
            }) as usize,
            ..*old(state)
        }),
        first_name_pos(old(state).entries@, name@) < 0 ==> *final(state) == *old(state),
        first_name_pos(old(state).entries@, name@) >= 0 ==> window_ok(*final(state)),
{
    let n = chars_of(name);
    if let Some(i) = find_name(&state.entries, &n) {
        proof { lemma_first_name_pos(old(state).entries@, name@); }
        state.cursor_index = i;
        clamp_scroll(state);
    }
}

/// A directory other than `..`: the only kind of entry a vanished panel
/// directory can land among.
pub open spec fn is_real_dir(e: Entry) -> bool {
    e.kind == EntryKind::Dir && !is_dotdot(e.name@)
}

/// The first real directory whose lower-cased name sorts after `key`, or `-1`.
pub open spec fn first_dir_after(entries: Seq<Entry>, key: Seq<char>) -> int
    decreases entries.len(),
{
    if entries.len() == 0 {
        -1
    } else if is_real_dir(entries[0]) && lex_order(spec_lowercase(entries[0].name@), key) > 0 {
        0
    } else {
        let r = first_dir_after(entries.drop_first(), key);
        if r < 0 { -1 } else { r + 1 }
    }
}

/// The last real directory, or `-1`.
pub open spec fn last_dir(entries: Seq<Entry>) -> int
    decreases entries.len(),
{
    if entries.len() == 0 {
        -1
    } else if is_real_dir(entries.last()) {
        entries.len() - 1
    } else {
        last_dir(entries.drop_last())
    }
}

/// Where the cursor lands for a name that may have vanished: on the name, or
/// on the first folder sorting after it, or on the last folder, or on top.
pub open spec fn nearest_sorted_target(entries: Seq<Entry>, name: Seq<char>) -> int {
    let at = first_name_pos(entries, name);
    if at >= 0 {
        at
    } else {
        let after = first_dir_after(entries, spec_lowercase(name));
        if after >= 0 { after } else if last_dir(entries) >= 0 { last_dir(entries) } else { 0 }
    }
}

proof fn lemma_first_dir_after(entries: Seq<Entry>, key: Seq<char>)
    ensures
        -1 <= first_dir_after(entries, key) < entries.len(),
    decreases entries.len(),
{
    if entries.len() > 0 {
        lemma_first_dir_after(entries.drop_first(), key);
    }
}

proof fn lemma_last_dir(entries: Seq<Entry>)
    ensures
        -1 <= last_dir(entries) < entries.len(),
    decreases entries.len(),
{
    if entries.len() > 0 {
        lemma_last_dir(entries.drop_last());
    }
}

/// Whether an entry is a directory other than `..`.
fn is_real_dir_exec(e: &Entry) -> (r: bool)
    ensures
        r == is_real_dir(*e),
{
    e.kind == EntryKind::Dir && !is_dotdot_name(e.name.as_str())
}

/// Move the cursor onto `name`, or — when it is gone — onto the slot where it
/// used to sort among the folders (compared lower-cased), falling back to the
/// last folder and then to the top.
pub fn position_on_nearest_sorted(state: &mut PanelState, name: &str)
    ensures
        final(state).cursor_index as int == if old(state).entries.len() == 0 {
            0
        } else {
            min_of(nearest_sorted_target(old(state).entries@, name@), old(state).entries.len() - 1)
        },
        *final(state) == (PanelState {
            cursor_index: final(state).cursor_index,
            top_index: clamped_top(PanelState { cursor_index: final(state).cursor_index, ..*old(state) }) as usize,
            ..*old(state)
        }),
        window_ok(*final(state)),
{
    let n = chars_of(name);
    if let Some(i) = find_name(&state.entries, &n) {
        set_cursor(state, i);
        return;
    }
    let key = crate::fs::lowercase_chars(&n);
    proof {
        lemma_first_dir_after(state.entries@, key@);
        lemma_last_dir(state.entries@);
    }
    let mut i: usize = 0;
    let mut found: Option<usize> = None;
    let ghost es = state.entries@;
    assert(es.skip(0) =~= es);
    while i < state.entries.len() && found.is_none()
        invariant
            i <= state.entries.len(),
            es == state.entries@,
            found is None ==> first_dir_after(es, key@) == if first_dir_after(es.skip(i as int), key@) < 0 {
                -1
            } else {
                first_dir_after(es.skip(i as int), key@) + i
            },
            found matches Some(t) ==> t as int == first_dir_after(es, key@),
        decreases state.entries.len() - i,
    {
        assert(es.skip(i as int)[0] == es[i as int]);
        assert(es.skip(i as int).drop_first() =~= es.skip(i + 1));
        if is_real_dir_exec(&state.entries[i]) {
            let low = crate::fs::lowercase_chars(&chars_of(state.entries[i].name.as_str()));
            if lex_order_exec(&low, &key) > 0 {
                found = Some(i);
            }
        }
        i = i + 1;
    }
    let target: usize = match found {
        Some(t) => t,
        None => {
            let mut j: usize = state.entries.len();
            let mut last: Option<usize> = None;
            assert(es.take(es.len() as int) =~= es);
            while j > 0 && last.is_none()
                invariant
                    j <= state.entries.len(),
                    es == state.entries@,
                    last is None ==> last_dir(es) == last_dir(es.take(j as int)),
                    last matches Some(l) ==> l as int == last_dir(es),
                decreases j,
            {
                assert(es.take(j as int).last() == es[j - 1]);
                assert(es.take(j as int).drop_last() =~= es.take(j - 1));
                if is_real_dir_exec(&state.entries[j - 1]) {
                    last = Some(j - 1);
                }
                j = j - 1;
            }
            proof {
                if last is None {
                    assert(es.take(0) =~= Seq::<Entry>::empty());
                }
            }
            match last {
                Some(l) => l,
                None => 0,
            }
        },
    };
    set_cursor(state, target);
}

/// The parent directory of `path`, or `None` at a filesystem root.
pub fn parent_of(path: &str) -> (r: Option<String>)
    ensures
        match r {
            Some(p) => path_parent(path@) == Some(p@),
            None => path_parent(path@) is None,
        },
{
    std_path_parent(path)
}

/// The final path component (the folder's own name), or `None` at a root.
pub fn child_name(path: &str) -> (r: Option<String>)
    ensures
        match r {
            Some(p) => path_file_name(path@) == Some(p@),
            None => path_file_name(path@) is None,
        },
{
    std_path_file_name(path)
}

// ---------------------------------------------------------------------------
// Selection
// ---------------------------------------------------------------------------

/// Whether an entry can be selected.
fn is_selectable(entry: &Entry) -> (r: bool)
    ensures
        r == selectable(*entry),
{
    !is_dotdot_name(entry.name.as_str())
}

/// Position of the first occurrence of `x` in `v`, or `-1`.
pub open spec fn index_in(v: Seq<usize>, x: usize) -> int
    decreases v.len(),
{
    if v.len() == 0 {
        -1
    } else if v[0] == x {
        0
    } else {
        let r = index_in(v.drop_first(), x);
        if r < 0 { -1 } else { r + 1 }
    }
}

proof fn lemma_index_in(v: Seq<usize>, x: usize)
    ensures
        -1 <= index_in(v, x) < v.len(),
        index_in(v, x) >= 0 ==> v[index_in(v, x)] == x,
        index_in(v, x) < 0 <==> !v.contains(x),
    decreases v.len(),
{
    if v.len() > 0 && v[0] != x {
        lemma_index_in(v.drop_first(), x);
        if v.contains(x) {
            let k = choose|k: int| 0 <= k < v.len() && v[k] == x;
            assert(v.drop_first()[k - 1] == x);
        }
        if v.drop_first().contains(x) {
            let k = choose|k: int| 0 <= k < v.len() - 1 && v.drop_first()[k] == x;
            assert(v[k + 1] == x);
        }
    } else if v.len() > 0 {
        assert(v[0] == x);
    }
}

proof fn lemma_index_in_at(v: Seq<usize>, x: usize, i: int)
    requires
        0 <= i < v.len(),
        v[i] == x,
        forall|k: int| 0 <= k < i ==> v[k] != x,
    ensures
        index_in(v, x) == i,
    decreases v.len(),
{
    if i > 0 {
        lemma_index_in_at(v.drop_first(), x, i - 1);
    }
}

/// The selection after toggling index `idx`: removed if present, appended if
/// not.
pub open spec fn toggled(sel: Seq<usize>, idx: usize) -> Seq<usize> {
    if index_in(sel, idx) >= 0 { sel.remove(index_in(sel, idx)) } else { sel.push(idx) }
}

/// Toggle selection of the entry under the cursor, then step the cursor down
/// (Space). `..` is never selectable, so toggling it is a no-op that does not
/// move the cursor either.
pub fn toggle_selection(state: &mut PanelState)
    ensures
        old(state).cursor_index < old(state).entries.len() && selectable(
            old(state).entries@[old(state).cursor_index as int],
        ) ==> *final(state) == (PanelState {
            selection: final(state).selection,
            cursor_index: moved_cursor(*old(state), Motion::Down) as usize,
            top_index: moved_top(*old(state), Motion::Down) as usize,
            ..*old(state)
        }) && final(state).selection@ == toggled(old(state).selection@, old(state).cursor_index),
        !(old(state).cursor_index < old(state).entries.len() && selectable(
            old(state).entries@[old(state).cursor_index as int],
        )) ==> *final(state) == *old(state),
        selection_ok(*old(state)) ==> selection_ok(*final(state)),
{
    let idx = state.cursor_index;
    if idx >= state.entries.len() || !is_selectable(&state.entries[idx]) {
        return;
    }
    proof { lemma_index_in(state.selection@, idx); }
    let mut pos: usize = 0;
    let mut hit = false;
    while pos < state.selection.len() && !hit
        invariant
            pos <= state.selection.len(),
            state.selection@ == old(state).selection@,
            hit ==> pos < state.selection.len() && state.selection@[pos as int] == idx,
            forall|k: int| 0 <= k < pos ==> state.selection@[k] != idx,
        decreases state.selection.len() - pos + (if hit { 0int } else { 1int }),
    {
        if state.selection[pos] == idx {
            hit = true;
        } else {
            pos = pos + 1;
        }
    }
    if hit {
        proof { lemma_index_in_at(state.selection@, idx, pos as int); }
        state.selection.remove(pos);
    } else {
        proof {
            assert(!state.selection@.contains(idx));
        }
        state.selection.push(idx);
    }
    proof {
        let s0 = old(state).selection@;
        let s1 = state.selection@;
        if selection_ok(*old(state)) {
            assert forall|k: int| 0 <= k < s1.len() implies (#[trigger] s1[k]) < state.entries.len()
                && selectable(state.entries@[s1[k] as int]) by {
                if hit {
                    if k < pos {
                        assert(s1[k] == s0[k]);
                    } else {
                        assert(s1[k] == s0[k + 1]);
                    }
                } else if k < s0.len() {
                    assert(s1[k] == s0[k]);
                }
            }
            assert(s1.no_duplicates()) by {
                assert forall|a: int, b: int| 0 <= a < s1.len() && 0 <= b < s1.len() && a != b implies s1[a] != s1[b] by {
                    if hit {
                        let a0 = if a < pos { a } else { a + 1 };
                        let b0 = if b < pos { b } else { b + 1 };
                        assert(s1[a] == s0[a0] && s1[b] == s0[b0]);
                    } else {
                        if a < s0.len() && b < s0.len() {
                        } else if a == s0.len() {
                            assert(s1[b] == s0[b]);
                        } else {
                            assert(s1[a] == s0[a]);
                        }
                    }
                }
            }
        }
    }
    move_cursor(state, Motion::Down);
}

/// Whether `new_sel` is `sel` with the selectable entries of `[start, end)`
/// flipped (the range clamped to the listing). An empty clamped range leaves
/// the selection untouched; otherwise the result is listed in ascending order.
pub open spec fn is_flip(new_sel: Seq<usize>, entries: Seq<Entry>, sel: Seq<usize>, start: int, end: int) -> bool {
    let len = entries.len() as int;
    let lo = min_of(start, len);
    let hi = min_of(end, len);
    if lo >= hi {
        new_sel == sel
    } else {
        &&& ascending(new_sel)
        &&& forall|i: usize| new_sel.contains(i) <==> (i < len && flipped(entries, sel, lo, hi, i))
    }
}

/// Flip the selection state of every selectable entry in `[start, end)`,
/// leaving the selection in ascending order.
fn toggle_range(state: &mut PanelState, start: usize, end: usize)
    ensures
        is_flip(final(state).selection@, old(state).entries@, old(state).selection@, start as int, end as int),
        *final(state) == (PanelState { selection: final(state).selection, ..*old(state) }),
        selection_ok(*old(state)) ==> selection_ok(*final(state)),
{
    let len = state.entries.len();
    let lo = min_usize(start, len);
    let hi = min_usize(end, len);
    if lo >= hi {
        return;
    }
    let ghost sel = state.selection@;
    let ghost es = state.entries@;
    let mut marked: Vec<bool> = Vec::new();
    let mut i: usize = 0;
    while i < len
        invariant
            i <= len,
            len == state.entries.len(),
            marked@.len() == i,
            forall|k: int| 0 <= k < i ==> !marked@[k],
        decreases len - i,
    {
        marked.push(false);
        i = i + 1;
    }
    let mut k: usize = 0;
    while k < state.selection.len()
        invariant
            k <= state.selection.len(),
            state.selection@ == sel,
            len == state.entries.len(),
            marked@.len() == len,
            forall|j: int| 0 <= j < len ==> (#[trigger] marked@[j] <==> sel.take(k as int).contains(j as usize)),
        decreases state.selection.len() - k,
    {
        let x = state.selection[k];
        if x < len {
            marked.set(x, true);
        }
        proof {
            assert forall|j: int| 0 <= j < len implies (#[trigger] marked@[j] <==> sel.take(k + 1).contains(j as usize)) by {
                assert(sel.take(k + 1) =~= sel.take(k as int).push(x));
                if sel.take(k as int).contains(j as usize) {
                    let w = choose|w: int| 0 <= w < k && #[trigger] sel.take(k as int)[w] == j as usize;
                    assert(sel.take(k + 1)[w] == j as usize);
                }
                if sel.take(k + 1).contains(j as usize) && j as usize != x {
                    let w = choose|w: int| 0 <= w < k + 1 && #[trigger] sel.take(k + 1)[w] == j as usize;
                    assert(sel.take(k as int)[w] == j as usize);
                }
            }
        }
        k = k + 1;
    }
    assert(sel.take(sel.len() as int) =~= sel);
    let mut i: usize = lo;
    while i < hi
        invariant
            lo <= i <= hi,
            hi <= len,
            es == state.entries@,
            len == state.entries.len(),
            marked@.len() == len,
            forall|j: int| 0 <= j < len ==> (#[trigger] marked@[j] <==> (sel.contains(j as usize) != (lo <= j < i
                && selectable(es[j])))),
        decreases hi - i,
    {
        if is_selectable(&state.entries[i]) {
            let m = marked[i];
            marked.set(i, !m);
        }
        i = i + 1;
    }
    let mut out: Vec<usize> = Vec::new();
    let mut i: usize = 0;
    while i < len
        invariant
            i <= len,
            len == state.entries.len(),
            marked@.len() == len,
            ascending(out@),
            forall|a: int| 0 <= a < out@.len() ==> (#[trigger] out@[a]) < i,
            forall|j: usize| out@.contains(j) <==> (j < i && marked@[j as int]),
        decreases len - i,
    {
        if marked[i] {
            let ghost before = out@;
            out.push(i);
            proof {
                assert forall|j: usize| out@.contains(j) <==> (j < i + 1 && marked@[j as int]) by {
                    if out@.contains(j) && j != i {
                        let w = choose|w: int| 0 <= w < out@.len() && out@[w] == j;
                        assert(before[w] == j);
                    }
                    if j < i && marked@[j as int] {
                        assert(before.contains(j));
                        let w = choose|w: int| 0 <= w < before.len() && before[w] == j;
                        assert(out@[w] == j);
                    }
                    if j == i {
                        assert(out@[out@.len() - 1] == j);
                    }
                }
            }
        }
        i = i + 1;
    }
    proof {
        assert forall|j: usize| out@.contains(j) <==> (j < len && flipped(es, sel, lo as int, hi as int, j)) by {
            if j < len {
                assert(marked@[j as int] <==> (sel.contains(j) != (lo <= j < hi && selectable(es[j as int]))));
            }
        }
        if selection_ok(*old(state)) {
            assert forall|a: int| 0 <= a < out@.len() implies (#[trigger] out@[a]) < len
                && selectable(es[out@[a] as int]) by {
                let j = out@[a];
                assert(out@.contains(j));
                if sel.contains(j) {
                    let w = choose|w: int| 0 <= w < sel.len() && sel[w] == j;
                }
            }
            assert(out@.no_duplicates()) by {
                assert forall|a: int, b: int| 0 <= a < out@.len() && 0 <= b < out@.len() && a != b implies out@[a] != out@[b] by {
                    if a < b {} else {}
                }
            }
        }
    }
    state.selection = out;
}

/// Move the cursor, flipping the selection of every entry it sweeps over —
/// the Shift+Arrow gesture. The range is half-open: the entry the cursor
/// leaves is flipped, the one it lands on is not. When the motion is clamped
/// and the cursor cannot move, the entry under the cursor flips in place.
pub fn toggle_range_and_move(state: &mut PanelState, motion: Motion)
    ensures
        old(state).entries.len() == 0 ==> *final(state) == *old(state),
        old(state).entries.len() > 0 ==> ({
            let from = min_of(old(state).cursor_index as int, old(state).entries.len() - 1);
            let to = moved_cursor(*old(state), motion);
            let (lo, hi) = if to > from { (from, to) } else if to < from { (to + 1, from + 1) } else { (from, from + 1) };
            &&& *final(state) == (PanelState {
                selection: final(state).selection,
                cursor_index: to as usize,
                top_index: moved_top(*old(state), motion) as usize,
                ..*old(state)
            })
            &&& is_flip(final(state).selection@, old(state).entries@, old(state).selection@, lo, hi)
        }),
        selection_ok(*old(state)) ==> selection_ok(*final(state)),
        old(state).entries.len() > 0 ==> window_ok(*final(state)),
{
    let len = state.entries.len();
    if len == 0 {
        return;
    }
    let from = min_usize(state.cursor_index, len - 1);
    move_cursor(state, motion);
    let to = state.cursor_index;
    if to > from {
        toggle_range(state, from, to);
    } else if to < from {
        toggle_range(state, to + 1, from + 1);
    } else {
        toggle_range(state, from, from + 1);
    }
}

/// Select every selectable entry in the panel — everything except `..`.
pub fn select_all(state: &mut PanelState)
    ensures
        ascending(final(state).selection@),
        forall|i: usize| final(state).selection@.contains(i) <==> (i < old(state).entries.len()
            && selectable(old(state).entries@[i as int])),
        *final(state) == (PanelState { selection: final(state).selection, ..*old(state) }),
        selection_ok(*final(state)),
{
    let len = state.entries.len();
    let mut out: Vec<usize> = Vec::new();
    let mut i: usize = 0;
    while i < len
        invariant
            i <= len,
            len == state.entries.len(),
            ascending(out@),
            forall|a: int| 0 <= a < out@.len() ==> (#[trigger] out@[a]) < i,
            forall|j: usize| out@.contains(j) <==> (j < i && selectable(state.entries@[j as int])),
        decreases len - i,
    {
        if is_selectable(&state.entries[i]) {
            let ghost before = out@;
            out.push(i);
            proof {
                assert forall|j: usize| out@.contains(j) <==> (j < i + 1 && selectable(state.entries@[j as int])) by {
                    if out@.contains(j) && j != i {
                        let w = choose|w: int| 0 <= w < out@.len() && out@[w] == j;
                        assert(before[w] == j);
                    }
                    if j < i && selectable(state.entries@[j as int]) {
                        assert(before.contains(j));
                        let w = choose|w: int| 0 <= w < before.len() && before[w] == j;
                        assert(out@[w] == j);
                    }
                    if j == i {
                        assert(out@[out@.len() - 1] == j);
                    }
                }
            }
        }
        i = i + 1;
    }
    proof {
        assert forall|a: int| 0 <= a < out@.len() implies (#[trigger] out@[a]) < len
            && selectable(state.entries@[out@[a] as int]) by {
            assert(out@.contains(out@[a]));
        }
        assert(out@.no_duplicates()) by {
            assert forall|a: int, b: int| 0 <= a < out@.len() && 0 <= b < out@.len() && a != b implies out@[a] != out@[b] by {
                if a < b {} else {}
            }
        }
    }
    state.selection = out;
}

/// Clear the selection.
pub fn deselect_all(state: &mut PanelState)
    ensures
        final(state).selection@.len() == 0,
        *final(state) == (PanelState { selection: final(state).selection, ..*old(state) }),
        selection_ok(*final(state)),
{
    state.selection = Vec::new();
}

// ---------------------------------------------------------------------------
// Laws
// ---------------------------------------------------------------------------

/// Sweeping the same range twice restores every selection mark inside the
/// listing: each entry flips independently, so a second flip undoes the first.
pub proof fn lemma_flip_twice(entries: Seq<Entry>, s0: Seq<usize>, s1: Seq<usize>, s2: Seq<usize>, start: int, end: int)
    requires
        min_of(start, entries.len() as int) < min_of(end, entries.len() as int),
        is_flip(s1, entries, s0, start, end),
        is_flip(s2, entries, s1, start, end),
    ensures
        forall|i: usize| s2.contains(i) <==> (i < entries.len() && s0.contains(i)),
{
}

/// Every motion leaves the cursor on an entry and inside the window, whatever
/// state it started from.
pub proof fn lemma_motion_keeps_window(s: PanelState, m: Motion)
    ensures
        window_ok(PanelState {
            cursor_index: moved_cursor(s, m) as usize,
            top_index: moved_top(s, m) as usize,
            ..s
        }),
{
    let len = s.entries.len() as int;
    if len > 0 {
        lemma_page_positive(s);
        let next = moved_cursor(s, m);
        let top = min_of(s.top_index as int, max_top_of(s));
        let desired = desired_top(top, next, rows_of(s), page_of(s), max_top_of(s), m);
        lemma_visible_top(desired, next, page_of(s), max_top_of(s), len);
    }
}

} // verus!
