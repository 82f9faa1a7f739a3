//! What the user's commands come to before anything touches the disk: where
//! a navigation leads, which entries an operation acts on, whether a listing
//! still describes the disk, where a panel opens, and what mirroring the
//! active folder onto the other panel means.
use vstd::prelude::*;
use crate::paths::{path_file_name, path_join, path_parent, std_path_join};
use crate::nav::{child_name, parent_of};
use crate::state::AppState;
use crate::text::{owned, push_str, str_eq};
use crate::types::{Entry, EntryKind, NavTarget, PanelId, PanelPrefs, PanelState};

verus! {

broadcast use vstd::seq_lib::group_to_multiset_ensures;

// ---------------------------------------------------------------------------
// Navigation
// ---------------------------------------------------------------------------

/// The entry under a panel's cursor, if the cursor is on one.
pub open spec fn cursor_entry(p: PanelState) -> Option<Entry> {
    if p.cursor_index < p.entries@.len() { Some(p.entries@[p.cursor_index as int]) } else { None }
}

/// Where a step up from `cur` leads, and the folder being left.
pub open spec fn step_up(cur: Seq<char>) -> (Option<Seq<char>>, Option<Seq<char>>) {
    (path_parent(cur), path_file_name(cur))
}

/// Where a navigation from panel `p` leads: the directory to list and, for a
/// step up, the name of the folder being left, so the cursor lands on it.
/// Entering `..` steps up; entering a directory, or a symlink that resolves
/// to one (`link_is_dir`), descends; anything else goes nowhere.
pub open spec fn destination(p: PanelState, target: NavTarget, link_is_dir: bool) -> (
    Option<Seq<char>>,
    Option<Seq<char>>,
) {
    match target {
        NavTarget::Path(path) => (Some(path@), None),
        NavTarget::Parent => step_up(p.path@),
        NavTarget::Into => match cursor_entry(p) {
            Some(e) => if e.name@ == seq!['.', '.'] {
                step_up(p.path@)
            } else if e.kind == EntryKind::Dir || (e.kind == EntryKind::Symlink && link_is_dir) {
                (Some(path_join(p.path@, e.name@)), None)
            } else {
                (None, None)
            },
            None => (None, None),
        },
    }
}

/// The text of an optional string.
pub open spec fn opt_view(o: Option<String>) -> Option<Seq<char>> {
    match o {
        Some(s) => Some(s@),
        None => None,
    }
}

/// Where a navigation from panel `p` leads; see [`destination`].
/// `link_is_dir` is consulted only for a symlink under the cursor.
pub fn nav_destination(p: &PanelState, target: NavTarget, link_is_dir: bool) -> (r: (Option<String>, Option<String>))
    ensures
        (opt_view(r.0), opt_view(r.1)) == destination(*p, target, link_is_dir),
{
    match target {
        NavTarget::Path(path) => (Some(path), None),
        NavTarget::Parent => (parent_of(p.path.as_str()), child_name(p.path.as_str())),
        NavTarget::Into => {
            if p.cursor_index < p.entries.len() {
                let e = &p.entries[p.cursor_index];
                if str_eq(e.name.as_str(), "..") {
                    proof {
                        reveal_strlit("..");
                        assert(".."@ =~= seq!['.', '.']);
                    }
                    assert(e.name@ =~= seq!['.', '.']);
                    (parent_of(p.path.as_str()), child_name(p.path.as_str()))
                } else {
                    proof {
                        reveal_strlit("..");
                        assert(".."@ =~= seq!['.', '.']);
                    }
                    assert(e.name@ != seq!['.', '.']);
                    if e.kind == EntryKind::Dir || (e.kind == EntryKind::Symlink && link_is_dir) {
                        (Some(std_path_join(p.path.as_str(), e.name.as_str())), None)
                    } else {
                        (None, None)
                    }
                }
            } else {
                (None, None)
            }
        },
    }
}

// ---------------------------------------------------------------------------
// Operation targets
// ---------------------------------------------------------------------------

/// Indices in nondecreasing order.
pub open spec fn nondecreasing(s: Seq<usize>) -> bool {
    forall|i: int, j: int| 0 <= i < j < s.len() ==> s[i] <= s[j]
}

/// The indices a copy, move or delete acts on, before sorting: the
/// selection, or the cursor when nothing is selected.
pub open spec fn chosen(p: PanelState) -> Seq<usize> {
    if p.selection@.len() == 0 { seq![p.cursor_index] } else { p.selection@ }
}

/// The targets `idx` picks out of `entries` under `base`: each index that
/// names an entry other than `..`, as its joined path and its kind.
pub open spec fn picked(idx: Seq<usize>, entries: Seq<Entry>, base: Seq<char>) -> Seq<(Seq<char>, EntryKind)>
    decreases idx.len(),
{
    if idx.len() == 0 {
        Seq::empty()
    } else {
        let rest = picked(idx.drop_last(), entries, base);
        let i = idx.last() as int;
        if i < entries.len() && entries[i].name@ != seq!['.', '.'] {
            rest.push((path_join(base, entries[i].name@), entries[i].kind))
        } else {
            rest
        }
    }
}

/// The texts of a list of targets.
pub open spec fn target_views(v: Seq<(String, EntryKind)>) -> Seq<(Seq<char>, EntryKind)> {
    Seq::new(v.len(), |i: int| (v[i].0@, v[i].1))
}

/// `v` sorted into nondecreasing order.
fn sorted_indices(v: &Vec<usize>) -> (r: Vec<usize>)
    ensures
        nondecreasing(r@),
        r@.to_multiset() == v@.to_multiset(),
        r@.len() == v@.len(),
{
    let mut out: Vec<usize> = Vec::new();
    let mut k: usize = 0;
    while k < v.len()
        invariant
            k <= v@.len(),
            nondecreasing(out@),
            out@.to_multiset() == v@.take(k as int).to_multiset(),
            out@.len() == k,
        decreases v@.len() - k,
    {
        let x = v[k];
        let mut j: usize = out.len();
        while j > 0 && x < out[j - 1]
            invariant
                j <= out@.len(),
                nondecreasing(out@),
                forall|q: int| j <= q < out@.len() ==> x < #[trigger] out@[q],
            decreases j,
        {
            j = j - 1;
        }
        let ghost before = out@;
        proof {
            let t = before.insert(j as int, x);
            assert(t.remove(j as int) =~= before);
            assert(t[j as int] == x);
            assert(t.to_multiset().count(x) > 0) by {
                assert(t.contains(x));
            }
            assert(t.remove(j as int).to_multiset() =~= t.to_multiset().remove(x));
            assert(v@.take(k + 1) =~= v@.take(k as int).push(x));
        }
        out.insert(j, x);
        assert(nondecreasing(out@)) by {
            assert forall|a: int, b: int| 0 <= a < b < out@.len() implies out@[a] <= out@[b] by {
                if b < j {
                    assert(out@[a] == before[a] && out@[b] == before[b]);
                } else if b == j {
                    assert(out@[b] == x);
                    if j > 0 {
                        assert(out@[a] == before[a]);
                        assert(before[a] <= before[j - 1]);
                    }
                } else if a == j {
                    assert(out@[a] == x && out@[b] == before[b - 1]);
                } else if a < j {
                    assert(out@[a] == before[a] && out@[b] == before[b - 1]);
                    assert(x < before[b - 1]);
                    if j > 0 {
                        assert(before[a] <= before[j - 1]);
                    }
                } else {
                    assert(out@[a] == before[a - 1] && out@[b] == before[b - 1]);
                }
            }
        }
        k = k + 1;
    }
    assert(v@.take(k as int) =~= v@);
    out
}

/// What a copy, move or delete acts on in panel `p`: the selected entries in
/// index order, or the one under the cursor when nothing is selected; never
/// `..`; each as its path under the panel's folder and its kind.
pub fn op_targets(p: &PanelState) -> (r: Vec<(String, EntryKind)>)
    ensures
        exists|idx: Seq<usize>|
            nondecreasing(idx) && idx.to_multiset() == chosen(*p).to_multiset() && target_views(r@) == picked(
                idx,
                p.entries@,
                p.path@,
            ),
{
    let mut base: Vec<usize> = Vec::new();
    if p.selection.len() == 0 {
        base.push(p.cursor_index);
        assert(base@ =~= chosen(*p));
    } else {
        let mut k: usize = 0;
        while k < p.selection.len()
            invariant
                k <= p.selection@.len(),
                base@ == p.selection@.take(k as int),
            decreases p.selection@.len() - k,
        {
            base.push(p.selection[k]);
            assert(base@ =~= p.selection@.take(k + 1));
            k = k + 1;
        }
        assert(p.selection@.take(k as int) =~= p.selection@);
    }
    let idx = sorted_indices(&base);
    let mut out: Vec<(String, EntryKind)> = Vec::new();
    let mut k: usize = 0;
    proof {
        reveal_strlit("..");
        assert(".."@ =~= seq!['.', '.']);
        assert(idx@.take(0) =~= Seq::<usize>::empty());
    }
    while k < idx.len()
        invariant
            k <= idx@.len(),
            target_views(out@) == picked(idx@.take(k as int), p.entries@, p.path@),
        decreases idx@.len() - k,
    {
        let i = idx[k];
        proof {
            assert(idx@.take(k + 1).drop_last() =~= idx@.take(k as int));
            assert(idx@.take(k + 1).last() == i);
        }
        if i < p.entries.len() && !str_eq(p.entries[i].name.as_str(), "..") {
            proof {
                reveal_strlit("..");
                assert(".."@ =~= seq!['.', '.']);
            }
            let path = std_path_join(p.path.as_str(), p.entries[i].name.as_str());
            let ghost before = out@;
            out.push((path, p.entries[i].kind));
            assert(target_views(out@) =~= target_views(before).push((path@, p.entries@[i as int].kind)));
        } else {
            proof {
                reveal_strlit("..");
                assert(".."@ =~= seq!['.', '.']);
                if i < p.entries@.len() {
                    assert(p.entries@[i as int].name@ =~= seq!['.', '.']);
                }
            }
        }
        k = k + 1;
    }
    assert(idx@.take(k as int) =~= idx@);
    out
}

// ---------------------------------------------------------------------------
// Listings that fell behind the disk
// ---------------------------------------------------------------------------

/// How a kind is written in the stale-listing message.
pub open spec fn kind_word(k: EntryKind) -> Seq<char> {
    match k {
        EntryKind::File => "File"@,
        EntryKind::Dir => "Dir"@,
        EntryKind::Symlink => "Symlink"@,
        EntryKind::Special => "Special"@,
    }
}

/// Why a target taken from a listing no longer matches the disk, if it does
/// not: `actual` is what is at `path` now (`None` when nothing is).
pub open spec fn stale_reason(path: Seq<char>, expected: EntryKind, actual: Option<EntryKind>) -> Option<Seq<char>> {
    match actual {
        None => Some(path + " is no longer there \u{2014} the listing was out of date. Refresh and try again."@),
        Some(k) => if k == expected {
            None
        } else {
            Some(
                path + " is no longer a "@ + kind_word(expected)
                    + " \u{2014} the listing was out of date. Refresh and try again."@,
            )
        },
    }
}

fn kind_label(k: EntryKind) -> (r: &'static str)
    ensures
        r@ == kind_word(k),
{
    match k {
        EntryKind::File => "File",
        EntryKind::Dir => "Dir",
        EntryKind::Symlink => "Symlink",
        EntryKind::Special => "Special",
    }
}

/// Check one target against what is on disk now; see [`stale_reason`].
pub fn stale_target(path: &str, expected: EntryKind, actual: Option<EntryKind>) -> (r: Option<String>)
    ensures
        opt_view(r) == stale_reason(path@, expected, actual),
{
    match actual {
        None => {
            let mut m = owned(path);
            push_str(&mut m, " is no longer there \u{2014} the listing was out of date. Refresh and try again.");
            Some(m)
        },
        Some(k) => if k == expected {
            None
        } else {
            let mut m = owned(path);
            push_str(&mut m, " is no longer a ");
            push_str(&mut m, kind_label(expected));
            push_str(&mut m, " \u{2014} the listing was out of date. Refresh and try again.");
            Some(m)
        },
    }
}

// ---------------------------------------------------------------------------
// Where panels open
// ---------------------------------------------------------------------------

/// The folder a panel opens at: its remembered folder when that still is a
/// directory (`dir_exists`), otherwise `home`.
pub open spec fn start_folder(prefs: PanelPrefs, dir_exists: bool, home: Seq<char>) -> Seq<char> {
    match prefs.start_dir {
        Some(d) => if dir_exists { d@ } else { home },
        None => home,
    }
}

/// The folder a panel opens at; see [`start_folder`]. `dir_exists` says
/// whether the remembered folder is still a directory.
pub fn start_dir(prefs: &PanelPrefs, dir_exists: bool, home: &str) -> (r: String)
    ensures
        r@ == start_folder(*prefs, dir_exists, home@),
{
    match &prefs.start_dir {
        Some(d) => if dir_exists {
            d.clone()
        } else {
            owned(home)
        },
        None => owned(home),
    }
}

/// Showing the active folder on the other panel too: which panel moves and
/// where, or `None` when the active panel shows nothing yet or the other
/// already shows the same folder.
pub open spec fn mirror_of(app: AppState) -> Option<(PanelId, Seq<char>)> {
    let other = if app.active == PanelId::Left { PanelId::Right } else { PanelId::Left };
    let path = app.panel_spec(app.active).path@;
    if path.len() == 0 || path == app.panel_spec(other).path@ { None } else { Some((other, path)) }
}

/// Which panel mirrors the active folder, and where; see [`mirror_of`].
pub fn equalize_target(app: &AppState) -> (r: Option<(PanelId, String)>)
    ensures
        match r {
            Some((id, path)) => mirror_of(*app) == Some((id, path@)),
            None => mirror_of(*app) is None,
        },
{
    let other = app.active.other();
    let path = app.panel(app.active).path.clone();
    if path.as_str().is_empty() || str_eq(path.as_str(), app.panel(other).path.as_str()) {
        return None;
    }
    Some((other, path))
}

/// The name under panel `p`'s cursor that Ctrl+Enter puts on the command
/// line: any entry but `..`.
pub open spec fn insertable_name(p: PanelState) -> Option<Seq<char>> {
    match cursor_entry(p) {
        Some(e) => if e.name@ == seq!['.', '.'] { None } else { Some(e.name@) },
        None => None,
    }
}

/// The name under the cursor for the command line; see [`insertable_name`].
pub fn name_to_insert(p: &PanelState) -> (r: Option<String>)
    ensures
        opt_view(r) == insertable_name(*p),
{
    if p.cursor_index < p.entries.len() {
        let name = &p.entries[p.cursor_index].name;
        proof {
            reveal_strlit("..");
            assert(".."@ =~= seq!['.', '.']);
        }
        if str_eq(name.as_str(), "..") {
            assert(name@ =~= seq!['.', '.']);
            None
        } else {
            Some(name.clone())
        }
    } else {
        None
    }
}

} // verus!
