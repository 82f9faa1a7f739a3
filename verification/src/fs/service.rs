//! The decisions of the directory-watching service: when a panel is due for
//! a re-read, which changes a panel cares about, which directories to watch,
//! and how a recovery lands.
//!
//! Events never map one to one to re-listings: an event only marks a panel
//! dirty, and the periodic tick re-reads it after `debounce_ms` of quiet, or
//! after `max_delay_ms` at the latest, so a sustained write still shows
//! progress. An identity poll runs on its own timer, because renaming a
//! grandparent of the open directory fires no event at all. Times are
//! milliseconds on any clock that only moves forward.
use vstd::prelude::*;
use crate::fs::watch::{DirRecovery, PanelNoticeSpec};
use crate::paths::{path_parent, path_starts_with, std_path_parent, std_path_starts_with};
use crate::text::{str_eq, string_views};
use crate::types::{PanelNotice, PanelNoticeKind, WatchPrefs};

verus! {

/// How long from `then` to `now`, or zero if the clock reads earlier.
pub open spec fn elapsed(now: u64, then: u64) -> int {
    if now >= then { now - then } else { 0 }
}

/// The timers of one watched panel.
#[derive(Debug, Clone, Copy, PartialEq, Eq, Structural)]
pub struct WatchClock {
    /// When the first un-serviced event arrived (drives the cap).
    pub dirty_since: Option<u64>,
    /// When the most recent event arrived (drives the debounce).
    pub last_event: Option<u64>,
    /// When the directory's identity was last probed.
    pub last_probe: u64,
}

/// Whether a panel with timers `c` is due for servicing at `now`: always when
/// forced (a focus poke); when the identity poll is due; and, once dirty,
/// after a quiet spell or when the cap runs out.
pub open spec fn is_due(c: WatchClock, now: u64, prefs: WatchPrefs, forced: bool) -> bool {
    forced || elapsed(now, c.last_probe) >= prefs.identity_poll_ms || match (c.dirty_since, c.last_event) {
        (Some(since), Some(last)) => elapsed(now, last) >= prefs.debounce_ms || elapsed(now, since)
            >= prefs.max_delay_ms,
        _ => false,
    }
}

impl WatchClock {
    /// Fresh timers, last probed at `last_probe` and not dirty.
    pub fn new(last_probe: u64) -> (r: Self)
        ensures
            r == (WatchClock { dirty_since: None, last_event: None, last_probe }),
    {
        WatchClock { dirty_since: None, last_event: None, last_probe }
    }

    /// An event arrived at `now`: the first one starts the cap, every one
    /// restarts the quiet spell.
    pub fn mark_dirty(&mut self, now: u64)
        ensures
            *final(self) == (WatchClock {
                dirty_since: if old(self).dirty_since is Some { old(self).dirty_since } else { Some(now) },
                last_event: Some(now),
                last_probe: old(self).last_probe,
            }),
    {
        if self.dirty_since.is_none() {
            self.dirty_since = Some(now);
        }
        self.last_event = Some(now);
    }

    /// Serviced: no longer dirty.
    pub fn clear_dirty(&mut self)
        ensures
            *final(self) == (WatchClock { dirty_since: None, last_event: None, last_probe: old(self).last_probe }),
    {
        self.dirty_since = None;
        self.last_event = None;
    }

    /// Whether the panel is due for servicing at `now`.
    pub fn due(&self, now: u64, prefs: &WatchPrefs, forced: bool) -> (r: bool)
        ensures
            r == is_due(*self, now, *prefs, forced),
    {
        if forced {
            return true;
        }
        let since_probe = now.saturating_sub(self.last_probe);
        if since_probe >= prefs.identity_poll_ms {
            return true;
        }
        match (self.dirty_since, self.last_event) {
            (Some(since), Some(last)) => {
                let quiet = now.saturating_sub(last) >= prefs.debounce_ms;
                let capped = now.saturating_sub(since) >= prefs.max_delay_ms;
                quiet || capped
            },
            _ => false,
        }
    }
}

/// Whether a panel showing `panel_path` cares about a change at `changed`:
/// at its own path, inside it, or at an ancestor (which is how it learns it
/// was renamed).
pub fn cares_about(panel_path: &str, changed: &str) -> (r: bool)
    ensures
        r == (path_starts_with(changed@, panel_path@) || path_starts_with(panel_path@, changed@)),
{
    std_path_starts_with(changed, panel_path) || std_path_starts_with(panel_path, changed)
}

/// The directories to watch for panels showing `paths`: each panel's own
/// directory and its parent (which reports the directory itself being renamed
/// or removed), each once, in first-seen order.
pub open spec fn targets_upto(paths: Seq<Seq<char>>, k: int) -> Seq<Seq<char>>
    decreases k,
{
    if k <= 0 {
        Seq::empty()
    } else {
        let prev = targets_upto(paths, k - 1);
        let p = paths[k - 1];
        let with_self = if prev.contains(p) { prev } else { prev.push(p) };
        match path_parent(p) {
            Some(q) => if with_self.contains(q) { with_self } else { with_self.push(q) },
            None => with_self,
        }
    }
}

fn push_new(out: &mut Vec<String>, s: String)
    ensures
        string_views(final(out)@) == if string_views(old(out)@).contains(s@) {
            string_views(old(out)@)
        } else {
            string_views(old(out)@).push(s@)
        },
{
    let ghost v = string_views(out@);
    let mut i: usize = 0;
    while i < out.len()
        invariant
            i <= out@.len(),
            v == string_views(out@),
            forall|k: int| 0 <= k < i ==> v[k] != s@,
        decreases out@.len() - i,
    {
        if str_eq(out[i].as_str(), s.as_str()) {
            assert(v[i as int] == s@);
            return;
        }
        i = i + 1;
    }
    out.push(s);
    assert(string_views(out@) =~= v.push(s@));
}

/// The directories to watch for panels showing `paths`.
pub fn watch_targets(paths: &Vec<String>) -> (r: Vec<String>)
    ensures
        string_views(r@) == targets_upto(string_views(paths@), paths@.len() as int),
{
    let ghost ps = string_views(paths@);
    let mut out: Vec<String> = Vec::new();
    let mut i: usize = 0;
    assert(string_views(out@) =~= Seq::<Seq<char>>::empty());
    while i < paths.len()
        invariant
            i <= paths@.len(),
            ps == string_views(paths@),
            string_views(out@) == targets_upto(ps, i as int),
        decreases paths@.len() - i,
    {
        let p = paths[i].clone();
        assert(ps[i as int] == p@);
        push_new(&mut out, p);
        match std_path_parent(paths[i].as_str()) {
            Some(q) => push_new(&mut out, q),
            None => {},
        }
        i = i + 1;
    }
    out
}

/// Whether `s` occurs in `v`.
fn contains_string(v: &Vec<String>, s: &str) -> (r: bool)
    ensures
        r == string_views(v@).contains(s@),
{
    let ghost sv = string_views(v@);
    let mut i: usize = 0;
    while i < v.len()
        invariant
            i <= v@.len(),
            sv == string_views(v@),
            forall|k: int| 0 <= k < i ==> sv[k] != s@,
        decreases v@.len() - i,
    {
        if str_eq(v[i].as_str(), s) {
            assert(sv[i as int] == s@);
            return true;
        }
        i = i + 1;
    }
    false
}

/// The entries of `from` that are not in `other`, in order: with the
/// registered watches as `from` and the wanted ones as `other`, the watches
/// to drop; the other way round, the ones to add.
pub fn missing_from(from: &Vec<String>, other: &Vec<String>) -> (r: Vec<String>)
    ensures
        string_views(r@) == string_views(from@).filter(|p: Seq<char>| !string_views(other@).contains(p)),
{
    let ghost fv = string_views(from@);
    let ghost ov = string_views(other@);
    let ghost pred = |p: Seq<char>| !ov.contains(p);
    let mut out: Vec<String> = Vec::new();
    let mut i: usize = 0;
    proof {
        reveal_with_fuel(Seq::filter, 1);
        assert(fv.take(0) =~= Seq::<Seq<char>>::empty());
        assert(string_views(out@) =~= fv.take(0).filter(pred));
    }
    while i < from.len()
        invariant
            i <= from@.len(),
            fv == string_views(from@),
            ov == string_views(other@),
            pred == (|p: Seq<char>| !ov.contains(p)),
            string_views(out@) == fv.take(i as int).filter(pred),
        decreases from@.len() - i,
    {
        proof {
            assert(fv.take(i + 1).drop_last() =~= fv.take(i as int));
            assert(fv.take(i + 1).last() == from@[i as int]@);
            reveal_with_fuel(Seq::filter, 1);
        }
        if !contains_string(other, from[i].as_str()) {
            let ghost before = out@;
            out.push(from[i].clone());
            assert(string_views(out@) =~= string_views(before).push(from@[i as int]@));
        }
        i = i + 1;
    }
    assert(fv.take(i as int) =~= fv);
    out
}

/// What a filter keeps: exactly the members that pass.
proof fn lemma_filter_member(s: Seq<Seq<char>>, pred: spec_fn(Seq<char>) -> bool, x: Seq<char>)
    ensures
        s.filter(pred).contains(x) <==> (s.contains(x) && pred(x)),
    decreases s.len(),
{
    reveal_with_fuel(Seq::filter, 1);
    if s.len() > 0 {
        let d = s.drop_last();
        lemma_filter_member(d, pred, x);
        let sub = d.filter(pred);
        if s.contains(x) && pred(x) {
            let i = choose|i: int| 0 <= i < s.len() && s[i] == x;
            if i < s.len() - 1 {
                assert(d[i] == x);
                assert(d.contains(x));
                let j = choose|j: int| 0 <= j < sub.len() && sub[j] == x;
                if pred(s.last()) {
                    assert(sub.push(s.last())[j] == x);
                }
            } else {
                assert(sub.push(s.last())[sub.len() as int] == x);
            }
        }
        if s.filter(pred).contains(x) {
            if pred(s.last()) && x == s.last() {
                assert(s[s.len() - 1] == x);
            } else {
                if pred(s.last()) {
                    let j = choose|j: int| 0 <= j < sub.len() + 1 && sub.push(s.last())[j] == x;
                    assert(sub[j] == x);
                }
                assert(sub.contains(x));
                let i = choose|i: int| 0 <= i < d.len() && d[i] == x;
                assert(s[i] == x);
            }
        }
    }
}

/// Re-arming reaches exactly what is wanted: the registered watches, less
/// those [`missing_from`] the wanted ones, plus the wanted ones missing from
/// the registered, are the wanted directories.
pub proof fn lemma_rearm_reaches_wanted(watched: Seq<Seq<char>>, wanted: Seq<Seq<char>>, p: Seq<char>)
    ensures
        ({
            let stale = watched.filter(|q: Seq<char>| !wanted.contains(q));
            let fresh = wanted.filter(|q: Seq<char>| !watched.contains(q));
            ((watched.contains(p) && !stale.contains(p)) || fresh.contains(p)) <==> wanted.contains(p)
        }),
{
    lemma_filter_member(watched, |q: Seq<char>| !wanted.contains(q), p);
    lemma_filter_member(wanted, |q: Seq<char>| !watched.contains(q), p);
}

/// How a directory is watched: through the platform's event stream, or by
/// polling, which network mounts need because they deliver no events.
#[derive(Debug, Clone, Copy, PartialEq, Eq, Structural)]
pub enum WatcherKind {
    Local,
    Remote,
}

/// How to watch a directory on a local volume or not: a network mount is
/// polled, and not watched at all when polling is switched off (a refresh
/// and the focus poke still cover it).
pub fn watcher_for(is_local: bool, poll_non_local_ms: u64) -> (r: Option<WatcherKind>)
    ensures
        r == if is_local {
            Some(WatcherKind::Local)
        } else if poll_non_local_ms == 0 {
            None
        } else {
            Some(WatcherKind::Remote)
        },
{
    if is_local {
        Some(WatcherKind::Local)
    } else if poll_non_local_ms == 0 {
        None
    } else {
        Some(WatcherKind::Remote)
    }
}

/// How a serviced listing lands in its panel.
#[derive(Debug, Clone, PartialEq, Eq)]
pub enum Land {
    /// Reconcile with the current listing, keeping cursor and selection.
    Preserve,
    /// Start fresh at the top.
    Fresh,
    /// Start fresh, then put the cursor where the named entry sorts.
    At(Option<String>),
}

/// What servicing a panel comes to once its recovery is decided.
#[derive(Debug)]
pub enum Landing {
    /// Attach the notice without moving the panel.
    Hold(PanelNoticeSpec),
    /// Re-read `target` (the panel's own directory when `None`) and land it
    /// as `land`, with `notice` when there is one.
    Read { target: Option<String>, land: Land, notice: Option<PanelNoticeSpec> },
}

/// Where a recovery sends the panel and how the listing lands there.
pub fn landing_of(recovery: DirRecovery) -> (r: Landing)
    ensures
        match recovery {
            DirRecovery::Reload => r matches Landing::Read { target, land, notice } && target is None
                && land == Land::Preserve && notice is None,
            DirRecovery::ReloadFresh(n) => r matches Landing::Read { target, land, notice } && target is None
                && land == Land::Fresh && notice == Some(n),
            DirRecovery::Follow { path, notice: n } => r matches Landing::Read { target, land, notice }
                && target == Some(path) && land == Land::Preserve && notice == Some(n),
            DirRecovery::Fallback { path, cursor_hint, notice: n } => r matches Landing::Read {
                target,
                land,
                notice,
            } && target == Some(path) && land == Land::At(cursor_hint) && notice == Some(n),
            DirRecovery::Hold(n) => r matches Landing::Hold(m) && m == n,
        },
{
    match recovery {
        DirRecovery::Reload => Landing::Read { target: None, land: Land::Preserve, notice: None },
        DirRecovery::ReloadFresh(n) => Landing::Read { target: None, land: Land::Fresh, notice: Some(n) },
        DirRecovery::Follow { path, notice } => Landing::Read {
            target: Some(path),
            land: Land::Preserve,
            notice: Some(notice),
        },
        DirRecovery::Fallback { path, cursor_hint, notice } => Landing::Read {
            target: Some(path),
            land: Land::At(cursor_hint),
            notice: Some(notice),
        },
        DirRecovery::Hold(n) => Landing::Hold(n),
    }
}

/// Whether a re-read can be dropped before it reaches the frontend: the panel
/// stayed where it was, the listing looks the same, and no stale "permission
/// denied" notice is waiting to be cleared.
pub fn unchanged(moved: bool, land: &Land, same_digest: bool, denied_pending: bool) -> (r: bool)
    ensures
        r == (!moved && *land == Land::Preserve && same_digest && !denied_pending),
{
    match land {
        Land::Preserve => !moved && same_digest && !denied_pending,
        _ => false,
    }
}

/// Whether `n` is a "permission denied" notice.
pub open spec fn is_denied(n: Option<PanelNotice>) -> bool {
    n matches Some(x) && x.kind == PanelNoticeKind::Denied
}

/// The notice a panel shows after a re-read: the recovery's own when it has
/// one; otherwise the current one, unless it says "permission denied", which
/// the successful re-read has just disproved.
pub fn notice_after(spec: Option<PanelNoticeSpec>, current: Option<PanelNotice>) -> (r: Option<PanelNotice>)
    ensures
        match spec {
            Some(s) => r matches Some(n) && n.kind == s.kind && n.path == s.path && n.message@
                == crate::fs::watch::notice_message(s.kind, s.path@),
            None => r == if is_denied(current) { None } else { current },
        },
{
    match spec {
        Some(s) => Some(s.into_notice()),
        None => {
            let denied = match &current {
                Some(n) => n.kind == PanelNoticeKind::Denied,
                None => false,
            };
            if denied {
                None
            } else {
                current
            }
        },
    }
}

/// Whether holding a panel with `notice` changes anything: not when the same
/// kind of notice about the same path is already up, so a directory that
/// stays unreadable is not reported on every poll.
pub fn hold_changes(current: &Option<PanelNotice>, notice: &PanelNotice) -> (r: bool)
    ensures
        r == !(current matches Some(c) && c.kind == notice.kind && c.path@ == notice.path@),
{
    match current {
        Some(c) => !(c.kind == notice.kind && str_eq(c.path.as_str(), notice.path.as_str())),
        None => true,
    }
}

// ---------------------------------------------------------------------------
// Laws
// ---------------------------------------------------------------------------

/// A sustained stream of events cannot postpone a re-read forever: once the
/// cap has run out since the first event, the panel is due however recent the
/// last event was.
pub proof fn lemma_cap_breaks_streams(c: WatchClock, now: u64, prefs: WatchPrefs)
    requires
        c.dirty_since matches Some(since) && elapsed(now, since) >= prefs.max_delay_ms,
        c.last_event is Some,
    ensures
        is_due(c, now, prefs, false),
{
}

/// A clean panel is due only for its identity poll (or when forced).
pub proof fn lemma_clean_waits_for_poll(c: WatchClock, now: u64, prefs: WatchPrefs, forced: bool)
    requires
        c.dirty_since is None,
    ensures
        is_due(c, now, prefs, forced) == (forced || elapsed(now, c.last_probe) >= prefs.identity_poll_ms),
{
}

/// Every panel's own directory and its parent are watched, and nothing is
/// watched twice.
pub proof fn lemma_targets_cover(paths: Seq<Seq<char>>, k: int)
    requires
        0 <= k <= paths.len(),
    ensures
        forall|i: int| 0 <= i < k ==> targets_upto(paths, k).contains(#[trigger] paths[i]),
        forall|i: int| 0 <= i < k ==> (path_parent(#[trigger] paths[i]) matches Some(q) ==> targets_upto(
            paths,
            k,
        ).contains(q)),
        forall|a: int, b: int| 0 <= a < b < targets_upto(paths, k).len() ==> targets_upto(paths, k)[a]
            != targets_upto(paths, k)[b],
    decreases k,
{
    if k > 0 {
        lemma_targets_cover(paths, k - 1);
        let prev = targets_upto(paths, k - 1);
        let p = paths[k - 1];
        let w = if prev.contains(p) { prev } else { prev.push(p) };
        assert forall|x: Seq<char>| prev.contains(x) implies w.contains(x) by {
            if !prev.contains(p) {
                let j = choose|j: int| 0 <= j < prev.len() && prev[j] == x;
                assert(w[j] == x);
            }
        }
        assert(w.contains(p)) by {
            if !prev.contains(p) {
                assert(w[prev.len() as int] == p);
            }
        }
        assert forall|a: int, b: int| 0 <= a < b < w.len() implies w[a] != w[b] by {
            if !prev.contains(p) && b == prev.len() {
                assert(w[a] == prev[a]);
            }
        }
        let r = targets_upto(paths, k);
        assert forall|x: Seq<char>| w.contains(x) implies r.contains(x) by {
            match path_parent(p) {
                Some(q) => {
                    if !w.contains(q) {
                        let j = choose|j: int| 0 <= j < w.len() && w[j] == x;
                        assert(r[j] == x);
                    }
                },
                None => {},
            }
        }
        match path_parent(p) {
            Some(q) => {
                if !w.contains(q) {
                    assert(r[w.len() as int] == q);
                    assert forall|a: int, b: int| 0 <= a < b < r.len() implies r[a] != r[b] by {
                        if b == w.len() {
                            assert(r[a] == w[a]);
                        }
                    }
                }
            },
            None => {},
        }
        assert forall|i: int| 0 <= i < k implies r.contains(#[trigger] paths[i]) by {
            if i < k - 1 {
                assert(prev.contains(paths[i]));
            }
        }
        assert forall|i: int| 0 <= i < k implies (path_parent(#[trigger] paths[i]) matches Some(q) ==> r.contains(q)) by {
            if i < k - 1 {
                if path_parent(paths[i]) is Some {
                    assert(prev.contains(path_parent(paths[i]).unwrap()));
                }
            }
        }
    }
}

} // verus!
