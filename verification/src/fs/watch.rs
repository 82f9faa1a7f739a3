//! Directory identity, and what to do when a panel's directory stops being
//! there.
//!
//! A directory has an identity — its `(dev, ino)` — independent of its path.
//! A probe collects the raw facts ([`Observation`]); [`decide`] turns them into
//! what happened ([`DirFate`]) and [`recover`] into what the panel should do
//! ([`DirRecovery`]). Both are pure: every filesystem fact arrives as an
//! argument.
use vstd::prelude::*;
use crate::paths::{path_components, path_file_name, path_join, path_starts_with, std_path_components,
    std_path_file_name, std_path_join, std_path_starts_with};
use crate::text::{owned, push_str, str_eq};
use crate::types::{OnLost, PanelNotice, PanelNoticeKind, WatchPrefs};

verus! {

/// What `fstat` on the panel's directory descriptor reported.
#[derive(Debug, Clone, Copy, PartialEq, Eq, Structural)]
pub enum Liveness {
    /// Still there, whatever its path now is.
    Alive { dev: u64, ino: u64 },
    /// Removed.
    Gone,
    /// The volume went away underneath it.
    VolumeGone,
    /// Some other error; never enough to move the user.
    Unknown,
}

/// The raw facts a probe collects.
#[derive(Debug, Clone, PartialEq, Eq)]
pub struct Observation {
    pub liveness: Liveness,
    /// Where the directory is now, when that could be found out.
    pub current_path: Option<String>,
    /// Identity of whatever now sits at the panel's path, if anything.
    pub at_panel_path: Option<(u64, u64)>,
    /// Whether the directory could actually be read.
    pub readable: bool,
}

/// What happened to a directory a panel had open.
#[derive(Debug, Clone, PartialEq, Eq)]
pub enum DirFate {
    /// Same directory, same path.
    Alive,
    /// Same directory, new path.
    Moved(String),
    /// Same directory, now in the Trash.
    Trashed,
    /// A different directory now occupies the path.
    Replaced,
    /// Removed, and nothing took its place.
    Deleted,
    /// The volume was ejected.
    Unmounted,
    /// Still there, but no longer readable.
    Unreadable,
}

/// What happened, with the new path taken by its view.
pub enum FateSpec {
    Alive,
    Moved(Seq<char>),
    Trashed,
    Replaced,
    Deleted,
    Unmounted,
    Unreadable,
}

/// The view of a fate.
pub open spec fn fate_view(f: DirFate) -> FateSpec {
    match f {
        DirFate::Alive => FateSpec::Alive,
        DirFate::Moved(p) => FateSpec::Moved(p@),
        DirFate::Trashed => FateSpec::Trashed,
        DirFate::Replaced => FateSpec::Replaced,
        DirFate::Deleted => FateSpec::Deleted,
        DirFate::Unmounted => FateSpec::Unmounted,
        DirFate::Unreadable => FateSpec::Unreadable,
    }
}

/// Whether a path lies inside a Trash: under `home/.Trash`, or with a
/// `.Trashes` or `.Trash` component anywhere.
pub open spec fn in_trash(path: Seq<char>, home: Seq<char>) -> bool {
    path_starts_with(path, path_join(home, ".Trash"@)) || path_components(path).contains(".Trashes"@)
        || path_components(path).contains(".Trash"@)
}

/// Is this path inside a Trash directory — the per-user `~/.Trash`, or a
/// per-volume `.Trashes`?
pub fn is_in_trash(path: &str, home: &str) -> (r: bool)
    ensures
        r == in_trash(path@, home@),
{
    let trash = std_path_join(home, ".Trash");
    if std_path_starts_with(path, trash.as_str()) {
        return true;
    }
    let comps = std_path_components(path);
    let ghost cs = path_components(path@);
    let mut i: usize = 0;
    while i < comps.len()
        invariant
            i <= comps.len(),
            cs == path_components(path@),
            !path_starts_with(path@, path_join(home@, ".Trash"@)),
            comps@.len() == cs.len(),
            forall|k: int| 0 <= k < comps@.len() ==> (#[trigger] comps@[k])@ == cs[k],
            forall|k: int| 0 <= k < i ==> cs[k] != ".Trashes"@ && cs[k] != ".Trash"@,
        decreases comps.len() - i,
    {
        let a = str_eq(comps[i].as_str(), ".Trashes");
        let b = str_eq(comps[i].as_str(), ".Trash");
        if a || b {
            assert(comps@[i as int]@ == cs[i as int]);
            if a {
                assert(cs[i as int] == ".Trashes"@);
                assert(cs.contains(".Trashes"@));
            } else {
                assert(cs[i as int] == ".Trash"@);
                assert(cs.contains(".Trash"@));
            }
            return true;
        }
        i = i + 1;
    }
    false
}

/// The fate the facts describe.
pub open spec fn fate_of(obs: Observation, panel_path: Seq<char>, home: Seq<char>, follow_moves: bool) -> FateSpec {
    match obs.liveness {
        Liveness::VolumeGone => FateSpec::Unmounted,
        Liveness::Gone => if obs.at_panel_path is Some { FateSpec::Replaced } else { FateSpec::Deleted },
        Liveness::Unknown => if obs.readable { FateSpec::Alive } else { FateSpec::Unreadable },
        Liveness::Alive { dev, ino } => {
            let current = match obs.current_path {
                Some(p) => p@,
                None => panel_path,
            };
            if in_trash(current, home) {
                FateSpec::Trashed
            } else if obs.at_panel_path != Some((dev, ino)) {
                if follow_moves { FateSpec::Moved(current) } else { FateSpec::Deleted }
            } else if obs.readable {
                FateSpec::Alive
            } else {
                FateSpec::Unreadable
            }
        },
    }
}

/// Classify a probe. Our directory gone: replaced when something else holds
/// the path, deleted otherwise. An unexpected error never moves the panel.
/// Alive: trashed when now in a Trash, moved (or, with following off,
/// deleted) when the panel's path no longer leads to it, else alive or
/// unreadable.
pub fn decide(obs: &Observation, panel_path: &str, home: &str, follow_moves: bool) -> (r: DirFate)
    ensures
        fate_view(r) == fate_of(*obs, panel_path@, home@, follow_moves),
{
    match obs.liveness {
        Liveness::VolumeGone => DirFate::Unmounted,
        Liveness::Gone => match obs.at_panel_path {
            Some(_) => DirFate::Replaced,
            None => DirFate::Deleted,
        },
        Liveness::Unknown => if obs.readable { DirFate::Alive } else { DirFate::Unreadable },
        Liveness::Alive { dev, ino } => {
            let current = match &obs.current_path {
                Some(p) => owned(p.as_str()),
                None => owned(panel_path),
            };
            if is_in_trash(current.as_str(), home) {
                return DirFate::Trashed;
            }
            let same = match obs.at_panel_path {
                Some((d, i)) => d == dev && i == ino,
                None => false,
            };
            if !same {
                return if follow_moves { DirFate::Moved(current) } else { DirFate::Deleted };
            }
            if obs.readable { DirFate::Alive } else { DirFate::Unreadable }
        },
    }
}

/// A notice before it is rendered — kind plus the path it concerns.
#[derive(Debug, Clone, PartialEq, Eq)]
pub struct PanelNoticeSpec {
    pub kind: PanelNoticeKind,
    pub path: String,
}

/// The sentence a notice renders as: what happened first, the path last.
pub open spec fn notice_message(kind: PanelNoticeKind, path: Seq<char>) -> Seq<char> {
    match kind {
        PanelNoticeKind::Moved => "Followed this folder from "@ + path,
        PanelNoticeKind::Replaced => "Replaced by a different folder — was "@ + path,
        PanelNoticeKind::Deleted => "Folder deleted — was "@ + path,
        PanelNoticeKind::Trashed => "Folder moved to the Trash — was "@ + path,
        PanelNoticeKind::Unmounted => "Volume ejected — was "@ + path,
        PanelNoticeKind::Denied => "Permission denied reading "@ + path,
    }
}

impl PanelNoticeSpec {
    /// A notice of `kind` about `path`.
    pub fn new(kind: PanelNoticeKind, path: &str) -> (r: Self)
        ensures
            r.kind == kind,
            r.path@ == path@,
    {
        PanelNoticeSpec { kind, path: owned(path) }
    }

    /// Compose the user-facing sentence.
    pub fn into_notice(self) -> (r: PanelNotice)
        ensures
            r.kind == self.kind,
            r.path == self.path,
            r.message@ == notice_message(self.kind, self.path@),
    {
        let mut message = match self.kind {
            PanelNoticeKind::Moved => owned("Followed this folder from "),
            PanelNoticeKind::Replaced => owned("Replaced by a different folder — was "),
            PanelNoticeKind::Deleted => owned("Folder deleted — was "),
            PanelNoticeKind::Trashed => owned("Folder moved to the Trash — was "),
            PanelNoticeKind::Unmounted => owned("Volume ejected — was "),
            PanelNoticeKind::Denied => owned("Permission denied reading "),
        };
        push_str(&mut message, self.path.as_str());
        PanelNotice { kind: self.kind, message, path: self.path }
    }
}

/// What the panel should do about a fate.
#[derive(Debug, Clone, PartialEq, Eq)]
pub enum DirRecovery {
    /// Re-read the same path, keeping cursor, selection and scroll.
    Reload,
    /// Re-read the same path from scratch: it is a different directory now.
    ReloadFresh(PanelNoticeSpec),
    /// The directory lives somewhere else now; go there.
    Follow { path: String, notice: PanelNoticeSpec },
    /// Leave the directory behind and land somewhere that still exists.
    Fallback { path: String, cursor_hint: Option<String>, notice: PanelNoticeSpec },
    /// Do not move the panel; explain instead.
    Hold(PanelNoticeSpec),
}

/// A recovery, with its strings taken by their views.
pub enum RecoverySpec {
    Reload,
    ReloadFresh(PanelNoticeKind, Seq<char>),
    Follow { path: Seq<char>, kind: PanelNoticeKind, about: Seq<char> },
    Fallback { path: Seq<char>, cursor_hint: Option<Seq<char>>, kind: PanelNoticeKind, about: Seq<char> },
    Hold(PanelNoticeKind, Seq<char>),
}

/// The view of a recovery.
pub open spec fn recovery_view(r: DirRecovery) -> RecoverySpec {
    match r {
        DirRecovery::Reload => RecoverySpec::Reload,
        DirRecovery::ReloadFresh(n) => RecoverySpec::ReloadFresh(n.kind, n.path@),
        DirRecovery::Follow { path, notice } => RecoverySpec::Follow { path: path@, kind: notice.kind, about: notice.path@ },
        DirRecovery::Fallback { path, cursor_hint, notice } => RecoverySpec::Fallback {
            path: path@,
            cursor_hint: match cursor_hint { Some(h) => Some(h@), None => None },
            kind: notice.kind,
            about: notice.path@,
        },
        DirRecovery::Hold(n) => RecoverySpec::Hold(n.kind, n.path@),
    }
}

/// Where a panel lands when its directory is gone for good: home under
/// `OnLost::Home`, else the nearest readable ancestor the caller found, else
/// home. The cursor hint is the vanished directory's own name.
pub open spec fn landing(kind: PanelNoticeKind, panel_path: Seq<char>, on_lost: OnLost, home: Seq<char>, ancestor: Option<Seq<char>>) -> RecoverySpec {
    RecoverySpec::Fallback {
        path: if on_lost == OnLost::Home {
            home
        } else {
            match ancestor {
                Some(a) => a,
                None => home,
            }
        },
        cursor_hint: path_file_name(panel_path),
        kind,
        about: panel_path,
    }
}

/// What a fate asks of the panel.
pub open spec fn recovery_of(fate: FateSpec, panel_path: Seq<char>, on_lost: OnLost, home: Seq<char>, ancestor: Option<Seq<char>>) -> RecoverySpec {
    match fate {
        FateSpec::Alive => RecoverySpec::Reload,
        FateSpec::Moved(to) => RecoverySpec::Follow { path: to, kind: PanelNoticeKind::Moved, about: panel_path },
        FateSpec::Replaced => RecoverySpec::ReloadFresh(PanelNoticeKind::Replaced, panel_path),
        FateSpec::Trashed => landing(PanelNoticeKind::Trashed, panel_path, on_lost, home, ancestor),
        FateSpec::Deleted => landing(PanelNoticeKind::Deleted, panel_path, on_lost, home, ancestor),
        FateSpec::Unmounted => RecoverySpec::Fallback {
            path: home,
            cursor_hint: None,
            kind: PanelNoticeKind::Unmounted,
            about: panel_path,
        },
        FateSpec::Unreadable => RecoverySpec::Hold(PanelNoticeKind::Denied, panel_path),
    }
}

fn land(kind: PanelNoticeKind, panel_path: &str, prefs: &WatchPrefs, home: &str, ancestor: Option<String>) -> (r: DirRecovery)
    ensures
        recovery_view(r) == landing(kind, panel_path@, prefs.on_lost, home@, match ancestor {
            Some(a) => Some(a@),
            None => None,
        }),
{
    let target = match prefs.on_lost {
        OnLost::Home => owned(home),
        OnLost::NearestAncestor => match ancestor {
            Some(a) => a,
            None => owned(home),
        },
    };
    DirRecovery::Fallback {
        path: target,
        cursor_hint: std_path_file_name(panel_path),
        notice: PanelNoticeSpec::new(kind, panel_path),
    }
}

/// Map a fate onto an action. `ancestor` is the nearest readable ancestor of
/// `panel_path` as the filesystem reported it — the one input that needs the
/// filesystem; it is consulted only when the panel falls back to an ancestor.
pub fn recover(fate: DirFate, panel_path: &str, prefs: &WatchPrefs, home: &str, ancestor: Option<String>) -> (r: DirRecovery)
    ensures
        recovery_view(r) == recovery_of(fate_view(fate), panel_path@, prefs.on_lost, home@, match ancestor {
            Some(a) => Some(a@),
            None => None,
        }),
{
    match fate {
        DirFate::Alive => DirRecovery::Reload,
        DirFate::Moved(to) => DirRecovery::Follow {
            path: to,
            notice: PanelNoticeSpec::new(PanelNoticeKind::Moved, panel_path),
        },
        DirFate::Replaced => DirRecovery::ReloadFresh(PanelNoticeSpec::new(PanelNoticeKind::Replaced, panel_path)),
        DirFate::Trashed => land(PanelNoticeKind::Trashed, panel_path, prefs, home, ancestor),
        DirFate::Deleted => land(PanelNoticeKind::Deleted, panel_path, prefs, home, ancestor),
        DirFate::Unmounted => DirRecovery::Fallback {
            path: owned(home),
            cursor_hint: None,
            notice: PanelNoticeSpec::new(PanelNoticeKind::Unmounted, panel_path),
        },
        DirFate::Unreadable => DirRecovery::Hold(PanelNoticeSpec::new(PanelNoticeKind::Denied, panel_path)),
    }
}

/// Whether recovering from `fate` consults the nearest readable ancestor:
/// only a trashed or deleted folder under the nearest-ancestor policy.
pub open spec fn ancestor_needed(fate: FateSpec, on_lost: OnLost) -> bool {
    (fate is Trashed || fate is Deleted) && on_lost == OnLost::NearestAncestor
}

/// Whether recovering from `fate` needs the nearest readable ancestor, so the
/// caller looks for one (a walk up the filesystem) only then.
pub fn needs_ancestor(fate: &DirFate, on_lost: OnLost) -> (r: bool)
    ensures
        r == ancestor_needed(fate_view(*fate), on_lost),
{
    match fate {
        DirFate::Trashed | DirFate::Deleted => on_lost == OnLost::NearestAncestor,
        _ => false,
    }
}

/// Where no ancestor is needed, none changes the recovery: the caller may
/// skip looking for one.
pub proof fn lemma_ancestor_only_when_needed(
    fate: FateSpec,
    panel_path: Seq<char>,
    on_lost: OnLost,
    home: Seq<char>,
    a: Option<Seq<char>>,
    b: Option<Seq<char>>,
)
    requires
        !ancestor_needed(fate, on_lost),
    ensures
        recovery_of(fate, panel_path, on_lost, home, a) == recovery_of(fate, panel_path, on_lost, home, b),
{
}

/// A directory the panel can still read is never abandoned: whatever an
/// unexpected error or a readable, unmoved directory reports, the panel stays.
pub proof fn lemma_unknown_never_moves(obs: Observation, panel_path: Seq<char>, home: Seq<char>, follow: bool, on_lost: OnLost, ancestor: Option<Seq<char>>)
    requires
        obs.liveness == Liveness::Unknown,
    ensures
        recovery_of(fate_of(obs, panel_path, home, follow), panel_path, on_lost, home, ancestor) is Reload
            || recovery_of(fate_of(obs, panel_path, home, follow), panel_path, on_lost, home, ancestor) is Hold,
{
}

} // verus!
