//! File operations: destination paths resolved without touching the
//! filesystem, and the bookkeeping of a copy or move (progress counters, the
//! sticky answers of the collision and error dialogs, the final summary).
//! Walking and changing the filesystem is the caller's business; every
//! decision it makes along the way is taken here.
use vstd::prelude::*;
use crate::paths::{
    path_components, path_file_name, path_join, path_starts_with, std_path_components, std_path_file_name,
    std_path_join, std_path_starts_with,
};
use crate::text::{chars_of, decimal_nat, decimal_u64, owned, push_char, push_str, str_eq, string_views};
use crate::types::{ErrorResolution, OpKind, OpOutcome, OpStatus, Resolution};

verus! {

/// Whether a path is absolute: on Unix, whether it starts at the root.
pub open spec fn is_absolute(p: Seq<char>) -> bool {
    p.len() > 0 && p[0] == '/'
}

/// Whether the last component of a built-up path can be popped: there is one,
/// and it is not the root.
pub open spec fn can_pop(out: Seq<Seq<char>>) -> bool {
    out.len() > 0 && out.last() != "/"@
}

/// The components of `comps` applied to the path `out`: `.` is dropped, `..`
/// pops the last component (or is kept when nothing can be popped), the root
/// starts over, and anything else is appended.
pub open spec fn normalized(out: Seq<Seq<char>>, comps: Seq<Seq<char>>) -> Seq<Seq<char>>
    decreases comps.len(),
{
    if comps.len() == 0 {
        out
    } else {
        let c = comps[0];
        let next = if c == "."@ {
            out
        } else if c == ".."@ {
            if can_pop(out) { out.drop_last() } else { out.push(".."@) }
        } else if c == "/"@ {
            seq!["/"@]
        } else {
            out.push(c)
        };
        normalized(next, comps.drop_first())
    }
}

/// Components joined with `/`.
pub open spec fn slash_joined(s: Seq<Seq<char>>) -> Seq<char>
    decreases s.len(),
{
    if s.len() == 0 {
        Seq::empty()
    } else if s.len() == 1 {
        s[0]
    } else {
        s[0] + seq!['/'] + slash_joined(s.drop_first())
    }
}

/// The text of a path made of `comps`, the root first if it is there.
pub open spec fn rendered(comps: Seq<Seq<char>>) -> Seq<char> {
    if comps.len() > 0 && comps[0] == "/"@ {
        seq!['/'] + slash_joined(comps.drop_first())
    } else {
        slash_joined(comps)
    }
}

/// Where `input` points when typed relative to `base`: joined onto `base`
/// unless absolute, then with `.` and `..` collapsed.
pub open spec fn resolved_dest(base: Seq<char>, input: Seq<char>) -> Seq<char> {
    let joined = if is_absolute(input) { input } else { path_join(base, input) };
    rendered(normalized(Seq::empty(), path_components(joined)))
}

/// Collapse `.` and `..` components of a path, given as its components.
pub fn lexical_normalize(comps: &Vec<String>) -> (out: Vec<String>)
    ensures
        string_views(out@) == normalized(Seq::empty(), string_views(comps@)),
{
    let ghost all = string_views(comps@);
    let mut out: Vec<String> = Vec::new();
    let mut i: usize = 0;
    assert(all.skip(0) =~= all);
    assert(string_views(out@) =~= Seq::<Seq<char>>::empty());
    while i < comps.len()
        invariant
            i <= comps@.len(),
            all == string_views(comps@),
            normalized(string_views(out@), all.skip(i as int)) == normalized(Seq::empty(), all),
        decreases comps@.len() - i,
    {
        let ghost before = string_views(out@);
        let c = comps[i].as_str();
        assert(all.skip(i as int)[0] == c@);
        assert(all.skip(i as int).drop_first() =~= all.skip(i + 1));
        if str_eq(c, ".") {
        } else if str_eq(c, "..") {
            let n = out.len();
            if n > 0 && !str_eq(out[n - 1].as_str(), "/") {
                assert(before.last() == out@[n - 1]@);
                out.pop();
                assert(string_views(out@) =~= before.drop_last());
            } else {
                proof {
                    if n > 0 {
                        assert(before.last() == out@[n - 1]@);
                    }
                }
                out.push(owned(".."));
                assert(string_views(out@) =~= before.push(".."@));
            }
        } else if str_eq(c, "/") {
            out = Vec::new();
            out.push(owned("/"));
            assert(string_views(out@) =~= seq!["/"@]);
        } else {
            out.push(owned(c));
            assert(string_views(out@) =~= before.push(c@));
        }
        i = i + 1;
    }
    assert(all.skip(i as int) =~= Seq::<Seq<char>>::empty());
    out
}

/// The text of a path made of `comps`.
pub fn render_components(comps: &Vec<String>) -> (r: String)
    ensures
        r@ == rendered(string_views(comps@)),
{
    let ghost all = string_views(comps@);
    let n = comps.len();
    let start: usize = if n > 0 && str_eq(comps[0].as_str(), "/") { 1 } else { 0 };
    let ghost body = all.skip(start as int);
    let mut acc = String::new();
    let mut i: usize = n;
    assert(all.skip(n as int) =~= Seq::<Seq<char>>::empty());
    // Build the joined text from the back.
    while i > start
        invariant
            start <= i <= n,
            n == comps@.len(),
            all == string_views(comps@),
            acc@ == slash_joined(all.skip(i as int)),
        decreases i,
    {
        let mut piece = owned(comps[i - 1].as_str());
        let ghost tail = all.skip(i as int);
        assert(all.skip(i - 1).drop_first() =~= tail);
        assert(all.skip(i - 1)[0] == comps@[i - 1]@);
        if i < n {
            push_char(&mut piece, '/');
            push_str(&mut piece, acc.as_str());
        } else {
            assert(all.skip(i - 1).len() == 1);
        }
        acc = piece;
        i = i - 1;
    }
    if start == 1 {
        let mut out = String::new();
        push_char(&mut out, '/');
        push_str(&mut out, acc.as_str());
        assert(all.skip(1) =~= all.drop_first());
        out
    } else {
        assert(all.skip(0) =~= all);
        acc
    }
}

/// Resolve a user-typed destination against `base`: relative input is joined
/// onto `base`, absolute input stands alone, and `.`/`..` are collapsed
/// lexically.
pub fn resolve_dest(base: &str, input: &str) -> (r: String)
    ensures
        r@ == resolved_dest(base@, input@),
{
    let cs = chars_of(input);
    let joined = if cs.len() > 0 && cs[0] == '/' { owned(input) } else { std_path_join(base, input) };
    let comps = std_path_components(joined.as_str());
    proof {
        assert(string_views(comps@) =~= path_components(joined@));
    }
    let out = lexical_normalize(&comps);
    render_components(&out)
}

/// The recursion guard of a copy or move: whether `target` is `src` itself
/// or lies inside it, compared on their normalised absolute forms. Copying a
/// folder there would recurse forever.
pub fn is_self_or_descendant(src: &str, target: &str) -> (r: bool)
    ensures
        r == path_starts_with(resolved_dest("/"@, target@), resolved_dest("/"@, src@)),
{
    let s = resolve_dest("/", src);
    let t = resolve_dest("/", target);
    std_path_starts_with(t.as_str(), s.as_str())
}

/// Where each source of a transfer goes. When `dest` is an existing folder,
/// or there are several sources, every source goes into `dest` under its own
/// name; otherwise the one source takes the `dest` path itself (a copy or
/// move with rename). The first part of the result says which. `None` for a
/// source without a file name (such as `/`), which the transfer passes over.
pub fn transfer_target(dest: &str, dest_is_dir: bool, n_sources: usize, src: &str) -> (r: Option<(bool, String)>)
    ensures
        r is None <==> path_file_name(src@) is None,
        r matches Some((into, t)) ==> {
            &&& into == (dest_is_dir || n_sources > 1)
            &&& into ==> t@ == path_join(dest@, path_file_name(src@).unwrap())
            &&& !into ==> t@ == dest@
        },
{
    match std_path_file_name(src) {
        None => None,
        Some(name) => {
            let into = dest_is_dir || n_sources > 1;
            if into {
                Some((true, std_path_join(dest, name.as_str())))
            } else {
                Some((false, owned(dest)))
            }
        },
    }
}

/// Whether a move first tries one rename of the whole item: only for a move,
/// and only when nothing sits at the target yet (otherwise each item needs
/// its own collision handling). A rename across filesystems fails and the
/// move falls back to copy-then-remove.
pub fn renames_first(kind: OpKind, target_exists: bool) -> (r: bool)
    ensures
        r == (kind == OpKind::Move && !target_exists),
{
    kind == OpKind::Move && !target_exists
}

// ---------------------------------------------------------------------------
// The bookkeeping of one transfer
// ---------------------------------------------------------------------------

/// What the walk does with an item whose target name is taken, once the
/// collision is decided.
#[derive(Debug, Clone, Copy, PartialEq, Eq, Structural)]
pub enum CollisionStep {
    /// Leave the item; it was counted as skipped.
    Skip,
    /// Abort the whole operation.
    Cancel,
    /// Remove what sits at the target, then copy over it.
    Replace,
}

/// What the walk does after an error dialog was answered.
#[derive(Debug, Clone, Copy, PartialEq, Eq, Structural)]
pub enum ErrorStep {
    /// Re-run the failed action.
    Retry,
    /// Move on; the failure was recorded.
    Handled,
    /// Abort the whole operation.
    Cancel,
    /// Re-run the item through the OS-native elevation prompt, then report
    /// how it went with [`Tally::elevated`].
    Elevate,
}

/// The counters and sticky answers of one copy or move.
#[derive(Debug, Clone, Copy, PartialEq, Eq, Structural)]
pub struct Tally {
    pub kind: OpKind,
    /// Items the pre-walk counted.
    pub total: u64,
    /// Items processed so far, whatever became of them.
    pub done: u64,
    /// Whether the dialogs offer their "all" answers.
    pub multiple: bool,
    /// The collision answer that holds for the rest of the operation, once the
    /// user picked one of the "all" answers.
    pub sticky: Option<Resolution>,
    /// Whether the user answered an error dialog with "Skip all".
    pub err_skip_all: bool,
    pub copied: u64,
    pub skipped: u64,
    pub failed: u64,
    pub cancelled: bool,
}

impl Tally {
    /// A fresh tally for `total` items; the "all" answers are offered when
    /// there is more than one.
    pub fn new(kind: OpKind, total: u64) -> (r: Tally)
        ensures
            r == (Tally {
                kind,
                total,
                done: 0,
                multiple: total > 1,
                sticky: None,
                err_skip_all: false,
                copied: 0,
                skipped: 0,
                failed: 0,
                cancelled: false,
            }),
    {
        Tally {
            kind,
            total,
            done: 0,
            multiple: total > 1,
            sticky: None,
            err_skip_all: false,
            copied: 0,
            skipped: 0,
            failed: 0,
            cancelled: false,
        }
    }

    /// The collision answer that holds without asking: Skip after "Skip all",
    /// Overwrite after "Overwrite all"; `None` when the dialog must be shown.
    pub fn sticky_answer(&self) -> (r: Option<Resolution>)
        ensures
            r == standing_answer(*self),
    {
        match self.sticky {
            Some(Resolution::SkipAll) => Some(Resolution::Skip),
            Some(Resolution::OverwriteAll) => Some(Resolution::Overwrite),
            _ => None,
        }
    }

    /// Fold in the collision dialog's answer: an "all" answer becomes sticky
    /// and is reduced to its single form; the concrete decision is returned.
    pub fn collision_answer(&mut self, answer: Resolution) -> (r: Resolution)
        ensures
            r == match answer {
                Resolution::SkipAll => Resolution::Skip,
                Resolution::OverwriteAll => Resolution::Overwrite,
                other => other,
            },
            *final(self) == (Tally {
                sticky: if answer == Resolution::SkipAll || answer == Resolution::OverwriteAll {
                    Some(answer)
                } else {
                    old(self).sticky
                },
                ..*old(self)
            }),
    {
        match answer {
            Resolution::SkipAll => {
                self.sticky = Some(Resolution::SkipAll);
                Resolution::Skip
            },
            Resolution::OverwriteAll => {
                self.sticky = Some(Resolution::OverwriteAll);
                Resolution::Overwrite
            },
            other => other,
        }
    }

    /// Fold in a decided collision for an item of `items` units (a file one,
    /// a folder its whole subtree): Skip (and "Skip all") counts them skipped,
    /// Cancel cancels, Overwrite (and "Overwrite all") replaces the target.
    pub fn collision_step(&mut self, decided: Resolution, items: u64) -> (r: CollisionStep)
        requires
            old(self).skipped + items <= u64::MAX,
            old(self).done + items <= u64::MAX,
        ensures
            r == match decided {
                Resolution::Skip | Resolution::SkipAll => CollisionStep::Skip,
                Resolution::Cancel => CollisionStep::Cancel,
                Resolution::Overwrite | Resolution::OverwriteAll => CollisionStep::Replace,
            },
            *final(self) == match decided {
                Resolution::Skip | Resolution::SkipAll => Tally {
                    skipped: (old(self).skipped + items) as u64,
                    done: (old(self).done + items) as u64,
                    ..*old(self)
                },
                Resolution::Cancel => Tally { cancelled: true, ..*old(self) },
                _ => *old(self),
            },
    {
        match decided {
            Resolution::Skip | Resolution::SkipAll => {
                self.skipped_items(items);
                CollisionStep::Skip
            },
            Resolution::Cancel => {
                self.cancel();
                CollisionStep::Cancel
            },
            Resolution::Overwrite | Resolution::OverwriteAll => CollisionStep::Replace,
        }
    }

    /// Fold in the answer to the recursion guard's dialog: Cancel cancels the
    /// operation, any other answer passes over this source as a failure.
    /// Returns whether the transfer goes on with the next source.
    pub fn guard_answer(&mut self, answer: ErrorResolution) -> (r: bool)
        requires
            old(self).failed < u64::MAX,
        ensures
            r == (answer != ErrorResolution::Cancel),
            *final(self) == if answer == ErrorResolution::Cancel {
                Tally { cancelled: true, ..*old(self) }
            } else {
                Tally { failed: (old(self).failed + 1) as u64, ..*old(self) }
            },
    {
        match answer {
            ErrorResolution::Cancel => {
                self.cancel();
                false
            },
            _ => {
                self.failed = self.failed + 1;
                true
            },
        }
    }

    /// `n` items done successfully.
    pub fn succeeded(&mut self, n: u64)
        requires
            old(self).copied + n <= u64::MAX,
            old(self).done + n <= u64::MAX,
        ensures
            *final(self) == (Tally { copied: (old(self).copied + n) as u64, done: (old(self).done + n) as u64, ..*old(self) }),
    {
        self.copied = self.copied + n;
        self.done = self.done + n;
    }

    /// `n` items skipped (a collision answered Skip; for a directory, its
    /// whole subtree).
    pub fn skipped_items(&mut self, n: u64)
        requires
            old(self).skipped + n <= u64::MAX,
            old(self).done + n <= u64::MAX,
        ensures
            *final(self) == (Tally { skipped: (old(self).skipped + n) as u64, done: (old(self).done + n) as u64, ..*old(self) }),
    {
        self.skipped = self.skipped + n;
        self.done = self.done + n;
    }

    /// One item failed; progress moves past it.
    pub fn record_failure(&mut self)
        requires
            old(self).failed < u64::MAX,
            old(self).done < u64::MAX,
        ensures
            *final(self) == (Tally { failed: (old(self).failed + 1) as u64, done: (old(self).done + 1) as u64, ..*old(self) }),
    {
        self.failed = self.failed + 1;
        self.done = self.done + 1;
    }

    /// A directory node was processed: it counts as one item done.
    pub fn advanced(&mut self)
        requires
            old(self).done < u64::MAX,
        ensures
            *final(self) == (Tally { done: (old(self).done + 1) as u64, ..*old(self) }),
    {
        self.done = self.done + 1;
    }

    /// The operation was cancelled.
    pub fn cancel(&mut self)
        ensures
            *final(self) == (Tally { cancelled: true, ..*old(self) }),
    {
        self.cancelled = true;
    }

    /// Whether a failed action needs the error dialog: not once the user has
    /// answered "Skip all".
    pub fn asks_on_error(&self) -> (r: bool)
        ensures
            r == !self.err_skip_all,
    {
        !self.err_skip_all
    }

    /// A failed action after "Skip all": recorded as a failure without asking.
    pub fn error_skipped(&mut self) -> (r: ErrorStep)
        requires
            old(self).failed < u64::MAX,
            old(self).done < u64::MAX,
        ensures
            r == ErrorStep::Handled,
            *final(self) == (Tally { failed: (old(self).failed + 1) as u64, done: (old(self).done + 1) as u64, ..*old(self) }),
    {
        self.record_failure();
        ErrorStep::Handled
    }

    /// Fold in the error dialog's answer: Retry re-runs, Skip records a
    /// failure, "Skip all" does too and holds from now on, Cancel aborts, and
    /// Elevate hands the item to the elevation prompt.
    pub fn error_answer(&mut self, answer: ErrorResolution) -> (r: ErrorStep)
        requires
            old(self).failed < u64::MAX,
            old(self).done < u64::MAX,
        ensures
            r == match answer {
                ErrorResolution::Retry => ErrorStep::Retry,
                ErrorResolution::Skip | ErrorResolution::SkipAll => ErrorStep::Handled,
                ErrorResolution::Cancel => ErrorStep::Cancel,
                ErrorResolution::Elevate => ErrorStep::Elevate,
            },
            *final(self) == match answer {
                ErrorResolution::Skip => Tally {
                    failed: (old(self).failed + 1) as u64,
                    done: (old(self).done + 1) as u64,
                    ..*old(self)
                },
                ErrorResolution::SkipAll => Tally {
                    failed: (old(self).failed + 1) as u64,
                    done: (old(self).done + 1) as u64,
                    err_skip_all: true,
                    ..*old(self)
                },
                ErrorResolution::Cancel => Tally { cancelled: true, ..*old(self) },
                _ => *old(self),
            },
    {
        match answer {
            ErrorResolution::Retry => ErrorStep::Retry,
            ErrorResolution::Skip => {
                self.record_failure();
                ErrorStep::Handled
            },
            ErrorResolution::SkipAll => {
                self.err_skip_all = true;
                self.record_failure();
                ErrorStep::Handled
            },
            ErrorResolution::Cancel => {
                self.cancelled = true;
                ErrorStep::Cancel
            },
            ErrorResolution::Elevate => ErrorStep::Elevate,
        }
    }

    /// How the elevation prompt went: a success counts as done, a failure as
    /// a skipped failure.
    pub fn elevated(&mut self, ok: bool)
        requires
            old(self).copied < u64::MAX,
            old(self).failed < u64::MAX,
            old(self).done < u64::MAX,
        ensures
            *final(self) == if ok {
                Tally { copied: (old(self).copied + 1) as u64, done: (old(self).done + 1) as u64, ..*old(self) }
            } else {
                Tally { failed: (old(self).failed + 1) as u64, done: (old(self).done + 1) as u64, ..*old(self) }
            },
    {
        if ok {
            self.succeeded(1);
        } else {
            self.record_failure();
        }
    }

    /// The outcome reported when the operation ends.
    pub fn finish(&self) -> (r: OpOutcome)
        ensures
            r.op_id@.len() == 0,
            (r.status, r.summary@) == outcome_of(*self),
    {
        let verb = match self.kind {
            OpKind::Copy => "Copied",
            OpKind::Move => "Moved",
        };
        let lower = match self.kind {
            OpKind::Copy => "copied",
            OpKind::Move => "moved",
        };
        let mut summary = String::new();
        let status = if self.cancelled {
            push_str(&mut summary, "Cancelled \u{2014} ");
            push_str(&mut summary, lower);
            push_char(&mut summary, ' ');
            push_str(&mut summary, decimal_u64(self.done).as_str());
            push_str(&mut summary, " of ");
            push_str(&mut summary, decimal_u64(self.total).as_str());
            push_str(&mut summary, " item(s)");
            OpStatus::Cancelled
        } else if self.failed > 0 && self.copied == 0 {
            push_str(&mut summary, "Failed \u{2014} ");
            push_str(&mut summary, decimal_u64(self.failed).as_str());
            push_str(&mut summary, " error(s)");
            OpStatus::Failed
        } else if self.failed > 0 {
            push_str(&mut summary, verb);
            push_char(&mut summary, ' ');
            push_str(&mut summary, decimal_u64(self.copied).as_str());
            push_str(&mut summary, ", ");
            push_str(&mut summary, decimal_u64(self.failed).as_str());
            push_str(&mut summary, " failed, ");
            push_str(&mut summary, decimal_u64(self.skipped).as_str());
            push_str(&mut summary, " skipped");
            OpStatus::Partial
        } else {
            push_str(&mut summary, verb);
            push_char(&mut summary, ' ');
            push_str(&mut summary, decimal_u64(self.copied).as_str());
            push_str(&mut summary, " item(s)");
            if self.skipped > 0 {
                push_str(&mut summary, ", ");
                push_str(&mut summary, decimal_u64(self.skipped).as_str());
                push_str(&mut summary, " skipped");
            }
            OpStatus::Success
        };
        OpOutcome { op_id: String::new(), status, summary }
    }
}

/// The collision answer that holds without asking.
pub open spec fn standing_answer(t: Tally) -> Option<Resolution> {
    match t.sticky {
        Some(Resolution::SkipAll) => Some(Resolution::Skip),
        Some(Resolution::OverwriteAll) => Some(Resolution::Overwrite),
        _ => None,
    }
}

/// "Skip all" and "Overwrite all" are sticky: once given, every later
/// collision gets the single answer without a dialog, and an ordinary answer
/// never lifts them.
pub proof fn lemma_all_answers_stick(t: Tally, first: Resolution, later: Resolution)
    requires
        first == Resolution::SkipAll || first == Resolution::OverwriteAll,
        later != Resolution::SkipAll && later != Resolution::OverwriteAll,
    ensures
        ({
            let after = Tally { sticky: Some(first), ..t };
            let again = Tally { sticky: if later == Resolution::SkipAll || later == Resolution::OverwriteAll {
                Some(later)
            } else {
                after.sticky
            }, ..after };
            &&& standing_answer(after) == Some(if first == Resolution::SkipAll { Resolution::Skip } else { Resolution::Overwrite })
            &&& standing_answer(again) == standing_answer(after)
        }),
{
}

/// The verb of an operation, capitalised or not.
pub open spec fn verb_text(kind: OpKind, capital: bool) -> Seq<char> {
    match kind {
        OpKind::Copy => if capital { "Copied"@ } else { "copied"@ },
        OpKind::Move => if capital { "Moved"@ } else { "moved"@ },
    }
}

/// The status and summary an operation ends with: cancelled, failed outright,
/// partly done, or done, each with its counts.
pub open spec fn outcome_of(t: Tally) -> (OpStatus, Seq<char>) {
    if t.cancelled {
        (
            OpStatus::Cancelled,
            "Cancelled \u{2014} "@ + verb_text(t.kind, false) + seq![' '] + decimal_nat(t.done as nat) + " of "@
                + decimal_nat(t.total as nat) + " item(s)"@,
        )
    } else if t.failed > 0 && t.copied == 0 {
        (OpStatus::Failed, "Failed \u{2014} "@ + decimal_nat(t.failed as nat) + " error(s)"@)
    } else if t.failed > 0 {
        (
            OpStatus::Partial,
            verb_text(t.kind, true) + seq![' '] + decimal_nat(t.copied as nat) + ", "@ + decimal_nat(t.failed as nat)
                + " failed, "@ + decimal_nat(t.skipped as nat) + " skipped"@,
        )
    } else {
        (
            OpStatus::Success,
            verb_text(t.kind, true) + seq![' '] + decimal_nat(t.copied as nat) + " item(s)"@ + if t.skipped > 0 {
                ", "@ + decimal_nat(t.skipped as nat) + " skipped"@
            } else {
                Seq::empty()
            },
        )
    }
}

/// An answer to one of the blocking prompts of a running operation.
#[derive(Debug, Clone, Copy, PartialEq, Eq, Structural)]
pub enum UserInput {
    Collision(Resolution),
    Error(ErrorResolution),
}

/// The id of the `n`-th operation registered: `op-` and the number.
pub fn op_id(n: u64) -> (r: String)
    ensures
        r@ == "op-"@ + decimal_nat(n as nat),
{
    let mut s = owned("op-");
    push_str(&mut s, decimal_u64(n).as_str());
    s
}

/// The seam between the transfer walk and the user: progress reports, the
/// collision and error dialogs (which block until answered), elevation of a
/// single item, and cooperative cancellation.
pub trait OpObserver {
    /// A unit finished (or was skipped): `done` of `total` items; `current`
    /// is the path just processed.
    fn progress(&self, done: u64, total: u64, current: &str);
    /// A destination already exists; `multiple` enables the "all" answers.
    fn on_collision(&self, path: &str, multiple: bool) -> Resolution;
    /// An item failed; `offer_elevate` gates the elevation choice.
    fn on_error(&self, path: &str, reason: &str, offer_elevate: bool) -> ErrorResolution;
    /// Re-run a single item with elevated privileges.
    fn elevate_item(&self, kind: OpKind, src: &str, dest: &str) -> Result<(), String>;
    /// Whether the user asked to cancel.
    fn is_cancelled(&self) -> bool;
}

} // verus!
