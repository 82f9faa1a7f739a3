//! Open / View / Edit routing: given the entry under the cursor, the requested
//! action, the panel's directory and the file-type map, decide what should
//! happen — the embedded viewer or editor, an external application, or (Enter
//! on a runnable file) running it. No side effects here; the adapter acts on the
//! returned plan.
//!
//! The resolution chain: an association for the extension wins (`internal`,
//! `system`, or an application name, with View and Edit falling back to the
//! association's `open`); with none, F3/F4 use the embedded surfaces chosen
//! from the sniffed media kind; Enter runs runnable files (the exec bit on a
//! name that does not say it is data) and hands everything else to the
//! system default.
use vstd::prelude::*;
use crate::filetype::{eq_lit, ext_of, extension_chars, is_runnable, runnable};
use crate::fs::{is_dotdot, is_dotdot_name, lowercase_chars};
use crate::paths::{path_join, std_path_join};
use crate::text::{chars_of, owned, spec_lowercase, trim_str, trimmed};
use crate::types::{Config, Entry, EntryKind, FileAssociation, FileProbe, MediaKind, OpenAction};

verus! {

/// What the adapter should do to fulfil an open request.
#[derive(Debug, Clone, PartialEq, Eq)]
pub enum OpenPlan {
    /// Launch an external application on `path`; `None` is the system default.
    Launch { path: String, app: Option<String> },
    /// Run the executable at `path` with `cwd` as its working directory.
    Execute { path: String, cwd: String },
    /// Open the file inside the app.
    Embedded { path: String, mode: EmbeddedMode },
}

/// Which embedded surface a file opens in.
#[derive(Debug, Clone, Copy, PartialEq, Eq, Structural)]
pub enum EmbeddedMode {
    Text,
    Hex,
    Image,
    Edit,
}

/// What an association value asks for.
#[derive(Debug, Clone, PartialEq, Eq)]
pub enum Handler {
    /// The embedded viewer/editor.
    Internal,
    /// The OS default application.
    System,
    /// A specific application by name.
    App(String),
}

/// A plan, with its strings taken by their views.
pub enum PlanSpec {
    Launch { path: Seq<char>, app: Option<Seq<char>> },
    Execute { path: Seq<char>, cwd: Seq<char> },
    Embedded { path: Seq<char>, mode: EmbeddedMode },
}

/// A handler, with its application name taken by its view.
pub enum HandlerSpec {
    Internal,
    System,
    App(Seq<char>),
}

/// The view of a plan.
pub open spec fn plan_view(p: OpenPlan) -> PlanSpec {
    match p {
        OpenPlan::Launch { path, app } => PlanSpec::Launch {
            path: path@,
            app: match app { Some(a) => Some(a@), None => None },
        },
        OpenPlan::Execute { path, cwd } => PlanSpec::Execute { path: path@, cwd: cwd@ },
        OpenPlan::Embedded { path, mode } => PlanSpec::Embedded { path: path@, mode },
    }
}

/// The view of a handler.
pub open spec fn handler_view(h: Handler) -> HandlerSpec {
    match h {
        Handler::Internal => HandlerSpec::Internal,
        Handler::System => HandlerSpec::System,
        Handler::App(s) => HandlerSpec::App(s@),
    }
}

/// What an association value asks for: the keywords are matched trimmed and
/// lower-cased; anything else names an application, kept verbatim.
pub open spec fn parse_handler(value: Seq<char>) -> HandlerSpec {
    let k = spec_lowercase(trimmed(value));
    if k == "internal"@ || k == "builtin"@ || k == "embedded"@ {
        HandlerSpec::Internal
    } else if k == "system"@ || k == "default"@ {
        HandlerSpec::System
    } else {
        HandlerSpec::App(value)
    }
}

impl Handler {
    /// Parse an association value: `internal`/`builtin`/`embedded`,
    /// `system`/`default` (trimmed, any case), or an application name.
    pub fn parse(value: &str) -> (r: Handler)
        ensures
            handler_view(r) == parse_handler(value@),
    {
        let t = trim_str(value);
        let k = lowercase_chars(&t);
        if eq_lit(&k, "internal") || eq_lit(&k, "builtin") || eq_lit(&k, "embedded") {
            Handler::Internal
        } else if eq_lit(&k, "system") || eq_lit(&k, "default") {
            Handler::System
        } else {
            Handler::App(owned(value))
        }
    }
}

/// ASCII case folding of one character.
pub open spec fn ascii_fold(c: char) -> int {
    if 'A' <= c && c <= 'Z' { (c as u32) + 32 } else { c as u32 as int }
}

/// `eq_ignore_ascii_case` on character sequences.
pub open spec fn ascii_ieq(a: Seq<char>, b: Seq<char>) -> bool {
    a.len() == b.len() && forall|i: int| 0 <= i < a.len() ==> ascii_fold(a[i]) == ascii_fold(b[i])
}

fn ascii_fold_exec(c: char) -> (r: u32)
    ensures
        r as int == ascii_fold(c),
{
    if 'A' <= c && c <= 'Z' { (c as u32) + 32 } else { c as u32 }
}

fn ascii_ieq_exec(a: &Vec<char>, b: &Vec<char>) -> (r: bool)
    ensures
        r == ascii_ieq(a@, b@),
{
    if a.len() != b.len() {
        return false;
    }
    let mut i: usize = 0;
    while i < a.len()
        invariant
            a.len() == b.len(),
            i <= a.len(),
            forall|k: int| 0 <= k < i ==> ascii_fold(a@[k]) == ascii_fold(b@[k]),
        decreases a.len() - i,
    {
        if ascii_fold_exec(a[i]) != ascii_fold_exec(b[i]) {
            return false;
        }
        i = i + 1;
    }
    true
}

/// Whether an association claims the extension `ext`.
pub open spec fn claims(a: FileAssociation, ext: Seq<char>) -> bool {
    exists|i: int| 0 <= i < a.extensions.len() && ascii_ieq(#[trigger] a.extensions@[i]@, ext)
}

/// The first association claiming `ext`, or `-1`.
pub open spec fn first_claim(assocs: Seq<FileAssociation>, ext: Seq<char>) -> int
    decreases assocs.len(),
{
    if assocs.len() == 0 {
        -1
    } else if claims(assocs[0], ext) {
        0
    } else {
        let r = first_claim(assocs.drop_first(), ext);
        if r < 0 { -1 } else { r + 1 }
    }
}

proof fn lemma_first_claim(assocs: Seq<FileAssociation>, ext: Seq<char>)
    ensures
        -1 <= first_claim(assocs, ext) < assocs.len(),
    decreases assocs.len(),
{
    if assocs.len() > 0 {
        lemma_first_claim(assocs.drop_first(), ext);
    }
}

/// The view of an optional string.
pub open spec fn opt_view(o: Option<String>) -> Option<Seq<char>> {
    match o {
        Some(s) => Some(s@),
        None => None,
    }
}

/// The configured value for `action`: View and Edit fall back to `open`.
pub open spec fn assoc_value(a: FileAssociation, action: OpenAction) -> Option<Seq<char>> {
    match action {
        OpenAction::Open => opt_view(a.open),
        OpenAction::View => if a.view is Some { opt_view(a.view) } else { opt_view(a.open) },
        OpenAction::Edit => if a.edit is Some { opt_view(a.edit) } else { opt_view(a.open) },
    }
}

/// The handler configured for `name`'s extension and `action`, if any.
pub open spec fn handler_for(name: Seq<char>, action: OpenAction, assocs: Seq<FileAssociation>) -> Option<HandlerSpec> {
    match ext_of(name) {
        None => None,
        Some(ext) => {
            let i = first_claim(assocs, ext);
            if i < 0 {
                None
            } else {
                match assoc_value(assocs[i], action) {
                    Some(v) => Some(parse_handler(v)),
                    None => None,
                }
            }
        },
    }
}

/// Which embedded surface `action` uses for a file of the probed type,
/// degrading to an external launch when the embedded one cannot serve it.
pub open spec fn embedded_plan(path: Seq<char>, action: OpenAction, edit_max: u64, probe: Option<FileProbe>) -> PlanSpec {
    match probe {
        None => PlanSpec::Launch { path, app: None },
        Some(p) => {
            if action == OpenAction::Edit {
                if p.media == MediaKind::Text && p.size <= edit_max {
                    PlanSpec::Embedded { path, mode: EmbeddedMode::Edit }
                } else if p.media == MediaKind::Binary {
                    PlanSpec::Embedded { path, mode: EmbeddedMode::Hex }
                } else {
                    PlanSpec::Launch { path, app: None }
                }
            } else {
                PlanSpec::Embedded {
                    path,
                    mode: match p.media {
                        MediaKind::Text => EmbeddedMode::Text,
                        MediaKind::Binary => EmbeddedMode::Hex,
                        MediaKind::Image => EmbeddedMode::Image,
                    },
                }
            }
        },
    }
}

/// The plan for `action` on `entry` in `cwd`.
pub open spec fn route_plan(entry: Entry, action: OpenAction, cwd: Seq<char>, config: Config, probe: Option<FileProbe>) -> Option<PlanSpec> {
    if is_dotdot(entry.name@) || entry.kind == EntryKind::Dir {
        None
    } else {
        let path = path_join(cwd, entry.name@);
        if action == OpenAction::Open && runnable(entry) {
            Some(PlanSpec::Execute { path, cwd })
        } else {
            Some(match handler_for(entry.name@, action, config.associations@) {
                Some(HandlerSpec::App(app)) => PlanSpec::Launch { path, app: Some(app) },
                Some(HandlerSpec::System) => PlanSpec::Launch { path, app: None },
                Some(HandlerSpec::Internal) => embedded_plan(path, action, config.edit_max_bytes, probe),
                None => if action == OpenAction::Open {
                    PlanSpec::Launch { path, app: None }
                } else {
                    embedded_plan(path, action, config.edit_max_bytes, probe)
                },
            })
        }
    }
}

fn copy_opt(o: &Option<String>) -> (r: Option<String>)
    ensures
        opt_view(r) == opt_view(*o),
{
    match o {
        Some(s) => Some(s.clone()),
        None => None,
    }
}

/// The handler configured for `name`'s extension and `action`, or `None`.
fn resolve_handler(name: &str, action: OpenAction, config: &Config) -> (r: Option<Handler>)
    ensures
        match r {
            Some(h) => handler_for(name@, action, config.associations@) == Some(handler_view(h)),
            None => handler_for(name@, action, config.associations@) is None,
        },
{
    let ext = match extension_chars(name) {
        Some(e) => e,
        None => return None,
    };
    let assocs = &config.associations;
    let ghost all = assocs@;
    proof { lemma_first_claim(all, ext@); }
    let mut i: usize = 0;
    let mut found: Option<usize> = None;
    assert(all.skip(0) =~= all);
    while i < assocs.len() && found.is_none()
        invariant
            i <= assocs.len(),
            all == assocs@,
            found is None ==> first_claim(all, ext@) == if first_claim(all.skip(i as int), ext@) < 0 {
                -1
            } else {
                first_claim(all.skip(i as int), ext@) + i
            },
            found matches Some(t) ==> t as int == first_claim(all, ext@),
        decreases assocs.len() - i,
    {
        assert(all.skip(i as int)[0] == all[i as int]);
        assert(all.skip(i as int).drop_first() =~= all.skip(i + 1));
        let a = &assocs[i];
        let mut k: usize = 0;
        let mut hit = false;
        while k < a.extensions.len() && !hit
            invariant
                k <= a.extensions.len(),
                hit ==> claims(*a, ext@),
                !hit ==> forall|j: int| 0 <= j < k ==> !ascii_ieq(#[trigger] a.extensions@[j]@, ext@),
            decreases a.extensions.len() - k + (if hit { 0int } else { 1int }),
        {
            let e = chars_of(a.extensions[k].as_str());
            if ascii_ieq_exec(&e, &ext) {
                hit = true;
            } else {
                k = k + 1;
            }
        }
        if hit {
            found = Some(i);
        }
        i = i + 1;
    }
    let idx = match found {
        Some(t) => t,
        None => return None,
    };
    let a = &assocs[idx];
    let value: Option<String> = match action {
        OpenAction::Open => copy_opt(&a.open),
        OpenAction::View => if a.view.is_some() { copy_opt(&a.view) } else { copy_opt(&a.open) },
        OpenAction::Edit => if a.edit.is_some() { copy_opt(&a.edit) } else { copy_opt(&a.open) },
    };
    match value {
        Some(v) => Some(Handler::parse(v.as_str())),
        None => None,
    }
}

/// Which embedded surface `action` should use for a file of the probed type.
fn embedded(path: String, action: OpenAction, config: &Config, probe: Option<&FileProbe>) -> (r: OpenPlan)
    ensures
        plan_view(r) == embedded_plan(path@, action, config.edit_max_bytes, match probe {
            Some(p) => Some(*p),
            None => None,
        }),
{
    let probe = match probe {
        Some(p) => p,
        None => return OpenPlan::Launch { path, app: None },
    };
    if action == OpenAction::Edit {
        if probe.media == MediaKind::Text && probe.size <= config.edit_max_bytes {
            OpenPlan::Embedded { path, mode: EmbeddedMode::Edit }
        } else if probe.media == MediaKind::Binary {
            OpenPlan::Embedded { path, mode: EmbeddedMode::Hex }
        } else {
            OpenPlan::Launch { path, app: None }
        }
    } else {
        let mode = match probe.media {
            MediaKind::Text => EmbeddedMode::Text,
            MediaKind::Binary => EmbeddedMode::Hex,
            MediaKind::Image => EmbeddedMode::Image,
        };
        OpenPlan::Embedded { path, mode }
    }
}

/// Decide how to fulfil `action` for `entry` living in `cwd`. `probe` is the
/// file's sniffed type; `None` means unknown, and routing then falls back to
/// the system default rather than guessing. `None` when there is nothing to
/// open: `..` or a directory.
pub fn route(entry: &Entry, action: OpenAction, cwd: &str, config: &Config, probe: Option<&FileProbe>) -> (r: Option<OpenPlan>)
    ensures
        match r {
            Some(p) => route_plan(*entry, action, cwd@, *config, match probe {
                Some(q) => Some(*q),
                None => None,
            }) == Some(plan_view(p)),
            None => route_plan(*entry, action, cwd@, *config, match probe {
                Some(q) => Some(*q),
                None => None,
            }) is None,
        },
{
    if is_dotdot_name(entry.name.as_str()) || entry.kind == EntryKind::Dir {
        return None;
    }
    let path = std_path_join(cwd, entry.name.as_str());
    if action == OpenAction::Open && is_runnable(entry) {
        return Some(OpenPlan::Execute { path, cwd: owned(cwd) });
    }
    let handler = resolve_handler(entry.name.as_str(), action, config);
    let plan = match handler {
        Some(Handler::App(app)) => OpenPlan::Launch { path, app: Some(app) },
        Some(Handler::System) => OpenPlan::Launch { path, app: None },
        Some(Handler::Internal) => embedded(path, action, config, probe),
        None => if action == OpenAction::Open {
            OpenPlan::Launch { path, app: None }
        } else {
            embedded(path, action, config, probe)
        },
    };
    Some(plan)
}

/// Lower-cased extension (no dot), or `None`: the same rule the listing
/// colours use.
pub fn extension(name: &str) -> (r: Option<String>)
    ensures
        match r {
            Some(s) => ext_of(name@) == Some(s@),
            None => ext_of(name@) is None,
        },
{
    crate::filetype::extension(name)
}

/// Whether opening `entry` with `action` wants the file's type first: every
/// case but Enter on a runnable file may end up embedded.
pub open spec fn wants_probe(entry: Entry, action: OpenAction) -> bool {
    !(action == OpenAction::Open && runnable(entry))
}

/// Whether the file must be sniffed before [`plan_open`]; see [`wants_probe`].
pub fn needs_probe(entry: &Entry, action: OpenAction) -> (r: bool)
    ensures
        r == wants_probe(*entry, action),
{
    !(action == OpenAction::Open && is_runnable(entry))
}

/// [`route`] for callers that sniffed the file as [`wants_probe`] asks:
/// `probe` is the sniffed type (`None` when the file could not be read). The
/// plan is returned together with the probe it used, so the viewer or editor
/// can be handed the type without sniffing twice.
pub fn plan_open(
    entry: &Entry,
    action: OpenAction,
    cwd: &str,
    config: &Config,
    probe: Option<FileProbe>,
) -> (r: (Option<OpenPlan>, Option<FileProbe>))
    ensures
        r.1 == (if wants_probe(*entry, action) { probe } else { None }),
        match r.0 {
            Some(p) => route_plan(*entry, action, cwd@, *config, r.1) == Some(plan_view(p)),
            None => route_plan(*entry, action, cwd@, *config, r.1) is None,
        },
{
    let used = if action == OpenAction::Open && is_runnable(entry) { None } else { probe };
    let plan = match &used {
        Some(q) => route(entry, action, cwd, config, Some(q)),
        None => route(entry, action, cwd, config, None),
    };
    (plan, used)
}

// ---------------------------------------------------------------------------
// Laws
// ---------------------------------------------------------------------------

/// View (F3) and Edit (F4) fall back to the association's `open` value: for
/// the association that claims a file's extension, an action with no value
/// of its own gets the handler `open` names, the same one Enter gets.
pub proof fn lemma_view_and_edit_fall_back_to_open(name: Seq<char>, assocs: Seq<FileAssociation>, v: Seq<char>)
    requires
        ext_of(name) is Some,
        first_claim(assocs, ext_of(name).unwrap()) >= 0,
        opt_view(assocs[first_claim(assocs, ext_of(name).unwrap())].open) == Some(v),
    ensures
        handler_for(name, OpenAction::Open, assocs) == Some(parse_handler(v)),
        assocs[first_claim(assocs, ext_of(name).unwrap())].edit is None ==> handler_for(name, OpenAction::Edit, assocs)
            == handler_for(name, OpenAction::Open, assocs),
        assocs[first_claim(assocs, ext_of(name).unwrap())].view is None ==> handler_for(name, OpenAction::View, assocs)
            == handler_for(name, OpenAction::Open, assocs),
{
    lemma_first_claim(assocs, ext_of(name).unwrap());
}

/// F4 on a file whose extension an association claims with no `edit` value
/// but an application as its `open` value launches that application, just as
/// Enter does; it never opens the internal editor.
pub proof fn lemma_edit_launches_the_open_app(entry: Entry, cwd: Seq<char>, config: Config, probe: Option<FileProbe>, app: Seq<char>)
    requires
        !is_dotdot(entry.name@),
        entry.kind != EntryKind::Dir,
        ext_of(entry.name@) is Some,
        first_claim(config.associations@, ext_of(entry.name@).unwrap()) >= 0,
        config.associations@[first_claim(config.associations@, ext_of(entry.name@).unwrap())].edit is None,
        opt_view(config.associations@[first_claim(config.associations@, ext_of(entry.name@).unwrap())].open) == Some(app),
        parse_handler(app) == HandlerSpec::App(app),
    ensures
        route_plan(entry, OpenAction::Edit, cwd, config, probe) == Some(
            PlanSpec::Launch { path: path_join(cwd, entry.name@), app: Some(app) },
        ),
        !(route_plan(entry, OpenAction::Edit, cwd, config, probe) matches Some(PlanSpec::Embedded { .. })),
{
    lemma_view_and_edit_fall_back_to_open(entry.name@, config.associations@, app);
}

/// An association value asks for the internal surface when, trimmed and
/// lower-cased, it reads `internal`, `builtin` or `embedded`; for the
/// system's default application when it reads `system` or `default`; any
/// other value names an application, kept exactly as written.
pub proof fn lemma_handler_keywords(value: Seq<char>)
    ensures
        ({
            let k = spec_lowercase(trimmed(value));
            &&& (k == seq!['i', 'n', 't', 'e', 'r', 'n', 'a', 'l'] || k == seq!['b', 'u', 'i', 'l', 't', 'i', 'n'] || k == seq!['e', 'm', 'b', 'e', 'd', 'd', 'e', 'd']) ==> parse_handler(value)
                == HandlerSpec::Internal
            &&& (k == seq!['s', 'y', 's', 't', 'e', 'm'] || k == seq!['d', 'e', 'f', 'a', 'u', 'l', 't']) ==> parse_handler(value) == HandlerSpec::System
            &&& !(k == seq!['i', 'n', 't', 'e', 'r', 'n', 'a', 'l'] || k == seq!['b', 'u', 'i', 'l', 't', 'i', 'n'] || k == seq!['e', 'm', 'b', 'e', 'd', 'd', 'e', 'd'] || k == seq!['s', 'y', 's', 't', 'e', 'm']
                || k == seq!['d', 'e', 'f', 'a', 'u', 'l', 't']) ==> parse_handler(value) == HandlerSpec::App(value)
        }),
{
    reveal_strlit("internal");
    assert("internal"@ =~= seq!['i', 'n', 't', 'e', 'r', 'n', 'a', 'l']);
    reveal_strlit("builtin");
    assert("builtin"@ =~= seq!['b', 'u', 'i', 'l', 't', 'i', 'n']);
    reveal_strlit("embedded");
    assert("embedded"@ =~= seq!['e', 'm', 'b', 'e', 'd', 'd', 'e', 'd']);
    reveal_strlit("system");
    assert("system"@ =~= seq!['s', 'y', 's', 't', 'e', 'm']);
    reveal_strlit("default");
    assert("default"@ =~= seq!['d', 'e', 'f', 'a', 'u', 'l', 't']);
}

/// Only Enter ever runs a file, and only a runnable one (never a folder or
/// `..`, which have no plan at all); F3 and F4 never run anything, and a
/// file with no association opens in the viewer or editor for F3 and F4 and
/// with the system's default application for Enter.
pub proof fn lemma_only_enter_runs(entry: Entry, action: OpenAction, cwd: Seq<char>, config: Config, probe: Option<FileProbe>)
    ensures
        (is_dotdot(entry.name@) || entry.kind == EntryKind::Dir) <==> route_plan(entry, action, cwd, config, probe) is None,
        (route_plan(entry, action, cwd, config, probe) matches Some(PlanSpec::Execute { .. })) <==> (action
            == OpenAction::Open && runnable(entry) && !is_dotdot(entry.name@) && entry.kind != EntryKind::Dir),
        !is_dotdot(entry.name@) && entry.kind != EntryKind::Dir && !runnable(entry) && handler_for(
            entry.name@,
            action,
            config.associations@,
        ) is None ==> route_plan(entry, action, cwd, config, probe) == Some(
            if action == OpenAction::Open {
                PlanSpec::Launch { path: path_join(cwd, entry.name@), app: None }
            } else {
                embedded_plan(path_join(cwd, entry.name@), action, config.edit_max_bytes, probe)
            },
        ),
{
}

} // verus!
