//! Application navigation state: the two panels, which one is active, the
//! loaded configuration, the command line, and the cache of computed folder
//! sizes.
use vstd::prelude::*;
use crate::nav::copy_entries;
use crate::paths::{path_components, path_join, path_starts_with, std_path_components, std_path_join, std_path_starts_with};
use crate::terminal::{launch_size, Terminal};
use crate::text::{owned, str_eq, string_views};
use crate::types::{
    access_view, is_default_config, is_default_panel, AppSnapshot, Config, DirAccessError, EntryKind, PanelId,
    PanelNotice, PanelPrefs, PanelState, QuickSearch, TerminalPrefs, TerminalSize,
};

verus! {

/// A cached recursive folder size. `dir_mtime` is the folder's own mtime when
/// the size was computed, so a later refresh can tell a direct child changed.
#[derive(Debug, Clone, Copy, PartialEq, Eq, Structural)]
pub struct CachedSize {
    pub size: u64,
    pub dir_mtime: i64,
}

/// Whether two path texts name the same path as `PathBuf` equality sees it:
/// the same components (so `/a/b` and `/a/b/` are one path).
pub open spec fn same_path(a: Seq<char>, b: Seq<char>) -> bool {
    path_components(a) == path_components(b)
}

/// The cached size recorded for `key`, if any: the first pair whose path is
/// the same path.
pub open spec fn cached_at(cache: Seq<(Seq<char>, CachedSize)>, key: Seq<char>) -> Option<CachedSize>
    decreases cache.len(),
{
    if cache.len() == 0 {
        None
    } else if same_path(cache[0].0, key) {
        Some(cache[0].1)
    } else {
        cached_at(cache.drop_first(), key)
    }
}

/// The texts of a cache's keys, paired with their sizes.
pub open spec fn cache_view(c: Seq<(String, CachedSize)>) -> Seq<(Seq<char>, CachedSize)> {
    Seq::new(c.len(), |i: int| (c[i].0@, c[i].1))
}

/// Whether `a` and `b` name the same path, component by component.
pub fn is_same_path(a: &str, b: &str) -> (r: bool)
    ensures
        r == same_path(a@, b@),
{
    let ca = std_path_components(a);
    let cb = std_path_components(b);
    if ca.len() != cb.len() {
        assert(path_components(a@).len() != path_components(b@).len());
        return false;
    }
    let mut i: usize = 0;
    while i < ca.len()
        invariant
            i <= ca@.len(),
            ca@.len() == cb@.len(),
            ca@.len() == path_components(a@).len(),
            cb@.len() == path_components(b@).len(),
            forall|j: int| 0 <= j < ca@.len() ==> (#[trigger] ca@[j])@ == path_components(a@)[j],
            forall|j: int| 0 <= j < cb@.len() ==> (#[trigger] cb@[j])@ == path_components(b@)[j],
            forall|j: int| 0 <= j < i ==> path_components(a@)[j] == path_components(b@)[j],
        decreases ca@.len() - i,
    {
        if !str_eq(ca[i].as_str(), cb[i].as_str()) {
            assert(ca@[i as int]@ != cb@[i as int]@);
            assert(path_components(a@)[i as int] != path_components(b@)[i as int]);
            return false;
        }
        i = i + 1;
    }
    assert(path_components(a@) =~= path_components(b@));
    true
}

/// Holds both panels, the active-panel selector, the loaded configuration,
/// the command line, and computed folder sizes keyed by absolute path.
pub struct AppState {
    pub left: PanelState,
    pub right: PanelState,
    pub active: PanelId,
    pub config: Config,
    pub terminal: Terminal,
    /// Computed recursive folder sizes by absolute path; the first pair for
    /// a path is the one that counts.
    pub size_cache: Vec<(String, CachedSize)>,
}

/// A panel's view state copied from saved preferences.
pub open spec fn with_prefs(panel: PanelState, prefs: PanelPrefs) -> PanelState {
    PanelState { view_mode: prefs.view_mode, sort_mode: prefs.sort_mode, show_hidden: prefs.show_hidden, ..panel }
}

/// Preferences updated from a panel: its view state, and the folder it shows
/// so the next launch reopens there, unless the panel cannot read that
/// folder (reopening in a dead end helps nobody): the folder remembered
/// before then stays.
pub open spec fn captured(panel: PanelState, prefs: PanelPrefs) -> PanelPrefs {
    PanelPrefs {
        view_mode: panel.view_mode,
        sort_mode: panel.sort_mode,
        show_hidden: panel.show_hidden,
        start_dir: if panel.path@.len() > 0 && panel.access is None { Some(panel.path) } else { prefs.start_dir },
    }
}

/// Apply saved preferences to a panel (view, sort, hidden files).
pub fn apply_prefs(panel: &mut PanelState, prefs: &PanelPrefs)
    ensures
        *final(panel) == with_prefs(*old(panel), *prefs),
{
    panel.view_mode = prefs.view_mode;
    panel.sort_mode = prefs.sort_mode;
    panel.show_hidden = prefs.show_hidden;
}

/// Fold a panel's live view state back into its preferences, remembering the
/// folder it shows.
pub fn capture_prefs(panel: &PanelState, prefs: &mut PanelPrefs)
    ensures
        *final(prefs) == captured(*panel, *old(prefs)),
{
    prefs.view_mode = panel.view_mode;
    prefs.sort_mode = panel.sort_mode;
    prefs.show_hidden = panel.show_hidden;
    if !panel.path.as_str().is_empty() && panel.access.is_none() {
        prefs.start_dir = Some(panel.path.clone());
    }
}

fn copy_search(s: &Option<QuickSearch>) -> (r: Option<QuickSearch>)
    ensures
        r == *s,
{
    match s {
        Some(q) => Some(QuickSearch { query: q.query.clone(), miss_rev: q.miss_rev }),
        None => None,
    }
}

fn copy_notice(n: &Option<PanelNotice>) -> (r: Option<PanelNotice>)
    ensures
        r == *n,
{
    match n {
        Some(p) => Some(PanelNotice { kind: p.kind, message: p.message.clone(), path: p.path.clone() }),
        None => None,
    }
}

fn copy_access(a: &Option<DirAccessError>) -> (r: Option<DirAccessError>)
    ensures
        access_view(r) == access_view(*a),
{
    match a {
        Some(e) => {
            let mut remedies: Vec<String> = Vec::new();
            let mut i: usize = 0;
            while i < e.remedies.len()
                invariant
                    i <= e.remedies@.len(),
                    string_views(remedies@) == string_views(e.remedies@).take(i as int),
                decreases e.remedies@.len() - i,
            {
                let ghost before = remedies@;
                let r = owned(e.remedies[i].as_str());
                remedies.push(r);
                assert(string_views(remedies@) =~= string_views(before).push(e.remedies@[i as int]@));
                assert(string_views(e.remedies@).take(i + 1) =~= string_views(e.remedies@).take(i as int).push(
                    e.remedies@[i as int]@,
                ));
                i = i + 1;
            }
            assert(string_views(e.remedies@).take(i as int) =~= string_views(e.remedies@));
            Some(DirAccessError { kind: e.kind, message: owned(e.message.as_str()), remedies })
        },
        None => None,
    }
}

fn copy_indices(v: &Vec<usize>) -> (r: Vec<usize>)
    ensures
        r@ == v@,
{
    let mut out: Vec<usize> = Vec::new();
    let mut i: usize = 0;
    while i < v.len()
        invariant
            i <= v@.len(),
            out@ == v@.take(i as int),
        decreases v@.len() - i,
    {
        out.push(v[i]);
        assert(out@ =~= v@.take(i + 1));
        i = i + 1;
    }
    assert(v@.take(i as int) =~= v@);
    out
}

/// A field-for-field copy of a panel.
pub fn copy_panel(p: &PanelState) -> (r: PanelState)
    ensures
        same_panel_but_entries(r, *p, p.entries@),
{
    PanelState {
        path: p.path.clone(),
        entries: copy_entries(&p.entries),
        cursor_index: p.cursor_index,
        top_index: p.top_index,
        selection: copy_indices(&p.selection),
        view_mode: p.view_mode,
        sort_mode: p.sort_mode,
        show_hidden: p.show_hidden,
        geometry: p.geometry,
        search: copy_search(&p.search),
        notice: copy_notice(&p.notice),
        access: copy_access(&p.access),
    }
}

/// Whether an entry of a panel at `base` gets a cached size: a real directory
/// (not `..`) whose joined path is in the cache.
pub open spec fn sized_entry(e: crate::types::Entry, base: Seq<char>, cache: Seq<(Seq<char>, CachedSize)>) -> crate::types::Entry {
    if e.kind == EntryKind::Dir && e.name@ != seq!['.', '.'] && cached_at(cache, path_join(base, e.name@)) is Some {
        crate::types::Entry { computed_size: Some(cached_at(cache, path_join(base, e.name@)).unwrap().size), ..e }
    } else {
        e
    }
}

/// A panel's entries as the frontend sees them: each real directory entry
/// carries its cached recursive size when one is known.
pub open spec fn shown_entries(p: PanelState, cache: Seq<(Seq<char>, CachedSize)>) -> Seq<crate::types::Entry> {
    if cache.len() == 0 || p.path@.len() == 0 {
        p.entries@
    } else {
        Seq::new(p.entries@.len(), |i: int| sized_entry(p.entries@[i], p.path@, cache))
    }
}

/// Whether `r` is `p` with its entries replaced by `entries`.
pub open spec fn same_panel_but_entries(r: PanelState, p: PanelState, entries: Seq<crate::types::Entry>) -> bool {
    &&& r.path == p.path
    &&& r.entries@ == entries
    &&& r.cursor_index == p.cursor_index
    &&& r.top_index == p.top_index
    &&& r.selection@ == p.selection@
    &&& r.view_mode == p.view_mode
    &&& r.sort_mode == p.sort_mode
    &&& r.show_hidden == p.show_hidden
    &&& r.geometry == p.geometry
    &&& r.search == p.search
    &&& r.notice == p.notice
    &&& access_view(r.access) == access_view(p.access)
}

/// Whether `key` lies at or under `base`, or `base` under `key`: the cache
/// entries a change at `base` makes stale.
pub open spec fn related(key: Seq<char>, base: Seq<char>) -> bool {
    path_starts_with(key, base) || path_starts_with(base, key)
}

impl AppState {
    /// The cached sizes, by path text.
    pub open spec fn cache(&self) -> Seq<(Seq<char>, CachedSize)> {
        cache_view(self.size_cache@)
    }

    /// The command line is well formed.
    pub open spec fn wf(&self) -> bool {
        self.terminal.wf()
    }

    /// Both panels at their defaults, the left one active, the default
    /// configuration and command line, and no cached sizes.
    pub fn new() -> (r: Self)
        ensures
            r.wf(),
            is_default_panel(r.left),
            is_default_panel(r.right),
            r.active == PanelId::Left,
            is_default_config(r.config),
            r.terminal.view() == crate::terminal::initial(1048576, TerminalSize::Collapsed),
            r.cache().len() == 0,
    {
        let r = AppState {
            left: PanelState::default(),
            right: PanelState::default(),
            active: PanelId::Left,
            config: Config::default(),
            terminal: Terminal::default(),
            size_cache: Vec::new(),
        };
        assert(r.cache() =~= Seq::<(Seq<char>, CachedSize)>::empty());
        r
    }

    /// Apply loaded preferences to both panels and the command line. The
    /// starting folders are the caller's question.
    pub fn apply_config(&mut self, config: Config)
        requires
            old(self).wf(),
        ensures
            final(self).wf(),
            final(self).left == with_prefs(old(self).left, config.left_panel),
            final(self).right == with_prefs(old(self).right, config.right_panel),
            final(self).config == config,
            final(self).active == old(self).active,
            final(self).cache() == old(self).cache(),
            final(self).terminal.view().size == launch_size(config.terminal.size),
            final(self).terminal.view().buffer.limit == config.terminal.scrollback_bytes,
    {
        apply_prefs(&mut self.left, &config.left_panel);
        apply_prefs(&mut self.right, &config.right_panel);
        self.terminal.apply_prefs(&config.terminal);
        self.config = config;
    }

    /// Copy the live view state of both panels and the command line back into
    /// the configuration, so a following save persists what the user sees.
    pub fn sync_prefs_from_panels(&mut self)
        requires
            old(self).wf(),
        ensures
            final(self).wf(),
            final(self).config == (Config {
                left_panel: captured(old(self).left, old(self).config.left_panel),
                right_panel: captured(old(self).right, old(self).config.right_panel),
                terminal: TerminalPrefs {
                    scrollback_bytes: old(self).terminal.view().buffer.limit as u64,
                    size: launch_size(old(self).terminal.view().size),
                    shell: old(self).config.terminal.shell,
                },
                ..old(self).config
            }),
            final(self).left == old(self).left,
            final(self).right == old(self).right,
            final(self).terminal == old(self).terminal,
            final(self).cache() == old(self).cache(),
    {
        capture_prefs(&self.left, &mut self.config.left_panel);
        capture_prefs(&self.right, &mut self.config.right_panel);
        self.terminal.capture_prefs(&mut self.config.terminal);
    }

    /// The folder the command line runs in: the active panel's.
    pub fn terminal_cwd(&self) -> (r: String)
        ensures
            r@ == self.panel_spec(self.active).path@,
    {
        owned(self.panel(self.active).path.as_str())
    }

    /// The persisted "Move to Trash" default for the delete dialog.
    pub fn trash_default(&self) -> (r: bool)
        ensures
            r == self.config.trash_default,
    {
        self.config.trash_default
    }

    /// The panel `id` names.
    pub open spec fn panel_spec(&self, id: PanelId) -> PanelState {
        match id {
            PanelId::Left => self.left,
            PanelId::Right => self.right,
        }
    }

    /// The panel `id` names.
    pub fn panel(&self, id: PanelId) -> (r: &PanelState)
        ensures
            *r == self.panel_spec(id),
    {
        match id {
            PanelId::Left => &self.left,
            PanelId::Right => &self.right,
        }
    }

    /// The panel `id` names, for changing it.
    pub fn panel_mut(&mut self, id: PanelId) -> (r: &mut PanelState)
        ensures
            *r == old(self).panel_spec(id),
            *final(self) == (match id {
                PanelId::Left => AppState { left: *final(r), ..*old(self) },
                PanelId::Right => AppState { right: *final(r), ..*old(self) },
            }),
    {
        match id {
            PanelId::Left => &mut self.left,
            PanelId::Right => &mut self.right,
        }
    }

    /// Make `id` the active panel.
    pub fn set_active(&mut self, id: PanelId)
        ensures
            *final(self) == (AppState { active: id, ..*old(self) }),
    {
        self.active = id;
    }

    /// The cached size recorded for `key`.
    fn cached(&self, key: &str) -> (r: Option<CachedSize>)
        ensures
            r == cached_at(self.cache(), key@),
    {
        let ghost c = self.cache();
        let mut i: usize = 0;
        assert(c.skip(0) =~= c);
        while i < self.size_cache.len()
            invariant
                i <= self.size_cache@.len(),
                c == cache_view(self.size_cache@),
                cached_at(c, key@) == cached_at(c.skip(i as int), key@),
            decreases self.size_cache@.len() - i,
        {
            assert(c.skip(i as int)[0] == c[i as int]);
            assert(c.skip(i as int).drop_first() =~= c.skip(i + 1));
            if is_same_path(self.size_cache[i].0.as_str(), key) {
                return Some(self.size_cache[i].1);
            }
            i = i + 1;
        }
        None
    }

    /// A copy of panel `id` whose real directory entries carry their cached
    /// recursive sizes.
    pub fn panel_snapshot(&self, id: PanelId) -> (r: PanelState)
        ensures
            same_panel_but_entries(r, self.panel_spec(id), shown_entries(self.panel_spec(id), self.cache())),
    {
        let mut panel = copy_panel(self.panel(id));
        if self.size_cache.len() == 0 || panel.path.as_str().is_empty() {
            proof {
                if self.size_cache@.len() == 0 {
                    assert(self.cache().len() == 0);
                }
            }
            return panel;
        }
        let ghost p0 = panel;
        let ghost c = self.cache();
        let mut entries: Vec<crate::types::Entry> = Vec::new();
        std::mem::swap(&mut entries, &mut panel.entries);
        let mut out: Vec<crate::types::Entry> = Vec::new();
        let mut i: usize = 0;
        let n = entries.len();
        while i < n
            invariant
                n == entries@.len(),
                entries@ == p0.entries@,
                i <= n,
                c == self.cache(),
                c.len() > 0,
                panel.path@.len() > 0,
                panel.path == p0.path,
                out@.len() == i,
                forall|k: int| 0 <= k < i ==> #[trigger] out@[k] == sized_entry(entries@[k], p0.path@, c),
            decreases n - i,
        {
            let mut e = crate::nav::copy_entry(&entries[i]);
            if e.kind == EntryKind::Dir && !crate::fs::is_dotdot_name(e.name.as_str()) {
                let key = std_path_join(panel.path.as_str(), e.name.as_str());
                match self.cached(key.as_str()) {
                    Some(cs) => {
                        e.computed_size = Some(cs.size);
                    },
                    None => {},
                }
            }
            out.push(e);
            i = i + 1;
        }
        panel.entries = out;
        assert(panel.entries@ =~= shown_entries(p0, c));
        panel
    }

    /// Whether `r` is the snapshot of this state: both panels as they stand,
    /// their entries showing the cached folder sizes; the active panel; the
    /// delete default; and the command line in the active panel's folder.
    pub open spec fn shows(&self, r: AppSnapshot) -> bool {
        &&& same_panel_but_entries(r.left, self.left, shown_entries(self.left, self.cache()))
        &&& same_panel_but_entries(r.right, self.right, shown_entries(self.right, self.cache()))
        &&& r.active == self.active
        &&& r.trash_default == self.config.trash_default
        &&& crate::terminal::state_shows(self.terminal.view(), self.panel_spec(self.active).path@, r.terminal)
    }

    /// A snapshot of the whole navigation state for the frontend.
    pub fn snapshot(&self) -> (r: AppSnapshot)
        requires
            self.wf(),
        ensures
            self.shows(r),
    {
        let cwd = self.terminal_cwd();
        AppSnapshot {
            left: self.panel_snapshot(PanelId::Left),
            right: self.panel_snapshot(PanelId::Right),
            active: self.active,
            trash_default: self.config.trash_default,
            terminal: self.terminal.state(cwd.as_str()),
        }
    }

    /// A snapshot for a command the user initiated: it ends any quick search
    /// and fades the command line's last verdict.
    pub fn snapshot_after_input(&mut self) -> (r: AppSnapshot)
        requires
            old(self).wf(),
        ensures
            final(self).wf(),
            final(self).left == (PanelState { search: None, ..old(self).left }),
            final(self).right == (PanelState { search: None, ..old(self).right }),
            final(self).terminal.view() == crate::terminal::touched(old(self).terminal.view()),
            final(self).config == old(self).config,
            final(self).active == old(self).active,
            final(self).cache() == old(self).cache(),
            final(self).shows(r),
            r.left.search is None && r.right.search is None,
    {
        self.left.search = None;
        self.right.search = None;
        self.snapshot_after_search_input()
    }

    /// A snapshot for a quick-search command: the search it drives stays
    /// open, but the command line's last verdict fades.
    pub fn snapshot_after_search_input(&mut self) -> (r: AppSnapshot)
        requires
            old(self).wf(),
        ensures
            final(self).wf(),
            final(self).terminal.view() == crate::terminal::touched(old(self).terminal.view()),
            final(self).left == old(self).left,
            final(self).right == old(self).right,
            final(self).config == old(self).config,
            final(self).active == old(self).active,
            final(self).cache() == old(self).cache(),
            final(self).shows(r),
            r.left.search == final(self).left.search,
            r.right.search == final(self).right.search,
    {
        self.terminal.touch();
        self.snapshot()
    }

    /// Record a freshly computed recursive folder size, replacing any earlier
    /// one for the same path (compared component by component).
    pub fn set_size(&mut self, path: String, size: u64, dir_mtime: i64)
        ensures
            forall|k: Seq<char>| same_path(k, path@) ==> #[trigger] cached_at(final(self).cache(), k) == Some(
                CachedSize { size, dir_mtime },
            ),
            forall|k: Seq<char>| !same_path(k, path@) ==> #[trigger] cached_at(final(self).cache(), k) == cached_at(
                old(self).cache(),
                k,
            ),
            final(self).left == old(self).left && final(self).right == old(self).right,
            final(self).terminal == old(self).terminal && final(self).config == old(self).config,
            final(self).active == old(self).active,
    {
        let entry = CachedSize { size, dir_mtime };
        let ghost c0 = self.cache();
        let ghost key = path@;
        let mut kept: Vec<(String, CachedSize)> = Vec::new();
        kept.push((path, entry));
        let mut old_cache: Vec<(String, CachedSize)> = Vec::new();
        std::mem::swap(&mut old_cache, &mut self.size_cache);
        let mut i: usize = 0;
        let n = old_cache.len();
        assert(cache_view(kept@) =~= seq![(key, entry)]);
        proof {
            assert(c0.take(0) =~= Seq::<(Seq<char>, CachedSize)>::empty());
            assert(cache_view(kept@).drop_first() =~= Seq::<(Seq<char>, CachedSize)>::empty());
        }
        while i < n
            invariant
                n == old_cache@.len(),
                c0 == cache_view(old_cache@),
                i <= n,
                cache_view(kept@).len() >= 1,
                cache_view(kept@)[0] == (key, entry),
                forall|k: Seq<char>| !same_path(k, key) ==> cached_at(cache_view(kept@), k) == cached_at(c0.take(i as int), k),
            decreases n - i,
        {
            let ghost before = cache_view(kept@);
            let (k, v) = (owned(old_cache[i].0.as_str()), old_cache[i].1);
            let ghost kv = k@;
            if !is_same_path(k.as_str(), path_text(&kept)) {
                kept.push((k, v));
                proof {
                    assert(cache_view(kept@) =~= before.push((kv, v)));
                    assert(c0.take(i + 1) =~= c0.take(i as int).push((kv, v)));
                    assert forall|q: Seq<char>| !same_path(q, key) implies cached_at(cache_view(kept@), q) == cached_at(
                        c0.take(i + 1),
                        q,
                    ) by {
                        lemma_cached_at_push(before, kv, v, q);
                        lemma_cached_at_push(c0.take(i as int), kv, v, q);
                    }
                }
            } else {
                proof {
                    assert(c0.take(i + 1) =~= c0.take(i as int).push((kv, v)));
                    assert forall|q: Seq<char>| !same_path(q, key) implies cached_at(cache_view(kept@), q) == cached_at(
                        c0.take(i + 1),
                        q,
                    ) by {
                        lemma_cached_at_push(c0.take(i as int), kv, v, q);
                        assert(same_path(kv, key));
                    }
                }
            }
            i = i + 1;
        }
        assert(c0.take(n as int) =~= c0);
        self.size_cache = kept;
        assert forall|k: Seq<char>| same_path(k, path@) implies #[trigger] cached_at(self.cache(), k) == Some(
            CachedSize { size, dir_mtime },
        ) by {
            assert(self.cache()[0] == (key, entry));
        }
    }
}

/// The key of the first cached pair.
fn path_text(v: &Vec<(String, CachedSize)>) -> (r: &str)
    requires
        v@.len() >= 1,
    ensures
        r@ == v@[0].0@,
{
    v[0].0.as_str()
}

/// Looking a key up after appending a pair.
pub proof fn lemma_cached_at_push(c: Seq<(Seq<char>, CachedSize)>, k: Seq<char>, v: CachedSize, q: Seq<char>)
    ensures
        cached_at(c.push((k, v)), q) == if cached_at(c, q) is Some {
            cached_at(c, q)
        } else if same_path(k, q) {
            Some(v)
        } else {
            None
        },
    decreases c.len(),
{
    if c.len() == 0 {
        assert(c.push((k, v)).drop_first() =~= Seq::<(Seq<char>, CachedSize)>::empty());
    } else {
        assert(c.push((k, v)).drop_first() =~= c.drop_first().push((k, v)));
        assert(c.push((k, v))[0] == c[0]);
        lemma_cached_at_push(c.drop_first(), k, v, q);
    }
}

impl Default for AppState {
    fn default() -> (r: Self)
        ensures
            r.wf(),
            is_default_panel(r.left),
            is_default_panel(r.right),
            r.active == PanelId::Left,
            is_default_config(r.config),
            r.terminal.view() == crate::terminal::initial(1048576, TerminalSize::Collapsed),
            r.cache().len() == 0,
    {
        AppState::new()
    }
}

/// The mtime the caller read for `key`, if it listed one: the first pair
/// naming it.
pub open spec fn listed_mtime(stats: Seq<(Seq<char>, Option<i64>)>, key: Seq<char>) -> Option<Option<i64>>
    decreases stats.len(),
{
    if stats.len() == 0 {
        None
    } else if stats[0].0 == key {
        Some(stats[0].1)
    } else {
        listed_mtime(stats.drop_first(), key)
    }
}

/// Whether a cached pair survives a revalidation under `base`: pairs outside
/// `base` always do; pairs under it only when the folder's mtime is still the
/// one recorded.
pub open spec fn still_fresh(pair: (Seq<char>, CachedSize), base: Seq<char>, stats: Seq<(Seq<char>, Option<i64>)>) -> bool {
    !path_starts_with(pair.0, base) || listed_mtime(stats, pair.0) == Some(Some(pair.1.dir_mtime))
}

/// The texts of a list of paths paired with mtimes.
pub open spec fn stat_views(v: Seq<(String, Option<i64>)>) -> Seq<(Seq<char>, Option<i64>)> {
    Seq::new(v.len(), |i: int| (v[i].0@, v[i].1))
}

fn listed(stats: &Vec<(String, Option<i64>)>, key: &str) -> (r: Option<Option<i64>>)
    ensures
        r == listed_mtime(stat_views(stats@), key@),
{
    let ghost sv = stat_views(stats@);
    let mut i: usize = 0;
    assert(sv.skip(0) =~= sv);
    while i < stats.len()
        invariant
            i <= stats@.len(),
            sv == stat_views(stats@),
            listed_mtime(sv, key@) == listed_mtime(sv.skip(i as int), key@),
        decreases stats@.len() - i,
    {
        assert(sv.skip(i as int)[0] == sv[i as int]);
        assert(sv.skip(i as int).drop_first() =~= sv.skip(i + 1));
        if str_eq(stats[i].0.as_str(), key) {
            return Some(stats[i].1);
        }
        i = i + 1;
    }
    None
}

impl AppState {
    /// Drop cached sizes a change at `path` makes stale: the path itself, its
    /// ancestors (whose totals changed) and its descendants (if it moved or
    /// was deleted).
    pub fn invalidate_size_cache(&mut self, path: &str)
        ensures
            final(self).cache() == old(self).cache().filter(|pair: (Seq<char>, CachedSize)| !related(pair.0, path@)),
            final(self).left == old(self).left && final(self).right == old(self).right,
            final(self).terminal == old(self).terminal && final(self).config == old(self).config,
            final(self).active == old(self).active,
    {
        let ghost pred = |pair: (Seq<char>, CachedSize)| !related(pair.0, path@);
        let ghost c0 = self.cache();
        let mut old_cache: Vec<(String, CachedSize)> = Vec::new();
        std::mem::swap(&mut old_cache, &mut self.size_cache);
        let mut kept: Vec<(String, CachedSize)> = Vec::new();
        let mut i: usize = 0;
        let n = old_cache.len();
        proof {
            assert(c0.take(0) =~= Seq::<(Seq<char>, CachedSize)>::empty());
            reveal_with_fuel(Seq::filter, 1);
            assert(cache_view(kept@) =~= c0.take(0).filter(pred));
        }
        while i < n
            invariant
                n == old_cache@.len(),
                c0 == cache_view(old_cache@),
                i <= n,
                pred == (|pair: (Seq<char>, CachedSize)| !related(pair.0, path@)),
                cache_view(kept@) == c0.take(i as int).filter(pred),
            decreases n - i,
        {
            let k = old_cache[i].0.as_str();
            let stale = std_path_starts_with(k, path) || std_path_starts_with(path, k);
            let ghost before = cache_view(kept@);
            proof {
                assert(c0.take(i + 1).drop_last() =~= c0.take(i as int));
                assert(c0.take(i + 1).last() == c0[i as int]);
                reveal_with_fuel(Seq::filter, 1);
            }
            if !stale {
                kept.push((old_cache[i].0.clone(), old_cache[i].1));
                assert(cache_view(kept@) =~= before.push(c0[i as int]));
            }
            i = i + 1;
        }
        assert(c0.take(n as int) =~= c0);
        self.size_cache = kept;
    }

    /// The cached paths at or under `base`, whose folders the caller should
    /// stat for [`AppState::revalidate_sizes_under`].
    pub fn sizes_under(&self, base: &str) -> (r: Vec<String>)
        ensures
            crate::text::string_views(r@) == self.cache().filter(
                |pair: (Seq<char>, CachedSize)| path_starts_with(pair.0, base@),
            ).map_values(|pair: (Seq<char>, CachedSize)| pair.0),
    {
        let ghost pred = |pair: (Seq<char>, CachedSize)| path_starts_with(pair.0, base@);
        let ghost c0 = self.cache();
        let mut out: Vec<String> = Vec::new();
        let mut i: usize = 0;
        proof {
            assert(c0.take(0) =~= Seq::<(Seq<char>, CachedSize)>::empty());
            reveal_with_fuel(Seq::filter, 1);
            assert(crate::text::string_views(out@) =~= c0.take(0).filter(pred).map_values(
                |pair: (Seq<char>, CachedSize)| pair.0,
            ));
        }
        while i < self.size_cache.len()
            invariant
                i <= self.size_cache@.len(),
                c0 == self.cache(),
                pred == (|pair: (Seq<char>, CachedSize)| path_starts_with(pair.0, base@)),
                crate::text::string_views(out@) == c0.take(i as int).filter(pred).map_values(
                    |pair: (Seq<char>, CachedSize)| pair.0,
                ),
            decreases self.size_cache@.len() - i,
        {
            let ghost before = c0.take(i as int).filter(pred);
            proof {
                assert(c0.take(i + 1).drop_last() =~= c0.take(i as int));
                assert(c0.take(i + 1).last() == c0[i as int]);
                reveal_with_fuel(Seq::filter, 1);
            }
            if std_path_starts_with(self.size_cache[i].0.as_str(), base) {
                let ghost sv = crate::text::string_views(out@);
                out.push(self.size_cache[i].0.clone());
                proof {
                    assert(c0.take(i + 1).filter(pred) == before.push(c0[i as int]));
                    assert(crate::text::string_views(out@) =~= sv.push(c0[i as int].0));
                    assert(before.push(c0[i as int]).map_values(|pair: (Seq<char>, CachedSize)| pair.0)
                        =~= before.map_values(|pair: (Seq<char>, CachedSize)| pair.0).push(c0[i as int].0));
                }
            }
            i = i + 1;
        }
        assert(c0.take(i as int) =~= c0);
        out
    }

    /// Drop cached sizes under `base` whose folder changed since: `stats`
    /// holds the mtime the caller just read for each path (`None` when it no
    /// longer exists); a pair under `base` survives only when its recorded
    /// mtime is still current. Pairs outside `base` are left alone.
    pub fn revalidate_sizes_under(&mut self, base: &str, stats: &Vec<(String, Option<i64>)>)
        ensures
            final(self).cache() == old(self).cache().filter(
                |pair: (Seq<char>, CachedSize)| still_fresh(pair, base@, stat_views(stats@)),
            ),
            final(self).left == old(self).left && final(self).right == old(self).right,
            final(self).terminal == old(self).terminal && final(self).config == old(self).config,
            final(self).active == old(self).active,
    {
        let ghost sv = stat_views(stats@);
        let ghost pred = |pair: (Seq<char>, CachedSize)| still_fresh(pair, base@, sv);
        let ghost c0 = self.cache();
        let mut old_cache: Vec<(String, CachedSize)> = Vec::new();
        std::mem::swap(&mut old_cache, &mut self.size_cache);
        let mut kept: Vec<(String, CachedSize)> = Vec::new();
        let mut i: usize = 0;
        let n = old_cache.len();
        proof {
            assert(c0.take(0) =~= Seq::<(Seq<char>, CachedSize)>::empty());
            reveal_with_fuel(Seq::filter, 1);
            assert(cache_view(kept@) =~= c0.take(0).filter(pred));
        }
        while i < n
            invariant
                n == old_cache@.len(),
                c0 == cache_view(old_cache@),
                sv == stat_views(stats@),
                i <= n,
                pred == (|pair: (Seq<char>, CachedSize)| still_fresh(pair, base@, sv)),
                cache_view(kept@) == c0.take(i as int).filter(pred),
            decreases n - i,
        {
            let k = old_cache[i].0.as_str();
            let v = old_cache[i].1;
            let keep = if !std_path_starts_with(k, base) {
                true
            } else {
                match listed(stats, k) {
                    Some(Some(m)) => m == v.dir_mtime,
                    _ => false,
                }
            };
            let ghost before = cache_view(kept@);
            proof {
                assert(c0.take(i + 1).drop_last() =~= c0.take(i as int));
                assert(c0.take(i + 1).last() == c0[i as int]);
                reveal_with_fuel(Seq::filter, 1);
            }
            if keep {
                kept.push((old_cache[i].0.clone(), v));
                assert(cache_view(kept@) =~= before.push(c0[i as int]));
            }
            i = i + 1;
        }
        assert(c0.take(n as int) =~= c0);
        self.size_cache = kept;
    }
}

// ---------------------------------------------------------------------------
// Laws
// ---------------------------------------------------------------------------

/// Saved preferences applied to a panel come back unchanged when captured
/// from it, and the folder it shows is remembered when it can read it.
pub proof fn lemma_prefs_round_trip(panel: PanelState, prefs: PanelPrefs)
    ensures
        captured(with_prefs(panel, prefs), prefs) == (PanelPrefs {
            start_dir: if panel.path@.len() > 0 && panel.access is None { Some(panel.path) } else { prefs.start_dir },
            ..prefs
        }),
{
}

/// A cached size is found only where a pair for the same path was recorded.
pub proof fn lemma_cached_at_found(c: Seq<(Seq<char>, CachedSize)>, k: Seq<char>)
    ensures
        cached_at(c, k) matches Some(v) ==> exists|i: int|
            0 <= i < c.len() && same_path((#[trigger] c[i]).0, k) && c[i].1 == v,
    decreases c.len(),
{
    if c.len() > 0 && !same_path(c[0].0, k) {
        lemma_cached_at_found(c.drop_first(), k);
        if cached_at(c, k) is Some {
            let v = cached_at(c, k).unwrap();
            let i = choose|i: int|
                0 <= i < c.drop_first().len() && same_path((#[trigger] c.drop_first()[i]).0, k) && c.drop_first()[i].1 == v;
            assert(c[i + 1] == c.drop_first()[i]);
        }
    } else if c.len() > 0 {
        assert(same_path(c[0].0, k));
    }
}

/// After a change at `path` is invalidated, nothing related to it (the path,
/// its ancestors, its descendants, in any spelling) has a cached size.
pub proof fn lemma_invalidated_is_gone(c: Seq<(Seq<char>, CachedSize)>, path: Seq<char>, k: Seq<char>)
    requires
        forall|q: Seq<char>| #[trigger] same_path(q, k) ==> related(q, path),
    ensures
        cached_at(c.filter(|pair: (Seq<char>, CachedSize)| !related(pair.0, path)), k) is None,
{
    let pred = |pair: (Seq<char>, CachedSize)| !related(pair.0, path);
    let f = c.filter(pred);
    lemma_cached_at_found(f, k);
    if cached_at(f, k) is Some {
        let v = cached_at(f, k).unwrap();
        let i = choose|i: int| 0 <= i < f.len() && same_path((#[trigger] f[i]).0, k) && f[i].1 == v;
        c.lemma_filter_pred(pred, i);
        assert(pred(f[i]));
        assert(related(f[i].0, path));
    }
}

} // verus!
