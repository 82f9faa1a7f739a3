//! The data shapes that cross the boundary between the core and its frontend:
//! panels and entries, navigation intents, file operations, the terminal, the
//! viewer and editor, configuration and help.
//!
//! Paths and names travel as `String`; contracts speak of their `Seq<char>`
//! views.
use vstd::prelude::*;

verus! {

// ---------------------------------------------------------------------------
// Panels & entries
// ---------------------------------------------------------------------------

/// Which panel an intent targets.
#[derive(Debug, Clone, Copy, PartialEq, Eq, Hash, Structural)]
pub enum PanelId {
    Left,
    Right,
}

impl Default for PanelId {
    fn default() -> (r: Self)
        ensures
            r == PanelId::Left,
    {
        PanelId::Left
    }
}

impl PanelId {
    /// The other side: with exactly two panels this is a total function.
    pub fn other(self) -> (r: Self)
        ensures
            r != self,
            r == PanelId::Left || r == PanelId::Right,
    {
        match self {
            PanelId::Left => PanelId::Right,
            PanelId::Right => PanelId::Left,
        }
    }
}

/// What kind of filesystem object an entry is.
#[derive(Debug, Clone, Copy, PartialEq, Eq, Hash, Structural)]
pub enum EntryKind {
    File,
    Dir,
    Symlink,
    Special,
}

/// Readability marker: an unreadable entry renders as a marker rather than
/// failing the whole listing.
#[derive(Debug, Clone, Copy, PartialEq, Eq, Hash, Structural)]
pub enum EntryMarker {
    /// Readable (spelled `Okay`: the plain name is reserved here).
    Okay,
    Denied,
    Broken,
}

/// What a listing row is, for colouring and for the execute-vs-launch decision.
#[derive(Debug, Clone, Copy, PartialEq, Eq, Hash, Structural)]
pub enum EntryCategory {
    Dir,
    Symlink,
    /// A dotfile or dotfolder; outranks `Dir`.
    Hidden,
    Doc,
    Data,
    Code,
    Archive,
    Image,
    Media,
    /// Carries the exec bit and nothing about its name says otherwise.
    Exec,
    /// Nothing claimed it.
    Plain,
}

/// One row in a directory listing.
#[derive(Debug, Clone, PartialEq, Eq)]
pub struct Entry {
    pub name: String,
    pub kind: EntryKind,
    pub size: u64,
    /// Modification time, Unix seconds.
    pub modified: i64,
    /// Creation time, Unix seconds; `0` when not reported.
    pub created: i64,
    /// POSIX permission bits.
    pub permissions: u32,
    pub uid: u32,
    pub gid: u32,
    pub owner: Option<String>,
    pub group: Option<String>,
    pub nlink: u32,
    /// Target path when `kind == Symlink`.
    pub symlink_target: Option<String>,
    /// Any of the three x bits is set.
    pub is_executable: bool,
    pub category: EntryCategory,
    pub marker: EntryMarker,
    /// Recursively computed folder size, when known.
    pub computed_size: Option<u64>,
}

/// Per-panel view mode: brief multi-column, or detailed.
#[derive(Debug, Clone, Copy, PartialEq, Eq, Structural)]
pub enum ViewMode {
    Columns(u8),
    Detailed,
}

impl Default for ViewMode {
    fn default() -> (r: Self)
        ensures
            r == ViewMode::Columns(2),
    {
        ViewMode::Columns(2)
    }
}

/// Sort order. Folders-first-by-name is the default.
#[derive(Debug, Clone, Copy, PartialEq, Eq, Hash, Structural)]
pub enum SortMode {
    NameFoldersFirst,
    TypeName,
    Size,
    Date,
}

impl Default for SortMode {
    fn default() -> (r: Self)
        ensures
            r == SortMode::NameFoldersFirst,
    {
        SortMode::NameFoldersFirst
    }
}

/// Layout geometry reported by the frontend.
#[derive(Debug, Clone, Copy, PartialEq, Eq, Structural)]
pub struct PanelGeometry {
    pub columns: u16,
    pub rows_per_column: u16,
}

impl Default for PanelGeometry {
    fn default() -> (r: Self)
        ensures
            r.columns == 0 && r.rows_per_column == 0,
    {
        PanelGeometry { columns: 0, rows_per_column: 0 }
    }
}

/// An open quick-search box on a panel.
#[derive(Debug, Clone, PartialEq, Eq)]
pub struct QuickSearch {
    /// What the user has typed so far — only characters that matched.
    pub query: String,
    /// Bumped on every rejected character.
    pub miss_rev: u32,
}

impl Default for QuickSearch {
    fn default() -> (r: Self)
        ensures
            r.query@ == Seq::<char>::empty(),
            r.miss_rev == 0,
    {
        QuickSearch { query: String::new(), miss_rev: 0 }
    }
}

/// Why a panel is showing an out-of-band notice.
#[derive(Debug, Clone, Copy, PartialEq, Eq, Hash, Structural)]
pub enum PanelNoticeKind {
    Moved,
    Replaced,
    Deleted,
    Trashed,
    Unmounted,
    Denied,
}

/// A one-line, non-modal explanation of something that happened to a panel's
/// directory.
#[derive(Debug, Clone, PartialEq, Eq)]
pub struct PanelNotice {
    pub kind: PanelNoticeKind,
    pub message: String,
    pub path: String,
}

/// Why a folder could not be read.
#[derive(Debug, Clone, Copy, PartialEq, Eq, Hash, Structural)]
pub enum DirAccessKind {
    /// Permission to read it was refused.
    Denied,
    /// Reading it failed for another reason.
    Other,
}

/// A folder the panel could not read: why, the system's message, and what
/// the user might do about it.
#[derive(Debug, Clone, PartialEq, Eq)]
pub struct DirAccessError {
    pub kind: DirAccessKind,
    pub message: String,
    pub remedies: Vec<String>,
}

/// The text of an access error.
pub open spec fn access_view(a: Option<DirAccessError>) -> Option<(DirAccessKind, Seq<char>, Seq<Seq<char>>)> {
    match a {
        Some(e) => Some((e.kind, e.message@, crate::text::string_views(e.remedies@))),
        None => None,
    }
}

/// The full state of one panel.
#[derive(Debug, Clone, PartialEq, Eq)]
pub struct PanelState {
    pub path: String,
    pub entries: Vec<Entry>,
    /// Index into `entries` of the entry under the cursor.
    pub cursor_index: usize,
    /// Index of the first visible entry.
    pub top_index: usize,
    /// Indices of selected entries.
    pub selection: Vec<usize>,
    pub view_mode: ViewMode,
    pub sort_mode: SortMode,
    pub show_hidden: bool,
    pub geometry: PanelGeometry,
    pub search: Option<QuickSearch>,
    pub notice: Option<PanelNotice>,
    /// Set when the panel could not read its folder: the listing is empty and
    /// the folder is not remembered for the next launch.
    pub access: Option<DirAccessError>,
}

/// A panel as it starts: no folder yet, nothing listed or selected, the
/// cursor and scroll at the top, two columns sorted folders-first by name,
/// hidden files shown, no layout reported, no search, no notice and no
/// access error.
pub open spec fn is_default_panel(p: PanelState) -> bool {
    &&& p.path@ == Seq::<char>::empty()
    &&& p.entries@.len() == 0
    &&& p.cursor_index == 0
    &&& p.top_index == 0
    &&& p.selection@.len() == 0
    &&& p.view_mode == ViewMode::Columns(2)
    &&& p.sort_mode == SortMode::NameFoldersFirst
    &&& p.show_hidden
    &&& p.geometry.columns == 0 && p.geometry.rows_per_column == 0
    &&& p.search is None
    &&& p.notice is None
    &&& p.access is None
}

impl Default for PanelState {
    fn default() -> (r: Self)
        ensures
            is_default_panel(r),
    {
        PanelState {
            path: String::new(),
            entries: Vec::new(),
            cursor_index: 0,
            top_index: 0,
            selection: Vec::new(),
            view_mode: ViewMode::Columns(2),
            sort_mode: SortMode::NameFoldersFirst,
            show_hidden: true,
            geometry: PanelGeometry { columns: 0, rows_per_column: 0 },
            search: None,
            notice: None,
            access: None,
        }
    }
}

/// Result of reading a directory.
#[derive(Debug, Clone, PartialEq, Eq)]
pub struct DirListing {
    pub path: String,
    pub entries: Vec<Entry>,
    /// Set when the directory could not be read; `entries` is then empty.
    pub access: Option<DirAccessError>,
}

/// A full snapshot of navigation state: both panels plus which is active.
#[derive(Debug, Clone, PartialEq, Eq)]
pub struct AppSnapshot {
    pub left: PanelState,
    pub right: PanelState,
    pub active: PanelId,
    pub trash_default: bool,
    pub terminal: TerminalState,
}

// ---------------------------------------------------------------------------
// Navigation & selection intents
// ---------------------------------------------------------------------------

/// Cursor motions.
#[derive(Debug, Clone, Copy, PartialEq, Eq, Structural)]
pub enum Motion {
    Up,
    Down,
    Left,
    Right,
    PageUp,
    PageDown,
    Home,
    End,
}

/// Target for `navigate`.
#[derive(Debug, Clone, PartialEq, Eq)]
pub enum NavTarget {
    Into,
    Parent,
    Path(String),
}

// ---------------------------------------------------------------------------
// File operations
// ---------------------------------------------------------------------------

/// Copy vs move.
#[derive(Debug, Clone, Copy, PartialEq, Eq, Structural)]
pub enum OpKind {
    Copy,
    Move,
}

/// A copy/move request.
#[derive(Debug, Clone, PartialEq, Eq)]
pub struct OpRequest {
    pub kind: OpKind,
    pub sources: Vec<String>,
    pub dest: String,
}

/// A delete request.
#[derive(Debug, Clone, PartialEq, Eq)]
pub struct DeleteRequest {
    pub paths: Vec<String>,
    pub to_trash: bool,
}

/// Name-collision resolution.
#[derive(Debug, Clone, Copy, PartialEq, Eq, Structural)]
pub enum Resolution {
    Skip,
    SkipAll,
    Overwrite,
    OverwriteAll,
    Cancel,
}

/// Error-dialog resolution.
#[derive(Debug, Clone, Copy, PartialEq, Eq, Structural)]
pub enum ErrorResolution {
    Retry,
    Skip,
    SkipAll,
    Cancel,
    Elevate,
}

/// How to open a file with an external tool.
#[derive(Debug, Clone, Copy, PartialEq, Eq, Structural)]
pub enum OpenAction {
    Open,
    View,
    Edit,
}

/// Terminal status of an operation.
#[derive(Debug, Clone, Copy, PartialEq, Eq, Structural)]
pub enum OpStatus {
    Pending,
    Success,
    Partial,
    Failed,
    Cancelled,
}

impl Default for OpStatus {
    fn default() -> (r: Self)
        ensures
            r == OpStatus::Pending,
    {
        OpStatus::Pending
    }
}

/// Structured result of an operation.
#[derive(Debug, Clone, PartialEq, Eq)]
pub struct OpOutcome {
    pub op_id: String,
    pub status: OpStatus,
    pub summary: String,
}

/// Progress payload for a running operation.
#[derive(Debug, Clone, PartialEq, Eq)]
pub struct OpProgress {
    pub op_id: String,
    pub bytes_done: u64,
    pub bytes_total: u64,
    pub count_done: u64,
    pub count_total: u64,
    pub current: String,
}

/// Basic file info.
#[derive(Debug, Clone, PartialEq, Eq)]
pub struct FileInfo {
    pub path: String,
    pub size: u64,
    pub modified: i64,
    pub permissions: u32,
    pub kind: EntryKind,
}

/// Payload for the collision prompt.
#[derive(Debug, Clone, PartialEq, Eq)]
pub struct CollisionPrompt {
    pub op_id: String,
    pub path: String,
    pub multiple: bool,
}

/// Payload for the failure prompt.
#[derive(Debug, Clone, PartialEq, Eq)]
pub struct OpErrorInfo {
    pub op_id: String,
    pub path: String,
    pub reason: String,
    pub offer_elevate: bool,
}

/// A panel-state change pushed by the core.
#[derive(Debug, Clone, PartialEq, Eq)]
pub struct PanelChanged {
    pub panel: PanelId,
    pub state: PanelState,
}

// ---------------------------------------------------------------------------
// Embedded terminal
// ---------------------------------------------------------------------------

/// What the run-status indicator shows.
#[derive(Debug, Clone, Copy, PartialEq, Eq, Structural)]
pub enum TerminalStatus {
    Idle,
    Running,
    /// Last run exited 0 with nothing on stderr (spelled `Okay`: the plain
    /// name is reserved here).
    Okay,
    Error,
}

impl Default for TerminalStatus {
    fn default() -> (r: Self)
        ensures
            r == TerminalStatus::Idle,
    {
        TerminalStatus::Idle
    }
}

/// How much room the terminal occupies.
#[derive(Debug, Clone, Copy, PartialEq, Eq, Structural)]
pub enum TerminalSize {
    Collapsed,
    Half,
    Full,
}

impl Default for TerminalSize {
    fn default() -> (r: Self)
        ensures
            r == TerminalSize::Collapsed,
    {
        TerminalSize::Collapsed
    }
}

/// Direction for command-history recall.
#[derive(Debug, Clone, Copy, PartialEq, Eq, Structural)]
pub enum HistoryDir {
    Prev,
    Next,
}

/// Which pipe a chunk of output came from.
#[derive(Debug, Clone, Copy, PartialEq, Eq, Structural)]
pub enum Stream {
    Stdout,
    Stderr,
}

/// The command line's full state.
#[derive(Debug, Clone, PartialEq, Eq)]
pub struct TerminalState {
    pub input: String,
    pub input_rev: u32,
    pub cwd: String,
    pub size: TerminalSize,
    pub focused: bool,
    pub status: TerminalStatus,
    pub running: Option<String>,
    pub scrollback_bytes: u64,
}

/// An incremental scrollback update: apply append-then-drop.
#[derive(Debug, Clone, PartialEq, Eq)]
pub struct TerminalChunk {
    /// Lines completed by this append.
    pub lines: Vec<String>,
    /// The still-incomplete trailing line.
    pub pending: String,
    /// Leading lines evicted, counted after this append.
    pub dropped: u32,
}

/// The whole scrollback.
#[derive(Debug, Clone, PartialEq, Eq)]
pub struct TerminalBuffer {
    pub lines: Vec<String>,
    pub pending: String,
}

// ---------------------------------------------------------------------------
// Embedded viewer & editor
// ---------------------------------------------------------------------------

/// What kind of content a file holds.
#[derive(Debug, Clone, Copy, PartialEq, Eq, Structural)]
pub enum MediaKind {
    Text,
    Binary,
    Image,
}

/// Character encoding of a text file.
#[derive(Debug, Clone, Copy, PartialEq, Eq, Structural)]
pub enum TextEncoding {
    Utf8,
    Utf8Bom,
    Utf16Le,
    Utf16Be,
    Latin1,
}

impl Default for TextEncoding {
    fn default() -> (r: Self)
        ensures
            r == TextEncoding::Utf8,
    {
        TextEncoding::Utf8
    }
}

/// Line-ending style.
#[derive(Debug, Clone, Copy, PartialEq, Eq, Structural)]
pub enum Eol {
    Lf,
    Crlf,
    Cr,
}

impl Default for Eol {
    fn default() -> (r: Self)
        ensures
            r == Eol::Lf,
    {
        Eol::Lf
    }
}

/// Result of sniffing a file's leading bytes.
#[derive(Debug, Clone, Copy, PartialEq, Eq, Structural)]
pub struct FileProbe {
    pub size: u64,
    pub media: MediaKind,
    pub encoding: TextEncoding,
    pub eol: Eol,
}

/// Which representation the viewer is showing.
#[derive(Debug, Clone, Copy, PartialEq, Eq, Structural)]
pub enum ViewerMode {
    Text,
    Hex,
    Image,
}

/// One rendered screenful of the viewer.
#[derive(Debug, Clone, PartialEq, Eq)]
pub struct ViewPage {
    pub id: String,
    pub path: String,
    pub name: String,
    pub mode: ViewerMode,
    pub wrap: bool,
    pub encoding: TextEncoding,
    pub gutter: Vec<String>,
    pub rows: Vec<String>,
    pub top_offset: u64,
    pub total_bytes: u64,
    pub percent: u8,
    pub top_line: Option<u64>,
    pub col_offset: u64,
    pub writable: bool,
}

/// Viewer scroll intents.
#[derive(Debug, Clone, Copy, PartialEq, Eq, Structural)]
pub enum ViewMotion {
    LineUp,
    LineDown,
    PageUp,
    PageDown,
    Home,
    End,
    ColLeft,
    ColRight,
}

/// Target for the viewer's Goto.
#[derive(Debug, Clone, Copy, PartialEq, Eq, Structural)]
pub enum GotoTarget {
    Line(u64),
    Offset(u64),
    Percent(u8),
}

/// Search direction.
#[derive(Debug, Clone, Copy, PartialEq, Eq, Structural)]
pub enum SearchDirection {
    Forward,
    Backward,
}

/// An open editor document.
#[derive(Debug, Clone, PartialEq, Eq)]
pub struct EditDoc {
    pub id: String,
    pub path: String,
    pub name: String,
    pub text: String,
    pub encoding: TextEncoding,
    pub eol: Eol,
    pub read_only: bool,
}

/// Structured result of an editor save.
#[derive(Debug, Clone, PartialEq, Eq)]
pub enum SaveOutcome {
    Saved,
    Conflict(String),
    ReadOnly,
    Failed(String),
}

/// What `open_entry` actually did.
#[derive(Debug, Clone, PartialEq, Eq)]
pub enum OpenOutcome {
    Launched,
    Executing,
    Nothing,
    Viewer(ViewPage),
    Editor(EditDoc),
}

// ---------------------------------------------------------------------------
// Config
// ---------------------------------------------------------------------------

/// One keybinding: an action id, its context, and the chords bound to it.
#[derive(Debug, Clone, PartialEq, Eq)]
pub struct KeyBinding {
    pub context: String,
    pub action: String,
    pub keys: Vec<String>,
}

/// Persisted per-panel preferences.
#[derive(Debug, Clone, PartialEq, Eq)]
pub struct PanelPrefs {
    pub start_dir: Option<String>,
    pub sort_mode: SortMode,
    pub show_hidden: bool,
    pub view_mode: ViewMode,
}

impl Default for PanelPrefs {
    fn default() -> (r: Self)
        ensures
            r.start_dir is None,
            r.sort_mode == SortMode::NameFoldersFirst,
            r.show_hidden,
            r.view_mode == ViewMode::Columns(2),
    {
        PanelPrefs {
            start_dir: None,
            sort_mode: SortMode::NameFoldersFirst,
            show_hidden: true,
            view_mode: ViewMode::Columns(2),
        }
    }
}

/// One file-type to handler mapping.
#[derive(Debug, Clone, PartialEq, Eq)]
pub struct FileAssociation {
    pub extensions: Vec<String>,
    pub open: Option<String>,
    pub view: Option<String>,
    pub edit: Option<String>,
}

impl Default for FileAssociation {
    fn default() -> (r: Self)
        ensures
            r.extensions@.len() == 0,
            r.open is None && r.view is None && r.edit is None,
    {
        FileAssociation { extensions: Vec::new(), open: None, view: None, edit: None }
    }
}

/// Embedded-viewer preferences.
#[derive(Debug, Clone, Copy, PartialEq, Eq, Structural)]
pub struct ViewerPrefs {
    pub wrap: bool,
    pub tab_width: u8,
    pub hex_bytes_per_row: u8,
}

impl Default for ViewerPrefs {
    fn default() -> (r: Self)
        ensures
            !r.wrap && r.tab_width == 4 && r.hex_bytes_per_row == 16,
    {
        ViewerPrefs { wrap: false, tab_width: 4, hex_bytes_per_row: 16 }
    }
}

/// Embedded-terminal preferences.
#[derive(Debug, Clone, PartialEq, Eq)]
pub struct TerminalPrefs {
    /// Scrollback cap in bytes.
    pub scrollback_bytes: u64,
    pub shell: Option<String>,
    pub size: TerminalSize,
}

impl Default for TerminalPrefs {
    fn default() -> (r: Self)
        ensures
            r.scrollback_bytes == 1048576,
            r.shell is None,
            r.size == TerminalSize::Collapsed,
    {
        TerminalPrefs { scrollback_bytes: 1048576, shell: None, size: TerminalSize::Collapsed }
    }
}

/// Where a panel goes when its directory is gone for good.
#[derive(Debug, Clone, Copy, PartialEq, Eq, Structural)]
pub enum OnLost {
    NearestAncestor,
    Home,
}

impl Default for OnLost {
    fn default() -> (r: Self)
        ensures
            r == OnLost::NearestAncestor,
    {
        OnLost::NearestAncestor
    }
}

/// Directory-watching preferences.
#[derive(Debug, Clone, Copy, PartialEq, Eq, Structural)]
pub struct WatchPrefs {
    pub enabled: bool,
    pub debounce_ms: u64,
    pub max_delay_ms: u64,
    pub identity_poll_ms: u64,
    pub follow_moves: bool,
    pub on_lost: OnLost,
    pub poll_non_local_ms: u64,
    pub refresh_on_focus: bool,
}

impl Default for WatchPrefs {
    fn default() -> (r: Self)
        ensures
            r.enabled && r.debounce_ms == 200 && r.max_delay_ms == 1000,
            r.identity_poll_ms == 2000 && r.follow_moves,
            r.on_lost == OnLost::NearestAncestor,
            r.poll_non_local_ms == 5000 && r.refresh_on_focus,
    {
        WatchPrefs {
            enabled: true,
            debounce_ms: 200,
            max_delay_ms: 1000,
            identity_poll_ms: 2000,
            follow_moves: true,
            on_lost: OnLost::NearestAncestor,
            poll_non_local_ms: 5000,
            refresh_on_focus: true,
        }
    }
}

/// Root config document. Ships with working defaults.
#[derive(Debug, Clone, PartialEq, Eq)]
pub struct Config {
    pub trash_default: bool,
    pub theme: String,
    pub edit_max_bytes: u64,
    pub left_panel: PanelPrefs,
    pub right_panel: PanelPrefs,
    pub viewer: ViewerPrefs,
    pub terminal: TerminalPrefs,
    pub watch: WatchPrefs,
    pub associations: Vec<FileAssociation>,
}

/// Panel preferences as shipped: no start folder, folders first by name,
/// hidden files shown, two columns.
pub open spec fn is_default_prefs(p: PanelPrefs) -> bool {
    &&& p.start_dir is None
    &&& p.sort_mode == SortMode::NameFoldersFirst
    &&& p.show_hidden
    &&& p.view_mode == ViewMode::Columns(2)
}

/// The configuration as shipped: delete does not default to the trash, the
/// classic theme, a 16 MiB edit cap, default panels, an unwrapped viewer
/// with 4-wide tabs and 16-byte hex rows, a collapsed terminal on the
/// login shell with 1 MiB of scrollback, watching on with its default
/// timings, and no file associations.
pub open spec fn is_default_config(c: Config) -> bool {
    &&& !c.trash_default
    &&& c.theme@ == seq!['c', 'l', 'a', 's', 's', 'i', 'c']
    &&& c.edit_max_bytes == 16777216
    &&& is_default_prefs(c.left_panel)
    &&& is_default_prefs(c.right_panel)
    &&& !c.viewer.wrap && c.viewer.tab_width == 4 && c.viewer.hex_bytes_per_row == 16
    &&& c.terminal.scrollback_bytes == 1048576
    &&& c.terminal.shell is None
    &&& c.terminal.size == TerminalSize::Collapsed
    &&& c.watch.enabled && c.watch.debounce_ms == 200 && c.watch.max_delay_ms == 1000
    &&& c.watch.identity_poll_ms == 2000 && c.watch.follow_moves
    &&& c.watch.on_lost == OnLost::NearestAncestor
    &&& c.watch.poll_non_local_ms == 5000 && c.watch.refresh_on_focus
    &&& c.associations@.len() == 0
}

impl Default for Config {
    fn default() -> (r: Self)
        ensures
            is_default_config(r),
    {
        let theme = crate::text::string_from_chars(&vec!['c', 'l', 'a', 's', 's', 'i', 'c']);
        Config {
            trash_default: false,
            theme,
            edit_max_bytes: 16777216,
            left_panel: PanelPrefs::default(),
            right_panel: PanelPrefs::default(),
            viewer: ViewerPrefs::default(),
            terminal: TerminalPrefs::default(),
            watch: WatchPrefs::default(),
            associations: Vec::new(),
        }
    }
}

// ---------------------------------------------------------------------------
// Help
// ---------------------------------------------------------------------------

/// Who this app is, for the About topic.
#[derive(Debug, Clone, PartialEq, Eq)]
pub struct AppInfo {
    pub name: String,
    pub version: String,
    pub description: String,
    pub license: String,
    pub homepage: String,
    pub repository: String,
    pub sponsor: String,
}

/// The whole help book.
#[derive(Debug, Clone, PartialEq, Eq)]
pub struct HelpBook {
    pub topics: Vec<HelpTopicView>,
}

/// One topic plus its body.
#[derive(Debug, Clone, PartialEq, Eq)]
pub struct HelpTopicView {
    pub id: String,
    pub title: String,
    pub body: HelpBody,
}

/// The content of a topic.
#[derive(Debug, Clone, PartialEq, Eq)]
pub enum HelpBody {
    About(AboutBody),
    Shortcuts(ShortcutsBody),
}

/// The About topic.
#[derive(Debug, Clone, PartialEq, Eq)]
pub struct AboutBody {
    pub app: AppInfo,
    pub lines: Vec<HelpLine>,
    pub links: Vec<HelpLink>,
}

/// One label/value row.
#[derive(Debug, Clone, PartialEq, Eq)]
pub struct HelpLine {
    pub label: String,
    pub value: String,
}

/// One outbound link.
#[derive(Debug, Clone, PartialEq, Eq)]
pub struct HelpLink {
    pub label: String,
    pub url: String,
}

/// The Shortcuts topic: the live keymap, grouped and filtered.
#[derive(Debug, Clone, PartialEq, Eq)]
pub struct ShortcutsBody {
    pub query: String,
    pub match_count: u32,
    pub total_count: u32,
    pub sections: Vec<ShortcutSection>,
}

/// All shortcuts for one keyboard context.
#[derive(Debug, Clone, PartialEq, Eq)]
pub struct ShortcutSection {
    pub context: String,
    pub title: String,
    pub groups: Vec<ShortcutGroup>,
}

/// A run of related shortcuts within a section.
#[derive(Debug, Clone, PartialEq, Eq)]
pub struct ShortcutGroup {
    pub category: String,
    pub title: String,
    pub items: Vec<ShortcutItem>,
}

/// One shortcut row.
#[derive(Debug, Clone, PartialEq, Eq)]
pub struct ShortcutItem {
    pub action: String,
    pub keys: Vec<String>,
    pub title: String,
    pub description: String,
}

} // verus!
