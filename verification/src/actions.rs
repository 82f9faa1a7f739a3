//! The action catalog: what every bindable action means.
//!
//! The keymap says which keys reach which action id; this module says what
//! that action does, in words a user can read. Declaration order is display
//! order, in both dimensions: categories appear in the order listed, and
//! actions in the order they appear within their category.
use vstd::prelude::*;
use crate::text::str_eq;

verus! {

/// One bindable action. `id` is the string a key binding carries in its
/// `action` field.
#[derive(Debug, Clone, Copy)]
pub struct ActionInfo {
    pub id: &'static str,
    /// Short imperative label, e.g. `"Move cursor down"`.
    pub title: &'static str,
    /// One extra clause of context, or `""` when the title says it all.
    pub description: &'static str,
}

/// One group of related actions.
#[derive(Debug, Clone)]
pub struct ActionCategory {
    /// Stable id, e.g. `"cursor"`.
    pub id: &'static str,
    pub title: &'static str,
    pub actions: Vec<ActionInfo>,
}

/// The text of an action.
pub struct ActionView {
    pub id: Seq<char>,
    pub title: Seq<char>,
    pub description: Seq<char>,
}

/// The text of a category.
pub struct CategoryView {
    pub id: Seq<char>,
    pub title: Seq<char>,
    pub actions: Seq<ActionView>,
}

/// The text of an action value.
pub open spec fn action_view(a: ActionInfo) -> ActionView {
    ActionView { id: a.id@, title: a.title@, description: a.description@ }
}

/// The texts of a list of actions.
pub open spec fn action_views(v: Seq<ActionInfo>) -> Seq<ActionView> {
    Seq::new(v.len(), |i: int| action_view(v[i]))
}

/// The text of a category value.
pub open spec fn category_view(c: ActionCategory) -> CategoryView {
    CategoryView { id: c.id@, title: c.title@, actions: action_views(c.actions@) }
}

/// The texts of a list of categories.
pub open spec fn category_views(v: Seq<ActionCategory>) -> Seq<CategoryView> {
    Seq::new(v.len(), |i: int| category_view(v[i]))
}

/// The actions of the `cursor` category.
pub open spec fn cursor_actions() -> Seq<ActionView> {
    seq![
        ActionView { id: "cursor.up"@, title: "Move cursor up"@, description: "Steps up one entry, wrapping to the previous column at the top."@ },
        ActionView { id: "cursor.down"@, title: "Move cursor down"@, description: "Steps down one entry, wrapping to the next column at the bottom."@ },
        ActionView { id: "cursor.left"@, title: "Move cursor left"@, description: "Steps a column left, then paginates up to the first entry (§5.2)."@ },
        ActionView { id: "cursor.right"@, title: "Move cursor right"@, description: "Steps a column right, then paginates down to the last file (§5.2)."@ },
        ActionView { id: "cursor.page_up"@, title: "Page up"@, description: ""@ },
        ActionView { id: "cursor.page_down"@, title: "Page down"@, description: ""@ },
        ActionView { id: "cursor.home"@, title: "Go to first entry"@, description: "Jumps to `..` at the top of the listing."@ },
        ActionView { id: "cursor.end"@, title: "Go to last entry"@, description: ""@ },
    ]
}

/// The actions of the `navigation` category.
pub open spec fn navigation_actions() -> Seq<ActionView> {
    seq![
        ActionView { id: "panel.switch"@, title: "Switch panel"@, description: "Moves the keyboard between the left and right panel."@ },
        ActionView { id: "nav.enter"@, title: "Open entry"@, description: "Enters a folder, or opens a file with its configured handler. On `..` it goes to the parent and puts the cursor on the folder just left."@ },
        ActionView { id: "nav.parent"@, title: "Go to parent folder"@, description: "Same as Enter on `..` — the cursor lands on the folder just left."@ },
        ActionView { id: "panel.equalize"@, title: "Show this folder on the other panel"@, description: "Opens the active panel's folder on the opposite panel too. The keyboard stays where it is."@ },
    ]
}

/// The actions of the `selection` category.
pub open spec fn selection_actions() -> Seq<ActionView> {
    seq![
        ActionView { id: "selection.toggle"@, title: "Toggle selection"@, description: "Selects or deselects the entry under the cursor and steps down."@ },
        ActionView { id: "selection.all"@, title: "Select all"@, description: ""@ },
        ActionView { id: "selection.none"@, title: "Deselect all"@, description: ""@ },
        ActionView { id: "select.up"@, title: "Toggle selection up"@, description: "Flips the selection of every entry swept over, but not the one it lands on."@ },
        ActionView { id: "select.down"@, title: "Toggle selection down"@, description: "Flips the selection of every entry swept over, but not the one it lands on."@ },
        ActionView { id: "select.left"@, title: "Toggle selection left"@, description: "Flips the selection of every entry swept over, but not the one it lands on."@ },
        ActionView { id: "select.right"@, title: "Toggle selection right"@, description: "Flips the selection of every entry swept over, but not the one it lands on."@ },
        ActionView { id: "select.page_up"@, title: "Toggle selection a page up"@, description: "Flips the selection of every entry swept over, but not the one it lands on."@ },
        ActionView { id: "select.page_down"@, title: "Toggle selection a page down"@, description: "Flips the selection of every entry swept over, but not the one it lands on."@ },
        ActionView { id: "select.home"@, title: "Toggle selection to the first entry"@, description: "Flips the selection of every entry swept over, but not the one it lands on."@ },
        ActionView { id: "select.end"@, title: "Toggle selection to the last entry"@, description: "Flips the selection of every entry swept over, but not the one it lands on."@ },
    ]
}

/// The actions of the `file_ops` category.
pub open spec fn file_ops_actions() -> Seq<ActionView> {
    seq![
        ActionView { id: "op.copy"@, title: "Copy"@, description: "Opens the editable destination prompt; accepts `..`, relative and absolute paths (§5.4a)."@ },
        ActionView { id: "op.move"@, title: "Move"@, description: "Opens the same editable destination prompt."@ },
        ActionView { id: "op.rename"@, title: "Rename"@, description: "Renames in place, with the basename preselected."@ },
        ActionView { id: "op.mkdir"@, title: "Create directory"@, description: ""@ },
        ActionView { id: "op.delete"@, title: "Delete"@, description: "Confirms first, with the persisted \"Move to Trash\" checkbox (§5.4a)."@ },
    ]
}

/// The actions of the `open` category.
pub open spec fn open_actions() -> Seq<ActionView> {
    seq![
        ActionView { id: "open.view"@, title: "View file"@, description: "Read-only. On a folder it calculates the recursive size instead (§5.4)."@ },
        ActionView { id: "open.edit"@, title: "Edit file"@, description: "Opens the configured editor — embedded or external (§5.5)."@ },
    ]
}

/// The actions of the `panel_view` category.
pub open spec fn panel_view_actions() -> Seq<ActionView> {
    seq![
        ActionView { id: "panel.refresh"@, title: "Refresh listing"@, description: "Re-reads the directory, keeping the cursor and selection. Directories are watched and refresh themselves, so this is for volumes that cannot be watched (§5.6)."@ },
        ActionView { id: "panel.toggle_hidden"@, title: "Toggle hidden files"@, description: "Per panel, persisted across restarts (§5.8)."@ },
        ActionView { id: "panel.cycle_sort"@, title: "Cycle sort mode"@, description: "Folders-first-by-name, type+name, size, date."@ },
        ActionView { id: "panel.view_1"@, title: "One-column view"@, description: ""@ },
        ActionView { id: "panel.view_2"@, title: "Two-column view"@, description: "The default (§5.8)."@ },
        ActionView { id: "panel.view_3"@, title: "Three-column view"@, description: ""@ },
        ActionView { id: "panel.view_detailed"@, title: "Detailed view"@, description: "Single column with size, date and attributes."@ },
    ]
}

/// The actions of the `quick_search` category.
pub open spec fn quick_search_actions() -> Seq<ActionView> {
    seq![
        ActionView { id: "search.start"@, title: "Quick search"@, description: "Opens a search box in the active panel's corner; what you type jumps the cursor to the first name that starts with it."@ },
    ]
}

/// The actions of the `quick_search_box` category.
pub open spec fn quick_search_box_actions() -> Seq<ActionView> {
    seq![
        ActionView { id: "search.close"@, title: "Close the search box"@, description: "Leaves the cursor on the match. Enter does not open the entry — press it again for that."@ },
        ActionView { id: "search.backspace"@, title: "Erase a character"@, description: "Steps the query back one character, and the cursor with it."@ },
    ]
}

/// The actions of the `terminal` category.
pub open spec fn terminal_actions() -> Seq<ActionView> {
    seq![
        ActionView { id: "terminal.focus"@, title: "Focus command line"@, description: "Hands the keyboard to the prompt below the panels."@ },
        ActionView { id: "terminal.blur"@, title: "Leave command line"@, description: "Hands the keyboard back to the active panel; partial input survives."@ },
        ActionView { id: "terminal.toggle_half"@, title: "Toggle output pane"@, description: "Expands the terminal to the bottom half of the window; the panels shrink rather than being covered."@ },
        ActionView { id: "terminal.curtain"@, title: "Toggle terminal curtain"@, description: "Slides the panels aside for a full-height terminal, and back (§6)."@ },
        ActionView { id: "terminal.insert_name"@, title: "Insert name at prompt"@, description: "Appends the name under the cursor, shell-quoted, without leaving the panel (§5.7)."@ },
    ]
}

/// The actions of the `terminal_prompt` category.
pub open spec fn terminal_prompt_actions() -> Seq<ActionView> {
    seq![
        ActionView { id: "terminal.run"@, title: "Run command"@, description: ""@ },
        ActionView { id: "terminal.interrupt"@, title: "Interrupt or clear"@, description: "Signals the running command; with nothing running it clears the prompt."@ },
        ActionView { id: "terminal.history_prev"@, title: "Previous command"@, description: ""@ },
        ActionView { id: "terminal.history_next"@, title: "Next command"@, description: ""@ },
        ActionView { id: "terminal.scroll_up"@, title: "Scroll output up"@, description: ""@ },
        ActionView { id: "terminal.scroll_down"@, title: "Scroll output down"@, description: ""@ },
        ActionView { id: "terminal.clear_buffer"@, title: "Clear output"@, description: "Empties the scrollback buffer, like `clear`."@ },
    ]
}

/// The actions of the `viewer_motion` category.
pub open spec fn viewer_motion_actions() -> Seq<ActionView> {
    seq![
        ActionView { id: "viewer.line_up"@, title: "Line up"@, description: ""@ },
        ActionView { id: "viewer.line_down"@, title: "Line down"@, description: ""@ },
        ActionView { id: "viewer.col_left"@, title: "Column left"@, description: "Only with wrapping off."@ },
        ActionView { id: "viewer.col_right"@, title: "Column right"@, description: "Only with wrapping off."@ },
        ActionView { id: "viewer.page_up"@, title: "Page up"@, description: ""@ },
        ActionView { id: "viewer.page_down"@, title: "Page down"@, description: ""@ },
        ActionView { id: "viewer.home"@, title: "Go to start of file"@, description: ""@ },
        ActionView { id: "viewer.end"@, title: "Go to end of file"@, description: ""@ },
    ]
}

/// The actions of the `viewer_cmd` category.
pub open spec fn viewer_cmd_actions() -> Seq<ActionView> {
    seq![
        ActionView { id: "viewer.close"@, title: "Close viewer"@, description: ""@ },
        ActionView { id: "viewer.toggle_wrap"@, title: "Toggle line wrap"@, description: "Persisted across sessions (§7)."@ },
        ActionView { id: "viewer.toggle_hex"@, title: "Toggle hex mode"@, description: ""@ },
        ActionView { id: "viewer.goto"@, title: "Go to position"@, description: "Accepts a line number, a `0x` offset, or a percentage."@ },
        ActionView { id: "viewer.to_edit"@, title: "Switch to editor"@, description: "Reopens the same file read-write at the same position."@ },
        ActionView { id: "viewer.search"@, title: "Search"@, description: ""@ },
        ActionView { id: "viewer.search_next"@, title: "Search again"@, description: "Repeats the last search without re-prompting."@ },
    ]
}

/// The actions of the `editor_cmd` category.
pub open spec fn editor_cmd_actions() -> Seq<ActionView> {
    seq![
        ActionView { id: "editor.save"@, title: "Save"@, description: "Atomic write that preserves the file's encoding, line endings and permissions."@ },
        ActionView { id: "editor.to_view"@, title: "Switch to viewer"@, description: "Reopens the same file read-only."@ },
        ActionView { id: "editor.close"@, title: "Close editor"@, description: "Prompts when the buffer has unsaved changes."@ },
    ]
}

/// The actions of the `help` category.
pub open spec fn help_actions() -> Seq<ActionView> {
    seq![
        ActionView { id: "help.open"@, title: "Open help"@, description: "Available from every surface."@ },
        ActionView { id: "help.close"@, title: "Close help"@, description: ""@ },
        ActionView { id: "help.next_topic"@, title: "Next topic"@, description: "Cycles round to the first topic past the last."@ },
        ActionView { id: "help.prev_topic"@, title: "Previous topic"@, description: "Cycles round to the last topic before the first."@ },
        ActionView { id: "help.scroll_up"@, title: "Scroll up"@, description: ""@ },
        ActionView { id: "help.scroll_down"@, title: "Scroll down"@, description: ""@ },
        ActionView { id: "help.page_up"@, title: "Page up"@, description: ""@ },
        ActionView { id: "help.page_down"@, title: "Page down"@, description: ""@ },
    ]
}

/// The catalog, as text, in display order.
pub open spec fn catalog_table() -> Seq<CategoryView> {
    seq![
        CategoryView { id: "cursor"@, title: "Cursor motion"@, actions: cursor_actions() },
        CategoryView { id: "navigation"@, title: "Directory navigation"@, actions: navigation_actions() },
        CategoryView { id: "selection"@, title: "Selection"@, actions: selection_actions() },
        CategoryView { id: "file_ops"@, title: "File operations"@, actions: file_ops_actions() },
        CategoryView { id: "open"@, title: "View & edit"@, actions: open_actions() },
        CategoryView { id: "panel_view"@, title: "Layout & sorting"@, actions: panel_view_actions() },
        CategoryView { id: "quick_search"@, title: "Quick search"@, actions: quick_search_actions() },
        CategoryView { id: "quick_search_box"@, title: "In the search box"@, actions: quick_search_box_actions() },
        CategoryView { id: "terminal"@, title: "Terminal"@, actions: terminal_actions() },
        CategoryView { id: "terminal_prompt"@, title: "At the prompt"@, actions: terminal_prompt_actions() },
        CategoryView { id: "viewer_motion"@, title: "Scrolling"@, actions: viewer_motion_actions() },
        CategoryView { id: "viewer_cmd"@, title: "Commands"@, actions: viewer_cmd_actions() },
        CategoryView { id: "editor_cmd"@, title: "Commands"@, actions: editor_cmd_actions() },
        CategoryView { id: "help"@, title: "Help"@, actions: help_actions() },
    ]
}

/// Every action the app knows about, grouped and in display order.
pub fn catalog() -> (r: Vec<ActionCategory>)
    ensures
        category_views(r@) == catalog_table(),
{
    let mut r: Vec<ActionCategory> = Vec::new();
    let mut v: Vec<ActionInfo> = Vec::new();
    v.push(ActionInfo { id: "cursor.up", title: "Move cursor up", description: "Steps up one entry, wrapping to the previous column at the top." });
    v.push(ActionInfo { id: "cursor.down", title: "Move cursor down", description: "Steps down one entry, wrapping to the next column at the bottom." });
    v.push(ActionInfo { id: "cursor.left", title: "Move cursor left", description: "Steps a column left, then paginates up to the first entry (§5.2)." });
    v.push(ActionInfo { id: "cursor.right", title: "Move cursor right", description: "Steps a column right, then paginates down to the last file (§5.2)." });
    v.push(ActionInfo { id: "cursor.page_up", title: "Page up", description: "" });
    v.push(ActionInfo { id: "cursor.page_down", title: "Page down", description: "" });
    v.push(ActionInfo { id: "cursor.home", title: "Go to first entry", description: "Jumps to `..` at the top of the listing." });
    v.push(ActionInfo { id: "cursor.end", title: "Go to last entry", description: "" });
    assert(action_views(v@) =~= cursor_actions());
    r.push(ActionCategory { id: "cursor", title: "Cursor motion", actions: v });
    let mut v: Vec<ActionInfo> = Vec::new();
    v.push(ActionInfo { id: "panel.switch", title: "Switch panel", description: "Moves the keyboard between the left and right panel." });
    v.push(ActionInfo { id: "nav.enter", title: "Open entry", description: "Enters a folder, or opens a file with its configured handler. On `..` it goes to the parent and puts the cursor on the folder just left." });
    v.push(ActionInfo { id: "nav.parent", title: "Go to parent folder", description: "Same as Enter on `..` — the cursor lands on the folder just left." });
    v.push(ActionInfo { id: "panel.equalize", title: "Show this folder on the other panel", description: "Opens the active panel's folder on the opposite panel too. The keyboard stays where it is." });
    assert(action_views(v@) =~= navigation_actions());
    r.push(ActionCategory { id: "navigation", title: "Directory navigation", actions: v });
    let mut v: Vec<ActionInfo> = Vec::new();
    v.push(ActionInfo { id: "selection.toggle", title: "Toggle selection", description: "Selects or deselects the entry under the cursor and steps down." });
    v.push(ActionInfo { id: "selection.all", title: "Select all", description: "" });
    v.push(ActionInfo { id: "selection.none", title: "Deselect all", description: "" });
    v.push(ActionInfo { id: "select.up", title: "Toggle selection up", description: "Flips the selection of every entry swept over, but not the one it lands on." });
    v.push(ActionInfo { id: "select.down", title: "Toggle selection down", description: "Flips the selection of every entry swept over, but not the one it lands on." });
    v.push(ActionInfo { id: "select.left", title: "Toggle selection left", description: "Flips the selection of every entry swept over, but not the one it lands on." });
    v.push(ActionInfo { id: "select.right", title: "Toggle selection right", description: "Flips the selection of every entry swept over, but not the one it lands on." });
    v.push(ActionInfo { id: "select.page_up", title: "Toggle selection a page up", description: "Flips the selection of every entry swept over, but not the one it lands on." });
    v.push(ActionInfo { id: "select.page_down", title: "Toggle selection a page down", description: "Flips the selection of every entry swept over, but not the one it lands on." });
    v.push(ActionInfo { id: "select.home", title: "Toggle selection to the first entry", description: "Flips the selection of every entry swept over, but not the one it lands on." });
    v.push(ActionInfo { id: "select.end", title: "Toggle selection to the last entry", description: "Flips the selection of every entry swept over, but not the one it lands on." });
    assert(action_views(v@) =~= selection_actions());
    r.push(ActionCategory { id: "selection", title: "Selection", actions: v });
    let mut v: Vec<ActionInfo> = Vec::new();
    v.push(ActionInfo { id: "op.copy", title: "Copy", description: "Opens the editable destination prompt; accepts `..`, relative and absolute paths (§5.4a)." });
    v.push(ActionInfo { id: "op.move", title: "Move", description: "Opens the same editable destination prompt." });
    v.push(ActionInfo { id: "op.rename", title: "Rename", description: "Renames in place, with the basename preselected." });
    v.push(ActionInfo { id: "op.mkdir", title: "Create directory", description: "" });
    v.push(ActionInfo { id: "op.delete", title: "Delete", description: "Confirms first, with the persisted \"Move to Trash\" checkbox (§5.4a)." });
    assert(action_views(v@) =~= file_ops_actions());
    r.push(ActionCategory { id: "file_ops", title: "File operations", actions: v });
    let mut v: Vec<ActionInfo> = Vec::new();
    v.push(ActionInfo { id: "open.view", title: "View file", description: "Read-only. On a folder it calculates the recursive size instead (§5.4)." });
    v.push(ActionInfo { id: "open.edit", title: "Edit file", description: "Opens the configured editor — embedded or external (§5.5)." });
    assert(action_views(v@) =~= open_actions());
    r.push(ActionCategory { id: "open", title: "View & edit", actions: v });
    let mut v: Vec<ActionInfo> = Vec::new();
    v.push(ActionInfo { id: "panel.refresh", title: "Refresh listing", description: "Re-reads the directory, keeping the cursor and selection. Directories are watched and refresh themselves, so this is for volumes that cannot be watched (§5.6)." });
    v.push(ActionInfo { id: "panel.toggle_hidden", title: "Toggle hidden files", description: "Per panel, persisted across restarts (§5.8)." });
    v.push(ActionInfo { id: "panel.cycle_sort", title: "Cycle sort mode", description: "Folders-first-by-name, type+name, size, date." });
    v.push(ActionInfo { id: "panel.view_1", title: "One-column view", description: "" });
    v.push(ActionInfo { id: "panel.view_2", title: "Two-column view", description: "The default (§5.8)." });
    v.push(ActionInfo { id: "panel.view_3", title: "Three-column view", description: "" });
    v.push(ActionInfo { id: "panel.view_detailed", title: "Detailed view", description: "Single column with size, date and attributes." });
    assert(action_views(v@) =~= panel_view_actions());
    r.push(ActionCategory { id: "panel_view", title: "Layout & sorting", actions: v });
    let mut v: Vec<ActionInfo> = Vec::new();
    v.push(ActionInfo { id: "search.start", title: "Quick search", description: "Opens a search box in the active panel's corner; what you type jumps the cursor to the first name that starts with it." });
    assert(action_views(v@) =~= quick_search_actions());
    r.push(ActionCategory { id: "quick_search", title: "Quick search", actions: v });
    let mut v: Vec<ActionInfo> = Vec::new();
    v.push(ActionInfo { id: "search.close", title: "Close the search box", description: "Leaves the cursor on the match. Enter does not open the entry — press it again for that." });
    v.push(ActionInfo { id: "search.backspace", title: "Erase a character", description: "Steps the query back one character, and the cursor with it." });
    assert(action_views(v@) =~= quick_search_box_actions());
    r.push(ActionCategory { id: "quick_search_box", title: "In the search box", actions: v });
    let mut v: Vec<ActionInfo> = Vec::new();
    v.push(ActionInfo { id: "terminal.focus", title: "Focus command line", description: "Hands the keyboard to the prompt below the panels." });
    v.push(ActionInfo { id: "terminal.blur", title: "Leave command line", description: "Hands the keyboard back to the active panel; partial input survives." });
    v.push(ActionInfo { id: "terminal.toggle_half", title: "Toggle output pane", description: "Expands the terminal to the bottom half of the window; the panels shrink rather than being covered." });
    v.push(ActionInfo { id: "terminal.curtain", title: "Toggle terminal curtain", description: "Slides the panels aside for a full-height terminal, and back (§6)." });
    v.push(ActionInfo { id: "terminal.insert_name", title: "Insert name at prompt", description: "Appends the name under the cursor, shell-quoted, without leaving the panel (§5.7)." });
    assert(action_views(v@) =~= terminal_actions());
    r.push(ActionCategory { id: "terminal", title: "Terminal", actions: v });
    let mut v: Vec<ActionInfo> = Vec::new();
    v.push(ActionInfo { id: "terminal.run", title: "Run command", description: "" });
    v.push(ActionInfo { id: "terminal.interrupt", title: "Interrupt or clear", description: "Signals the running command; with nothing running it clears the prompt." });
    v.push(ActionInfo { id: "terminal.history_prev", title: "Previous command", description: "" });
    v.push(ActionInfo { id: "terminal.history_next", title: "Next command", description: "" });
    v.push(ActionInfo { id: "terminal.scroll_up", title: "Scroll output up", description: "" });
    v.push(ActionInfo { id: "terminal.scroll_down", title: "Scroll output down", description: "" });
    v.push(ActionInfo { id: "terminal.clear_buffer", title: "Clear output", description: "Empties the scrollback buffer, like `clear`." });
    assert(action_views(v@) =~= terminal_prompt_actions());
    r.push(ActionCategory { id: "terminal_prompt", title: "At the prompt", actions: v });
    let mut v: Vec<ActionInfo> = Vec::new();
    v.push(ActionInfo { id: "viewer.line_up", title: "Line up", description: "" });
    v.push(ActionInfo { id: "viewer.line_down", title: "Line down", description: "" });
    v.push(ActionInfo { id: "viewer.col_left", title: "Column left", description: "Only with wrapping off." });
    v.push(ActionInfo { id: "viewer.col_right", title: "Column right", description: "Only with wrapping off." });
    v.push(ActionInfo { id: "viewer.page_up", title: "Page up", description: "" });
    v.push(ActionInfo { id: "viewer.page_down", title: "Page down", description: "" });
    v.push(ActionInfo { id: "viewer.home", title: "Go to start of file", description: "" });
    v.push(ActionInfo { id: "viewer.end", title: "Go to end of file", description: "" });
    assert(action_views(v@) =~= viewer_motion_actions());
    r.push(ActionCategory { id: "viewer_motion", title: "Scrolling", actions: v });
    let mut v: Vec<ActionInfo> = Vec::new();
    v.push(ActionInfo { id: "viewer.close", title: "Close viewer", description: "" });
    v.push(ActionInfo { id: "viewer.toggle_wrap", title: "Toggle line wrap", description: "Persisted across sessions (§7)." });
    v.push(ActionInfo { id: "viewer.toggle_hex", title: "Toggle hex mode", description: "" });
    v.push(ActionInfo { id: "viewer.goto", title: "Go to position", description: "Accepts a line number, a `0x` offset, or a percentage." });
    v.push(ActionInfo { id: "viewer.to_edit", title: "Switch to editor", description: "Reopens the same file read-write at the same position." });
    v.push(ActionInfo { id: "viewer.search", title: "Search", description: "" });
    v.push(ActionInfo { id: "viewer.search_next", title: "Search again", description: "Repeats the last search without re-prompting." });
    assert(action_views(v@) =~= viewer_cmd_actions());
    r.push(ActionCategory { id: "viewer_cmd", title: "Commands", actions: v });
    let mut v: Vec<ActionInfo> = Vec::new();
    v.push(ActionInfo { id: "editor.save", title: "Save", description: "Atomic write that preserves the file's encoding, line endings and permissions." });
    v.push(ActionInfo { id: "editor.to_view", title: "Switch to viewer", description: "Reopens the same file read-only." });
    v.push(ActionInfo { id: "editor.close", title: "Close editor", description: "Prompts when the buffer has unsaved changes." });
    assert(action_views(v@) =~= editor_cmd_actions());
    r.push(ActionCategory { id: "editor_cmd", title: "Commands", actions: v });
    let mut v: Vec<ActionInfo> = Vec::new();
    v.push(ActionInfo { id: "help.open", title: "Open help", description: "Available from every surface." });
    v.push(ActionInfo { id: "help.close", title: "Close help", description: "" });
    v.push(ActionInfo { id: "help.next_topic", title: "Next topic", description: "Cycles round to the first topic past the last." });
    v.push(ActionInfo { id: "help.prev_topic", title: "Previous topic", description: "Cycles round to the last topic before the first." });
    v.push(ActionInfo { id: "help.scroll_up", title: "Scroll up", description: "" });
    v.push(ActionInfo { id: "help.scroll_down", title: "Scroll down", description: "" });
    v.push(ActionInfo { id: "help.page_up", title: "Page up", description: "" });
    v.push(ActionInfo { id: "help.page_down", title: "Page down", description: "" });
    assert(action_views(v@) =~= help_actions());
    r.push(ActionCategory { id: "help", title: "Help", actions: v });
    assert(category_views(r@) =~= catalog_table());
    r
}

/// Index of the first action with id `id` in `acts`, or its length.
pub open spec fn action_index(acts: Seq<ActionView>, id: Seq<char>) -> int
    decreases acts.len(),
{
    if acts.len() == 0 || acts[0].id == id { 0 } else { 1 + action_index(acts.drop_first(), id) }
}

/// Whether some action of `acts` has id `id`.
pub open spec fn has_action(acts: Seq<ActionView>, id: Seq<char>) -> bool {
    exists|k: int| 0 <= k < acts.len() && (#[trigger] acts[k]).id == id
}

proof fn lemma_action_index(acts: Seq<ActionView>, id: Seq<char>)
    ensures
        0 <= action_index(acts, id) <= acts.len(),
        forall|k: int| 0 <= k < action_index(acts, id) ==> (#[trigger] acts[k]).id != id,
        action_index(acts, id) < acts.len() ==> acts[action_index(acts, id)].id == id,
        has_action(acts, id) <==> action_index(acts, id) < acts.len(),
    decreases acts.len(),
{
    if acts.len() > 0 && acts[0].id != id {
        lemma_action_index(acts.drop_first(), id);
        assert forall|k: int| 0 <= k < action_index(acts, id) implies (#[trigger] acts[k]).id != id by {
            if k > 0 {
                assert(acts[k] == acts.drop_first()[k - 1]);
            }
        }
        if has_action(acts, id) {
            let k = choose|k: int| 0 <= k < acts.len() && (#[trigger] acts[k]).id == id;
            assert(acts.drop_first()[k - 1] == acts[k]);
        }
        if action_index(acts, id) < acts.len() {
            let j = action_index(acts, id);
            assert(acts[j] == acts.drop_first()[j - 1]);
        }
    }
}

/// Where an action id is catalogued: the first category holding it, and its
/// place there.
pub open spec fn located(cats: Seq<CategoryView>, id: Seq<char>) -> Option<(int, int)>
    decreases cats.len(),
{
    if cats.len() == 0 {
        None
    } else if has_action(cats[0].actions, id) {
        Some((0, action_index(cats[0].actions, id)))
    } else {
        match located(cats.drop_first(), id) {
            Some((c, k)) => Some((c + 1, k)),
            None => None,
        }
    }
}

/// An action that sits at place `k` of category `c` is located.
pub proof fn lemma_located_some(cats: Seq<CategoryView>, c: int, k: int, id: Seq<char>)
    requires
        0 <= c < cats.len(),
        0 <= k < cats[c].actions.len(),
        cats[c].actions[k].id == id,
    ensures
        located(cats, id) is Some,
    decreases c,
{
    if c > 0 && !has_action(cats[0].actions, id) {
        assert(cats.drop_first()[c - 1] == cats[c]);
        lemma_located_some(cats.drop_first(), c - 1, k, id);
    } else if c == 0 {
        assert(has_action(cats[0].actions, id)) by {
            assert(cats[0].actions[k].id == id);
        }
    }
}

/// An id is located exactly when some category holds an action with it.
pub proof fn lemma_located_iff(cats: Seq<CategoryView>, id: Seq<char>)
    ensures
        located(cats, id) is Some <==> exists|c: int, k: int|
            0 <= c < cats.len() && 0 <= k < cats[c].actions.len() && (#[trigger] cats[c].actions[k]).id == id,
    decreases cats.len(),
{
    if cats.len() > 0 {
        lemma_located_iff(cats.drop_first(), id);
        if located(cats, id) is Some {
            if has_action(cats[0].actions, id) {
                let k = choose|k: int| 0 <= k < cats[0].actions.len() && (#[trigger] cats[0].actions[k]).id == id;
                assert(cats[0].actions[k].id == id);
            } else {
                let (c, k) = choose|c: int, k: int|
                    0 <= c < cats.drop_first().len() && 0 <= k < cats.drop_first()[c].actions.len()
                        && (#[trigger] cats.drop_first()[c].actions[k]).id == id;
                assert(cats[c + 1] == cats.drop_first()[c]);
                assert(cats[c + 1].actions[k].id == id);
            }
        } else {
            assert forall|c: int, k: int|
                0 <= c < cats.len() && 0 <= k < cats[c].actions.len() implies (#[trigger] cats[c].actions[k]).id != id by {
                if cats[c].actions[k].id == id {
                    lemma_located_some(cats, c, k, id);
                }
            }
        }
    }
}

/// A location moved `d` categories further down.
pub open spec fn shifted(o: Option<(int, int)>, d: int) -> Option<(int, int)> {
    match o {
        Some((c, k)) => Some((c + d, k)),
        None => None,
    }
}

/// Look up one action by its id, with the category it belongs to. `None` for
/// an id the catalog does not hold.
pub fn find(action_id: &str) -> (r: Option<(ActionCategory, ActionInfo)>)
    ensures
        match located(catalog_table(), action_id@) {
            None => r is None,
            Some((c, k)) => r matches Some((cat, info)) && category_view(cat) == catalog_table()[c]
                && action_view(info) == catalog_table()[c].actions[k] && action_view(info).id == action_id@,
        },
{
    let mut cats = catalog();
    let ghost table = catalog_table();
    let mut ci: usize = 0;
    let mut found: Option<(ActionCategory, ActionInfo)> = None;
    assert(table.skip(0) =~= table);
    while ci < cats.len() && found.is_none()
        invariant
            found is None ==> ci <= cats@.len(),
            found is None ==> category_views(cats@) == table,
            table == catalog_table(),
            found is None ==> located(table, action_id@) == shifted(located(table.skip(ci as int), action_id@), ci as int),
            found matches Some((cat, info)) ==> (match located(table, action_id@) {
                Some((c, k)) => category_view(cat) == table[c] && action_view(info) == table[c].actions[k]
                    && action_view(info).id == action_id@,
                None => false,
            }),
        decreases (if found is None { cats@.len() - ci + 1 } else { 0int }),
    {
        let ghost rest = table.skip(ci as int);
        assert(rest[0] == table[ci as int]);
        assert(rest.drop_first() =~= table.skip(ci + 1));
        let cat = &cats[ci];
        assert(category_view(*cat) == table[ci as int]);
        let ghost acts = table[ci as int].actions;
        proof {
            lemma_action_index(acts, action_id@);
        }
        let mut k: usize = 0;
        while k < cat.actions.len() && !str_eq(cat.actions[k].id, action_id)
            invariant
                k <= cat.actions@.len(),
                action_views(cat.actions@) == acts,
                forall|j: int| 0 <= j < k ==> (#[trigger] acts[j]).id != action_id@,
            decreases cat.actions@.len() - k,
        {
            assert(acts[k as int] == action_view(cat.actions@[k as int]));
            k = k + 1;
        }
        if k < cat.actions.len() {
            assert(acts[k as int] == action_view(cat.actions@[k as int]));
            assert(has_action(acts, action_id@));
            assert(action_index(acts, action_id@) == k);
            let info = cat.actions[k];
            let taken = cats.remove(ci);
            found = Some((taken, info));
        } else {
            assert(!has_action(acts, action_id@)) by {
                if has_action(acts, action_id@) {
                    assert(acts[action_index(acts, action_id@)].id == action_id@);
                }
            }
        }
        ci = ci + 1;
    }
    proof {
        if found is None {
            assert(table.skip(ci as int) =~= Seq::<CategoryView>::empty());
        }
    }
    found
}

} // verus!
