//! The default keymap.
//!
//! Keys are chord strings the frontend builds from a `KeyboardEvent`:
//! modifiers in the fixed order `Ctrl+Meta+Alt+Shift+<key>`, where `<key>` is
//! `KeyboardEvent.key`. Bindings are scoped by context (`"panels"`,
//! `"search"`, `"viewer"`, `"editor"`, `"terminal"`, `"help"`), because the same
//! key means different things depending on which surface owns the keyboard.
//! Reading and writing the configuration file is the caller's business.
use vstd::prelude::*;
use crate::text::{owned, string_views};
use crate::actions::{catalog_table, located};
use crate::types::KeyBinding;

verus! {

/// The text of a key binding.
pub struct BindingView {
    pub context: Seq<char>,
    pub action: Seq<char>,
    pub keys: Seq<Seq<char>>,
}

/// The text of a key binding value.
pub open spec fn binding_view(b: KeyBinding) -> BindingView {
    BindingView { context: b.context@, action: b.action@, keys: string_views(b.keys@) }
}

/// The texts of a list of key bindings.
pub open spec fn binding_views(v: Seq<KeyBinding>) -> Seq<BindingView> {
    Seq::new(v.len(), |i: int| binding_view(v[i]))
}

/// The default keymap, as text, in order.
pub open spec fn keymap_table() -> Seq<BindingView> {
    seq![
        BindingView { context: "panels"@, action: "cursor.up"@, keys: seq!["ArrowUp"@] },
        BindingView { context: "panels"@, action: "cursor.down"@, keys: seq!["ArrowDown"@] },
        BindingView { context: "panels"@, action: "cursor.left"@, keys: seq!["ArrowLeft"@] },
        BindingView { context: "panels"@, action: "cursor.right"@, keys: seq!["ArrowRight"@] },
        BindingView { context: "panels"@, action: "cursor.page_up"@, keys: seq!["PageUp"@] },
        BindingView { context: "panels"@, action: "cursor.page_down"@, keys: seq!["PageDown"@] },
        BindingView { context: "panels"@, action: "cursor.home"@, keys: seq!["Home"@] },
        BindingView { context: "panels"@, action: "cursor.end"@, keys: seq!["End"@] },
        BindingView { context: "panels"@, action: "panel.switch"@, keys: seq!["Tab"@] },
        BindingView { context: "panels"@, action: "nav.enter"@, keys: seq!["Enter"@] },
        BindingView { context: "panels"@, action: "nav.parent"@, keys: seq!["Backspace"@] },
        BindingView { context: "panels"@, action: "panel.equalize"@, keys: seq!["Ctrl+="@] },
        BindingView { context: "panels"@, action: "selection.toggle"@, keys: seq![" "@] },
        BindingView { context: "panels"@, action: "selection.all"@, keys: seq!["*"@] },
        BindingView { context: "panels"@, action: "selection.none"@, keys: seq!["-"@] },
        BindingView { context: "panels"@, action: "select.up"@, keys: seq!["Shift+ArrowUp"@] },
        BindingView { context: "panels"@, action: "select.down"@, keys: seq!["Shift+ArrowDown"@] },
        BindingView { context: "panels"@, action: "select.left"@, keys: seq!["Shift+ArrowLeft"@] },
        BindingView { context: "panels"@, action: "select.right"@, keys: seq!["Shift+ArrowRight"@] },
        BindingView { context: "panels"@, action: "select.page_up"@, keys: seq!["Shift+PageUp"@] },
        BindingView { context: "panels"@, action: "select.page_down"@, keys: seq!["Shift+PageDown"@] },
        BindingView { context: "panels"@, action: "select.home"@, keys: seq!["Shift+Home"@] },
        BindingView { context: "panels"@, action: "select.end"@, keys: seq!["Shift+End"@] },
        BindingView { context: "panels"@, action: "op.copy"@, keys: seq!["F5"@] },
        BindingView { context: "panels"@, action: "op.move"@, keys: seq!["F6"@] },
        BindingView { context: "panels"@, action: "op.rename"@, keys: seq!["Shift+F6"@] },
        BindingView { context: "panels"@, action: "op.mkdir"@, keys: seq!["F7"@] },
        BindingView { context: "panels"@, action: "op.delete"@, keys: seq!["F8"@, "Delete"@] },
        BindingView { context: "panels"@, action: "open.view"@, keys: seq!["F3"@] },
        BindingView { context: "panels"@, action: "open.edit"@, keys: seq!["F4"@] },
        BindingView { context: "panels"@, action: "panel.refresh"@, keys: seq!["Ctrl+r"@] },
        BindingView { context: "panels"@, action: "panel.toggle_hidden"@, keys: seq!["Ctrl+h"@] },
        BindingView { context: "panels"@, action: "panel.cycle_sort"@, keys: seq!["Ctrl+s"@] },
        BindingView { context: "panels"@, action: "panel.view_1"@, keys: seq!["Ctrl+1"@] },
        BindingView { context: "panels"@, action: "panel.view_2"@, keys: seq!["Ctrl+2"@] },
        BindingView { context: "panels"@, action: "panel.view_3"@, keys: seq!["Ctrl+3"@] },
        BindingView { context: "panels"@, action: "panel.view_detailed"@, keys: seq!["Ctrl+4"@] },
        BindingView { context: "panels"@, action: "search.start"@, keys: seq!["Meta+f"@] },
        BindingView { context: "search"@, action: "search.close"@, keys: seq!["Escape"@, "Enter"@] },
        BindingView { context: "search"@, action: "search.backspace"@, keys: seq!["Backspace"@] },
        BindingView { context: "panels"@, action: "terminal.focus"@, keys: seq!["Meta+t"@] },
        BindingView { context: "panels"@, action: "terminal.toggle_half"@, keys: seq!["Meta+Shift+t"@] },
        BindingView { context: "panels"@, action: "terminal.curtain"@, keys: seq!["Escape"@] },
        BindingView { context: "panels"@, action: "terminal.insert_name"@, keys: seq!["Ctrl+Enter"@] },
        BindingView { context: "terminal"@, action: "terminal.run"@, keys: seq!["Enter"@] },
        BindingView { context: "terminal"@, action: "terminal.blur"@, keys: seq!["Meta+t"@] },
        BindingView { context: "terminal"@, action: "terminal.toggle_half"@, keys: seq!["Meta+Shift+t"@] },
        BindingView { context: "terminal"@, action: "terminal.curtain"@, keys: seq!["Escape"@] },
        BindingView { context: "terminal"@, action: "terminal.interrupt"@, keys: seq!["Ctrl+c"@] },
        BindingView { context: "terminal"@, action: "terminal.history_prev"@, keys: seq!["ArrowUp"@] },
        BindingView { context: "terminal"@, action: "terminal.history_next"@, keys: seq!["ArrowDown"@] },
        BindingView { context: "terminal"@, action: "terminal.scroll_up"@, keys: seq!["PageUp"@] },
        BindingView { context: "terminal"@, action: "terminal.scroll_down"@, keys: seq!["PageDown"@] },
        BindingView { context: "terminal"@, action: "terminal.clear_buffer"@, keys: seq!["Ctrl+l"@] },
        BindingView { context: "viewer"@, action: "viewer.close"@, keys: seq!["Escape"@, "F10"@] },
        BindingView { context: "viewer"@, action: "viewer.toggle_wrap"@, keys: seq!["F2"@] },
        BindingView { context: "viewer"@, action: "viewer.toggle_hex"@, keys: seq!["F4"@] },
        BindingView { context: "viewer"@, action: "viewer.goto"@, keys: seq!["F5"@] },
        BindingView { context: "viewer"@, action: "viewer.to_edit"@, keys: seq!["F6"@] },
        BindingView { context: "viewer"@, action: "viewer.search"@, keys: seq!["F7"@] },
        BindingView { context: "viewer"@, action: "viewer.search_next"@, keys: seq!["Shift+F7"@] },
        BindingView { context: "viewer"@, action: "viewer.line_up"@, keys: seq!["ArrowUp"@] },
        BindingView { context: "viewer"@, action: "viewer.line_down"@, keys: seq!["ArrowDown"@] },
        BindingView { context: "viewer"@, action: "viewer.col_left"@, keys: seq!["ArrowLeft"@] },
        BindingView { context: "viewer"@, action: "viewer.col_right"@, keys: seq!["ArrowRight"@] },
        BindingView { context: "viewer"@, action: "viewer.page_up"@, keys: seq!["PageUp"@] },
        BindingView { context: "viewer"@, action: "viewer.page_down"@, keys: seq!["PageDown"@] },
        BindingView { context: "viewer"@, action: "viewer.home"@, keys: seq!["Home"@] },
        BindingView { context: "viewer"@, action: "viewer.end"@, keys: seq!["End"@] },
        BindingView { context: "editor"@, action: "editor.save"@, keys: seq!["F2"@] },
        BindingView { context: "editor"@, action: "editor.to_view"@, keys: seq!["F6"@] },
        BindingView { context: "editor"@, action: "editor.close"@, keys: seq!["Escape"@] },
        BindingView { context: "panels"@, action: "help.open"@, keys: seq!["F1"@] },
        BindingView { context: "viewer"@, action: "help.open"@, keys: seq!["F1"@] },
        BindingView { context: "editor"@, action: "help.open"@, keys: seq!["F1"@] },
        BindingView { context: "terminal"@, action: "help.open"@, keys: seq!["F1"@] },
        BindingView { context: "help"@, action: "help.close"@, keys: seq!["Escape"@, "F1"@, "F10"@] },
        BindingView { context: "help"@, action: "help.next_topic"@, keys: seq!["Tab"@] },
        BindingView { context: "help"@, action: "help.prev_topic"@, keys: seq!["Shift+Tab"@] },
        BindingView { context: "help"@, action: "help.scroll_up"@, keys: seq!["ArrowUp"@] },
        BindingView { context: "help"@, action: "help.scroll_down"@, keys: seq!["ArrowDown"@] },
        BindingView { context: "help"@, action: "help.page_up"@, keys: seq!["PageUp"@] },
        BindingView { context: "help"@, action: "help.page_down"@, keys: seq!["PageDown"@] },
    ]
}

/// A binding of one chord.
fn binding1(context: &str, action: &str, k1: &str) -> (b: KeyBinding)
    ensures
        binding_view(b) == (BindingView { context: context@, action: action@, keys: seq![k1@] }),
{
    let mut keys: Vec<String> = Vec::new();
    keys.push(owned(k1));
    let b = KeyBinding { context: owned(context), action: owned(action), keys };
    assert(string_views(b.keys@) =~= seq![k1@]);
    b
}

/// A binding of two chords.
fn binding2(context: &str, action: &str, k1: &str, k2: &str) -> (b: KeyBinding)
    ensures
        binding_view(b) == (BindingView { context: context@, action: action@, keys: seq![k1@, k2@] }),
{
    let mut keys: Vec<String> = Vec::new();
    keys.push(owned(k1));
    keys.push(owned(k2));
    let b = KeyBinding { context: owned(context), action: owned(action), keys };
    assert(string_views(b.keys@) =~= seq![k1@, k2@]);
    b
}

/// A binding of three chords.
fn binding3(context: &str, action: &str, k1: &str, k2: &str, k3: &str) -> (b: KeyBinding)
    ensures
        binding_view(b) == (BindingView { context: context@, action: action@, keys: seq![k1@, k2@, k3@] }),
{
    let mut keys: Vec<String> = Vec::new();
    keys.push(owned(k1));
    keys.push(owned(k2));
    keys.push(owned(k3));
    let b = KeyBinding { context: owned(context), action: owned(action), keys };
    assert(string_views(b.keys@) =~= seq![k1@, k2@, k3@]);
    b
}

/// The default keymap, sourced from the core so the frontend never hardcodes
/// keys. Every action id here also appears in the action catalog.
pub fn default_keymap() -> (r: Vec<KeyBinding>)
    ensures
        binding_views(r@) == keymap_table(),
{
    let mut v: Vec<KeyBinding> = Vec::new();
    v.push(binding1("panels", "cursor.up", "ArrowUp"));
    v.push(binding1("panels", "cursor.down", "ArrowDown"));
    v.push(binding1("panels", "cursor.left", "ArrowLeft"));
    v.push(binding1("panels", "cursor.right", "ArrowRight"));
    v.push(binding1("panels", "cursor.page_up", "PageUp"));
    v.push(binding1("panels", "cursor.page_down", "PageDown"));
    v.push(binding1("panels", "cursor.home", "Home"));
    v.push(binding1("panels", "cursor.end", "End"));
    v.push(binding1("panels", "panel.switch", "Tab"));
    v.push(binding1("panels", "nav.enter", "Enter"));
    v.push(binding1("panels", "nav.parent", "Backspace"));
    v.push(binding1("panels", "panel.equalize", "Ctrl+="));
    v.push(binding1("panels", "selection.toggle", " "));
    v.push(binding1("panels", "selection.all", "*"));
    v.push(binding1("panels", "selection.none", "-"));
    v.push(binding1("panels", "select.up", "Shift+ArrowUp"));
    v.push(binding1("panels", "select.down", "Shift+ArrowDown"));
    v.push(binding1("panels", "select.left", "Shift+ArrowLeft"));
    v.push(binding1("panels", "select.right", "Shift+ArrowRight"));
    v.push(binding1("panels", "select.page_up", "Shift+PageUp"));
    v.push(binding1("panels", "select.page_down", "Shift+PageDown"));
    v.push(binding1("panels", "select.home", "Shift+Home"));
    v.push(binding1("panels", "select.end", "Shift+End"));
    v.push(binding1("panels", "op.copy", "F5"));
    v.push(binding1("panels", "op.move", "F6"));
    v.push(binding1("panels", "op.rename", "Shift+F6"));
    v.push(binding1("panels", "op.mkdir", "F7"));
    v.push(binding2("panels", "op.delete", "F8", "Delete"));
    v.push(binding1("panels", "open.view", "F3"));
    v.push(binding1("panels", "open.edit", "F4"));
    v.push(binding1("panels", "panel.refresh", "Ctrl+r"));
    v.push(binding1("panels", "panel.toggle_hidden", "Ctrl+h"));
    v.push(binding1("panels", "panel.cycle_sort", "Ctrl+s"));
    v.push(binding1("panels", "panel.view_1", "Ctrl+1"));
    v.push(binding1("panels", "panel.view_2", "Ctrl+2"));
    v.push(binding1("panels", "panel.view_3", "Ctrl+3"));
    v.push(binding1("panels", "panel.view_detailed", "Ctrl+4"));
    v.push(binding1("panels", "search.start", "Meta+f"));
    v.push(binding2("search", "search.close", "Escape", "Enter"));
    v.push(binding1("search", "search.backspace", "Backspace"));
    v.push(binding1("panels", "terminal.focus", "Meta+t"));
    v.push(binding1("panels", "terminal.toggle_half", "Meta+Shift+t"));
    v.push(binding1("panels", "terminal.curtain", "Escape"));
    v.push(binding1("panels", "terminal.insert_name", "Ctrl+Enter"));
    v.push(binding1("terminal", "terminal.run", "Enter"));
    v.push(binding1("terminal", "terminal.blur", "Meta+t"));
    v.push(binding1("terminal", "terminal.toggle_half", "Meta+Shift+t"));
    v.push(binding1("terminal", "terminal.curtain", "Escape"));
    v.push(binding1("terminal", "terminal.interrupt", "Ctrl+c"));
    v.push(binding1("terminal", "terminal.history_prev", "ArrowUp"));
    v.push(binding1("terminal", "terminal.history_next", "ArrowDown"));
    v.push(binding1("terminal", "terminal.scroll_up", "PageUp"));
    v.push(binding1("terminal", "terminal.scroll_down", "PageDown"));
    v.push(binding1("terminal", "terminal.clear_buffer", "Ctrl+l"));
    v.push(binding2("viewer", "viewer.close", "Escape", "F10"));
    v.push(binding1("viewer", "viewer.toggle_wrap", "F2"));
    v.push(binding1("viewer", "viewer.toggle_hex", "F4"));
    v.push(binding1("viewer", "viewer.goto", "F5"));
    v.push(binding1("viewer", "viewer.to_edit", "F6"));
    v.push(binding1("viewer", "viewer.search", "F7"));
    v.push(binding1("viewer", "viewer.search_next", "Shift+F7"));
    v.push(binding1("viewer", "viewer.line_up", "ArrowUp"));
    v.push(binding1("viewer", "viewer.line_down", "ArrowDown"));
    v.push(binding1("viewer", "viewer.col_left", "ArrowLeft"));
    v.push(binding1("viewer", "viewer.col_right", "ArrowRight"));
    v.push(binding1("viewer", "viewer.page_up", "PageUp"));
    v.push(binding1("viewer", "viewer.page_down", "PageDown"));
    v.push(binding1("viewer", "viewer.home", "Home"));
    v.push(binding1("viewer", "viewer.end", "End"));
    v.push(binding1("editor", "editor.save", "F2"));
    v.push(binding1("editor", "editor.to_view", "F6"));
    v.push(binding1("editor", "editor.close", "Escape"));
    v.push(binding1("panels", "help.open", "F1"));
    v.push(binding1("viewer", "help.open", "F1"));
    v.push(binding1("editor", "help.open", "F1"));
    v.push(binding1("terminal", "help.open", "F1"));
    v.push(binding3("help", "help.close", "Escape", "F1", "F10"));
    v.push(binding1("help", "help.next_topic", "Tab"));
    v.push(binding1("help", "help.prev_topic", "Shift+Tab"));
    v.push(binding1("help", "help.scroll_up", "ArrowUp"));
    v.push(binding1("help", "help.scroll_down", "ArrowDown"));
    v.push(binding1("help", "help.page_up", "PageUp"));
    v.push(binding1("help", "help.page_down", "PageDown"));
    assert(binding_views(v@) =~= keymap_table());
    v
}

/// Where the action of binding `i` of the default keymap sits in the
/// catalog: its category and its place there.
spec fn catalog_place(i: int) -> (int, int) {
    if i == 0 {
        (0, 0)
    } else if i == 1 {
        (0, 1)
    } else if i == 2 {
        (0, 2)
    } else if i == 3 {
        (0, 3)
    } else if i == 4 {
        (0, 4)
    } else if i == 5 {
        (0, 5)
    } else if i == 6 {
        (0, 6)
    } else if i == 7 {
        (0, 7)
    } else if i == 8 {
        (1, 0)
    } else if i == 9 {
        (1, 1)
    } else if i == 10 {
        (1, 2)
    } else if i == 11 {
        (1, 3)
    } else if i == 12 {
        (2, 0)
    } else if i == 13 {
        (2, 1)
    } else if i == 14 {
        (2, 2)
    } else if i == 15 {
        (2, 3)
    } else if i == 16 {
        (2, 4)
    } else if i == 17 {
        (2, 5)
    } else if i == 18 {
        (2, 6)
    } else if i == 19 {
        (2, 7)
    } else if i == 20 {
        (2, 8)
    } else if i == 21 {
        (2, 9)
    } else if i == 22 {
        (2, 10)
    } else if i == 23 {
        (3, 0)
    } else if i == 24 {
        (3, 1)
    } else if i == 25 {
        (3, 2)
    } else if i == 26 {
        (3, 3)
    } else if i == 27 {
        (3, 4)
    } else if i == 28 {
        (4, 0)
    } else if i == 29 {
        (4, 1)
    } else if i == 30 {
        (5, 0)
    } else if i == 31 {
        (5, 1)
    } else if i == 32 {
        (5, 2)
    } else if i == 33 {
        (5, 3)
    } else if i == 34 {
        (5, 4)
    } else if i == 35 {
        (5, 5)
    } else if i == 36 {
        (5, 6)
    } else if i == 37 {
        (6, 0)
    } else if i == 38 {
        (7, 0)
    } else if i == 39 {
        (7, 1)
    } else if i == 40 {
        (8, 0)
    } else if i == 41 {
        (8, 2)
    } else if i == 42 {
        (8, 3)
    } else if i == 43 {
        (8, 4)
    } else if i == 44 {
        (9, 0)
    } else if i == 45 {
        (8, 1)
    } else if i == 46 {
        (8, 2)
    } else if i == 47 {
        (8, 3)
    } else if i == 48 {
        (9, 1)
    } else if i == 49 {
        (9, 2)
    } else if i == 50 {
        (9, 3)
    } else if i == 51 {
        (9, 4)
    } else if i == 52 {
        (9, 5)
    } else if i == 53 {
        (9, 6)
    } else if i == 54 {
        (11, 0)
    } else if i == 55 {
        (11, 1)
    } else if i == 56 {
        (11, 2)
    } else if i == 57 {
        (11, 3)
    } else if i == 58 {
        (11, 4)
    } else if i == 59 {
        (11, 5)
    } else if i == 60 {
        (11, 6)
    } else if i == 61 {
        (10, 0)
    } else if i == 62 {
        (10, 1)
    } else if i == 63 {
        (10, 2)
    } else if i == 64 {
        (10, 3)
    } else if i == 65 {
        (10, 4)
    } else if i == 66 {
        (10, 5)
    } else if i == 67 {
        (10, 6)
    } else if i == 68 {
        (10, 7)
    } else if i == 69 {
        (12, 0)
    } else if i == 70 {
        (12, 1)
    } else if i == 71 {
        (12, 2)
    } else if i == 72 {
        (13, 0)
    } else if i == 73 {
        (13, 0)
    } else if i == 74 {
        (13, 0)
    } else if i == 75 {
        (13, 0)
    } else if i == 76 {
        (13, 1)
    } else if i == 77 {
        (13, 2)
    } else if i == 78 {
        (13, 3)
    } else if i == 79 {
        (13, 4)
    } else if i == 80 {
        (13, 5)
    } else if i == 81 {
        (13, 6)
    } else if i == 82 {
        (13, 7)
    } else {
        (0, 0)
    }
}

/// Every action the default keymap binds is in the action catalog, so the
/// help book and the hint bars can name it.
pub proof fn lemma_keymap_actions_are_catalogued()
    ensures
        forall|i: int| 0 <= i < keymap_table().len() ==> (#[trigger] located(catalog_table(), keymap_table()[i].action)) is Some,
{
    assert forall|i: int| 0 <= i < keymap_table().len() implies (#[trigger] located(catalog_table(), keymap_table()[i].action)) is Some by {
        let (c, k) = catalog_place(i);
        crate::actions::lemma_located_some(catalog_table(), c, k, keymap_table()[i].action);
    }
}

/// Whether some binding of `km` is for action `id`.
pub open spec fn binds(km: Seq<BindingView>, id: Seq<char>) -> bool {
    exists|i: int| 0 <= i < km.len() && (#[trigger] km[i]).action == id
}

/// Which binding of the default keymap is for the action at place `k` of
/// category `c` of the catalog.
spec fn keymap_place(c: int, k: int) -> int {
    if c == 0 && k == 0 {
        0
    } else if c == 0 && k == 1 {
        1
    } else if c == 0 && k == 2 {
        2
    } else if c == 0 && k == 3 {
        3
    } else if c == 0 && k == 4 {
        4
    } else if c == 0 && k == 5 {
        5
    } else if c == 0 && k == 6 {
        6
    } else if c == 0 && k == 7 {
        7
    } else if c == 1 && k == 0 {
        8
    } else if c == 1 && k == 1 {
        9
    } else if c == 1 && k == 2 {
        10
    } else if c == 1 && k == 3 {
        11
    } else if c == 2 && k == 0 {
        12
    } else if c == 2 && k == 1 {
        13
    } else if c == 2 && k == 2 {
        14
    } else if c == 2 && k == 3 {
        15
    } else if c == 2 && k == 4 {
        16
    } else if c == 2 && k == 5 {
        17
    } else if c == 2 && k == 6 {
        18
    } else if c == 2 && k == 7 {
        19
    } else if c == 2 && k == 8 {
        20
    } else if c == 2 && k == 9 {
        21
    } else if c == 2 && k == 10 {
        22
    } else if c == 3 && k == 0 {
        23
    } else if c == 3 && k == 1 {
        24
    } else if c == 3 && k == 2 {
        25
    } else if c == 3 && k == 3 {
        26
    } else if c == 3 && k == 4 {
        27
    } else if c == 4 && k == 0 {
        28
    } else if c == 4 && k == 1 {
        29
    } else if c == 5 && k == 0 {
        30
    } else if c == 5 && k == 1 {
        31
    } else if c == 5 && k == 2 {
        32
    } else if c == 5 && k == 3 {
        33
    } else if c == 5 && k == 4 {
        34
    } else if c == 5 && k == 5 {
        35
    } else if c == 5 && k == 6 {
        36
    } else if c == 6 && k == 0 {
        37
    } else if c == 7 && k == 0 {
        38
    } else if c == 7 && k == 1 {
        39
    } else if c == 8 && k == 0 {
        40
    } else if c == 8 && k == 1 {
        45
    } else if c == 8 && k == 2 {
        41
    } else if c == 8 && k == 3 {
        42
    } else if c == 8 && k == 4 {
        43
    } else if c == 9 && k == 0 {
        44
    } else if c == 9 && k == 1 {
        48
    } else if c == 9 && k == 2 {
        49
    } else if c == 9 && k == 3 {
        50
    } else if c == 9 && k == 4 {
        51
    } else if c == 9 && k == 5 {
        52
    } else if c == 9 && k == 6 {
        53
    } else if c == 10 && k == 0 {
        61
    } else if c == 10 && k == 1 {
        62
    } else if c == 10 && k == 2 {
        63
    } else if c == 10 && k == 3 {
        64
    } else if c == 10 && k == 4 {
        65
    } else if c == 10 && k == 5 {
        66
    } else if c == 10 && k == 6 {
        67
    } else if c == 10 && k == 7 {
        68
    } else if c == 11 && k == 0 {
        54
    } else if c == 11 && k == 1 {
        55
    } else if c == 11 && k == 2 {
        56
    } else if c == 11 && k == 3 {
        57
    } else if c == 11 && k == 4 {
        58
    } else if c == 11 && k == 5 {
        59
    } else if c == 11 && k == 6 {
        60
    } else if c == 12 && k == 0 {
        69
    } else if c == 12 && k == 1 {
        70
    } else if c == 12 && k == 2 {
        71
    } else if c == 13 && k == 0 {
        72
    } else if c == 13 && k == 1 {
        76
    } else if c == 13 && k == 2 {
        77
    } else if c == 13 && k == 3 {
        78
    } else if c == 13 && k == 4 {
        79
    } else if c == 13 && k == 5 {
        80
    } else if c == 13 && k == 6 {
        81
    } else if c == 13 && k == 7 {
        82
    } else {
        0
    }
}

/// Every action in the catalog is bound to some key in the default keymap:
/// the catalog holds no text for an action nobody can reach.
pub proof fn lemma_catalogued_actions_are_bound()
    ensures
        forall|c: int, k: int|
            0 <= c < catalog_table().len() && 0 <= k < catalog_table()[c].actions.len() ==> binds(
                keymap_table(),
                #[trigger] catalog_table()[c].actions[k].id,
            ),
{
    assert forall|c: int, k: int|
        0 <= c < catalog_table().len() && 0 <= k < catalog_table()[c].actions.len() implies binds(
            keymap_table(),
            #[trigger] catalog_table()[c].actions[k].id,
        ) by {
        let i = keymap_place(c, k);
        assert(keymap_table()[i].action == catalog_table()[c].actions[k].id);
    }
}

/// What looking an action up by id comes to over the default keymap and the
/// catalog: every bound action is found, every catalogued action is found
/// and bound, and an id is found exactly when some category holds it.
pub proof fn lemma_find_covers_the_keymap(id: Seq<char>)
    ensures
        forall|i: int| 0 <= i < keymap_table().len() ==> (#[trigger] located(catalog_table(), keymap_table()[i].action)) is Some,
        forall|c: int, k: int|
            0 <= c < catalog_table().len() && 0 <= k < catalog_table()[c].actions.len() ==> located(
                catalog_table(),
                #[trigger] catalog_table()[c].actions[k].id,
            ) is Some && binds(keymap_table(), catalog_table()[c].actions[k].id),
        located(catalog_table(), id) is None <==> !exists|c: int, k: int|
            0 <= c < catalog_table().len() && 0 <= k < catalog_table()[c].actions.len() && (#[trigger] catalog_table()[c].actions[k]).id == id,
{
    lemma_keymap_actions_are_catalogued();
    lemma_catalogued_actions_are_bound();
    crate::actions::lemma_located_iff(catalog_table(), id);
    assert forall|c: int, k: int|
        0 <= c < catalog_table().len() && 0 <= k < catalog_table()[c].actions.len() implies located(
            catalog_table(),
            #[trigger] catalog_table()[c].actions[k].id,
        ) is Some && binds(keymap_table(), catalog_table()[c].actions[k].id) by {
        crate::actions::lemma_located_some(catalog_table(), c, k, catalog_table()[c].actions[k].id);
    }
}

} // verus!
