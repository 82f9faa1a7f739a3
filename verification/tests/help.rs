use fm_core::config::default_keymap;
use fm_core::help::{book, display_chord};
use fm_core::keys::ChordStyle;
use fm_core::types::{AboutBody, AppInfo, HelpBody, ShortcutsBody};


fn app() -> AppInfo {
    AppInfo {
        name: "dimnav".to_string(),
        version: "0.1.0".to_string(),
        description: "Keyboard-first two-panel file manager".to_string(),
        license: "MIT".to_string(),
        homepage: "https://dimnav.com".to_string(),
        repository: "https://github.com/pichugin/dimnav".to_string(),
        sponsor: "https://github.com/sponsors/pichugin".to_string(),
    }
}

fn about(app: &AppInfo) -> AboutBody {
    match &book(app, &default_keymap(), "", ChordStyle::Glyphs).topics[0].body {
        HelpBody::About(a) => a.clone(),
        other => panic!("expected About, got {other:?}"),
    }
}

fn shortcuts(query: &str) -> ShortcutsBody {
    let book = book(&app(), &default_keymap(), query, ChordStyle::Glyphs);
    match &book.topics[1].body {
        HelpBody::Shortcuts(s) => s.clone(),
        other => panic!("expected the shortcuts topic, got {other:?}"),
    }
}

/// Flatten to (action, keys) pairs for assertions.
fn rows(body: &ShortcutsBody) -> Vec<(String, Vec<String>)> {
    body.sections
        .iter()
        .flat_map(|s| s.groups.iter())
        .flat_map(|g| g.items.iter())
        .map(|i| (i.action.clone(), i.keys.clone()))
        .collect()
}

#[test]
fn book_has_about_first_then_shortcuts() {
    let book = book(&app(), &default_keymap(), "", ChordStyle::Glyphs);
    assert_eq!(book.topics.len(), 2);
    assert_eq!(book.topics[0].id, "about");
    assert_eq!(book.topics[0].title, "About");
    assert_eq!(book.topics[1].id, "shortcuts");
    match &book.topics[0].body {
        HelpBody::About(a) => {
            assert_eq!(a.app.name, "dimnav");
            assert_eq!(a.app.version, "0.1.0");
        }
        other => panic!("expected About, got {other:?}"),
    }
}

#[test]
fn about_lists_every_link_the_adapter_supplied() {
    let body = about(&app());
    assert_eq!(
        body.links
            .iter()
            .map(|l| (l.label.as_str(), l.url.as_str()))
            .collect::<Vec<_>>(),
        vec![
            ("Website", "https://dimnav.com"),
            ("Source code", "https://github.com/pichugin/dimnav"),
            ("Support this project", "https://github.com/sponsors/pichugin"),
        ]
    );
}

/// A build without packaging metadata must show a shorter About, never a row
/// whose activation goes nowhere.
#[test]
fn about_omits_links_the_adapter_left_unset() {
    let mut info = app();
    info.homepage = String::new();
    info.sponsor = String::new();

    let body = about(&info);

    assert_eq!(
        body.links.iter().map(|l| l.label.as_str()).collect::<Vec<_>>(),
        vec!["Source code"]
    );
    assert!(body.links.iter().all(|l| !l.url.is_empty()));
}

#[test]
fn about_reports_the_license() {
    let body = about(&app());
    let license = body.lines.iter().find(|l| l.label == "License");
    assert_eq!(license.map(|l| l.value.as_str()), Some("MIT"));
}

/// Every binding in the keymap has to reach the help screen — a shortcut the
/// user cannot find is the whole bug this feature exists to fix.
#[test]
fn every_binding_is_listed() {
    let body = shortcuts("");
    let listed: std::collections::BTreeSet<(String, String)> = body
        .sections
        .iter()
        .flat_map(|s| {
            s.groups
                .iter()
                .flat_map(move |g| g.items.iter().map(move |i| (s.context.clone(), i.action.clone())))
        })
        .collect();
    for b in default_keymap() {
        assert!(
            listed.contains(&(b.context.clone(), b.action.clone())),
            "{}/{} is bound but missing from help",
            b.context,
            b.action,
        );
    }
    assert_eq!(body.match_count, body.total_count);
    assert_eq!(body.total_count as usize, listed.len());
}

#[test]
fn sections_are_ordered_and_named() {
    let body = shortcuts("");
    let titles: Vec<&str> = body.sections.iter().map(|s| s.title.as_str()).collect();
    assert_eq!(
        titles,
        vec!["Panels", "Quick search", "Viewer", "Editor", "Terminal", "Help"]
    );
}

#[test]
fn filters_on_the_title() {
    let body = shortcuts("copy");
    let rows = rows(&body);
    assert_eq!(rows.len(), 1);
    assert_eq!(rows[0].0, "op.copy");
    assert_eq!(rows[0].1, vec!["F5"]);
    assert_eq!(body.match_count, 1);
    assert!(body.total_count > 1, "total is the unfiltered count");
}

/// The symbol a shortcut is painted with is untypeable, so the alias table is
/// the only way to find `⌘T` by searching. Both spellings must land on
/// exactly the Meta-bound rows.
#[test]
fn filters_on_the_key_symbol_and_its_aliases() {
    // Panels-context rows come first, in category order — quick search is
    // declared before the terminal group, so ⌘F leads.
    let expected = vec!["search.start", "terminal.focus", "terminal.toggle_half", "terminal.blur", "terminal.toggle_half"];
    for query in ["⌘", "cmd"] {
        let found: Vec<String> = rows(&shortcuts(query)).into_iter().map(|(a, _)| a).collect();
        assert_eq!(found, expected, "{query:?} did not match the ⌘ rows exactly");
    }
    // "command" is also the key's name, but it collides with the English
    // word — it appears in the "Commands" group headings and in several
    // terminal descriptions. It must still be a superset of the ⌘ rows.
    let loose: Vec<String> = rows(&shortcuts("command")).into_iter().map(|(a, _)| a).collect();
    for action in &expected {
        assert!(loose.contains(&action.to_string()), "'command' lost {action}");
    }
}

#[test]
fn filters_on_the_category_title() {
    let rows = rows(&shortcuts("scrolling"));
    assert!(!rows.is_empty());
    assert!(
        rows.iter().all(|(a, _)| a.starts_with("viewer.")),
        "the Scrolling group is the viewer's: {rows:?}",
    );
}

#[test]
fn filters_on_the_description_alone() {
    // "trash" appears in no title and no key — only in op.delete's description.
    let rows = rows(&shortcuts("trash"));
    assert_eq!(rows.len(), 1);
    assert_eq!(rows[0].0, "op.delete");
}

/// An action bound in two contexts is listed under both, so a query that
/// matches it returns one row per context rather than collapsing them.
#[test]
fn an_action_bound_in_two_contexts_appears_in_both() {
    let body = shortcuts("terminal.toggle_half");
    let contexts: Vec<&str> = body
        .sections
        .iter()
        .filter(|s| s.groups.iter().any(|g| !g.items.is_empty()))
        .map(|s| s.context.as_str())
        .collect();
    assert_eq!(contexts, vec!["panels", "terminal"]);
}

/// Multiple terms narrow rather than widen.
#[test]
fn every_term_must_match() {
    assert!(!rows(&shortcuts("page")).is_empty());
    assert!(rows(&shortcuts("page viewer")).iter().all(|(a, _)| a.starts_with("viewer.")));
    assert!(rows(&shortcuts("page zzzz")).is_empty());
}

/// A query that matches nothing must collapse the sections away entirely,
/// not leave a page of empty headings.
#[test]
fn a_miss_yields_no_sections() {
    let body = shortcuts("nothingmatchesthis");
    assert!(body.sections.is_empty());
    assert_eq!(body.match_count, 0);
    assert!(body.total_count > 0);
    assert_eq!(body.query, "nothingmatchesthis");
}

#[test]
fn multi_chord_actions_show_every_chord() {
    let body = shortcuts("op.delete");
    let rows = rows(&body);
    assert_eq!(rows.len(), 1);
    assert_eq!(rows[0].1, vec!["F8", "Del"]);
}

#[test]
fn mod_chords_render_the_way_the_fkey_bar_does() {
    assert_eq!(display_chord("Meta+Shift+t", ChordStyle::Glyphs), "⌘⇧T");
    assert_eq!(display_chord("Meta+t", ChordStyle::Glyphs), "⌘T");
    assert_eq!(display_chord("Ctrl+h", ChordStyle::Glyphs), "⌃H");
    assert_eq!(display_chord("Shift+F6", ChordStyle::Glyphs), "⇧F6");
    assert_eq!(display_chord("Ctrl+Enter", ChordStyle::Glyphs), "⌃Enter");
}

#[test]
fn mod_named_keys_render_as_symbols() {
    assert_eq!(display_chord("ArrowDown", ChordStyle::Names), "↓");
    assert_eq!(display_chord("PageUp", ChordStyle::Names), "PgUp");
    assert_eq!(display_chord("Backspace", ChordStyle::Names), "⌫");
    assert_eq!(display_chord("Escape", ChordStyle::Names), "Esc");
    assert_eq!(display_chord(" ", ChordStyle::Names), "Space");
    assert_eq!(display_chord("*", ChordStyle::Names), "*");
    assert_eq!(display_chord("F5", ChordStyle::Names), "F5");
}


#[test]
fn the_book_paints_chords_in_the_style_it_is_given() {
    let keys_in = |style: ChordStyle| -> Vec<Vec<String>> {
        match &book(&app(), &default_keymap(), "search.start", style).topics[1].body {
            HelpBody::Shortcuts(s) => rows(s).into_iter().map(|(_, k)| k).collect(),
            other => panic!("expected the shortcuts topic, got {other:?}"),
        }
    };
    assert_eq!(keys_in(ChordStyle::Glyphs), vec![vec!["⌘F".to_string()]]);
    assert_eq!(keys_in(ChordStyle::Names), vec![vec!["Super+F".to_string()]]);
}
