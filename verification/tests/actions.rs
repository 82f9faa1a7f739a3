use fm_core::actions::{catalog, find};
use fm_core::config::default_keymap;
use std::collections::BTreeSet;

/// The anti-drift guard. The F1 help screen renders the keymap through this
/// catalog, so an action bound without help text would silently vanish from
/// help, and a catalog entry for an action nobody binds is dead text. Both
/// directions must hold — if this fails, add the missing entry rather than
/// relaxing the assertion.
#[test]
fn catalog_covers_the_default_keymap() {
    let bound: BTreeSet<String> = default_keymap().into_iter().map(|b| b.action).collect();
    let described: BTreeSet<String> = catalog()
        .iter()
        .flat_map(|c| c.actions.iter().map(|a| a.id.to_string()))
        .collect();

    let undescribed: Vec<_> = bound.difference(&described).collect();
    assert!(undescribed.is_empty(), "bound but missing from the catalog: {undescribed:?}");

    let unbound: Vec<_> = described.difference(&bound).collect();
    assert!(unbound.is_empty(), "in the catalog but bound to no key: {unbound:?}");
}

/// Ids must be unique, or `find` would silently shadow one with another.
#[test]
fn action_ids_are_unique() {
    let mut seen = BTreeSet::new();
    for cat in &catalog() {
        for info in &cat.actions {
            assert!(seen.insert(info.id), "duplicate action id: {}", info.id);
        }
    }
}

#[test]
fn find_returns_the_owning_category() {
    let (cat, info) = find("op.copy").expect("op.copy is catalogued");
    assert_eq!(cat.id, "file_ops");
    assert_eq!(info.title, "Copy");
    assert!(find("nope.nothing").is_none());
}

