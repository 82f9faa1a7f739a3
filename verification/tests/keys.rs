use fm_core::keys::{display_chord, ChordStyle};


#[test]
fn chords_render_the_way_the_fkey_bar_does() {
    assert_eq!(display_chord("Meta+Shift+t", ChordStyle::Glyphs), "⌘⇧T");
    assert_eq!(display_chord("Meta+t", ChordStyle::Glyphs), "⌘T");
    assert_eq!(display_chord("Meta+s", ChordStyle::Glyphs), "⌘S");
    assert_eq!(display_chord("Ctrl+h", ChordStyle::Glyphs), "⌃H");
    assert_eq!(display_chord("Shift+F6", ChordStyle::Glyphs), "⇧F6");
    assert_eq!(display_chord("Ctrl+Enter", ChordStyle::Glyphs), "⌃Enter");
}

/// The non-macOS branch of `modifier_symbol`. It is what a Windows or Linux
/// user will read off the F-key bar — `Ctrl+S` for save — so it is worth
/// pinning even though CI only runs the macOS side.
#[test]
fn chords_spell_their_modifiers_out_off_macos() {
    assert_eq!(display_chord("Ctrl+s", ChordStyle::Names), "Ctrl+S");
    assert_eq!(display_chord("Ctrl+Shift+t", ChordStyle::Names), "Ctrl+Shift+T");
    assert_eq!(display_chord("Meta+f", ChordStyle::Names), "Super+F");
    assert_eq!(display_chord("Shift+F6", ChordStyle::Names), "Shift+F6");
}

#[test]
fn named_keys_render_as_symbols() {
    assert_eq!(display_chord("ArrowDown", ChordStyle::Names), "↓");
    assert_eq!(display_chord("PageUp", ChordStyle::Names), "PgUp");
    assert_eq!(display_chord("Backspace", ChordStyle::Names), "⌫");
    assert_eq!(display_chord("Escape", ChordStyle::Names), "Esc");
    assert_eq!(display_chord(" ", ChordStyle::Names), "Space");
    assert_eq!(display_chord("*", ChordStyle::Names), "*");
    assert_eq!(display_chord("F5", ChordStyle::Names), "F5");
}

