use fm_core::types::PanelId;

/// `other` is an involution — which is what lets callers use it as "the
/// passive panel" without also tracking which one they started from.
#[test]
fn the_other_panel_is_the_opposite_one() {
    assert_eq!(PanelId::Left.other(), PanelId::Right);
    assert_eq!(PanelId::Right.other(), PanelId::Left);
    assert_eq!(PanelId::Left.other().other(), PanelId::Left);
}
