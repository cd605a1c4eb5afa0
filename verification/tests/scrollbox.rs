use aili::tui::scrollbox::ScrollBoxState;

#[test]
fn scroll_up_moves_viewport() {
    let mut state = ScrollBoxState::new();
    state.viewport_top = 10;
    state.scroll_up(3);
    assert_eq!(state.viewport_top, 7);
    assert!(!state.sticky_bottom);
}

#[test]
fn scroll_down_at_bottom_restores_sticky() {
    let mut state = ScrollBoxState::new();
    state.sticky_bottom = false;
    state.scroll_down(100, 15, 10);
    assert!(state.sticky_bottom);
}

#[test]
fn scroll_to_bottom_sets_sticky() {
    let mut state = ScrollBoxState::new();
    state.sticky_bottom = false;
    state.scroll_to_bottom(20, 10);
    assert_eq!(state.viewport_top, 10);
    assert!(state.sticky_bottom);
}

#[test]
fn scroll_up_clamps_at_zero() {
    let mut state = ScrollBoxState::new();
    state.viewport_top = 2;
    state.scroll_up(5);
    assert_eq!(state.viewport_top, 0);
}
