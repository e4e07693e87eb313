use terminrt::selection::apply_pointer;
use terminrt::selection::selection_range_contains;
use terminrt::selection::PointerFrame;
use terminrt::selection::TerminalSelectionState;

#[test]
fn new_selection_is_empty() {
    let s = TerminalSelectionState::new();
    assert!(!s.has_selection());
    assert_eq!(s.normalized(), None);
}

#[test]
fn start_then_update_selects_a_range() {
    let mut s = TerminalSelectionState::default();
    s.start(3, 7);
    assert!(s.dragging);
    assert!(!s.has_selection());
    s.update(5, 2);
    assert!(s.has_selection());
    assert_eq!(s.normalized(), Some(((3, 7), (5, 2))));
}

#[test]
fn reversed_drag_is_normalized() {
    let mut s = TerminalSelectionState::new();
    s.start(5, 2);
    s.update(3, 7);
    assert_eq!(s.normalized(), Some(((3, 7), (5, 2))));
    assert_eq!(s.normalized(), s.normalized());
    let mut t = TerminalSelectionState::new();
    t.start(3, 7);
    t.update(5, 2);
    assert_eq!(s.normalized(), t.normalized());
}

#[test]
fn reversed_drag_within_a_row_is_normalized() {
    let mut s = TerminalSelectionState::new();
    s.start(4, 9);
    s.update(4, 1);
    assert_eq!(s.normalized(), Some(((4, 1), (4, 9))));
}

#[test]
fn update_without_anchor_does_nothing() {
    let mut s = TerminalSelectionState::new();
    s.update(1, 1);
    assert_eq!(s.focus, None);
    assert_eq!(s.normalized(), None);
}

#[test]
fn stop_dragging_keeps_the_range() {
    let mut s = TerminalSelectionState::new();
    s.start(0, 0);
    s.update(0, 4);
    s.stop_dragging();
    assert!(!s.dragging);
    assert_eq!(s.normalized(), Some(((0, 0), (0, 4))));
    s.clear();
    assert_eq!(s.normalized(), None);
    assert!(!s.has_selection());
}

#[test]
fn range_contains_follows_row_major_order() {
    let range = Some(((1, 4), (3, 2)));
    assert!(!selection_range_contains(range, 0, 5));
    assert!(!selection_range_contains(range, 1, 3));
    assert!(selection_range_contains(range, 1, 4));
    assert!(selection_range_contains(range, 1, 100));
    assert!(selection_range_contains(range, 2, 0));
    assert!(selection_range_contains(range, 3, 2));
    assert!(!selection_range_contains(range, 3, 3));
    assert!(!selection_range_contains(range, 4, 0));
    assert!(!selection_range_contains(None, 1, 4));
    let single = Some(((2, 2), (2, 5)));
    assert!(selection_range_contains(single, 2, 2));
    assert!(selection_range_contains(single, 2, 5));
    assert!(!selection_range_contains(single, 2, 1));
    assert!(!selection_range_contains(single, 2, 6));
}

fn frame(pressed: bool, down: bool, released: bool, at: Option<(usize, usize)>) -> PointerFrame {
    PointerFrame { pressed, down, released, at }
}

#[test]
fn pointer_drag_selects() {
    let mut s = TerminalSelectionState::new();
    apply_pointer(&mut s, frame(true, true, false, Some((1, 2))), false);
    assert_eq!((s.anchor, s.focus, s.dragging), (Some((1, 2)), Some((1, 2)), true));
    apply_pointer(&mut s, frame(false, true, false, Some((3, 4))), false);
    assert_eq!((s.anchor, s.focus, s.dragging), (Some((1, 2)), Some((3, 4)), true));
    apply_pointer(&mut s, frame(false, true, false, None), false);
    assert_eq!(s.focus, Some((3, 4)));
    apply_pointer(&mut s, frame(false, false, true, Some((5, 0))), false);
    assert_eq!((s.anchor, s.focus, s.dragging), (Some((1, 2)), Some((5, 0)), false));
    apply_pointer(&mut s, frame(false, true, false, Some((9, 9))), false);
    assert_eq!(s.focus, Some((5, 0)));
}

#[test]
fn pointer_click_without_drag_clears() {
    let mut s = TerminalSelectionState::new();
    s.start(0, 0);
    s.update(2, 2);
    s.stop_dragging();
    apply_pointer(&mut s, frame(true, true, false, Some((1, 1))), false);
    apply_pointer(&mut s, frame(false, false, true, Some((1, 1))), false);
    assert_eq!((s.anchor, s.focus, s.dragging), (None, None, false));
}

#[test]
fn pointer_press_and_release_in_one_frame() {
    let mut s = TerminalSelectionState::new();
    apply_pointer(&mut s, frame(true, false, true, Some((1, 1))), false);
    assert_eq!((s.anchor, s.focus, s.dragging), (None, None, false));
}

#[test]
fn pointer_press_outside_the_grid_changes_nothing() {
    let mut s = TerminalSelectionState::new();
    s.start(0, 0);
    s.update(2, 2);
    s.stop_dragging();
    apply_pointer(&mut s, frame(true, true, false, None), false);
    assert_eq!((s.anchor, s.focus, s.dragging), (Some((0, 0)), Some((2, 2)), false));
    apply_pointer(&mut s, frame(false, false, true, Some((7, 7))), false);
    assert_eq!((s.anchor, s.focus, s.dragging), (Some((0, 0)), Some((2, 2)), false));
}

#[test]
fn blocked_input_only_ends_the_drag() {
    let mut s = TerminalSelectionState::new();
    s.start(0, 0);
    s.update(2, 2);
    apply_pointer(&mut s, frame(true, true, true, Some((5, 5))), true);
    assert_eq!((s.anchor, s.focus, s.dragging), (Some((0, 0)), Some((2, 2)), false));
    apply_pointer(&mut s, frame(true, true, false, Some((5, 5))), true);
    assert_eq!((s.anchor, s.focus, s.dragging), (Some((0, 0)), Some((2, 2)), false));
}
