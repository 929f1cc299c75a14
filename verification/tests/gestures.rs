use gridora_forge::double::Double;
use gridora_forge::drag::{is_touch, may_hold, DragState, TouchMove, TOUCH_HOLD_MS};
use gridora_forge::hit::{
    hit_index, nearest_row, pointer_target_is_interactive, HitNode, RowBand,
};
use gridora_forge::photo::{new_photo_item, PhotoItem};
use gridora_forge::scroll::{
    edge_pull, pane_role, rows_below, spacer_style, visible_range, visible_rows, window_pull,
    worth_scrolling, EdgePull, PaneRole,
};

fn photos(n: u64) -> Vec<PhotoItem> {
    (1..=n)
        .map(|id| new_photo_item(id, format!("{id}.jpg"), String::new(), String::new()))
        .collect()
}

fn ids(items: &[PhotoItem]) -> Vec<u64> {
    items.iter().map(|p| p.id).collect()
}

fn double(x: f64) -> Double {
    Double { bits: x.to_bits() }
}

fn node(index: &str) -> HitNode {
    HitNode { in_ghost: false, index_attr: Some(index.to_string()) }
}

fn plain() -> HitNode {
    HitNode { in_ghost: false, index_attr: None }
}

#[test]
fn doubles_compare_as_numbers() {
    let values = [
        f64::NEG_INFINITY,
        -2.5,
        -1.0,
        -0.0,
        0.0,
        f64::MIN_POSITIVE,
        0.25,
        80.0,
        f64::INFINITY,
        f64::NAN,
        -f64::NAN,
    ];
    for a in values {
        for b in values {
            assert_eq!(double(a).lt(double(b)), a < b, "{a} < {b}");
            assert_eq!(double(a).le(double(b)), a <= b, "{a} <= {b}");
        }
        assert_eq!(double(a).abs().bits, a.abs().to_bits());
    }
}

#[test]
fn a_mouse_drag_moves_the_photo() {
    let mut items = photos(5);
    let mut s = DragState::idle();
    s.start(0);
    assert!(s.is_dragging() && s.scrolls());
    assert_eq!(s.list_class(), "photo-list reordering");
    s.over_row(3, double(130.0), double(150.0));
    assert_eq!(s.drop_indicator, Some(4));
    assert!(s.drop_on_list(&mut items));
    assert_eq!(ids(&items), vec![2, 3, 4, 1, 5]);
    assert_eq!(s, DragState::idle());
    assert_eq!(s.list_class(), "photo-list");
}

#[test]
fn a_drag_over_its_own_row_moves_nothing() {
    let mut items = photos(3);
    let mut s = DragState::idle();
    s.start(1);
    s.over_row(2, double(10.0), double(20.0));
    s.over_row(1, double(10.0), double(20.0));
    assert_eq!(s.drop_indicator, None);
    assert!(s.drop_on_list(&mut items));
    assert_eq!(ids(&items), vec![1, 2, 3]);
}

#[test]
fn a_drop_of_files_is_none_of_ours() {
    let mut items = photos(2);
    let mut s = DragState::idle();
    s.over_row(1, double(10.0), double(20.0));
    assert_eq!(s, DragState::idle());
    assert!(!s.drop_on_list(&mut items));
    assert!(s.drop_on_workspace());
    s.start(0);
    assert!(!s.drop_on_workspace());
    assert_eq!(s, DragState::idle());
}

#[test]
fn a_mouse_drag_over_a_grid_asks_both_directions() {
    let mut s = DragState::idle();
    s.start(0);
    s.over_slot(3, 2, double(50.0), double(50.0), double(10.0), double(90.0));
    assert_eq!(s.drop_indicator, Some(3));
    s.over_slot(3, 2, double(50.0), double(50.0), double(60.0), double(90.0));
    assert_eq!(s.drop_indicator, Some(4));
    assert_eq!(s.last_indicator, None);
    s.end();
    assert_eq!(s, DragState::idle());
}

#[test]
fn a_held_touch_becomes_a_drag() {
    let mut items = photos(4);
    let mut s = DragState::idle();
    s.press(100, 100);
    assert_eq!(s.touch_moved(108, 92), TouchMove::Hold);
    assert_eq!(s.touch_moved(109, 100), TouchMove::CancelHold);
    assert_eq!(s.touch_moved(100, 91), TouchMove::CancelHold);
    s.confirm_touch(3);
    assert_eq!(s.touch_moved(100, 300), TouchMove::Drag);
    assert_eq!(s.cursor, (100, 300));
    s.touch_over_row(0, double(50.0), double(40.0));
    assert_eq!(s.drop_indicator, Some(0));
    assert_eq!(s.release_looks_under_finger(), None);
    s.release(&mut items, None);
    assert_eq!(ids(&items), vec![4, 1, 2, 3]);
    assert!(!s.touch_active && !s.is_dragging());
    assert_eq!(TOUCH_HOLD_MS, 250);
}

#[test]
fn a_finger_that_drifts_back_keeps_its_target() {
    let mut items = photos(4);
    let mut s = DragState::idle();
    s.press(0, 0);
    s.confirm_touch(0);
    s.touch_over_slot(2, 1, double(5.0), double(5.0), double(0.0), double(9.0));
    assert_eq!(s.last_indicator, Some(3));
    s.touch_over_slot(0, 1, double(5.0), double(5.0), double(0.0), double(9.0));
    assert_eq!(s.drop_indicator, None);
    assert_eq!(s.last_indicator, Some(3));
    s.release(&mut items, Some(1));
    assert_eq!(ids(&items), vec![2, 3, 1, 4]);
}

#[test]
fn a_release_falls_back_to_the_row_under_the_finger() {
    let mut items = photos(3);
    let mut s = DragState::idle();
    s.confirm_touch(2);
    assert_eq!(s.release_looks_under_finger(), Some(2));
    s.release(&mut items, Some(0));
    assert_eq!(ids(&items), vec![3, 1, 2]);
    s.release(&mut items, Some(0));
    assert_eq!(ids(&items), vec![3, 1, 2]);
    s.track(7, 8);
    assert_eq!(s.cursor, (7, 8));
    s.cleanup();
    let once = s;
    s.cleanup();
    assert_eq!(s, once);
}

#[test]
fn rows_are_marked_by_the_drag() {
    let mut s = DragState::idle();
    assert_eq!(s.class("photo-row", 0, 3), "photo-row");
    s.start(0);
    assert_eq!(s.class("photo-row", 0, 3), "photo-row dragging");
    s.over_row(2, double(10.0), double(20.0));
    assert_eq!(s.drop_indicator, Some(3));
    assert_eq!(s.class("photo-row", 2, 3), "photo-row drag-below");
    assert_eq!(s.class("photo-row", 1, 3), "photo-row");
    s.over_row(2, double(10.0), double(5.0));
    assert_eq!(s.class("slot filled", 2, 3), "slot filled drag-above");
}

#[test]
fn only_a_first_finger_on_plain_ground_may_hold() {
    assert!(!is_touch("mouse"));
    assert!(is_touch("touch") && is_touch("pen"));
    assert!(may_hold("touch", false, false, true));
    assert!(!may_hold("mouse", false, false, true));
    assert!(!may_hold("touch", true, false, true));
    assert!(!may_hold("touch", false, true, true));
    assert!(!may_hold("touch", false, false, false));
}

#[test]
fn controls_are_found_up_to_three_levels_above() {
    let tags = |list: &[&str]| -> Vec<String> { list.iter().map(|t| t.to_string()).collect() };
    for tag in ["INPUT", "TEXTAREA", "BUTTON", "SELECT", "A"] {
        assert!(pointer_target_is_interactive(&tags(&[tag])));
    }
    assert!(!pointer_target_is_interactive(&tags(&["DIV", "SPAN"])));
    assert!(!pointer_target_is_interactive(&tags(&["button"])));
    assert!(!pointer_target_is_interactive(&tags(&[])));
    assert!(pointer_target_is_interactive(&tags(&["I", "SPAN", "DIV", "BUTTON"])));
    assert!(!pointer_target_is_interactive(&tags(&["I", "SPAN", "DIV", "DIV", "BUTTON"])));
}

#[test]
fn the_innermost_row_is_hit() {
    assert_eq!(hit_index(&vec![plain(), node("12"), node("3")]), Some((1, 12)));
    assert_eq!(hit_index(&vec![plain(), node("x"), node("+3")]), Some((2, 3)));
    assert_eq!(hit_index(&vec![plain(), node(""), node("-1"), node("+")]), None);
    assert_eq!(hit_index(&vec![node("99999999999999999999999999")]), None);
    let ghost = HitNode { in_ghost: true, index_attr: Some("4".to_string()) };
    assert_eq!(hit_index(&vec![ghost, node("5")]), Some((1, 5)));
}

#[test]
fn the_nearest_aligned_row_is_found() {
    let band = |index: &str, left: f64, right: f64, distance: f64| RowBand {
        node: node(index),
        left_limit: double(left),
        right_limit: double(right),
        distance: double(distance),
    };
    let rows = vec![
        band("0", 0.0, 100.0, 30.0),
        band("1", 0.0, 100.0, 5.0),
        band("2", 200.0, 300.0, 1.0),
        band("3", 0.0, 100.0, 5.0),
        band("y", 0.0, 100.0, 0.0),
    ];
    assert_eq!(nearest_row(&rows, double(50.0)), Some((1, 1)));
    assert_eq!(nearest_row(&rows, double(250.0)), Some((2, 2)));
    assert_eq!(nearest_row(&rows, double(150.0)), None);
}

#[test]
fn only_rows_near_the_view_are_drawn() {
    assert_eq!(visible_range(0, 500, 800), (0, 0));
    assert_eq!(visible_range(500, 0, 800), (0, 35));
    assert_eq!(visible_range(500, 80 + 64 * 20, 800), (10, 45));
    assert_eq!(visible_range(500, 80 + 64 * 20 - 1, 799), (9, 44));
    assert_eq!(visible_range(20, 0, 800), (0, 20));
    assert_eq!(visible_range(500, -50, -50), (0, 22));
    assert_eq!(visible_range(5, 80 + 64 * 30, 100), (20, 5));
}

#[test]
fn drawn_rows_keep_their_positions() {
    let items = photos(5);
    let rows = visible_rows(&items, 1, 3);
    let found: Vec<(usize, u64)> = rows.iter().map(|(i, p)| (*i, p.id)).collect();
    assert_eq!(found, vec![(1, 2), (2, 3)]);
    assert_eq!(visible_rows(&items, 4, 9).len(), 1);
    assert_eq!(visible_rows(&items, 6, 3).len(), 0);
    assert_eq!(spacer_style(3), "height: 192px;");
    assert_eq!(spacer_style(0), "height: 0px;");
    assert_eq!(rows_below(10, 4), 6);
    assert_eq!(rows_below(4, 10), 0);
}

#[test]
fn panes_scroll_near_their_edges() {
    assert_eq!(edge_pull(double(79.9), double(500.0)), EdgePull::Up);
    assert_eq!(edge_pull(double(80.0), double(79.0)), EdgePull::Down);
    assert_eq!(edge_pull(double(80.0), double(80.0)), EdgePull::Still);
    assert_eq!(edge_pull(double(-5.0), double(10.0)), EdgePull::Up);
    assert_eq!(window_pull(double(0.0), double(1.0), double(1.0)), EdgePull::Still);
    assert_eq!(window_pull(double(600.0), double(1.0), double(599.0)), EdgePull::Up);
    assert!(worth_scrolling(double(-0.6)));
    assert!(!worth_scrolling(double(0.5)));
    assert!(!worth_scrolling(double(f64::NAN)));
}

#[test]
fn a_pane_scrolls_where_it_holds_more_than_it_shows() {
    assert_eq!(pane_role("left-pane", 900, 600), PaneRole::Scrolls);
    assert_eq!(pane_role("x right-pane y", 601, 600), PaneRole::Scrolls);
    assert_eq!(pane_role("right-pane", 600, 600), PaneRole::Fixed);
    assert_eq!(pane_role("photo-row", 900, 600), PaneRole::Inside);
}
