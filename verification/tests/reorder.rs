use gridora_forge::double::Double;
use gridora_forge::photo::PhotoItem;
use gridora_forge::reorder::{
    compute_drop_indicator, compute_slot_indicator, drop_photo, is_last, move_down, move_item,
    move_up,
};

fn make_photo(id: u64) -> PhotoItem {
    PhotoItem {
        id,
        title: format!("p{id}"),
        description: String::new(),
        filename: format!("p{id}.jpg"),
        mime: "image/jpeg".to_string(),
        rotation_quadrants: 0,
        thumb_url: String::new(),
        preview_url: String::new(),
    }
}

fn photos(n: u64) -> Vec<PhotoItem> {
    (1..=n).map(make_photo).collect()
}

fn ids(items: &[PhotoItem]) -> Vec<u64> {
    items.iter().map(|p| p.id).collect()
}

fn double(x: f64) -> Double {
    Double { bits: x.to_bits() }
}

/// The insertion point over a row that begins at `top` and is `height` high.
fn indicator(from: usize, target: usize, top: f64, height: f64, y: f64) -> Option<usize> {
    compute_drop_indicator(from, target, double(top + height / 2.0), double(y))
}

#[test]
fn move_item_forward_preserves_other_order() {
    let mut v: Vec<PhotoItem> = (1..=5).map(make_photo).collect();
    move_item(&mut v, 0, 3);
    let ids: Vec<u64> = v.iter().map(|p| p.id).collect();
    assert_eq!(ids, vec![2, 3, 4, 1, 5]);
}

#[test]
fn move_item_backward_preserves_other_order() {
    let mut v: Vec<PhotoItem> = (1..=5).map(make_photo).collect();
    move_item(&mut v, 4, 1);
    let ids: Vec<u64> = v.iter().map(|p| p.id).collect();
    assert_eq!(ids, vec![1, 5, 2, 3, 4]);
}

#[test]
fn move_item_no_op_for_same_index() {
    let mut v: Vec<PhotoItem> = (1..=3).map(make_photo).collect();
    move_item(&mut v, 1, 1);
    let ids: Vec<u64> = v.iter().map(|p| p.id).collect();
    assert_eq!(ids, vec![1, 2, 3]);
}

#[test]
fn move_item_out_of_bounds_is_noop() {
    let mut v: Vec<PhotoItem> = (1..=3).map(make_photo).collect();
    move_item(&mut v, 0, 10);
    let ids: Vec<u64> = v.iter().map(|p| p.id).collect();
    assert_eq!(ids, vec![1, 2, 3]);
}

#[test]
fn drop_indicator_above_midpoint_inserts_before_target() {
    // Source row 0 dragged onto row 3, pointer near the top: insert at 3.
    let r = indicator(0, 3, 100.0, 60.0, 110.0);
    assert_eq!(r, Some(3));
}

#[test]
fn drop_indicator_below_midpoint_inserts_after_target() {
    let r = indicator(0, 3, 100.0, 60.0, 150.0);
    assert_eq!(r, Some(4));
}

#[test]
fn drop_indicator_on_source_returns_none() {
    let r = indicator(2, 2, 100.0, 60.0, 130.0);
    assert_eq!(r, None);
}

#[test]
fn drop_indicator_avoids_dead_zone_above() {
    // Source 2, target 1, above the middle: position 1 moves the photo, so no snap.
    let r = indicator(2, 1, 100.0, 60.0, 110.0);
    assert_eq!(r, Some(1));
}

#[test]
fn drop_indicator_avoids_dead_zone_below() {
    // Source 2, target 1, below the middle: position 2 is the source itself, so it snaps to 1.
    let r = indicator(2, 1, 100.0, 60.0, 150.0);
    assert_eq!(r, Some(1));
}

#[test]
fn drop_indicator_snaps_behind_a_later_neighbour() {
    assert_eq!(indicator(2, 3, 100.0, 60.0, 110.0), Some(4));
    assert_eq!(indicator(2, 3, 100.0, 60.0, 150.0), Some(4));
}

#[test]
fn drop_indicator_takes_the_middle_as_above() {
    assert_eq!(indicator(0, 3, 100.0, 60.0, 130.0), Some(3));
}

#[test]
fn drop_indicator_takes_no_number_as_below() {
    assert_eq!(indicator(0, 3, f64::NAN, 60.0, 130.0), Some(4));
    assert_eq!(indicator(0, 3, -40.0, 60.0, -20.0), Some(3));
}

#[test]
fn slot_indicator_of_a_grid_asks_both_directions() {
    let at = |x: f64, y: f64| {
        compute_slot_indicator(0, 4, 2, double(50.0), double(50.0), double(x), double(y))
    };
    assert_eq!(at(10.0, 10.0), Some(4));
    assert_eq!(at(90.0, 10.0), Some(4));
    assert_eq!(at(10.0, 90.0), Some(4));
    assert_eq!(at(90.0, 90.0), Some(5));
    assert_eq!(
        compute_slot_indicator(0, 4, 1, double(50.0), double(50.0), double(10.0), double(90.0)),
        Some(5)
    );
    assert_eq!(
        compute_slot_indicator(4, 4, 2, double(50.0), double(50.0), double(10.0), double(90.0)),
        None
    );
}

#[test]
fn move_buttons_stop_at_the_ends() {
    let mut v = photos(3);
    move_up(&mut v, 0);
    assert_eq!(ids(&v), vec![1, 2, 3]);
    move_up(&mut v, 2);
    assert_eq!(ids(&v), vec![1, 3, 2]);
    move_down(&mut v, 2);
    assert_eq!(ids(&v), vec![1, 3, 2]);
    move_down(&mut v, 0);
    assert_eq!(ids(&v), vec![3, 1, 2]);
    assert!(is_last(2, 3));
    assert!(!is_last(1, 3));
    assert!(is_last(0, 0));
}

#[test]
fn moving_back_restores_the_list() {
    let mut v = photos(6);
    move_item(&mut v, 1, 4);
    assert_eq!(ids(&v), vec![1, 3, 4, 5, 2, 6]);
    move_item(&mut v, 4, 1);
    assert_eq!(ids(&v), vec![1, 2, 3, 4, 5, 6]);
}

#[test]
fn moving_keeps_every_photo_whole() {
    let mut v = photos(4);
    v[2].description = "kept".to_string();
    let moved = v[2].clone();
    move_item(&mut v, 2, 0);
    assert_eq!(v.len(), 4);
    assert_eq!(v[0], moved);
    let mut sorted = ids(&v);
    sorted.sort();
    assert_eq!(sorted, vec![1, 2, 3, 4]);
}

#[test]
fn dropping_lands_beside_the_target() {
    let mut v = photos(5);
    drop_photo(&mut v, 0, indicator(0, 3, 100.0, 60.0, 150.0));
    assert_eq!(ids(&v), vec![2, 3, 4, 1, 5]);
    let mut w = photos(5);
    drop_photo(&mut w, 4, indicator(4, 1, 100.0, 60.0, 110.0));
    assert_eq!(ids(&w), vec![1, 5, 2, 3, 4]);
    let mut u = photos(3);
    drop_photo(&mut u, 1, None);
    assert_eq!(ids(&u), vec![1, 2, 3]);
}
