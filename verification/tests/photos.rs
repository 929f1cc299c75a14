use gridora_forge::photo::{
    find_photo, new_photo_item, photo_index, photo_positions, remove_photo, rotate_photo,
    title_from_filename, update_photo_description, update_photo_title, PhotoIds, PhotoItem,
};

fn photo(id: u64) -> PhotoItem {
    new_photo_item(id, format!("IMG_{id}.jpeg"), "thumb".to_string(), "preview".to_string())
}

fn ids(items: &[PhotoItem]) -> Vec<u64> {
    items.iter().map(|p| p.id).collect()
}

#[test]
fn identifiers_count_up_from_one() {
    let mut numbers = PhotoIds::new();
    assert_eq!(numbers.next_photo_id(), 1);
    assert_eq!(numbers.next_photo_id(), 2);
    assert_eq!(numbers.next_photo_id(), 3);
}

#[test]
fn identifiers_start_again_after_the_largest() {
    let mut numbers = PhotoIds { next: u64::MAX };
    assert_eq!(numbers.next_photo_id(), u64::MAX);
    assert_eq!(numbers.next_photo_id(), 0);
}

#[test]
fn titles_drop_the_extension() {
    assert_eq!(title_from_filename("roof.jpg"), "roof");
    assert_eq!(title_from_filename("roof.north.jpg"), "roof.north");
    assert_eq!(title_from_filename("roof"), "roof");
    assert_eq!(title_from_filename(".hidden"), ".hidden");
    assert_eq!(title_from_filename(""), "");
    assert_eq!(title_from_filename("Dach\u{e4}.jpg"), "Dach\u{e4}");
}

#[test]
fn new_photos_start_upright_and_titled() {
    let p = photo(7);
    assert_eq!(p.id, 7);
    assert_eq!(p.title, "IMG_7");
    assert_eq!(p.description, "");
    assert_eq!(p.filename, "IMG_7.jpeg");
    assert_eq!(p.mime, "image/jpeg");
    assert_eq!(p.rotation_quadrants, 0);
    assert_eq!(p.thumb_url, "thumb");
    assert_eq!(p.preview_url, "preview");
    assert_eq!(p.rotation_style(), "");
}

#[test]
fn rotation_goes_round_in_quarter_turns() {
    let mut items = vec![photo(1), photo(2)];
    let mut seen = Vec::new();
    for _ in 0..5 {
        rotate_photo(&mut items, 2, 1);
        seen.push(items[1].rotation_degrees());
    }
    assert_eq!(seen, vec![90, 180, 270, 0, 90]);
    assert_eq!(items[1].rotation_style(), "transform: rotate(90deg);");
    assert_eq!(items[0].rotation_quadrants, 0);
}

#[test]
fn a_turn_back_undoes_a_turn() {
    let mut items = vec![photo(1)];
    rotate_photo(&mut items, 1, -1);
    assert_eq!(items[0].rotation_degrees(), 270);
    rotate_photo(&mut items, 1, 1);
    assert_eq!(items[0], photo(1));
    rotate_photo(&mut items, 9, 1);
    assert_eq!(items[0], photo(1));
}

#[test]
fn rotation_beyond_four_counts_by_its_remainder() {
    let mut p = photo(1);
    p.rotation_quadrants = 6;
    assert_eq!(p.rotation_degrees(), 180);
    let mut items = vec![p];
    rotate_photo(&mut items, 1, 1);
    assert_eq!(items[0].rotation_quadrants, 3);
    items[0].rotation_quadrants = 255;
    rotate_photo(&mut items, 1, 0);
    assert_eq!(items[0].rotation_quadrants, 3);
}

#[test]
fn captions_change_one_photo_only() {
    let mut items = vec![photo(1), photo(2), photo(3)];
    update_photo_title(&mut items, 2, "Roof".to_string());
    update_photo_description(&mut items, 3, "Two\nlines".to_string());
    update_photo_title(&mut items, 8, "Nobody".to_string());
    assert_eq!(items[0], photo(1));
    assert_eq!(items[1].title, "Roof");
    assert_eq!(items[1].description, "");
    assert_eq!(items[2].title, "IMG_3");
    assert_eq!(items[2].description, "Two\nlines");
    assert_eq!(ids(&items), vec![1, 2, 3]);
}

#[test]
fn removal_keeps_the_others_in_order() {
    let mut items = vec![photo(1), photo(2), photo(3), photo(2)];
    remove_photo(&mut items, 2);
    assert_eq!(ids(&items), vec![1, 3]);
    remove_photo(&mut items, 9);
    assert_eq!(ids(&items), vec![1, 3]);
}

#[test]
fn positions_follow_the_list() {
    let items = vec![photo(4), photo(9), photo(2)];
    let positions = photo_positions(&items);
    assert_eq!(photo_index(&positions, 4), 0);
    assert_eq!(photo_index(&positions, 9), 1);
    assert_eq!(photo_index(&positions, 2), 2);
    assert_eq!(photo_index(&positions, 77), 0);
    assert_eq!(find_photo(&items, 2), Some(2));
    assert_eq!(find_photo(&items, 77), None);
}
