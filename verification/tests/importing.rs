use gridora_forge::import::{
    accepts_file, is_heic, is_heic_name, jpeg_filename, plan_import, plan_status,
    processing_status, sort_by_file, ImportPlan, ImportRun, MAX_PARALLEL_IMAGE_TASKS, MAX_PHOTOS,
};
use gridora_forge::photo::{new_photo_item, PhotoIds, PhotoItem};

fn photo(id: u64) -> PhotoItem {
    new_photo_item(id, format!("{id}.jpg"), String::new(), String::new())
}

fn ids(items: &[PhotoItem]) -> Vec<u64> {
    items.iter().map(|p| p.id).collect()
}

#[test]
fn heic_is_told_by_type_or_name() {
    assert!(is_heic("image/HEIC", "a"));
    assert!(is_heic("image/heif-sequence", "a"));
    assert!(is_heic("", "IMG_1.HEIC"));
    assert!(is_heic("", "img.Heif"));
    assert!(!is_heic("image/jpeg", "heic.jpg"));
    assert!(!is_heic("", ""));
    assert!(is_heic_name("", "a.heic"));
    assert!(!is_heic_name("", "a.HEIC"));
}

#[test]
fn only_pictures_are_accepted() {
    assert!(accepts_file("image/png", "a.png"));
    assert!(accepts_file("", "a.HEIC"));
    assert!(!accepts_file("IMAGE/png", "a.png"));
    assert!(!accepts_file("text/plain", "a.txt"));
}

#[test]
fn converted_pictures_are_named_anew() {
    assert_eq!(jpeg_filename("IMG_1.HEIC"), "IMG_1.jpg");
    assert_eq!(jpeg_filename("a.b.heif"), "a.b.jpg");
    assert_eq!(jpeg_filename("plain"), "plain.jpg");
    assert_eq!(jpeg_filename(".heic"), ".jpg");
}

#[test]
fn the_list_takes_two_hundred() {
    assert_eq!(MAX_PHOTOS, 200);
    assert_eq!(plan_import(0, 0), ImportPlan::NoImages);
    assert_eq!(plan_import(200, 0), ImportPlan::NoImages);
    assert_eq!(plan_import(200, 1), ImportPlan::Full);
    assert_eq!(plan_import(250, 1), ImportPlan::Full);
    assert_eq!(plan_import(190, 10), ImportPlan::Take(10));
    assert_eq!(plan_import(190, 11), ImportPlan::Take(10));
    assert_eq!(plan_import(0, 500), ImportPlan::Take(200));
}

#[test]
fn the_plan_is_told() {
    assert_eq!(plan_status(ImportPlan::NoImages, 0), "No image files found.");
    assert_eq!(plan_status(ImportPlan::Full, 3), "Maximum of 200 photos reached.");
    assert_eq!(plan_status(ImportPlan::Take(3), 3), "Loading 3 image(s)\u{2026}");
    assert_eq!(
        plan_status(ImportPlan::Take(10), 12),
        "Loading 10 of 12 image(s) (max 200)\u{2026}"
    );
    assert_eq!(
        processing_status(4),
        "Processing 4 image(s) with 4 parallel worker(s)\u{2026}"
    );
    assert_eq!(
        processing_status(40),
        "Processing 40 image(s) with 6 parallel worker(s)\u{2026}"
    );
    assert_eq!(MAX_PARALLEL_IMAGE_TASKS, 6);
}

#[test]
fn photos_join_in_the_order_of_their_files() {
    let mut items = vec![photo(50)];
    let mut run = ImportRun::begin(4);
    assert_eq!(run.record_photo(2, photo(3), "c.jpg"), "Processed 1/4: c.jpg");
    assert_eq!(run.record_failure("b.jpg"), "Skipped 2/4: b.jpg");
    assert_eq!(run.record_photo(0, photo(1), "a.jpg"), "Processed 3/4: a.jpg");
    assert_eq!(run.record_photo(3, photo(4), "d.jpg"), "Processed 4/4: d.jpg");
    assert_eq!(run.finish(&mut items), "Loaded 3 image(s); skipped 1 file(s).");
    assert_eq!(ids(&items), vec![50, 1, 3, 4]);
}

#[test]
fn an_import_without_losses_says_so() {
    let mut items = Vec::new();
    let mut run = ImportRun::begin(1);
    run.record_photo(0, photo(9), "a.jpg");
    assert_eq!(run.finish(&mut items), "Loaded 1 image(s).");
    assert_eq!(ids(&items), vec![9]);
}

#[test]
fn the_order_of_finishing_does_not_matter() {
    let orders: [[usize; 4]; 3] = [[0, 1, 2, 3], [3, 2, 1, 0], [2, 0, 3, 1]];
    for order in orders {
        let list: Vec<(usize, PhotoItem)> =
            order.iter().map(|i| (*i, photo(*i as u64 + 10))).collect();
        let sorted = sort_by_file(list);
        let found: Vec<u64> = sorted.iter().map(|(_, p)| p.id).collect();
        assert_eq!(found, vec![10, 11, 12, 13]);
    }
}

#[test]
fn equal_file_numbers_keep_their_order() {
    let sorted = sort_by_file(vec![(1, photo(1)), (0, photo(2)), (1, photo(3)), (0, photo(4))]);
    let found: Vec<u64> = sorted.iter().map(|(_, p)| p.id).collect();
    assert_eq!(found, vec![2, 4, 1, 3]);
}

#[test]
fn a_planned_import_keeps_the_limit() {
    let mut items: Vec<PhotoItem> = (1..=199).map(photo).collect();
    match plan_import(items.len(), 5) {
        ImportPlan::Take(n) => {
            let mut run = ImportRun::begin(n);
            for i in 0..n {
                run.record_photo(i, photo(1000 + i as u64), "x");
            }
            run.finish(&mut items);
        }
        _ => panic!("expected to take one"),
    }
    assert_eq!(items.len(), MAX_PHOTOS);
}

#[test]
fn imported_photos_keep_their_identifiers_apart() {
    let mut numbers = PhotoIds::new();
    let mut items = Vec::new();
    for _ in 0..2 {
        let mut run = ImportRun::begin(3);
        for idx in [2, 0, 1] {
            run.record_photo(idx, photo(numbers.next_photo_id()), "x");
        }
        run.finish(&mut items);
    }
    assert_eq!(ids(&items), vec![2, 3, 1, 5, 6, 4]);
}

#[test]
fn the_limit_is_told_at_the_end() {
    let mut items: Vec<PhotoItem> = (1..=198).map(photo).collect();
    assert_eq!(plan_import(items.len(), 5), ImportPlan::Take(2));
    let mut run = ImportRun::begin_planned(2, 5);
    assert_eq!(run.record_photo(1, photo(902), "b.jpg"), "Processed 1/2: b.jpg");
    assert_eq!(run.record_photo(0, photo(901), "a.jpg"), "Processed 2/2: a.jpg");
    assert_eq!(
        run.finish(&mut items),
        "Loaded 2 image(s). Limit of 200 photos reached: 3 file(s) left out."
    );
    assert_eq!(items.len(), 200);
    assert_eq!(ids(&items[198..]), vec![901, 902]);
}

#[test]
fn skipped_files_and_the_limit_are_both_told() {
    let mut items = Vec::new();
    let mut run = ImportRun::begin_planned(2, 3);
    run.record_failure("a.jpg");
    run.record_photo(1, photo(7), "b.jpg");
    assert_eq!(
        run.finish(&mut items),
        "Loaded 1 image(s); skipped 1 file(s). Limit of 200 photos reached: 1 file(s) left out."
    );
    let run = ImportRun::begin_planned(0, 0);
    assert_eq!(run.finish(&mut items), "Loaded 0 image(s).");
}

#[test]
fn two_imports_at_once_keep_the_limit() {
    let mut items: Vec<PhotoItem> = (1..=199).map(photo).collect();
    assert_eq!(plan_import(items.len(), 1), ImportPlan::Take(1));
    assert_eq!(plan_import(items.len(), 1), ImportPlan::Take(1));
    let mut first = ImportRun::begin_planned(1, 1);
    let mut second = ImportRun::begin_planned(1, 1);
    second.record_photo(0, photo(902), "b.jpg");
    first.record_photo(0, photo(901), "a.jpg");
    assert_eq!(second.finish(&mut items), "Loaded 1 image(s).");
    assert_eq!(
        first.finish(&mut items),
        "Loaded 0 image(s). Limit of 200 photos reached: 1 file(s) left out."
    );
    assert_eq!(items.len(), 200);
    assert_eq!(items[199].id, 902);
}

#[test]
fn the_first_files_find_room() {
    let mut items: Vec<PhotoItem> = (1..=198).map(photo).collect();
    let mut run = ImportRun::begin_planned(4, 6);
    for idx in [3, 1, 0] {
        run.record_photo(idx, photo(900 + idx as u64), "x");
    }
    run.record_failure("y");
    assert_eq!(
        run.finish(&mut items),
        "Loaded 2 image(s); skipped 1 file(s). Limit of 200 photos reached: 3 file(s) left out."
    );
    assert_eq!(ids(&items[198..]), vec![900, 901]);
    let mut full: Vec<PhotoItem> = (1..=250).map(photo).collect();
    let mut run = ImportRun::begin(1);
    run.record_photo(0, photo(999), "x");
    run.finish(&mut full);
    assert_eq!(full.len(), 250);
}
