use gridora_forge::layout::GridLayout;
use gridora_forge::pages::{
    clamped_page, has_next_page, nav_label, page_back, page_forward, page_label, photo_pages,
    preview_page, split_pages, total_pages, PreviewPage,
};
use gridora_forge::photo::{new_photo_item, PhotoItem};

const LAYOUTS: [GridLayout; 4] =
    [GridLayout::OneUp, GridLayout::TwoUp, GridLayout::TwoByTwo, GridLayout::TwoByThree];

fn photos(n: u64) -> Vec<PhotoItem> {
    (1..=n)
        .map(|id| new_photo_item(id, format!("{id}.jpg"), String::new(), String::new()))
        .collect()
}

fn ids(page: &[Option<PhotoItem>]) -> Vec<u64> {
    page.iter().map(|slot| slot.as_ref().map(|p| p.id).unwrap_or(0)).collect()
}

#[test]
fn layouts_have_their_sizes() {
    let sizes: Vec<(usize, usize, usize)> =
        LAYOUTS.iter().map(|l| (l.rows(), l.cols(), l.page_size())).collect();
    assert_eq!(sizes, vec![(1, 1, 1), (2, 1, 2), (2, 2, 4), (3, 2, 6)]);
    let values: Vec<&str> = LAYOUTS.iter().map(|l| l.value()).collect();
    assert_eq!(values, vec!["1up", "2up", "2x2", "2x3"]);
    let labels: Vec<&str> = LAYOUTS.iter().map(|l| l.label()).collect();
    assert_eq!(labels, vec!["1\u{2011}up", "2\u{2011}up", "2 \u{00d7} 2", "2 \u{00d7} 3"]);
    let classes: Vec<&str> = LAYOUTS.iter().map(|l| l.cols_class()).collect();
    assert_eq!(classes, vec!["cols-1", "cols-1", "cols-2", "cols-2"]);
}

#[test]
fn pages_fill_up_with_empty_slots() {
    let pages = split_pages(&photos(5), GridLayout::TwoByTwo);
    let found: Vec<Vec<u64>> = pages.iter().map(|p| ids(p)).collect();
    assert_eq!(found, vec![vec![1, 2, 3, 4], vec![5, 0, 0, 0]]);
}

#[test]
fn no_photos_give_one_empty_page() {
    let pages = split_pages(&[], GridLayout::TwoByThree);
    assert_eq!(pages.len(), 1);
    assert_eq!(ids(&pages[0]), vec![0, 0, 0, 0, 0, 0]);
    assert_eq!(photo_pages(0, GridLayout::OneUp), 1);
}

#[test]
fn pages_hold_every_photo_in_order() {
    for layout in LAYOUTS {
        for n in 0..14u64 {
            let pages = split_pages(&photos(n), layout);
            assert_eq!(pages.len(), photo_pages(n as usize, layout));
            let all: Vec<u64> = pages.iter().flatten().flatten().map(|p| p.id).collect();
            assert_eq!(all, (1..=n).collect::<Vec<u64>>());
            for page in &pages {
                assert_eq!(page.len(), layout.page_size());
            }
            for page in &pages[..pages.len() - 1] {
                assert!(page.iter().all(|slot| slot.is_some()));
            }
        }
    }
}

#[test]
fn the_title_page_counts() {
    assert_eq!(total_pages(0, GridLayout::OneUp, false), 1);
    assert_eq!(total_pages(0, GridLayout::OneUp, true), 2);
    assert_eq!(total_pages(7, GridLayout::TwoByThree, false), 2);
    assert_eq!(total_pages(12, GridLayout::TwoByThree, true), 3);
}

#[test]
fn the_preview_stays_within_its_pages() {
    assert_eq!(clamped_page(0, 3), 0);
    assert_eq!(clamped_page(7, 3), 2);
    assert_eq!(clamped_page(7, 0), 0);
    assert_eq!(page_back(2, 2), 1);
    assert_eq!(page_back(0, 0), 0);
    assert_eq!(page_forward(0, 0, 2), 1);
    assert_eq!(page_forward(9, 1, 2), 9);
    assert!(has_next_page(0, 2));
    assert!(!has_next_page(1, 2));
    assert!(!has_next_page(0, 0));
}

#[test]
fn the_preview_names_its_page() {
    assert_eq!(nav_label(0, 3, true), "Title Page \u{2014} 1 / 3");
    assert_eq!(nav_label(1, 3, true), "Page 2 / 3");
    assert_eq!(nav_label(0, 3, false), "Page 1 / 3");
    assert_eq!(page_label(9), "Page 10");
}

#[test]
fn the_preview_shows_the_pages_of_the_export() {
    let items = photos(9);
    for layout in LAYOUTS {
        let pages = split_pages(&items, layout);
        for has_cover in [false, true] {
            let total = total_pages(items.len(), layout, has_cover);
            for shown in 0..total {
                match preview_page(&items, layout, has_cover, shown) {
                    PreviewPage::Cover => assert!(has_cover && shown == 0),
                    PreviewPage::Photos { first, slots } => {
                        let number = shown - usize::from(has_cover);
                        assert_eq!(first, number * layout.page_size());
                        assert_eq!(slots, pages[number]);
                    }
                }
            }
        }
    }
}
