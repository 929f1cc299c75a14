use gridora_forge::export::{
    asks_for_support, export_status, failure_warning, missing_pictures, request_export,
    ExportRequest, ExportStep, FileFailure, DISMISSED,
};
use gridora_forge::layout::GridLayout;
use gridora_forge::photo::{new_photo_item, PhotoItem};
use gridora_forge::toolbar::{
    count_label, is_open_shortcut, layout_button_class, logo_label, preview_label, row_label,
    status_class, status_kind, ClearButton, StatusKind, CLEAR_WAIT_MS,
};
use std::collections::HashMap;

fn photos(n: u64) -> Vec<PhotoItem> {
    (1..=n)
        .map(|id| new_photo_item(id, format!("{id}.jpg"), String::new(), String::new()))
        .collect()
}

#[test]
fn the_status_looks_as_its_words_say() {
    assert_eq!(status_class("Something failed\u{2026}"), "status-bar status-error");
    assert_eq!(status_class("Popup was blocked."), "status-bar status-error");
    assert_eq!(status_class("an error"), "status-bar status-error");
    assert_eq!(status_class("Loading 3 image(s)\u{2026}"), "status-bar status-progress");
    assert_eq!(status_class("Processing Loaded"), "status-bar status-progress");
    assert_eq!(status_class("Loaded 3 image(s)."), "status-bar status-success");
    assert_eq!(status_class("Cleared all photos."), "status-bar status-success");
    assert_eq!(status_class("downloaded"), "status-bar status-success");
    assert_eq!(status_class(""), "status-bar status-hidden");
    assert_eq!(status_class("Clear cancelled."), "status-bar");
}

#[test]
fn clearing_takes_two_clicks() {
    let mut items = photos(2);
    let mut button = ClearButton::new();
    assert_eq!((button.label(), button.class()), ("Clear", "btn-danger"));
    assert_eq!(button.click(&mut items), (false, "Click again to confirm clear."));
    assert_eq!(items.len(), 2);
    assert_eq!((button.label(), button.class()), ("Confirm?", "btn-danger btn-confirm"));
    assert_eq!(button.click(&mut items), (true, "Cleared all photos."));
    assert!(items.is_empty());
    assert_eq!(button.time_out(), None);
    assert_eq!(CLEAR_WAIT_MS, 3000);
}

#[test]
fn clearing_is_cancelled_in_time() {
    let mut items = photos(2);
    let mut button = ClearButton::new();
    button.click(&mut items);
    assert_eq!(button.time_out(), Some("Clear cancelled."));
    assert_eq!(button, ClearButton::new());
    assert_eq!(button.click(&mut items), (false, "Click again to confirm clear."));
    assert_eq!(items.len(), 2);
}

#[test]
fn exports_start_with_photos_and_alone() {
    assert_eq!(request_export(true, 5), ExportRequest::Ignored);
    assert_eq!(request_export(true, 0), ExportRequest::Ignored);
    assert_eq!(request_export(false, 0), ExportRequest::Refused);
    assert_eq!(request_export(false, 1), ExportRequest::Accepted);
}

#[test]
fn exports_tell_their_steps() {
    assert_eq!(export_status(ExportStep::NoPhotos), "Add photos before exporting.");
    assert_eq!(export_status(ExportStep::NoWindow), "Could not access the browser window.");
    assert_eq!(
        export_status(ExportStep::PopupBlocked),
        "Popup was blocked. Allow popups for this app and try again."
    );
    assert_eq!(
        export_status(ExportStep::Preparing),
        "Preparing PDF\u{2026} compressing images"
    );
    assert_eq!(export_status(ExportStep::NoDocument), "Could not open print document.");
    assert_eq!(
        export_status(ExportStep::Printed(0)),
        "Print dialog opened. Choose \u{201c}Save as PDF\u{201d} in the browser print dialog."
    );
}

#[test]
fn lost_pictures_are_told_as_an_error() {
    let items = photos(3);
    let mut bytes = HashMap::new();
    assert_eq!(missing_pictures(&items, &bytes), 3);
    bytes.insert(2, vec![1]);
    assert_eq!(missing_pictures(&items, &bytes), 2);
    let status = export_status(ExportStep::Printed(2));
    assert_eq!(status, "Print dialog opened, but the picture export failed for 2 photo(s).");
    assert_eq!(status_kind(&status), StatusKind::Error);
    bytes.insert(1, vec![]);
    bytes.insert(3, vec![]);
    assert_eq!(missing_pictures(&items, &bytes), 0);
    assert_eq!(status_kind(&export_status(ExportStep::Printed(0))), StatusKind::Plain);
}

#[test]
fn failures_name_the_file_and_the_reason() {
    assert_eq!(
        failure_warning(FileFailure::Import, "a.jpg", "image decode failed"),
        "Image processing failed for a.jpg: image decode failed"
    );
    assert_eq!(
        failure_warning(FileFailure::Decode, "a.jpg", "r"),
        "Bitmap decode failed for a.jpg: r"
    );
    assert_eq!(
        failure_warning(FileFailure::Compress, "a.jpg", "r"),
        "Export JPEG failed for a.jpg: r"
    );
}

#[test]
fn support_is_asked_for_until_dismissed() {
    assert!(asks_for_support(&None));
    assert!(asks_for_support(&Some(String::new())));
    assert!(asks_for_support(&Some("11".to_string())));
    assert!(!asks_for_support(&Some(DISMISSED.to_string())));
}

#[test]
fn the_letter_o_opens_files() {
    assert!(is_open_shortcut(true, false, "o"));
    assert!(is_open_shortcut(false, true, "O"));
    assert!(!is_open_shortcut(false, false, "o"));
    assert!(!is_open_shortcut(true, true, "p"));
}

#[test]
fn labels_show_numbers_and_names() {
    assert_eq!(count_label(12), "(12)");
    assert_eq!(row_label(0), "#1");
    assert_eq!(preview_label(GridLayout::TwoByThree), "Preview \u{2014} 2 \u{00d7} 3");
    assert_eq!(logo_label(""), "Upload Logo");
    assert_eq!(logo_label("data:"), "Replace");
    assert_eq!(layout_button_class(GridLayout::OneUp, GridLayout::OneUp), "layout-btn active");
    assert_eq!(layout_button_class(GridLayout::OneUp, GridLayout::TwoUp), "layout-btn");
}
