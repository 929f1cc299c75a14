use gridora_forge::codec::decode_data_url_bytes;
use gridora_forge::layout::GridLayout;
use gridora_forge::photo::PhotoItem;
use gridora_forge::print::{
    build_print_html, page_footer, page_header, photo_block, photo_cell, picture_source_text,
    try_build_print_html, write_cover, write_section, write_slots,
};
use gridora_forge::report::ReportMeta;
use gridora_forge::settings::PdfSettings;
use std::collections::HashMap;

fn make_photo(id: u64) -> PhotoItem {
    PhotoItem {
        id,
        title: format!("p{id}"),
        description: String::new(),
        filename: format!("p{id}.jpg"),
        mime: "image/jpeg".to_string(),
        rotation_quadrants: 0,
        thumb_url: String::new(),
        preview_url: String::new(),
    }
}

fn test_meta() -> ReportMeta {
    ReportMeta { title: "TestReport".to_string(), ..ReportMeta::default() }
}

fn stub_bytes(photos: &[PhotoItem]) -> HashMap<u64, Vec<u8>> {
    photos.iter().map(|p| (p.id, vec![0xFFu8, 0xD8, 0xFF, 0xD9])).collect()
}

#[test]
fn print_html_uses_letter_dimensions_not_viewport() {
    let photos = vec![make_photo(1)];
    let mut export_bytes = HashMap::new();
    export_bytes.insert(1u64, vec![0xFFu8, 0xD8, 0xFF, 0xD9]); // tiny jpeg stub
    let meta = test_meta();
    let settings = PdfSettings::default();
    let html = build_print_html(
        &photos,
        &export_bytes,
        GridLayout::OneUp,
        &meta,
        &settings,
        false,
        false,
        0,
    );
    assert!(
        !html.contains("100vh"),
        "print HTML still references 100vh; will misalign pages on mobile"
    );
    assert!(html.contains("11in"), "print HTML missing 11in page height");
    assert!(html.contains("8.5in"), "print HTML missing 8.5in page width");
    assert!(html.contains("@page"), "print HTML missing @page rule");
}

#[test]
fn print_html_includes_one_section_per_page() {
    // 5 photos at 2 x 2 (page size 4) = 2 photo pages
    let photos: Vec<PhotoItem> = (1..=5).map(make_photo).collect();
    let mut export_bytes = HashMap::new();
    for p in &photos {
        export_bytes.insert(p.id, vec![0xFFu8, 0xD8, 0xFF, 0xD9]);
    }
    let html = build_print_html(
        &photos,
        &export_bytes,
        GridLayout::TwoByTwo,
        &test_meta(),
        &PdfSettings::default(),
        false,
        false,
        0,
    );
    let section_count = html.matches(r#"<section class="page"#).count();
    assert_eq!(section_count, 2, "expected 2 photo pages for 5 photos at 2x2");
}

#[test]
fn print_html_preserves_photo_order() {
    // Photo order in the list equals photo order in the export.
    let photos: Vec<PhotoItem> = (1..=4).map(make_photo).collect();
    let mut export_bytes = HashMap::new();
    for p in &photos {
        export_bytes.insert(p.id, vec![0xFFu8]);
    }
    let html = build_print_html(
        &photos,
        &export_bytes,
        GridLayout::OneUp,
        &test_meta(),
        &PdfSettings::default(),
        false,
        false,
        0,
    );
    let pos_p1 = html.find("alt=\"p1\"").expect("p1 missing");
    let pos_p2 = html.find("alt=\"p2\"").expect("p2 missing");
    let pos_p3 = html.find("alt=\"p3\"").expect("p3 missing");
    let pos_p4 = html.find("alt=\"p4\"").expect("p4 missing");
    assert!(pos_p1 < pos_p2);
    assert!(pos_p2 < pos_p3);
    assert!(pos_p3 < pos_p4);
}

#[test]
fn print_html_begins_and_ends_as_a_document() {
    let photos = vec![make_photo(1)];
    let html = build_print_html(
        &photos,
        &stub_bytes(&photos),
        GridLayout::OneUp,
        &test_meta(),
        &PdfSettings::default(),
        false,
        false,
        0,
    );
    assert!(html.starts_with(
        "<!doctype html>\n<html>\n<head>\n<meta charset=\"utf-8\" />\n<title>TestReport \u{2014} Gridora Forge Report</title>\n<style>\n* { box-sizing: border-box; margin: 0; padding: 0; }\n@page { size: letter; margin: 0; }\n"
    ));
    assert!(html.contains("  padding: 0.25in 0.25in 0.25in 0.25in;\n  display: flex;\n"));
    assert!(html.contains(".grid.rows-3 { grid-template-rows: repeat(3, 1fr); }\n"));
    assert!(html.ends_with(
        "</style>\n</head>\n<body>\n<section class=\"page\"><div class=\"page-main\"><div class=\"photo-block\"><div class=\"photo-media\"><img src=\"data:image/jpeg;base64,/9j/2Q==\" alt=\"p1\" style=\"\" /></div><div class=\"caption\"><strong>p1</strong></div></div></div></section>\n<script>\nwindow.onload = function() { window.print(); };\n</script>\n</body>\n</html>"
    ));
    assert!(!html.contains("{{"));
    assert!(!html.contains("}}"));
}

#[test]
fn stacked_pages_show_captions_and_rotation() {
    let mut photo = make_photo(3);
    photo.title = "A <b> & \"c\"".to_string();
    photo.description = "one\ntwo's".to_string();
    photo.rotation_quadrants = 1;
    assert_eq!(
        photo_block(&photo, "data:x"),
        "<div class=\"photo-block\"><div class=\"photo-media\"><img src=\"data:x\" alt=\"A &lt;b&gt; &amp; &quot;c&quot;\" style=\"transform: rotate(90deg);\" /></div><div class=\"caption\"><strong>A &lt;b&gt; &amp; &quot;c&quot;</strong><p>one<br/>two&#39;s</p></div></div>"
    );
}

#[test]
fn grid_cells_show_captions_and_rotation() {
    let mut photo = make_photo(3);
    photo.description = "one\ntwo".to_string();
    photo.rotation_quadrants = 3;
    assert_eq!(
        photo_cell(&photo, "data:x"),
        "<figure class=\"cell\"><div class=\"cell-media\"><img src=\"data:x\" alt=\"p3\" style=\"transform: rotate(270deg);\" /></div><figcaption><strong>p3</strong><br/><span class=\"desc\">one\ntwo</span></figcaption></figure>"
    );
    photo.description.clear();
    photo.rotation_quadrants = 0;
    assert_eq!(
        photo_cell(&photo, "data:x"),
        "<figure class=\"cell\"><div class=\"cell-media\"><img src=\"data:x\" alt=\"p3\" style=\"\" /></div><figcaption><strong>p3</strong></figcaption></figure>"
    );
}

#[test]
fn empty_slots_show_in_grids_only() {
    let bytes = HashMap::new();
    let slots = vec![None, None];
    assert_eq!(
        write_slots(&slots, &bytes, GridLayout::TwoByTwo),
        "<div class=\"cell empty-cell\"><span>Empty</span></div>".repeat(2)
    );
    assert_eq!(write_slots(&slots, &bytes, GridLayout::TwoUp), "");
}

#[test]
fn sections_have_header_number_and_footer() {
    assert_eq!(
        write_section(
            GridLayout::TwoByThree,
            &page_header("top", false),
            true,
            12,
            "photos",
            &page_footer("end", false)
        ),
        "<section class=\"page\"><div class=\"page-header\">top</div><div class=\"page-label\">Page 12</div><div class=\"page-main\"><div class=\"grid rows-3\">photos</div></div><div class=\"page-footer\">end</div></section>"
    );
    assert_eq!(
        write_section(
            GridLayout::OneUp,
            &page_header("top", true),
            false,
            1,
            "photos",
            &page_footer("end", true)
        ),
        "<section class=\"page\"><div class=\"page-main\">photos</div></section>"
    );
}

#[test]
fn the_title_page_shows_the_fields_that_are_filled_in() {
    let meta = ReportMeta {
        title: "T&T".to_string(),
        site_address: "Street 1".to_string(),
        author: "Jane".to_string(),
        date: "2026-03-21".to_string(),
        notes: "a\nb".to_string(),
        logo_data_url: "data:logo".to_string(),
    };
    assert_eq!(
        write_cover(&meta, "", ""),
        "<section class=\"page cover-page\"><div class=\"page-main cover-main\"><div class=\"cover-logo\"><img src=\"data:logo\" alt=\"Logo\" /></div><h1 class=\"cover-title\">T&amp;T</h1><p class=\"cover-detail\"><strong>Site / Address:</strong> Street 1</p><p class=\"cover-detail\"><strong>Prepared By:</strong> Jane</p><p class=\"cover-detail\"><strong>Date:</strong> 2026-03-21</p><div class=\"cover-notes\"><strong>Notes:</strong><p>a<br/>b</p></div></div></section>"
    );
    assert_eq!(
        write_cover(&ReportMeta::default(), &page_header("h", false), &page_footer("f", false)),
        "<section class=\"page cover-page\"><div class=\"page-header\">h</div><div class=\"page-main cover-main\"></div><div class=\"page-footer\">f</div></section>"
    );
}

#[test]
fn blank_headers_are_left_out() {
    let photos = vec![make_photo(1)];
    let mut settings = PdfSettings::default();
    settings.header_template = " \t\n ".to_string();
    settings.footer_template = "{page}/{total_pages}".to_string();
    let html = build_print_html(
        &photos,
        &stub_bytes(&photos),
        GridLayout::OneUp,
        &test_meta(),
        &settings,
        false,
        true,
        0,
    );
    // A line break is written as markup, so a header of line ends is not blank.
    assert_eq!(html.matches("<div class=\"page-header\">").count(), 2);
    assert!(html.contains("<div class=\"page-footer\">1/2</div></section><section class=\"page\">"));
    assert!(html.contains("<div class=\"page-footer\">2/2</div></section>"));
    settings.header_template = " \t\u{a0} ".to_string();
    let html = build_print_html(
        &photos,
        &stub_bytes(&photos),
        GridLayout::OneUp,
        &test_meta(),
        &settings,
        false,
        true,
        0,
    );
    assert_eq!(html.matches("<div class=\"page-header\">").count(), 0);
}

#[test]
fn page_numbers_count_the_title_page() {
    let photos: Vec<PhotoItem> = (1..=3).map(make_photo).collect();
    let html = build_print_html(
        &photos,
        &stub_bytes(&photos),
        GridLayout::TwoUp,
        &test_meta(),
        &PdfSettings::default(),
        true,
        true,
        0,
    );
    assert!(html.contains("<div class=\"page-label\">Page 2</div>"));
    assert!(html.contains("<div class=\"page-label\">Page 3</div>"));
    assert!(!html.contains("<div class=\"page-label\">Page 1</div>"));
    assert_eq!(html.matches("<section class=\"page").count(), 3);
}

#[test]
fn no_title_page_without_content() {
    let photos = vec![make_photo(1)];
    let html = try_build_print_html(
        &photos,
        &stub_bytes(&photos),
        GridLayout::OneUp,
        &ReportMeta::default(),
        &PdfSettings::default(),
        false,
        true,
        1_700_000_000_000,
    )
    .expect("printable");
    assert!(!html.contains("class=\"page cover-page\""));
    assert!(html.contains("<title>gridora-report-43aec9.pdf \u{2014} Gridora Forge Report</title>"));
}

#[test]
fn titles_cannot_open_sections() {
    let mut photos: Vec<PhotoItem> = (1..=2).map(make_photo).collect();
    photos[0].title = "<section class=\"page\">".to_string();
    photos[1].description = "<section class=\"page\">\n<section".to_string();
    let meta =
        ReportMeta { title: "<section class=\"page".to_string(), ..ReportMeta::default() };
    let mut settings = PdfSettings::default();
    settings.header_template = "<section class=\"page{title}".to_string();
    for layout in [GridLayout::OneUp, GridLayout::TwoByThree] {
        let html = build_print_html(
            &photos,
            &stub_bytes(&photos),
            layout,
            &meta,
            &settings,
            true,
            true,
            0,
        );
        let pages = if layout == GridLayout::OneUp { 2 } else { 1 };
        assert_eq!(html.matches("<section class=\"page").count(), pages + 1);
    }
}

#[test]
fn a_titled_report_prints_the_same_at_any_time() {
    let photos = vec![make_photo(1)];
    let at = |now: u64| {
        build_print_html(
            &photos,
            &stub_bytes(&photos),
            GridLayout::OneUp,
            &test_meta(),
            &PdfSettings::default(),
            false,
            false,
            now,
        )
    };
    assert_eq!(at(1), at(2));
}

#[test]
fn the_source_of_a_picture_holds_its_bytes() {
    let photo = make_photo(1);
    let mut bytes = HashMap::new();
    assert_eq!(picture_source_text(&photo, &bytes), "data:image/jpeg;base64,");
    bytes.insert(1, vec![0xFF, 0xD8, 0xFF, 0xD9]);
    let source = picture_source_text(&photo, &bytes);
    assert_eq!(source, "data:image/jpeg;base64,/9j/2Q==");
    assert_eq!(decode_data_url_bytes(&source), Ok(vec![0xFF, 0xD8, 0xFF, 0xD9]));
}

#[test]
fn a_report_with_a_long_address_and_no_title_is_printed() {
    let photos = vec![make_photo(1)];
    let meta = ReportMeta {
        site_address: format!("a{}", "\u{e9}".repeat(20)),
        ..ReportMeta::default()
    };
    let html = try_build_print_html(
        &photos,
        &stub_bytes(&photos),
        GridLayout::OneUp,
        &meta,
        &PdfSettings::default(),
        false,
        false,
        0,
    )
    .expect("printable");
    assert!(html.contains(&format!("<title>a{}-", "\u{e9}".repeat(14))));
}
