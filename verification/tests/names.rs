use gridora_forge::filename::{
    export_filename, join_name, name_char, sanitize, shorten, trim_char,
};
use gridora_forge::report::{iso_date, ReportMeta};

fn meta(title: &str, site: &str, author: &str, date: &str, notes: &str) -> ReportMeta {
    ReportMeta {
        title: title.to_string(),
        site_address: site.to_string(),
        author: author.to_string(),
        date: date.to_string(),
        notes: notes.to_string(),
        logo_data_url: String::new(),
    }
}

#[test]
fn names_are_made_of_the_fields() {
    let m = meta("Site Report", "123 Main St", "John Doe", "2026-03-21", "n");
    assert_eq!(
        export_filename(&m, "pdf", 1_700_000_000_000),
        "Site_Report-123_Main_St-John_Doe-2026-03-21-409c9b.pdf"
    );
}

#[test]
fn a_report_without_fields_has_a_name_of_its_own() {
    assert_eq!(
        export_filename(&ReportMeta::default(), "pdf", 1_700_000_000_000),
        "gridora-report-43aec9.pdf"
    );
    assert_eq!(
        export_filename(&meta("", "", "", "", "Only notes"), "xlsx", 0),
        "gridora-report-97a72c.xlsx"
    );
}

#[test]
fn long_fields_are_cut_at_a_word() {
    let m = meta("A very long report title that goes on and on", "", "", "", "");
    assert_eq!(export_filename(&m, "pdf", 7), "A_very_long_report_title_that-c6cf89.pdf");
    assert_eq!(shorten("aaaa_bbbbbbbbbb".to_string(), 10), "aaaa_bbbbb");
    assert_eq!(shorten("aaaaaa_bbbbbbbb".to_string(), 10), "aaaaaa");
    assert_eq!(shorten("aaaaa_bbbbbbbb".to_string(), 10), "aaaaa_bbbb");
    assert_eq!(shorten("short".to_string(), 10), "short");
}

#[test]
fn fields_are_made_safe() {
    assert_eq!(sanitize("  Roof / North: 50%  "), "Roof___North__50");
    assert_eq!(sanitize("\u{c4}rger-1"), "\u{c4}rger-1");
    assert_eq!(sanitize("***"), "");
    assert_eq!(name_char('a', true), 'a');
    assert_eq!(name_char('/', false), '_');
    assert_eq!(name_char('-', false), '-');
    assert_eq!(trim_char(&['_', '_', 'a', '_', 'b', '_'], '_'), "a_b");
}

#[test]
fn a_cut_never_falls_inside_a_character() {
    let long = format!("a{}", "\u{e9}".repeat(20));
    assert_eq!(shorten(long.clone(), 30), format!("a{}", "\u{e9}".repeat(14)));
    assert_eq!(shorten(long.clone(), 31), format!("a{}", "\u{e9}".repeat(15)));
    assert_eq!(shorten("\u{1F4F7}".to_string(), 3), "");
    let name = export_filename(&meta(&long, "", "", "", ""), "pdf", 0);
    assert!(name.starts_with(&format!("a{}-", "\u{e9}".repeat(14))));
    let name = export_filename(&meta("", "", &"\u{4e2d}".repeat(9), "", ""), "pdf", 0);
    assert!(name.starts_with(&format!("{}-", "\u{4e2d}".repeat(6))));
}

#[test]
fn every_ascii_character_is_kept_or_replaced() {
    for c in (0u8..128).map(char::from) {
        let kept = c.is_ascii_alphanumeric() || c == '-';
        assert_eq!(sanitize(&format!("x{c}x")), if kept { format!("x{c}x") } else { "x_x".to_string() });
    }
}

#[test]
fn names_differ_by_time() {
    let m = meta("T", "", "", "", "");
    assert_ne!(export_filename(&m, "pdf", 1), export_filename(&m, "pdf", 2));
    let parts = vec!["a".to_string(), "b".to_string()];
    assert_eq!(join_name(parts, "", "txt"), "a-b-001505.txt");
}

#[test]
fn dates_are_padded() {
    assert_eq!(iso_date(2026, 2, 21), "2026-03-21");
    assert_eq!(iso_date(33, 11, 5), "0033-12-05");
}

#[test]
fn a_report_starts_with_example_fields() {
    let m = ReportMeta::starter("2026-03-21".to_string());
    assert_eq!(m.title, "Report Title");
    assert_eq!(m.site_address, "123 Site Address, 12345 ST");
    assert_eq!(m.author, "The Author");
    assert_eq!(m.date, "2026-03-21");
    assert_eq!(m.notes, "Photos and descriptions of 123 Site Address, 12345 ST");
    assert!(m.has_cover_page(true));
    assert!(!m.has_cover_page(false));
    assert!(!ReportMeta::default().has_cover_page(true));
}
