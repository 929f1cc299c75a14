use gridora_forge::codec::{
    can_encode, decode_data_url_bytes, encode_data_url, payload_bytes, split_payload, DataUrlError,
};
use gridora_forge::compress::{no_picture_message, ExportSearch, EXPORT_TARGET_MAX_BYTES};
use gridora_forge::double::Double;
use gridora_forge::escape::{break_lines, html_escape, html_escape_lines};
use gridora_forge::number::{decimal_text, hex_tail_text, padded_text, parse_index};
use gridora_forge::report::ReportMeta;
use gridora_forge::settings::{update_pdf_margin, Margin, PdfSettings};
use gridora_forge::template::apply_pdf_template;
use gridora_forge::text::{
    contains, ends_with, is_blank, join_strings, replace_all, replace_char, same_text, starts_with,
};
use gridora_forge::unicode::is_white_space;

fn margin(x: f64) -> Margin {
    Margin { value: Double { bits: x.to_bits() }, text: x.to_string() }
}

#[test]
fn escaping_replaces_the_five_characters() {
    assert_eq!(html_escape("a & b < c > d \" e ' f"), "a &amp; b &lt; c &gt; d &quot; e &#39; f");
    assert_eq!(html_escape("&amp;"), "&amp;amp;");
    assert_eq!(html_escape(""), "");
    assert_eq!(html_escape("\u{1F4F7}\n"), "\u{1F4F7}\n");
    assert_eq!(break_lines("a\nb\n"), "a<br/>b<br/>");
    assert_eq!(html_escape_lines("<\n>"), "&lt;<br/>&gt;");
}

#[test]
fn escaped_texts_join_and_stay_apart() {
    let texts = ["", "&", "&amp;", "<", "&lt;", "'", "a\"b", "#39;"];
    for a in texts {
        for b in texts {
            assert_eq!(html_escape(&format!("{a}{b}")), html_escape(a) + &html_escape(b));
            assert_eq!(html_escape(a) == html_escape(b), a == b);
        }
        assert_eq!(
            html_escape(a),
            a.replace('&', "&amp;")
                .replace('<', "&lt;")
                .replace('>', "&gt;")
                .replace('"', "&quot;")
                .replace('\'', "&#39;")
        );
    }
}

#[test]
fn texts_are_searched_and_replaced() {
    assert!(contains("hay needle", "needle") && contains("x", "") && contains("", ""));
    assert!(!contains("hay", "needle"));
    assert!(starts_with("image/png", "image/") && !starts_with("im", "image/"));
    assert!(ends_with("a.heic", ".heic") && !ends_with("heic", ".heic"));
    assert!(same_text("a", "a") && !same_text("a", "ab") && !same_text("a", "b"));
    assert_eq!(replace_all("aaaa", "aa", "b"), "bb");
    assert_eq!(replace_all("aXbXc", "X", "--"), "a--b--c");
    assert_eq!(replace_all("abc", "abcd", "x"), "abc");
    assert_eq!(replace_char("a.b.", '.', ""), "ab");
    assert!(is_blank(" \t\u{2003}\n") && is_blank("") && !is_blank(" x "));
    assert_eq!(join_strings(&vec!["a".to_string(), String::new(), "b".to_string()], "-"), "a--b");
    assert_eq!(join_strings(&Vec::new(), "-"), "");
}

#[test]
fn numbers_are_written_and_read() {
    assert_eq!(decimal_text(0), "0");
    assert_eq!(decimal_text(u64::MAX), u64::MAX.to_string());
    assert_eq!(padded_text(7, 2), "07");
    assert_eq!(padded_text(12345, 4), "12345");
    assert_eq!(hex_tail_text(0xabcdef12), "cdef12");
    assert_eq!(hex_tail_text(0x5), "000005");
    for n in [0usize, 7, 10, 123456, usize::MAX] {
        assert_eq!(parse_index(&decimal_text(n as u64)), Some(n));
    }
    assert_eq!(parse_index("+5"), Some(5));
    assert_eq!(parse_index("007"), Some(7));
    assert_eq!(parse_index("18446744073709551616"), None);
    for bad in ["", "+", "-1", " 1", "1a", "\u{0661}"] {
        assert_eq!(parse_index(bad), None);
    }
}

#[test]
fn templates_fill_in_every_token() {
    let meta = ReportMeta {
        title: "T<1>".to_string(),
        site_address: "S".to_string(),
        author: "A".to_string(),
        date: "D".to_string(),
        notes: "n\nm".to_string(),
        logo_data_url: String::new(),
    };
    assert_eq!(
        apply_pdf_template(
            "{title}|{site_address}|{author}|{date}|{notes}|{page}|{total_pages}|{logo}",
            &meta,
            3,
            12
        ),
        "T&lt;1&gt;|S|A|D|n<br/>m|3|12|{logo}"
    );
    assert_eq!(apply_pdf_template("{page}{page}", &meta, 1, 2), "11");
    assert_eq!(apply_pdf_template("", &meta, 1, 2), "");
    assert_eq!(apply_pdf_template("plain & \"quoted\"", &meta, 1, 2), "plain &amp; &quot;quoted&quot;");
}

#[test]
fn tokens_in_earlier_fields_are_filled_in_too() {
    let meta = ReportMeta {
        title: "by {author} on {page}".to_string(),
        author: "{title}".to_string(),
        ..ReportMeta::default()
    };
    assert_eq!(apply_pdf_template("{title}", &meta, 4, 9), "by {title} on 4");
}

#[test]
fn margins_stay_in_range() {
    let mut s = PdfSettings::default();
    assert_eq!(s.margin_left_in, margin(0.25));
    assert_eq!(s.header_template, "");
    update_pdf_margin(&mut s, "top", margin(0.5));
    update_pdf_margin(&mut s, "right", margin(-3.0));
    update_pdf_margin(&mut s, "bottom", margin(7.5));
    update_pdf_margin(&mut s, "middle", margin(1.0));
    assert_eq!(s.margin_top_in, margin(0.5));
    assert_eq!(s.margin_right_in, margin(0.0));
    assert_eq!(s.margin_bottom_in, margin(2.0));
    assert_eq!(s.margin_left_in, margin(0.25));
    update_pdf_margin(&mut s, "left", margin(f64::NAN));
    assert_eq!(s.margin_left_in.text, "NaN");
    update_pdf_margin(&mut s, "left", margin(2.0));
    assert_eq!(s.margin_left_in, margin(2.0));
}

#[test]
fn margins_clamp_as_numbers_do() {
    for x in [-1.0f64, -0.0, 0.0, 0.05, 1.999, 2.0, 2.0001, f64::INFINITY, f64::NEG_INFINITY] {
        let clamped = margin(x).clamp();
        let wanted = x.clamp(0.0, 2.0);
        assert_eq!(clamped.value.bits, wanted.to_bits());
        assert_eq!(clamped.text, wanted.to_string());
    }
}

#[test]
fn data_urls_give_their_bytes_back() {
    let url = encode_data_url("image/jpeg", b"hello");
    assert_eq!(url, "data:image/jpeg;base64,aGVsbG8=");
    assert_eq!(decode_data_url_bytes(&url), Ok(b"hello".to_vec()));
    assert_eq!(split_payload("a,b,c"), Some("b,c".to_string()));
    assert_eq!(split_payload("abc"), None);
    let bytes: Vec<u8> = (0..=255u8).collect();
    assert_eq!(decode_data_url_bytes(&encode_data_url("x", &bytes)), Ok(bytes));
    assert!(can_encode(1_000_000));
    assert!(!can_encode(usize::MAX));
}

#[test]
fn broken_data_urls_say_why() {
    assert_eq!(decode_data_url_bytes("no comma"), Err(DataUrlError::MissingPayload));
    assert_eq!(decode_data_url_bytes("data:,***"), Err(DataUrlError::BadBase64));
    assert_eq!(payload_bytes(Ok(vec![1])), Ok(vec![1]));
    assert_eq!(DataUrlError::MissingPayload.message(), "data URL missing payload");
    assert_eq!(DataUrlError::BadBase64.message(), "data URL base64 decode failed");
}

#[test]
fn the_first_small_picture_is_taken() {
    let mut search = ExportSearch::new();
    assert_eq!(search.next_step(), Some((1600, 80)));
    assert_eq!(search.consider(vec![0; EXPORT_TARGET_MAX_BYTES + 5]), None);
    assert_eq!(search.next_step(), Some((1400, 74)));
    assert_eq!(search.consider(vec![1; EXPORT_TARGET_MAX_BYTES]).map(|b| b.len()), Some(400_000));
}

#[test]
fn the_smallest_picture_is_kept_where_all_are_large() {
    let mut search = ExportSearch::new();
    let sizes = [9, 3, 3, 7];
    let mut steps = Vec::new();
    for (n, extra) in sizes.iter().enumerate() {
        steps.push(search.next_step().expect("a step"));
        assert_eq!(search.consider(vec![n as u8; EXPORT_TARGET_MAX_BYTES + extra]), None);
    }
    assert_eq!(steps, vec![(1600, 80), (1400, 74), (1200, 68), (1000, 62)]);
    assert_eq!(search.next_step(), None);
    let best = search.finish().expect("a picture");
    assert_eq!(best.len(), EXPORT_TARGET_MAX_BYTES + 3);
    assert_eq!(best[0], 1);
    assert_eq!(ExportSearch::new().finish(), None);
    assert_eq!(no_picture_message(), "failed to compress export image");
}

#[test]
fn pictures_are_judged_from_their_urls() {
    let mut search = ExportSearch::new();
    assert_eq!(search.consider_url("data:image/jpeg;base64,aGVsbG8="), Ok(Some(b"hello".to_vec())));
    assert_eq!(search.consider_url("broken"), Err(DataUrlError::MissingPayload));
    assert_eq!(search.consider_url("data:,?"), Err(DataUrlError::BadBase64));
    let large = encode_data_url("image/jpeg", &vec![0u8; EXPORT_TARGET_MAX_BYTES + 1]);
    assert_eq!(search.consider_url(&large), Ok(None));
    assert_eq!(search.finish().map(|b| b.len()), Some(400_001));
}

/// Undoes the five entities, the one for the ampersand last.
fn unescape(s: &str) -> String {
    let s = replace_all(s, "&lt;", "<");
    let s = replace_all(&s, "&gt;", ">");
    let s = replace_all(&s, "&quot;", "\"");
    let s = replace_all(&s, "&#39;", "'");
    replace_all(&s, "&amp;", "&")
}

#[test]
fn escaping_can_be_undone() {
    let texts = ["", "plain", "&", "&lt;", "&amp;lt;", "<a href=\"x\">'&'</a>", "&&&", "&#39;"];
    for text in texts {
        let escaped = html_escape(text);
        assert_eq!(unescape(&escaped), text);
        let is_plain = !text.contains(['&', '<', '>', '"', '\'']);
        assert_eq!(escaped == text, is_plain);
        for (i, _) in escaped.match_indices('&') {
            let rest = &escaped[i..];
            assert!(["&amp;", "&lt;", "&gt;", "&quot;", "&#39;"].iter().any(|e| rest.starts_with(e)));
        }
    }
}

#[test]
fn white_space_is_twenty_five_characters() {
    let mut found = Vec::new();
    for c in '\u{0}'..=char::MAX {
        let blank = is_blank(c.encode_utf8(&mut [0; 4]));
        assert_eq!(blank, c.is_whitespace());
        assert_eq!(blank, is_white_space(c));
        if blank {
            found.push(c as u32);
        }
    }
    let mut wanted: Vec<u32> = (0x9..=0xd).collect();
    wanted.extend([0x20, 0x85, 0xa0, 0x1680]);
    wanted.extend(0x2000..=0x200a);
    wanted.extend([0x2028, 0x2029, 0x202f, 0x205f, 0x3000]);
    assert_eq!(found, wanted);
    assert_eq!(found.len(), 25);
}
