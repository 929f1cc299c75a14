//! One section per page: how many pages open in the printed document.
use vstd::prelude::*;

use crate::escape::{escaped, escaped_holds_no_markup, is_markup, with_breaks};
use crate::filename::export_name;
use crate::layout::GridLayout;
use crate::number::{decimal, decimal_has_its_value, is_digit};
use crate::pages::{all_pages, photo_page_count};
use crate::photo::PhotoItem;
use crate::print::{
    block, cell, cover_count, cover_fields, cover_section, detail, document_head, document_title,
    footer_div, header_div, main_close, main_open, number_div, picture_source, print_body,
    print_html, printed_pages, section, slot_html, slot_texts, stacks,
};
use crate::report::ReportMeta;
use crate::settings::PdfSettings;
use crate::sheet::{
    fixed_text_opens_nothing, DOCUMENT_CLOSE, DOCUMENT_OPEN, DOCUMENT_RULES, DOCUMENT_STYLE,
};
use crate::template::{filled_in, rendered};
use crate::text::{begins_with, concat};

verus! {

/// How many pages open in a piece of HTML.
pub open spec fn openings(html: Seq<char>) -> nat
    decreases html.len(),
{
    if html.len() == 0 {
        0
    } else {
        openings(html.drop_first()) + (if begins_with(html, "<section class=\"page"@) {
            1nat
        } else {
            0nat
        })
    }
}

/// Whether a text holds no opening bracket.
pub open spec fn bracketless(s: Seq<char>) -> bool {
    forall|i: int| 0 <= i < s.len() ==> #[trigger] s[i] != '<'
}

// ---------------------------------------------------------------------------
// Text in which no section begins
// ---------------------------------------------------------------------------

/// Whether each opening bracket of a text is followed by two characters of the text that do not
/// begin the word "section".
pub open spec fn quiet(s: Seq<char>) -> bool {
    forall|i: int|
        0 <= i < s.len() && #[trigger] s[i] == '<' ==> i + 2 < s.len() && !(s[i + 1] == 's' && s[i
            + 2] == 'e')
}

proof fn quiet_joined(a: Seq<char>, b: Seq<char>)
    requires
        quiet(a),
        quiet(b),
    ensures
        quiet(a + b),
{
    let s = a + b;
    assert forall|i: int| 0 <= i < s.len() && #[trigger] s[i] == '<' implies i + 2 < s.len() && !(
    s[i + 1] == 's' && s[i + 2] == 'e') by {
        if i < a.len() {
            assert(a[i] == '<');
        } else {
            assert(b[i - a.len()] == '<');
        }
    }
}

proof fn quiet_concat(parts: Seq<Seq<char>>)
    requires
        forall|i: int| 0 <= i < parts.len() ==> quiet(#[trigger] parts[i]),
    ensures
        quiet(concat(parts)),
    decreases parts.len(),
{
    if parts.len() > 0 {
        let rest = parts.drop_last();
        assert forall|i: int| 0 <= i < rest.len() implies quiet(#[trigger] rest[i]) by {
            assert(rest[i] == parts[i]);
        }
        quiet_concat(rest);
        quiet_joined(concat(rest), parts.last());
    }
}

proof fn quiet_text_opens_nothing(a: Seq<char>, b: Seq<char>)
    requires
        quiet(a),
    ensures
        openings(a + b) == openings(b),
    decreases a.len(),
{
    if a.len() == 0 {
        assert(a + b =~= b);
    } else {
        let s = a + b;
        let rest = a.drop_first();
        assert(s.drop_first() =~= rest + b);
        assert(quiet(rest)) by {
            assert forall|i: int| 0 <= i < rest.len() && #[trigger] rest[i] == '<' implies i + 2
                < rest.len() && !(rest[i + 1] == 's' && rest[i + 2] == 'e') by {
                assert(a[i + 1] == '<');
            }
        }
        quiet_text_opens_nothing(rest, b);
        reveal_strlit("<section class=\"page");
        let pat = "<section class=\"page"@;
        if begins_with(s, pat) {
            let front = s.subrange(0, pat.len() as int);
            assert(front[0] == '<' && front[1] == 's' && front[2] == 'e');
            assert(s[0] == '<' && s[1] == 's' && s[2] == 'e');
            assert(a[0] == '<');
            assert(false);
        }
    }
}

proof fn opening_counts(rest: Seq<char>)
    ensures
        openings("<section class=\"page"@ + rest) == 1 + openings(rest),
{
    reveal_strlit("<section class=\"page");
    let pat = "<section class=\"page"@;
    let s = pat + rest;
    assert(s.subrange(0, pat.len() as int) =~= pat);
    let tail = pat.drop_first();
    assert(s.drop_first() =~= tail + rest);
    assert(bracketless(tail));
    quiet_text_opens_nothing(tail, rest);
}

// ---------------------------------------------------------------------------
// Written text
// ---------------------------------------------------------------------------

proof fn escaped_is_bracketless(s: Seq<char>)
    ensures
        bracketless(escaped(s)),
{
    escaped_holds_no_markup(s);
    assert forall|i: int| 0 <= i < escaped(s).len() implies #[trigger] escaped(s)[i] != '<' by {
        assert(!is_markup(escaped(s)[i]));
    }
}

proof fn breaks_are_quiet(s: Seq<char>)
    requires
        bracketless(s),
    ensures
        quiet(with_breaks(s)),
    decreases s.len(),
{
    if s.len() > 0 {
        let rest = s.drop_last();
        assert forall|i: int| 0 <= i < rest.len() implies #[trigger] rest[i] != '<' by {
            assert(rest[i] == s[i]);
        }
        breaks_are_quiet(rest);
        assert(s[s.len() - 1] != '<');
        let last = if s.last() == '\n' {
            "<br/>"@
        } else {
            seq![s.last()]
        };
        reveal_strlit("<br/>");
        assert(quiet(last));
        quiet_joined(with_breaks(rest), last);
    }
}

proof fn broken_text_is_quiet(s: Seq<char>)
    ensures
        quiet(escaped(s)),
        quiet(with_breaks(escaped(s))),
{
    escaped_is_bracketless(s);
    breaks_are_quiet(escaped(s));
}

proof fn decimal_is_quiet(n: nat)
    ensures
        quiet(decimal(n)),
{
    decimal_has_its_value(n);
    assert forall|i: int| 0 <= i < decimal(n).len() implies #[trigger] decimal(n)[i] != '<' by {
        assert(is_digit(decimal(n)[i]));
    }
}

// ---------------------------------------------------------------------------
// Photos
// ---------------------------------------------------------------------------

proof fn style_is_quiet(photo: PhotoItem)
    ensures
        quiet(photo.style()),
{
    reveal_strlit("transform: rotate(");
    reveal_strlit("deg);");
    decimal_is_quiet(photo.degrees());
    if photo.degrees() != 0 {
        quiet_joined("transform: rotate("@, decimal(photo.degrees()));
        quiet_joined("transform: rotate("@ + decimal(photo.degrees()), "deg);"@);
    }
}

proof fn block_is_quiet(photo: PhotoItem, source: Seq<char>)
    requires
        bracketless(source),
    ensures
        quiet(block(photo, source)),
{
    let title = escaped(photo.title@);
    broken_text_is_quiet(photo.title@);
    broken_text_is_quiet(photo.description@);
    style_is_quiet(photo);
    let note = if photo.description@.len() == 0 {
        Seq::empty()
    } else {
        "<p>"@ + with_breaks(escaped(photo.description@)) + "</p>"@
    };
    assert(quiet(note)) by {
        reveal_strlit("<p>");
        reveal_strlit("</p>");
        if photo.description@.len() > 0 {
            quiet_joined("<p>"@, with_breaks(escaped(photo.description@)));
            quiet_joined("<p>"@ + with_breaks(escaped(photo.description@)), "</p>"@);
        }
    }
    let l1 = "<div class=\"photo-block\"><div class=\"photo-media\"><img src=\""@;
    let l2 = "\" alt=\""@;
    let l3 = "\" style=\""@;
    let l4 = "\" /></div><div class=\"caption\"><strong>"@;
    let l5 = "</strong>"@;
    let l6 = "</div></div>"@;
    assert(quiet(l1) && quiet(l2) && quiet(l3) && quiet(l4) && quiet(l5) && quiet(l6)) by {
        reveal_strlit("<div class=\"photo-block\"><div class=\"photo-media\"><img src=\"");
        reveal_strlit("\" alt=\"");
        reveal_strlit("\" style=\"");
        reveal_strlit("\" /></div><div class=\"caption\"><strong>");
        reveal_strlit("</strong>");
        reveal_strlit("</div></div>");
    }
    picture_is_quiet(l1, source, l2, title, l3, photo.style(), l4, l5, note, l6);
}

proof fn cell_is_quiet(photo: PhotoItem, source: Seq<char>)
    requires
        bracketless(source),
    ensures
        quiet(cell(photo, source)),
{
    let title = escaped(photo.title@);
    broken_text_is_quiet(photo.title@);
    broken_text_is_quiet(photo.description@);
    style_is_quiet(photo);
    let note = if photo.description@.len() == 0 {
        Seq::empty()
    } else {
        "<br/><span class=\"desc\">"@ + escaped(photo.description@) + "</span>"@
    };
    assert(quiet(note)) by {
        reveal_strlit("<br/><span class=\"desc\">");
        reveal_strlit("</span>");
        if photo.description@.len() > 0 {
            quiet_joined("<br/><span class=\"desc\">"@, escaped(photo.description@));
            quiet_joined("<br/><span class=\"desc\">"@ + escaped(photo.description@), "</span>"@);
        }
    }
    let l1 = "<figure class=\"cell\"><div class=\"cell-media\"><img src=\""@;
    let l2 = "\" alt=\""@;
    let l3 = "\" style=\""@;
    let l4 = "\" /></div><figcaption><strong>"@;
    let l5 = "</strong>"@;
    let l6 = "</figcaption></figure>"@;
    assert(quiet(l1) && quiet(l2) && quiet(l3) && quiet(l4) && quiet(l5) && quiet(l6)) by {
        reveal_strlit("<figure class=\"cell\"><div class=\"cell-media\"><img src=\"");
        reveal_strlit("\" alt=\"");
        reveal_strlit("\" style=\"");
        reveal_strlit("\" /></div><figcaption><strong>");
        reveal_strlit("</strong>");
        reveal_strlit("</figcaption></figure>");
    }
    picture_is_quiet(l1, source, l2, title, l3, photo.style(), l4, l5, note, l6);
}

proof fn picture_is_quiet(
    l1: Seq<char>,
    source: Seq<char>,
    l2: Seq<char>,
    title: Seq<char>,
    l3: Seq<char>,
    style: Seq<char>,
    l4: Seq<char>,
    l5: Seq<char>,
    note: Seq<char>,
    l6: Seq<char>,
)
    requires
        quiet(l1),
        quiet(source),
        quiet(l2),
        quiet(title),
        quiet(l3),
        quiet(style),
        quiet(l4),
        quiet(l5),
        quiet(note),
        quiet(l6),
    ensures
        quiet(l1 + source + l2 + title + l3 + style + l4 + title + l5 + note + l6),
{
    quiet_joined(l1, source);
    quiet_joined(l1 + source, l2);
    quiet_joined(l1 + source + l2, title);
    quiet_joined(l1 + source + l2 + title, l3);
    quiet_joined(l1 + source + l2 + title + l3, style);
    quiet_joined(l1 + source + l2 + title + l3 + style, l4);
    quiet_joined(l1 + source + l2 + title + l3 + style + l4, title);
    quiet_joined(l1 + source + l2 + title + l3 + style + l4 + title, l5);
    quiet_joined(l1 + source + l2 + title + l3 + style + l4 + title + l5, note);
    quiet_joined(l1 + source + l2 + title + l3 + style + l4 + title + l5 + note, l6);
}

proof fn slots_are_quiet(
    slots: Seq<Option<PhotoItem>>,
    bytes: Map<u64, Vec<u8>>,
    layout: GridLayout,
)
    requires
        forall|i: int|
            0 <= i < slots.len() ==> (#[trigger] slots[i] matches Some(photo) ==> bracketless(
                picture_source(photo, bytes),
            )),
    ensures
        quiet(concat(slot_texts(slots, bytes, layout))),
{
    let texts = slot_texts(slots, bytes, layout);
    assert forall|i: int| 0 <= i < texts.len() implies quiet(#[trigger] texts[i]) by {
        assert(texts[i] == slot_html(slots[i], bytes, layout));
        match slots[i] {
            Some(photo) => {
                if stacks(layout) {
                    block_is_quiet(photo, picture_source(photo, bytes));
                } else {
                    cell_is_quiet(photo, picture_source(photo, bytes));
                }
            },
            None => {
                reveal_strlit("<div class=\"cell empty-cell\"><span>Empty</span></div>");
            },
        }
    }
    quiet_concat(texts);
}

// ---------------------------------------------------------------------------
// Pages
// ---------------------------------------------------------------------------

proof fn chrome_is_quiet(header: Seq<char>, footer: Seq<char>)
    requires
        quiet(header),
        quiet(footer),
    ensures
        quiet(header_div(header)),
        quiet(footer_div(footer)),
{
    reveal_strlit("<div class=\"page-header\">");
    reveal_strlit("<div class=\"page-footer\">");
    reveal_strlit("</div>");
    quiet_joined("<div class=\"page-header\">"@, header);
    quiet_joined("<div class=\"page-header\">"@ + header, "</div>"@);
    quiet_joined("<div class=\"page-footer\">"@, footer);
    quiet_joined("<div class=\"page-footer\">"@ + footer, "</div>"@);
}

proof fn number_is_quiet(shown: bool, number: nat)
    ensures
        quiet(number_div(shown, number)),
{
    reveal_strlit("<div class=\"page-label\">Page ");
    reveal_strlit("</div>");
    decimal_is_quiet(number);
    quiet_joined("<div class=\"page-label\">Page "@, decimal(number));
    quiet_joined("<div class=\"page-label\">Page "@ + decimal(number), "</div>"@);
}

proof fn main_is_quiet(layout: GridLayout)
    ensures
        quiet(main_open(layout)),
        quiet(main_close(layout)),
{
    reveal_strlit("<div class=\"page-main\">");
    reveal_strlit("<div class=\"page-main\"><div class=\"grid rows-");
    reveal_strlit("\">");
    reveal_strlit("</div>");
    reveal_strlit("</div></div>");
    decimal_is_quiet(layout.row_count());
    quiet_joined(
        "<div class=\"page-main\"><div class=\"grid rows-"@,
        decimal(layout.row_count()),
    );
    quiet_joined(
        "<div class=\"page-main\"><div class=\"grid rows-"@ + decimal(layout.row_count()),
        "\">"@,
    );
}

proof fn section_opens_once(
    layout: GridLayout,
    header: Seq<char>,
    label: Seq<char>,
    slots: Seq<Seq<char>>,
    footer: Seq<char>,
    rest: Seq<char>,
)
    requires
        quiet(header),
        quiet(label),
        quiet(concat(slots)),
        quiet(footer),
    ensures
        openings(section(layout, header, label, slots, footer) + rest) == 1 + openings(rest),
{
    main_is_quiet(layout);
    let pat = "<section class=\"page"@;
    let end = "\">"@;
    let close = "</section>"@;
    assert(quiet(end) && quiet(close) && "<section class=\"page\">"@ =~= pat + end) by {
        reveal_strlit("\">");
        reveal_strlit("</section>");
        reveal_strlit("<section class=\"page\">");
        reveal_strlit("<section class=\"page");
    }
    let a = end + header;
    let b = a + label;
    let c = b + main_open(layout);
    let d = c + concat(slots);
    let e = main_close(layout) + footer + close;
    quiet_joined(end, header);
    quiet_joined(a, label);
    quiet_joined(b, main_open(layout));
    quiet_joined(c, concat(slots));
    quiet_joined(main_close(layout), footer);
    quiet_joined(main_close(layout) + footer, close);
    quiet_joined(d, e);
    assert(section(layout, header, label, slots, footer) + rest =~= pat + ((d + e) + rest));
    opening_counts((d + e) + rest);
    quiet_text_opens_nothing(d + e, rest);
}

proof fn pages_open_once(sections: Seq<Seq<char>>, rest: Seq<char>)
    requires
        forall|i: int, tail: Seq<char>|
            0 <= i < sections.len() ==> #[trigger] openings(sections[i] + tail) == 1 + openings(
                tail,
            ),
    ensures
        openings(concat(sections) + rest) == sections.len() + openings(rest),
    decreases sections.len(),
{
    if sections.len() == 0 {
        assert(concat(sections) + rest =~= rest);
    } else {
        let front = sections.drop_last();
        assert forall|i: int, tail: Seq<char>| 0 <= i < front.len() implies #[trigger] openings(
            front[i] + tail,
        ) == 1 + openings(tail) by {
            assert(front[i] == sections[i]);
            assert(openings(sections[i] + tail) == 1 + openings(tail));
        }
        pages_open_once(front, sections.last() + rest);
        assert(concat(sections) + rest =~= concat(front) + (sections.last() + rest));
        assert(sections.last() == sections[sections.len() - 1]);
        assert(openings(sections[sections.len() - 1] + rest) == 1 + openings(rest));
    }
}

// ---------------------------------------------------------------------------
// The title page
// ---------------------------------------------------------------------------

proof fn detail_is_quiet(label: Seq<char>, value: Seq<char>)
    requires
        quiet(label),
    ensures
        quiet(detail(label, value)),
{
    reveal_strlit("<p class=\"cover-detail\"><strong>");
    reveal_strlit(":</strong> ");
    reveal_strlit("</p>");
    broken_text_is_quiet(value);
    let a = "<p class=\"cover-detail\"><strong>"@;
    quiet_joined(a, label);
    quiet_joined(a + label, ":</strong> "@);
    quiet_joined(a + label + ":</strong> "@, escaped(value));
    quiet_joined(a + label + ":</strong> "@ + escaped(value), "</p>"@);
}

proof fn cover_fields_are_quiet(meta: &ReportMeta)
    requires
        bracketless(meta.logo_data_url@),
    ensures
        quiet(cover_fields(meta)),
{
    let logo = if meta.logo_data_url@.len() == 0 {
        Seq::empty()
    } else {
        "<div class=\"cover-logo\"><img src=\""@ + meta.logo_data_url@ + "\" alt=\"Logo\" /></div>"@
    };
    assert(quiet(logo)) by {
        reveal_strlit("<div class=\"cover-logo\"><img src=\"");
        reveal_strlit("\" alt=\"Logo\" /></div>");
        let a = "<div class=\"cover-logo\"><img src=\""@;
        quiet_joined(a, meta.logo_data_url@);
        quiet_joined(a + meta.logo_data_url@, "\" alt=\"Logo\" /></div>"@);
    }
    let title = if meta.title@.len() == 0 {
        Seq::empty()
    } else {
        "<h1 class=\"cover-title\">"@ + escaped(meta.title@) + "</h1>"@
    };
    assert(quiet(title)) by {
        reveal_strlit("<h1 class=\"cover-title\">");
        reveal_strlit("</h1>");
        broken_text_is_quiet(meta.title@);
        quiet_joined("<h1 class=\"cover-title\">"@, escaped(meta.title@));
        quiet_joined("<h1 class=\"cover-title\">"@ + escaped(meta.title@), "</h1>"@);
    }
    let notes = if meta.notes@.len() == 0 {
        Seq::empty()
    } else {
        "<div class=\"cover-notes\"><strong>Notes:</strong><p>"@ + with_breaks(
            escaped(meta.notes@),
        ) + "</p></div>"@
    };
    assert(quiet(notes)) by {
        reveal_strlit("<div class=\"cover-notes\"><strong>Notes:</strong><p>");
        reveal_strlit("</p></div>");
        broken_text_is_quiet(meta.notes@);
        let a = "<div class=\"cover-notes\"><strong>Notes:</strong><p>"@;
        quiet_joined(a, with_breaks(escaped(meta.notes@)));
        quiet_joined(a + with_breaks(escaped(meta.notes@)), "</p></div>"@);
    }
    reveal_strlit("Site / Address");
    reveal_strlit("Prepared By");
    reveal_strlit("Date");
    let site = detail("Site / Address"@, meta.site_address@);
    let author = detail("Prepared By"@, meta.author@);
    let date = detail("Date"@, meta.date@);
    detail_is_quiet("Site / Address"@, meta.site_address@);
    detail_is_quiet("Prepared By"@, meta.author@);
    detail_is_quiet("Date"@, meta.date@);
    quiet_joined(logo, title);
    quiet_joined(logo + title, site);
    quiet_joined(logo + title + site, author);
    quiet_joined(logo + title + site + author, date);
    quiet_joined(logo + title + site + author + date, notes);
}

proof fn cover_opens_once(
    meta: &ReportMeta,
    header: Seq<char>,
    footer: Seq<char>,
    rest: Seq<char>,
)
    requires
        bracketless(meta.logo_data_url@),
        quiet(header),
        quiet(footer),
    ensures
        openings(cover_section(meta, header, footer) + rest) == 1 + openings(rest),
{
    cover_fields_are_quiet(meta);
    let pat = "<section class=\"page"@;
    let end = " cover-page\">"@;
    let main = "<div class=\"page-main cover-main\">"@;
    let div = "</div>"@;
    let close = "</section>"@;
    assert(quiet(end) && quiet(main) && quiet(div) && quiet(close)
        && "<section class=\"page cover-page\">"@ =~= pat + end) by {
        reveal_strlit(" cover-page\">");
        reveal_strlit("<div class=\"page-main cover-main\">");
        reveal_strlit("</div>");
        reveal_strlit("</section>");
        reveal_strlit("<section class=\"page cover-page\">");
        reveal_strlit("<section class=\"page");
    }
    let a = end + header;
    let b = a + main;
    let c = b + cover_fields(meta);
    let d = c + div;
    let e = d + footer;
    let f = e + close;
    quiet_joined(end, header);
    quiet_joined(a, main);
    quiet_joined(b, cover_fields(meta));
    quiet_joined(c, div);
    quiet_joined(d, footer);
    quiet_joined(e, close);
    assert(cover_section(meta, header, footer) + rest =~= pat + (f + rest));
    opening_counts(f + rest);
    quiet_text_opens_nothing(f, rest);
}

// ---------------------------------------------------------------------------
// The law
// ---------------------------------------------------------------------------

/// In the printed document one section opens for each page of photos and one for the title
/// page, where there is one, and no other, whatever stands in the titles, the descriptions, the
/// report and the templates. The pictures' sources, the logo and the margins are written as they
/// are, so none of them may hold an opening bracket.
pub proof fn one_section_per_page(
    photos: Seq<PhotoItem>,
    bytes: Map<u64, Vec<u8>>,
    layout: GridLayout,
    meta: &ReportMeta,
    settings: &PdfSettings,
    numbered: bool,
    include_cover: bool,
    now_ms: u64,
)
    requires
        forall|i: int|
            0 <= i < photos.len() ==> bracketless(picture_source(#[trigger] photos[i], bytes)),
        bracketless(meta.logo_data_url@),
        margins_bracketless(settings),
    ensures
        openings(
            print_html(photos, bytes, layout, meta, settings, numbered, include_cover, now_ms),
        ) == photo_page_count(photos.len(), layout) + cover_count(meta, include_cover),
{
    let head = document_head(document_title(meta, now_ms), settings);
    let body = print_body(photos, bytes, layout, meta, settings, numbered, include_cover);
    let close = DOCUMENT_CLOSE@;
    head_is_quiet(meta, settings, now_ms);
    fixed_text_opens_nothing();
    body_opens_pages(photos, bytes, layout, meta, settings, numbered, include_cover, close);
    quiet_text_opens_nothing(head, body + close);
    quiet_text_opens_nothing(close, Seq::empty());
    assert(close + Seq::<char>::empty() =~= close);
    assert(head + body + close =~= head + (body + close));
}

/// Whether no margin is written with an opening bracket.
pub open spec fn margins_bracketless(settings: &PdfSettings) -> bool {
    &&& bracketless(settings.margin_top_in.text@)
    &&& bracketless(settings.margin_right_in.text@)
    &&& bracketless(settings.margin_bottom_in.text@)
    &&& bracketless(settings.margin_left_in.text@)
}

proof fn head_is_quiet(meta: &ReportMeta, settings: &PdfSettings, now_ms: u64)
    requires
        margins_bracketless(settings),
    ensures
        quiet(document_head(document_title(meta, now_ms), settings)),
{
    let title = document_title(meta, now_ms);
    broken_text_is_quiet(meta.title@);
    broken_text_is_quiet(export_name(meta, "pdf"@, now_ms));
    fixed_text_opens_nothing();
    reveal_strlit("in ");
    let unit = "in "@;
    let a = DOCUMENT_OPEN@ + title;
    let b = a + DOCUMENT_STYLE@;
    let c = b + settings.margin_top_in.text@ + unit;
    let d = c + settings.margin_right_in.text@ + unit;
    let e = d + settings.margin_bottom_in.text@ + unit;
    quiet_joined(DOCUMENT_OPEN@, title);
    quiet_joined(a, DOCUMENT_STYLE@);
    quiet_joined(b, settings.margin_top_in.text@);
    quiet_joined(b + settings.margin_top_in.text@, unit);
    quiet_joined(c, settings.margin_right_in.text@);
    quiet_joined(c + settings.margin_right_in.text@, unit);
    quiet_joined(d, settings.margin_bottom_in.text@);
    quiet_joined(d + settings.margin_bottom_in.text@, unit);
    quiet_joined(e, settings.margin_left_in.text@);
    quiet_joined(e + settings.margin_left_in.text@, DOCUMENT_RULES@);
}

proof fn body_opens_pages(
    photos: Seq<PhotoItem>,
    bytes: Map<u64, Vec<u8>>,
    layout: GridLayout,
    meta: &ReportMeta,
    settings: &PdfSettings,
    numbered: bool,
    include_cover: bool,
    rest: Seq<char>,
)
    requires
        forall|i: int|
            0 <= i < photos.len() ==> bracketless(picture_source(#[trigger] photos[i], bytes)),
        bracketless(meta.logo_data_url@),
    ensures
        openings(
            print_body(photos, bytes, layout, meta, settings, numbered, include_cover) + rest,
        ) == photo_page_count(photos.len(), layout) + cover_count(meta, include_cover) + openings(
            rest,
        ),
{
    let sections = printed_pages(photos, bytes, layout, meta, settings, numbered, include_cover);
    let pages = all_pages(photos, layout);
    let covers = cover_count(meta, include_cover);
    let total = photo_page_count(photos.len(), layout) + covers;
    assert forall|i: int, tail: Seq<char>| 0 <= i < sections.len() implies #[trigger] openings(
        sections[i] + tail,
    ) == 1 + openings(tail) by {
        let number = (i + 1 + covers) as nat;
        let header = rendered(settings.header_template@, meta, number, total);
        let footer = rendered(settings.footer_template@, meta, number, total);
        broken_text_is_quiet(filled_in(settings.header_template@, meta, number, total));
        broken_text_is_quiet(filled_in(settings.footer_template@, meta, number, total));
        chrome_is_quiet(header, footer);
        number_is_quiet(numbered, number);
        assert forall|k: int| 0 <= k < pages[i].len() implies (#[trigger] pages[i][k] matches Some(
            photo,
        ) ==> bracketless(picture_source(photo, bytes))) by {
            let place = i * layout.slots() + k;
            if pages[i][k] is Some {
                assert(pages[i][k] == Some(photos[place]));
            }
        }
        slots_are_quiet(pages[i], bytes, layout);
        section_opens_once(
            layout,
            header_div(header),
            number_div(numbered, number),
            slot_texts(pages[i], bytes, layout),
            footer_div(footer),
            tail,
        );
    }
    let all = concat(sections) + rest;
    let body = print_body(photos, bytes, layout, meta, settings, numbered, include_cover);
    pages_open_once(sections, rest);
    if include_cover && meta.has_content() {
        let header = rendered(settings.header_template@, meta, 1, total);
        let footer = rendered(settings.footer_template@, meta, 1, total);
        broken_text_is_quiet(filled_in(settings.header_template@, meta, 1, total));
        broken_text_is_quiet(filled_in(settings.footer_template@, meta, 1, total));
        chrome_is_quiet(header, footer);
        cover_opens_once(meta, header_div(header), footer_div(footer), all);
        assert(body + rest =~= cover_section(meta, header_div(header), footer_div(footer)) + all);
    } else {
        assert(body + rest =~= all);
    }
}

} // verus!
