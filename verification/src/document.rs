//! What stands in every printed document, and where.
use vstd::prelude::*;

use crate::codec::base64_text;
use crate::escape::{escaped, with_breaks};
use crate::fidelity::{document_in_three, printed_photo_is_complete, regroup};
use crate::filename::export_name;
use crate::layout::{layouts_are_grids, GridLayout};
use crate::number::decimal;
use crate::pages::{all_pages, photo_page_count};
use crate::photo::PhotoItem;
use crate::print::{
    before_pages, cover, cover_count, cover_fields, cover_section, detail, document_head,
    document_title, footer_div, header_div, main_close, main_open, number_div, photo_html,
    picture_source, print_body, print_html, printed_pages, section_foot, section_head, slot_texts,
    stacks,
};
use crate::report::ReportMeta;
use crate::settings::PdfSettings;
use crate::sheet::{
    fixed_text_is_for_letter_paper, DOCUMENT_CLOSE, DOCUMENT_OPEN, DOCUMENT_RULES, DOCUMENT_STYLE,
};
use crate::template::rendered;
use crate::text::{
    begins_with, blank, concat, finishes_with, first_of_joined_occurs, last_of_joined_occurs,
    middle_occurs, occurs, occurs_at, occurs_through, part_occurs,
};

verus! {

// ---------------------------------------------------------------------------
// The head
// ---------------------------------------------------------------------------

/// Every page of a printed document keeps the four margins clear, each on its own side: they are
/// the padding of the letter-sized page, read from the top clockwise.
pub proof fn margins_are_the_padding(
    photos: Seq<PhotoItem>,
    bytes: Map<u64, Vec<u8>>,
    layout: GridLayout,
    meta: &ReportMeta,
    settings: &PdfSettings,
    numbered: bool,
    include_cover: bool,
    now_ms: u64,
)
    ensures
        occurs(
            print_html(photos, bytes, layout, meta, settings, numbered, include_cover, now_ms),
            ".page {\n  width: 8.5in;\n  height: 11in;\n  padding: "@
                + settings.margin_top_in.text@ + "in "@ + settings.margin_right_in.text@ + "in "@
                + settings.margin_bottom_in.text@ + "in "@ + settings.margin_left_in.text@
                + "in;\n"@,
        ),
{
    fixed_text_is_for_letter_paper();
    let fore = ".page {\n  width: 8.5in;\n  height: 11in;\n  padding: "@;
    let unit = "in "@;
    let aft = "in;\n"@;
    let margins = settings.margin_top_in.text@ + unit + settings.margin_right_in.text@ + unit
        + settings.margin_bottom_in.text@ + unit + settings.margin_left_in.text@;
    let title = document_title(meta, now_ms);
    let front = DOCUMENT_STYLE@.take(DOCUMENT_STYLE@.len() - fore.len());
    assert(DOCUMENT_STYLE@ =~= front + fore);
    let back = DOCUMENT_RULES@.skip(aft.len() as int);
    assert(DOCUMENT_RULES@ =~= aft + back);
    let a = DOCUMENT_OPEN@ + title + front;
    let head = document_head(title, settings);
    assert(head =~= a + (fore + margins + aft) + back);
    let body = print_body(photos, bytes, layout, meta, settings, numbered, include_cover);
    middle_occurs(a, fore + margins + aft, back);
    first_of_joined_occurs(head, body, fore + margins + aft);
    first_of_joined_occurs(head + body, DOCUMENT_CLOSE@, fore + margins + aft);
    assert(fore + margins + aft =~= fore + settings.margin_top_in.text@ + unit
        + settings.margin_right_in.text@ + unit + settings.margin_bottom_in.text@ + unit
        + settings.margin_left_in.text@ + aft);
}

/// The document is titled by the report, or by the name of its file where the report has no
/// title; it is set on letter paper and prints itself.
pub proof fn document_has_its_title(
    photos: Seq<PhotoItem>,
    bytes: Map<u64, Vec<u8>>,
    layout: GridLayout,
    meta: &ReportMeta,
    settings: &PdfSettings,
    numbered: bool,
    include_cover: bool,
    now_ms: u64,
)
    ensures
        meta.title@.len() > 0 ==> occurs(
            print_html(photos, bytes, layout, meta, settings, numbered, include_cover, now_ms),
            "<title>"@ + escaped(meta.title@) + " \u{2014} Gridora Forge Report</title>"@,
        ),
        meta.title@.len() == 0 ==> occurs(
            print_html(photos, bytes, layout, meta, settings, numbered, include_cover, now_ms),
            "<title>"@ + escaped(export_name(meta, "pdf"@, now_ms))
                + " \u{2014} Gridora Forge Report</title>"@,
        ),
        begins_with(
            print_html(photos, bytes, layout, meta, settings, numbered, include_cover, now_ms),
            "<!doctype html>"@,
        ),
        occurs(
            print_html(photos, bytes, layout, meta, settings, numbered, include_cover, now_ms),
            "@page { size: letter; margin: 0; }"@,
        ),
        finishes_with(
            print_html(photos, bytes, layout, meta, settings, numbered, include_cover, now_ms),
            "<script>\nwindow.onload = function() { window.print(); };\n</script>\n</body>\n</html>"@,
        ),
{
    fixed_text_is_for_letter_paper();
    let title = document_title(meta, now_ms);
    let body = print_body(photos, bytes, layout, meta, settings, numbered, include_cover);
    let unit = "in "@;
    let margins = settings.margin_top_in.text@ + unit + settings.margin_right_in.text@ + unit
        + settings.margin_bottom_in.text@ + unit + settings.margin_left_in.text@;
    framed(
        DOCUMENT_OPEN@,
        title,
        DOCUMENT_STYLE@,
        margins + DOCUMENT_RULES@ + body,
        DOCUMENT_CLOSE@,
    );
    margins_in_one(
        DOCUMENT_OPEN@ + title + DOCUMENT_STYLE@,
        settings.margin_top_in.text@,
        settings.margin_right_in.text@,
        settings.margin_bottom_in.text@,
        settings.margin_left_in.text@,
        unit,
        DOCUMENT_RULES@,
        body,
        DOCUMENT_CLOSE@,
    );
}

proof fn margins_in_one(
    front: Seq<char>,
    top: Seq<char>,
    right: Seq<char>,
    bottom: Seq<char>,
    left: Seq<char>,
    unit: Seq<char>,
    rules: Seq<char>,
    body: Seq<char>,
    close: Seq<char>,
)
    ensures
        front + top + unit + right + unit + bottom + unit + left + rules + body + close == front + ((
        top + unit + right + unit + bottom + unit + left) + rules + body) + close,
{
    assert(front + top + unit + right + unit + bottom + unit + left + rules + body + close
        =~= front + ((top + unit + right + unit + bottom + unit + left) + rules + body) + close);
}

/// What the opening, the text behind the title and the close of a document hold, it holds.
proof fn framed(
    open: Seq<char>,
    title: Seq<char>,
    style: Seq<char>,
    rest: Seq<char>,
    close: Seq<char>,
)
    ensures
        forall|fore: Seq<char>, aft: Seq<char>|
            finishes_with(open, fore) && begins_with(style, aft) ==> occurs(
                open + title + style + rest + close,
                #[trigger] (fore + title + aft),
            ),
        forall|pat: Seq<char>| #[trigger]
            occurs(style, pat) ==> occurs(open + title + style + rest + close, pat),
        forall|pat: Seq<char>| #[trigger]
            begins_with(open, pat) ==> begins_with(open + title + style + rest + close, pat),
        forall|pat: Seq<char>| #[trigger]
            finishes_with(close, pat) ==> finishes_with(open + title + style + rest + close, pat),
{
    let all = open + title + style + rest + close;
    assert forall|fore: Seq<char>, aft: Seq<char>|
        finishes_with(open, fore) && begins_with(style, aft) implies occurs(
        all,
        #[trigger] (fore + title + aft),
    ) by {
        let at = open.len() - fore.len();
        assert(open.subrange(at, open.len() as int) =~= fore);
        assert(style.subrange(0, aft.len() as int) =~= aft);
        let mid = fore + title + aft;
        assert(all.subrange(at, at + mid.len()) =~= mid);
        assert(occurs_at(all, mid, at));
    }
    assert forall|pat: Seq<char>| #[trigger] occurs(style, pat) implies occurs(all, pat) by {
        last_of_joined_occurs(open + title, style);
        first_of_joined_occurs(open + title + style, rest, style);
        first_of_joined_occurs(open + title + style + rest, close, style);
        let a = choose|a: int| occurs_at(all, style, a);
        let k = choose|k: int| occurs_at(style, pat, k);
        occurs_through(all, style, pat, a, k);
    }
    assert forall|pat: Seq<char>| #[trigger] begins_with(open, pat) implies begins_with(all, pat) by {
        assert(all.subrange(0, pat.len() as int) =~= open.subrange(0, pat.len() as int));
    }
    assert forall|pat: Seq<char>| #[trigger] finishes_with(close, pat) implies finishes_with(
        all,
        pat,
    ) by {
        assert(all.subrange(all.len() - pat.len(), all.len() as int) =~= close.subrange(
            close.len() - pat.len(),
            close.len() as int,
        ));
    }
}

// ---------------------------------------------------------------------------
// The title page
// ---------------------------------------------------------------------------

/// A report of which only one field is filled in.
pub open spec fn only(
    none: String,
    logo: String,
    title: String,
    site: String,
    author: String,
    date: String,
    notes: String,
    k: int,
) -> ReportMeta {
    ReportMeta {
        logo_data_url: if k == 0 {
            logo
        } else {
            none
        },
        title: if k == 1 {
            title
        } else {
            none
        },
        site_address: if k == 2 {
            site
        } else {
            none
        },
        author: if k == 3 {
            author
        } else {
            none
        },
        date: if k == 4 {
            date
        } else {
            none
        },
        notes: if k == 5 {
            notes
        } else {
            none
        },
    }
}

/// The title page shows each field by itself: what it shows of a report is what it shows of the
/// logo alone, of the title alone, of the address, the author, the date and the notes alone, one
/// after the other, whatever the other fields hold.
pub proof fn title_page_shows_each_field_by_itself(meta: &ReportMeta, none: String)
    requires
        none@.len() == 0,
    ensures
        ({
            let part = |k: int|
                cover_fields(
                    &only(
                        none,
                        meta.logo_data_url,
                        meta.title,
                        meta.site_address,
                        meta.author,
                        meta.date,
                        meta.notes,
                        k,
                    ),
                );
            cover_fields(meta) == part(0) + part(1) + part(2) + part(3) + part(4) + part(5)
        }),
{
    let part = |k: int|
        cover_fields(
            &only(
                none,
                meta.logo_data_url,
                meta.title,
                meta.site_address,
                meta.author,
                meta.date,
                meta.notes,
                k,
            ),
        );
    assert(cover_fields(meta) =~= part(0) + part(1) + part(2) + part(3) + part(4) + part(5));
}

/// Every field that is filled in stands on the title page of the printed document under its
/// label, whatever the other fields hold.
pub proof fn filled_in_fields_are_printed(
    photos: Seq<PhotoItem>,
    bytes: Map<u64, Vec<u8>>,
    layout: GridLayout,
    meta: &ReportMeta,
    settings: &PdfSettings,
    numbered: bool,
    now_ms: u64,
)
    ensures
        ({
            let html = print_html(
                photos,
                bytes,
                layout,
                meta,
                settings,
                numbered,
                true,
                now_ms,
            );
            &&& meta.logo_data_url@.len() > 0 ==> occurs(
                html,
                "<div class=\"cover-logo\"><img src=\""@ + meta.logo_data_url@
                    + "\" alt=\"Logo\" /></div>"@,
            )
            &&& meta.title@.len() > 0 ==> occurs(
                html,
                "<h1 class=\"cover-title\">"@ + escaped(meta.title@) + "</h1>"@,
            )
            &&& meta.site_address@.len() > 0 ==> occurs(
                html,
                "<p class=\"cover-detail\"><strong>"@ + "Site / Address"@ + ":</strong> "@
                    + escaped(meta.site_address@) + "</p>"@,
            )
            &&& meta.author@.len() > 0 ==> occurs(
                html,
                "<p class=\"cover-detail\"><strong>"@ + "Prepared By"@ + ":</strong> "@ + escaped(
                    meta.author@,
                ) + "</p>"@,
            )
            &&& meta.date@.len() > 0 ==> occurs(
                html,
                "<p class=\"cover-detail\"><strong>"@ + "Date"@ + ":</strong> "@ + escaped(
                    meta.date@,
                ) + "</p>"@,
            )
            &&& meta.notes@.len() > 0 ==> occurs(
                html,
                "<div class=\"cover-notes\"><strong>Notes:</strong><p>"@ + with_breaks(
                    escaped(meta.notes@),
                ) + "</p></div>"@,
            )
        }),
{
    if meta.has_content() {
        fields_on_the_cover(meta);
        let fields = cover_fields(meta);
        cover_in_the_document(photos, bytes, layout, meta, settings, numbered, now_ms);
        let html = print_html(photos, bytes, layout, meta, settings, numbered, true, now_ms);
        let at = choose|at: int| occurs_at(html, fields, at);
        assert forall|piece: Seq<char>| #[trigger] occurs(fields, piece) implies occurs(
            html,
            piece,
        ) by {
            let k = choose|k: int| occurs_at(fields, piece, k);
            occurs_through(html, fields, piece, at, k);
        }
    }
}

proof fn fields_on_the_cover(meta: &ReportMeta)
    ensures
        ({
            let fields = cover_fields(meta);
            &&& meta.logo_data_url@.len() > 0 ==> occurs(
                fields,
                "<div class=\"cover-logo\"><img src=\""@ + meta.logo_data_url@
                    + "\" alt=\"Logo\" /></div>"@,
            )
            &&& meta.title@.len() > 0 ==> occurs(
                fields,
                "<h1 class=\"cover-title\">"@ + escaped(meta.title@) + "</h1>"@,
            )
            &&& meta.site_address@.len() > 0 ==> occurs(
                fields,
                "<p class=\"cover-detail\"><strong>"@ + "Site / Address"@ + ":</strong> "@
                    + escaped(meta.site_address@) + "</p>"@,
            )
            &&& meta.author@.len() > 0 ==> occurs(
                fields,
                "<p class=\"cover-detail\"><strong>"@ + "Prepared By"@ + ":</strong> "@ + escaped(
                    meta.author@,
                ) + "</p>"@,
            )
            &&& meta.date@.len() > 0 ==> occurs(
                fields,
                "<p class=\"cover-detail\"><strong>"@ + "Date"@ + ":</strong> "@ + escaped(
                    meta.date@,
                ) + "</p>"@,
            )
            &&& meta.notes@.len() > 0 ==> occurs(
                fields,
                "<div class=\"cover-notes\"><strong>Notes:</strong><p>"@ + with_breaks(
                    escaped(meta.notes@),
                ) + "</p></div>"@,
            )
        }),
{
    let logo = if meta.logo_data_url@.len() == 0 {
        Seq::empty()
    } else {
        "<div class=\"cover-logo\"><img src=\""@ + meta.logo_data_url@ + "\" alt=\"Logo\" /></div>"@
    };
    let title = if meta.title@.len() == 0 {
        Seq::empty()
    } else {
        "<h1 class=\"cover-title\">"@ + escaped(meta.title@) + "</h1>"@
    };
    let notes = if meta.notes@.len() == 0 {
        Seq::empty()
    } else {
        "<div class=\"cover-notes\"><strong>Notes:</strong><p>"@ + with_breaks(
            escaped(meta.notes@),
        ) + "</p></div>"@
    };
    let site = detail("Site / Address"@, meta.site_address@);
    let author = detail("Prepared By"@, meta.author@);
    let date = detail("Date"@, meta.date@);
    six_occur(logo, title, site, author, date, notes);
}

proof fn six_occur(
    a: Seq<char>,
    b: Seq<char>,
    c: Seq<char>,
    d: Seq<char>,
    e: Seq<char>,
    f: Seq<char>,
)
    ensures
        occurs(a + b + c + d + e + f, a),
        occurs(a + b + c + d + e + f, b),
        occurs(a + b + c + d + e + f, c),
        occurs(a + b + c + d + e + f, d),
        occurs(a + b + c + d + e + f, e),
        occurs(a + b + c + d + e + f, f),
{
    let parts = seq![a, b, c, d, e, f];
    reveal_with_fuel(concat, 7);
    assert(parts.drop_last() =~= seq![a, b, c, d, e]);
    assert(seq![a, b, c, d, e].drop_last() =~= seq![a, b, c, d]);
    assert(seq![a, b, c, d].drop_last() =~= seq![a, b, c]);
    assert(seq![a, b, c].drop_last() =~= seq![a, b]);
    assert(seq![a, b].drop_last() =~= seq![a]);
    assert(seq![a].drop_last() =~= Seq::<Seq<char>>::empty());
    assert(concat(parts) =~= a + b + c + d + e + f);
    part_occurs(parts, 0);
    part_occurs(parts, 1);
    part_occurs(parts, 2);
    part_occurs(parts, 3);
    part_occurs(parts, 4);
    part_occurs(parts, 5);
}

proof fn cover_in_the_document(
    photos: Seq<PhotoItem>,
    bytes: Map<u64, Vec<u8>>,
    layout: GridLayout,
    meta: &ReportMeta,
    settings: &PdfSettings,
    numbered: bool,
    now_ms: u64,
)
    requires
        meta.has_content(),
    ensures
        occurs(
            print_html(photos, bytes, layout, meta, settings, numbered, true, now_ms),
            cover_fields(meta),
        ),
{
    let total = photo_page_count(photos.len(), layout) + 1;
    let header = header_div(rendered(settings.header_template@, meta, 1, total));
    let footer = footer_div(rendered(settings.footer_template@, meta, 1, total));
    let fields = cover_fields(meta);
    let a = "<section class=\"page cover-page\">"@ + header
        + "<div class=\"page-main cover-main\">"@;
    let page = cover_section(meta, header, footer);
    last_of_joined_occurs(a, fields);
    first_of_joined_occurs(a + fields, "</div>"@, fields);
    first_of_joined_occurs(a + fields + "</div>"@, footer, fields);
    first_of_joined_occurs(a + fields + "</div>"@ + footer, "</section>"@, fields);
    assert(page == a + fields + "</div>"@ + footer + "</section>"@);
    let head = document_head(document_title(meta, now_ms), settings);
    let pages = concat(printed_pages(photos, bytes, layout, meta, settings, numbered, true));
    let k = choose|k: int| occurs_at(page, fields, k);
    middle_occurs(head, page, pages + DOCUMENT_CLOSE@);
    assert(print_html(photos, bytes, layout, meta, settings, numbered, true, now_ms) =~= head + page
        + (pages + DOCUMENT_CLOSE@));
    occurs_through(
        head + page + (pages + DOCUMENT_CLOSE@),
        page,
        fields,
        head.len() as int,
        k,
    );
}

/// An empty field leaves no trace on the title page, and one that is filled in leaves its own
/// text alone.
pub proof fn single_field_is_all_there_is(
    none: String,
    logo: String,
    title: String,
    site: String,
    author: String,
    date: String,
    notes: String,
)
    requires
        none@.len() == 0,
        logo@.len() > 0,
        title@.len() > 0,
        site@.len() > 0,
        author@.len() > 0,
        date@.len() > 0,
        notes@.len() > 0,
    ensures
        ({
            let part = |k: int| cover_fields(&only(none, logo, title, site, author, date, notes, k));
            &&& part(0) == "<div class=\"cover-logo\"><img src=\""@ + logo@
                + "\" alt=\"Logo\" /></div>"@
            &&& part(1) == "<h1 class=\"cover-title\">"@ + escaped(title@) + "</h1>"@
            &&& part(2) == "<p class=\"cover-detail\"><strong>"@ + "Site / Address"@
                + ":</strong> "@ + escaped(site@) + "</p>"@
            &&& part(3) == "<p class=\"cover-detail\"><strong>"@ + "Prepared By"@ + ":</strong> "@
                + escaped(author@) + "</p>"@
            &&& part(4) == "<p class=\"cover-detail\"><strong>"@ + "Date"@ + ":</strong> "@
                + escaped(date@) + "</p>"@
            &&& part(5) == "<div class=\"cover-notes\"><strong>Notes:</strong><p>"@ + with_breaks(
                escaped(notes@),
            ) + "</p></div>"@
            &&& part(6) == Seq::<char>::empty()
        }),
{
    let part = |k: int| cover_fields(&only(none, logo, title, site, author, date, notes, k));
    assert(part(0) =~= "<div class=\"cover-logo\"><img src=\""@ + logo@
        + "\" alt=\"Logo\" /></div>"@);
    assert(part(1) =~= "<h1 class=\"cover-title\">"@ + escaped(title@) + "</h1>"@);
    assert(part(2) =~= "<p class=\"cover-detail\"><strong>"@ + "Site / Address"@ + ":</strong> "@
        + escaped(site@) + "</p>"@);
    assert(part(3) =~= "<p class=\"cover-detail\"><strong>"@ + "Prepared By"@ + ":</strong> "@
        + escaped(author@) + "</p>"@);
    assert(part(4) =~= "<p class=\"cover-detail\"><strong>"@ + "Date"@ + ":</strong> "@ + escaped(
        date@,
    ) + "</p>"@);
    assert(part(5) =~= "<div class=\"cover-notes\"><strong>Notes:</strong><p>"@ + with_breaks(
        escaped(notes@),
    ) + "</p></div>"@);
    assert(part(6) =~= Seq::<char>::empty());
}

/// A report in which any field is filled in gets one title page where one is asked for, and no
/// report gets one otherwise: without a title page the pages of photos follow the head at once.
pub proof fn title_page_is_optional(
    photos: Seq<PhotoItem>,
    bytes: Map<u64, Vec<u8>>,
    layout: GridLayout,
    meta: &ReportMeta,
    settings: &PdfSettings,
    numbered: bool,
    include_cover: bool,
    now_ms: u64,
)
    ensures
        (include_cover && (meta.logo_data_url@.len() > 0 || meta.title@.len() > 0
            || meta.site_address@.len() > 0 || meta.author@.len() > 0 || meta.date@.len() > 0
            || meta.notes@.len() > 0)) <==> cover_count(meta, include_cover) == 1,
        cover_count(meta, include_cover) != 1 ==> cover_count(meta, include_cover) == 0
            && print_html(photos, bytes, layout, meta, settings, numbered, include_cover, now_ms)
            == document_head(document_title(meta, now_ms), settings) + concat(
            printed_pages(photos, bytes, layout, meta, settings, numbered, include_cover),
        ) + DOCUMENT_CLOSE@,
{
    if cover_count(meta, include_cover) != 1 {
        let pages = concat(
            printed_pages(photos, bytes, layout, meta, settings, numbered, include_cover),
        );
        assert(Seq::<char>::empty() + pages =~= pages);
    }
}

/// The title page is page 1 of the document: it has the header and the footer of that page,
/// each only where something is seen of it.
pub proof fn title_page_is_the_first(
    photos: Seq<PhotoItem>,
    bytes: Map<u64, Vec<u8>>,
    layout: GridLayout,
    meta: &ReportMeta,
    settings: &PdfSettings,
    numbered: bool,
    now_ms: u64,
)
    requires
        meta.has_content(),
    ensures
        ({
            let total = photo_page_count(photos.len(), layout) + 1;
            let header = rendered(settings.header_template@, meta, 1, total);
            let footer = rendered(settings.footer_template@, meta, 1, total);
            let page = cover(meta, settings, true, total);
            &&& print_html(photos, bytes, layout, meta, settings, numbered, true, now_ms)
                == document_head(document_title(meta, now_ms), settings)
                + page + concat(
                printed_pages(photos, bytes, layout, meta, settings, numbered, true),
            ) + DOCUMENT_CLOSE@
            &&& occurs(page, cover_fields(meta))
            &&& begins_with(page, "<section class=\"page cover-page\">"@)
            &&& !blank(header) ==> begins_with(
                page,
                "<section class=\"page cover-page\">"@ + "<div class=\"page-header\">"@
                    + header + "</div>"@,
            )
            &&& blank(header) ==> begins_with(
                page,
                "<section class=\"page cover-page\">"@
                    + "<div class=\"page-main cover-main\">"@,
            )
            &&& !blank(footer) ==> finishes_with(
                page,
                "</div>"@ + "<div class=\"page-footer\">"@ + footer + "</div>"@
                    + "</section>"@,
            )
            &&& blank(footer) ==> finishes_with(
                page,
                cover_fields(meta) + "</div>"@ + "</section>"@,
            )
        }),
{
    let total = photo_page_count(photos.len(), layout) + 1;
    let header = rendered(settings.header_template@, meta, 1, total);
    let footer = rendered(settings.footer_template@, meta, 1, total);
    let page = cover_section(meta, header_div(header), footer_div(footer));
    cover_shows(
        "<section class=\"page cover-page\">"@,
        "<div class=\"page-header\">"@,
        header,
        !blank(header),
        "<div class=\"page-main cover-main\">"@,
        cover_fields(meta),
        "<div class=\"page-footer\">"@,
        footer,
        !blank(footer),
        "</div>"@,
        "</section>"@,
    );
    let head = document_head(document_title(meta, now_ms), settings);
    let pages = concat(printed_pages(photos, bytes, layout, meta, settings, numbered, true));
    regroup(head, page, pages, DOCUMENT_CLOSE@);
}

proof fn cover_shows(
    open: Seq<char>,
    header_fore: Seq<char>,
    header: Seq<char>,
    has_header: bool,
    main: Seq<char>,
    fields: Seq<char>,
    footer_fore: Seq<char>,
    footer: Seq<char>,
    has_footer: bool,
    end: Seq<char>,
    close: Seq<char>,
)
    ensures
        ({
            let page = open + between(header_fore, header, end, has_header) + main + fields + end
                + between(footer_fore, footer, end, has_footer) + close;
            &&& occurs(page, fields)
            &&& begins_with(page, open)
            &&& has_header ==> begins_with(page, open + header_fore + header + end)
            &&& !has_header ==> begins_with(page, open + main)
            &&& has_footer ==> finishes_with(page, end + footer_fore + footer + end + close)
            &&& !has_footer ==> finishes_with(page, fields + end + close)
        }),
{
    let h = between(header_fore, header, end, has_header);
    let f = between(footer_fore, footer, end, has_footer);
    let page = open + h + main + fields + end + f + close;
    let none = Seq::<char>::empty();
    let inner = main + fields + end;
    begins_with_first(main, fields + end);
    assert(main + (fields + end) =~= inner);
    finishes_with_last(main + fields, end);
    parts_show(
        open,
        header_fore,
        header,
        has_header,
        none,
        none,
        false,
        inner,
        main,
        footer_fore,
        footer,
        has_footer,
        end,
        close,
    );
    assert(open + h + (none + inner) + f + close =~= page);
    middle_occurs(open + h + main, fields, end + f + close);
    assert((open + h + main) + fields + (end + f + close) =~= page);
    if !has_footer {
        finishes_with_last(open + h + main, fields + end + close);
        assert((open + h + main) + (fields + end + close) =~= page);
    }
}

// ---------------------------------------------------------------------------
// Pages of photos
// ---------------------------------------------------------------------------

/// The document is its head, its title page, its pages of photos in their order, and its close;
/// every page of photos stands in it.
pub proof fn pages_are_printed(
    photos: Seq<PhotoItem>,
    bytes: Map<u64, Vec<u8>>,
    layout: GridLayout,
    meta: &ReportMeta,
    settings: &PdfSettings,
    numbered: bool,
    include_cover: bool,
    now_ms: u64,
    page: int,
)
    requires
        0 <= page < photo_page_count(photos.len(), layout),
    ensures
        ({
            let pages = printed_pages(
                photos,
                bytes,
                layout,
                meta,
                settings,
                numbered,
                include_cover,
            );
            let html = print_html(photos, bytes, layout, meta, settings, numbered, include_cover, now_ms);
            &&& pages.len() == photo_page_count(photos.len(), layout)
            &&& finishes_with(html, concat(pages) + DOCUMENT_CLOSE@)
            &&& occurs(html, pages[page])
        }),
{
    let pages = printed_pages(photos, bytes, layout, meta, settings, numbered, include_cover);
    let front = before_pages(photos, layout, meta, settings, include_cover, now_ms);
    document_in_three(
        photos,
        bytes,
        layout,
        meta,
        settings,
        numbered,
        include_cover,
        now_ms,
    );
    part_of_three(front, pages, DOCUMENT_CLOSE@, page);
}

proof fn part_of_three(front: Seq<char>, parts: Seq<Seq<char>>, close: Seq<char>, k: int)
    requires
        0 <= k < parts.len(),
    ensures
        finishes_with(front + concat(parts) + close, concat(parts) + close),
        occurs(front + concat(parts) + close, parts[k]),
{
    let body = concat(parts);
    let html = front + body + close;
    assert(html.subrange(html.len() - (body + close).len(), html.len() as int) =~= body + close);
    middle_occurs(front, body, close);
    part_occurs(parts, k);
    occurs_through(html, body, parts[k], front.len() as int, concat(parts.take(k)).len() as int);
}

/// Every page of photos begins with its header and ends with its footer, each rendered for that
/// page and only where something is seen of it; the pages are counted from 1, the title page
/// among them.
pub proof fn pages_have_header_and_footer(
    photos: Seq<PhotoItem>,
    bytes: Map<u64, Vec<u8>>,
    layout: GridLayout,
    meta: &ReportMeta,
    settings: &PdfSettings,
    numbered: bool,
    include_cover: bool,
    page: int,
)
    requires
        0 <= page < photo_page_count(photos.len(), layout),
    ensures
        ({
            let covers = cover_count(meta, include_cover);
            let total = photo_page_count(photos.len(), layout) + covers;
            let number = (page + 1 + covers) as nat;
            let header = rendered(settings.header_template@, meta, number, total);
            let footer = rendered(settings.footer_template@, meta, number, total);
            let text = printed_pages(
                photos,
                bytes,
                layout,
                meta,
                settings,
                numbered,
                include_cover,
            )[page];
            &&& begins_with(text, "<section class=\"page\">"@)
            &&& finishes_with(text, "</div>"@ + "</section>"@)
            &&& !blank(header) ==> begins_with(
                text,
                "<section class=\"page\">"@ + "<div class=\"page-header\">"@ + header + "</div>"@,
            )
            &&& !blank(footer) ==> finishes_with(
                text,
                "</div>"@ + "<div class=\"page-footer\">"@ + footer + "</div>"@ + "</section>"@,
            )
            &&& numbered && blank(header) ==> begins_with(
                text,
                "<section class=\"page\">"@ + "<div class=\"page-label\">Page "@ + decimal(number)
                    + "</div>"@,
            )
            &&& numbered && !blank(header) ==> begins_with(
                text,
                "<section class=\"page\">"@ + "<div class=\"page-header\">"@ + header + "</div>"@
                    + "<div class=\"page-label\">Page "@ + decimal(number) + "</div>"@,
            )
            &&& !numbered && blank(header) ==> begins_with(
                text,
                "<section class=\"page\">"@ + "<div class=\"page-main\">"@,
            )
        }),
{
    let covers = cover_count(meta, include_cover);
    let total = photo_page_count(photos.len(), layout) + covers;
    let number = (page + 1 + covers) as nat;
    let header = rendered(settings.header_template@, meta, number, total);
    let footer = rendered(settings.footer_template@, meta, number, total);
    let text = printed_pages(photos, bytes, layout, meta, settings, numbered, include_cover)[page];
    let label = number_div(numbered, number);
    let photo_texts = concat(slot_texts(all_pages(photos, layout)[page], bytes, layout));
    let main = main_open(layout) + photo_texts + main_close(layout);
    main_begins_and_ends(layout, photo_texts);
    parts_show(
        "<section class=\"page\">"@,
        "<div class=\"page-header\">"@,
        header,
        !blank(header),
        "<div class=\"page-label\">Page "@,
        decimal(number),
        numbered,
        main,
        "<div class=\"page-main\">"@,
        "<div class=\"page-footer\">"@,
        footer,
        !blank(footer),
        "</div>"@,
        "</section>"@,
    );
    section_in_order(
        "<section class=\"page\">"@,
        header_div(header),
        label,
        main_open(layout),
        photo_texts,
        main_close(layout),
        footer_div(footer),
        "</section>"@,
    );
}

proof fn section_in_order(
    a: Seq<char>,
    b: Seq<char>,
    c: Seq<char>,
    d: Seq<char>,
    e: Seq<char>,
    f: Seq<char>,
    g: Seq<char>,
    h: Seq<char>,
)
    ensures
        (a + b + c + d) + e + (f + g + h) == a + b + (c + (d + e + f)) + g + h,
{
    assert((a + b + c + d) + e + (f + g + h) =~= a + b + (c + (d + e + f)) + g + h);
}

/// A text between two others, where it is shown.
spec fn between(fore: Seq<char>, text: Seq<char>, end: Seq<char>, shown: bool) -> Seq<char> {
    if shown {
        fore + text + end
    } else {
        Seq::empty()
    }
}

proof fn parts_show(
    open: Seq<char>,
    header_fore: Seq<char>,
    header: Seq<char>,
    has_header: bool,
    label_fore: Seq<char>,
    label: Seq<char>,
    has_label: bool,
    main: Seq<char>,
    main_fore: Seq<char>,
    footer_fore: Seq<char>,
    footer: Seq<char>,
    has_footer: bool,
    end: Seq<char>,
    close: Seq<char>,
)
    requires
        begins_with(main, main_fore),
        finishes_with(main, end),
    ensures
        ({
            let text = open + between(header_fore, header, end, has_header) + (between(
                label_fore,
                label,
                end,
                has_label,
            ) + main) + between(footer_fore, footer, end, has_footer) + close;
            &&& begins_with(text, open)
            &&& finishes_with(text, end + close)
            &&& has_header ==> begins_with(text, open + header_fore + header + end)
            &&& has_footer ==> finishes_with(text, end + footer_fore + footer + end + close)
            &&& has_label && !has_header ==> begins_with(text, open + label_fore + label + end)
            &&& has_label && has_header ==> begins_with(
                text,
                open + header_fore + header + end + label_fore + label + end,
            )
            &&& !has_label && !has_header ==> begins_with(text, open + main_fore)
        }),
{
    let h = between(header_fore, header, end, has_header);
    let l = between(label_fore, label, end, has_label);
    let f = between(footer_fore, footer, end, has_footer);
    let text = open + h + (l + main) + f + close;
    parts_begin(
        open,
        header_fore,
        header,
        has_header,
        label_fore,
        label,
        has_label,
        main,
        main_fore,
        end,
        f + close,
    );
    parts_end(open + h + l, main, footer_fore, footer, has_footer, end, close);
    assert(open + h + (l + main) + (f + close) =~= text);
    assert((open + h + l) + main + f + close =~= text);
}

proof fn parts_begin(
    open: Seq<char>,
    header_fore: Seq<char>,
    header: Seq<char>,
    has_header: bool,
    label_fore: Seq<char>,
    label: Seq<char>,
    has_label: bool,
    main: Seq<char>,
    main_fore: Seq<char>,
    end: Seq<char>,
    rest: Seq<char>,
)
    requires
        begins_with(main, main_fore),
    ensures
        ({
            let text = open + between(header_fore, header, end, has_header) + (between(
                label_fore,
                label,
                end,
                has_label,
            ) + main) + rest;
            &&& begins_with(text, open)
            &&& has_header ==> begins_with(text, open + header_fore + header + end)
            &&& has_label && !has_header ==> begins_with(text, open + label_fore + label + end)
            &&& has_label && has_header ==> begins_with(
                text,
                open + header_fore + header + end + label_fore + label + end,
            )
            &&& !has_label && !has_header ==> begins_with(text, open + main_fore)
        }),
{
    let h = between(header_fore, header, end, has_header);
    let l = between(label_fore, label, end, has_label);
    let text = open + h + (l + main) + rest;
    begins_with_first(open, h + (l + main) + rest);
    assert(open + (h + (l + main) + rest) =~= text);
    if has_header {
        let fore = open + header_fore + header + end;
        begins_with_first(fore, l + main + rest);
        assert(fore + (l + main + rest) =~= text);
        if has_label {
            let more = open + header_fore + header + end + label_fore + label + end;
            begins_with_first(more, main + rest);
            assert(more + (main + rest) =~= text);
        }
    } else if has_label {
        let fore = open + label_fore + label + end;
        begins_with_first(fore, main + rest);
        assert(fore + (main + rest) =~= text);
    } else {
        let tail = main.skip(main_fore.len() as int);
        assert(main =~= main_fore + tail) by {
            assert(main.subrange(0, main_fore.len() as int) =~= main_fore);
        }
        begins_with_first(open + main_fore, tail + rest);
        assert((open + main_fore) + (tail + rest) =~= open + (main_fore + tail) + rest);
        assert(text =~= open + main + rest);
    }
}

proof fn parts_end(
    before: Seq<char>,
    main: Seq<char>,
    footer_fore: Seq<char>,
    footer: Seq<char>,
    has_footer: bool,
    end: Seq<char>,
    close: Seq<char>,
)
    requires
        finishes_with(main, end),
    ensures
        ({
            let text = before + main + between(footer_fore, footer, end, has_footer) + close;
            &&& finishes_with(text, end + close)
            &&& has_footer ==> finishes_with(text, end + footer_fore + footer + end + close)
        }),
{
    let f = between(footer_fore, footer, end, has_footer);
    let text = before + main + f + close;
    let lead = main.take(main.len() - end.len());
    assert(main =~= lead + end) by {
        assert(main.subrange(main.len() - end.len(), main.len() as int) =~= end);
    }
    if has_footer {
        let last = end + footer_fore + footer + end + close;
        finishes_with_last(before + lead, last);
        assert((before + lead) + last =~= before + (lead + end) + f + close);
        finishes_with_last(before + main + footer_fore + footer, end + close);
        assert((before + main + footer_fore + footer) + (end + close) =~= text);
    } else {
        finishes_with_last(before + lead, end + close);
        assert((before + lead) + (end + close) =~= before + (lead + end) + f + close);
    }
}

proof fn begins_with_first(a: Seq<char>, b: Seq<char>)
    ensures
        begins_with(a + b, a),
{
    assert((a + b).subrange(0, a.len() as int) =~= a);
}

proof fn finishes_with_last(a: Seq<char>, b: Seq<char>)
    ensures
        finishes_with(a + b, b),
{
    let all = a + b;
    assert(all.subrange(all.len() - b.len(), all.len() as int) =~= b);
}

proof fn main_begins_and_ends(layout: GridLayout, photo_texts: Seq<char>)
    ensures
        begins_with(
            main_open(layout) + photo_texts + main_close(layout),
            "<div class=\"page-main\">"@,
        ),
        finishes_with(main_open(layout) + photo_texts + main_close(layout), "</div>"@),
{
    reveal_strlit("<div class=\"page-main\">");
    reveal_strlit("<div class=\"page-main\"><div class=\"grid rows-");
    reveal_strlit("</div>");
    reveal_strlit("</div></div>");
    let main = main_open(layout) + photo_texts + main_close(layout);
    let open = "<div class=\"page-main\">"@;
    let end = "</div>"@;
    assert(main.subrange(0, open.len() as int) =~= open);
    assert(main.subrange(main.len() - end.len(), main.len() as int) =~= end);
}

/// A page of photos has a slot for each of its places: the photos of the list stand in them in
/// their order, and a place beyond the last photo shows as an empty cell in a grid and not at
/// all in a stack.
pub proof fn pages_hold_their_slots(
    photos: Seq<PhotoItem>,
    bytes: Map<u64, Vec<u8>>,
    layout: GridLayout,
    meta: &ReportMeta,
    settings: &PdfSettings,
    numbered: bool,
    include_cover: bool,
    page: int,
)
    requires
        0 <= page < photo_page_count(photos.len(), layout),
    ensures
        exists|head: Seq<char>, texts: Seq<Seq<char>>, foot: Seq<char>|
            {
                &&& printed_pages(
                    photos,
                    bytes,
                    layout,
                    meta,
                    settings,
                    numbered,
                    include_cover,
                )[page] == #[trigger] (head + concat(texts) + foot)
                &&& texts.len() == layout.row_count() * layout.col_count()
                &&& forall|slot: int|
                    0 <= slot < texts.len() ==> #[trigger] texts[slot] == (if page * texts.len()
                        + slot < photos.len() {
                        photo_html(photos[page * texts.len() + slot], bytes, layout)
                    } else if layout.col_count() == 1 {
                        Seq::empty()
                    } else {
                        "<div class=\"cell empty-cell\"><span>Empty</span></div>"@
                    })
                &&& layout.col_count() == 1 ==> {
                    &&& finishes_with(head, "<div class=\"page-main\">"@)
                    &&& begins_with(foot, "</div>"@)
                }
                &&& layout.col_count() > 1 ==> {
                    &&& finishes_with(
                        head,
                        "<div class=\"page-main\"><div class=\"grid rows-"@ + decimal(
                            layout.row_count(),
                        ) + "\">"@,
                    )
                    &&& begins_with(foot, "</div></div>"@)
                }
            },
{
    let covers = cover_count(meta, include_cover);
    let total = photo_page_count(photos.len(), layout) + covers;
    let number = (page + 1 + covers) as nat;
    let header = header_div(rendered(settings.header_template@, meta, number, total));
    let footer = footer_div(rendered(settings.footer_template@, meta, number, total));
    let label = number_div(numbered, number);
    let head = section_head(layout, header, label);
    let foot = section_foot(layout, footer);
    let slots = all_pages(photos, layout)[page];
    let texts = slot_texts(slots, bytes, layout);
    layouts_are_grids(layout, layout);
    assert(printed_pages(
        photos,
        bytes,
        layout,
        meta,
        settings,
        numbered,
        include_cover,
    )[page] == head + concat(texts) + foot);
    assert(texts.len() == layout.slots());
    assert(page * texts.len() == page * layout.slots());
    finishes_with_last("<section class=\"page\">"@ + header + label, main_open(layout));
    begins_with_first(main_close(layout), footer + "</section>"@);
    assert(main_close(layout) + (footer + "</section>"@) =~= foot);
}

/// Only a single column stacks its photos; for every grid the fixed text has the rule that sets
/// as many rows as the layout has.
pub proof fn every_grid_has_its_rule(layout: GridLayout)
    ensures
        stacks(layout) <==> layout.col_count() == 1,
        layout.col_count() > 1 ==> occurs(
            DOCUMENT_RULES@,
            ".grid.rows-"@ + decimal(layout.row_count()) + " { grid-template-rows: repeat("@
                + decimal(layout.row_count()) + ", 1fr); }"@,
        ),
{
    fixed_text_is_for_letter_paper();
    reveal_strlit(".grid.rows-");
    reveal_strlit(" { grid-template-rows: repeat(");
    reveal_strlit(", 1fr); }");
    reveal_strlit(".grid.rows-2 { grid-template-rows: repeat(2, 1fr); }");
    reveal_strlit(".grid.rows-3 { grid-template-rows: repeat(3, 1fr); }");
    if layout.col_count() > 1 {
        let rows = layout.row_count();
        let rule = ".grid.rows-"@ + decimal(rows) + " { grid-template-rows: repeat("@ + decimal(
            rows,
        ) + ", 1fr); }"@;
        reveal_with_fuel(decimal, 2);
        assert(decimal(2) =~= seq!['2']);
        assert(decimal(3) =~= seq!['3']);
        if rows == 2 {
            assert(rule =~= ".grid.rows-2 { grid-template-rows: repeat(2, 1fr); }"@);
        } else {
            assert(rule =~= ".grid.rows-3 { grid-template-rows: repeat(3, 1fr); }"@);
        }
    }
}

// ---------------------------------------------------------------------------
// Photos
// ---------------------------------------------------------------------------

/// Two photos that are the same but for the description print the same but for the description:
/// it adds one piece of text to the caption and changes nothing else.
pub proof fn description_adds_itself(
    photo: PhotoItem,
    plain: PhotoItem,
    bytes: Map<u64, Vec<u8>>,
    layout: GridLayout,
)
    requires
        photo.id == plain.id,
        photo.mime == plain.mime,
        photo.title == plain.title,
        photo.rotation_quadrants == plain.rotation_quadrants,
        photo.description@.len() > 0,
        plain.description@.len() == 0,
    ensures
        exists|a: Seq<char>, b: Seq<char>|
            {
                &&& photo_html(plain, bytes, layout) == #[trigger] (a + b)
                &&& finishes_with(a, "<strong>"@ + escaped(photo.title@) + "</strong>"@)
                &&& layout.col_count() == 1 ==> photo_html(photo, bytes, layout) == a + ("<p>"@
                    + with_breaks(escaped(photo.description@)) + "</p>"@) + b
                &&& layout.col_count() > 1 ==> photo_html(photo, bytes, layout) == a + (
                "<br/><span class=\"desc\">"@ + escaped(photo.description@) + "</span>"@) + b
            },
{
    let source = picture_source(photo, bytes);
    let title = escaped(photo.title@);
    if stacks(layout) {
        let lead = "<div class=\"photo-block\"><div class=\"photo-media\"><img src=\""@ + source
            + "\" alt=\""@ + title + "\" style=\""@ + photo.style();
        let join = "\" /></div><div class=\"caption\"><strong>"@;
        caption_ends(lead, join, title);
        let a = lead + join + title + "</strong>"@;
        let b = "</div></div>"@;
        assert(a + Seq::<char>::empty() =~= a);
        assert(photo_html(plain, bytes, layout) == a + b);
    } else {
        let lead = "<figure class=\"cell\"><div class=\"cell-media\"><img src=\""@ + source
            + "\" alt=\""@ + title + "\" style=\""@ + photo.style();
        let join = "\" /></div><figcaption><strong>"@;
        caption_ends(lead, join, title);
        let a = lead + join + title + "</strong>"@;
        let b = "</figcaption></figure>"@;
        assert(a + Seq::<char>::empty() =~= a);
        assert(photo_html(plain, bytes, layout) == a + b);
    }
}

proof fn caption_ends(lead: Seq<char>, join: Seq<char>, title: Seq<char>)
    ensures
        finishes_with(join, "<strong>"@) ==> finishes_with(
            lead + join + title + "</strong>"@,
            "<strong>"@ + title + "</strong>"@,
        ),
        finishes_with("\" /></div><div class=\"caption\"><strong>"@, "<strong>"@),
        finishes_with("\" /></div><figcaption><strong>"@, "<strong>"@),
{
    reveal_strlit("<strong>");
    reveal_strlit("\" /></div><div class=\"caption\"><strong>");
    reveal_strlit("\" /></div><figcaption><strong>");
    let strong = "<strong>"@;
    let one = "\" /></div><div class=\"caption\"><strong>"@;
    let two = "\" /></div><figcaption><strong>"@;
    assert(one.subrange(one.len() - strong.len(), one.len() as int) =~= strong);
    assert(two.subrange(two.len() - strong.len(), two.len() as int) =~= strong);
    if finishes_with(join, strong) {
        let fore = join.take(join.len() - strong.len());
        assert(join.subrange(join.len() - strong.len(), join.len() as int) =~= strong);
        assert(join =~= fore + strong);
        let last = strong + title + "</strong>"@;
        finishes_with_last(lead + fore, last);
        assert((lead + fore) + last =~= lead + (fore + strong) + title + "</strong>"@);
    }
}

/// The picture of a printed photo is its exported bytes, or nothing where none were exported;
/// whatever was exported for other photos does not count.
pub proof fn picture_is_the_photos_own(
    photo: PhotoItem,
    bytes: Map<u64, Vec<u8>>,
    other: Map<u64, Vec<u8>>,
    layout: GridLayout,
)
    ensures
        bytes.contains_key(photo.id) ==> occurs(
            photo_html(photo, bytes, layout),
            "<img src=\""@ + ("data:"@ + photo.mime@ + ";base64,"@ + base64_text(
                bytes[photo.id]@,
            )) + "\" alt=\""@ + escaped(photo.title@) + "\" style=\""@ + photo.style() + "\" />"@,
        ),
        !bytes.contains_key(photo.id) ==> occurs(
            photo_html(photo, bytes, layout),
            "<img src=\""@ + ("data:"@ + photo.mime@ + ";base64,"@) + "\" alt=\""@ + escaped(
                photo.title@,
            ) + "\" style=\""@ + photo.style() + "\" />"@,
        ),
        bytes.contains_key(photo.id) == other.contains_key(photo.id) && (bytes.contains_key(
            photo.id,
        ) ==> bytes[photo.id]@ == other[photo.id]@) ==> photo_html(photo, bytes, layout)
            == photo_html(photo, other, layout),
{
    printed_photo_is_complete(photo, bytes, layout);
    let plain = "data:"@ + photo.mime@ + ";base64,"@;
    assert(plain + Seq::<char>::empty() =~= plain);
}

} // verus!
