//! What every printed document keeps: each photo, in its order, with its caption and rotation.
use vstd::prelude::*;

use crate::escape::{escaped, with_breaks};
use crate::layout::GridLayout;
use crate::pages::{all_pages, photo_page_count, photo_stands_on_its_page};
use crate::photo::PhotoItem;
use crate::print::{
    before_pages, block, cell, cover, cover_count, document_head, document_title, footer_div,
    header_div, number_div, page_section, photo_html, picture_source, print_html, printed_pages,
    section_foot, section_head, slot_texts, stacks,
};
use crate::report::ReportMeta;
use crate::settings::PdfSettings;
use crate::sheet::DOCUMENT_CLOSE;
use crate::template::rendered;
use crate::text::{
    concat, first_of_joined_occurs, last_of_joined_occurs, middle_occurs, occurs, occurs_at,
    occurs_through, part_occurs, parts_before,
};

verus! {

// ---------------------------------------------------------------------------
// Order
// ---------------------------------------------------------------------------

/// Where the `i`-th photo begins in the printed document.
pub open spec fn photo_place(
    photos: Seq<PhotoItem>,
    bytes: Map<u64, Vec<u8>>,
    layout: GridLayout,
    meta: &ReportMeta,
    settings: &PdfSettings,
    numbered: bool,
    include_cover: bool,
    now_ms: u64,
    i: int,
) -> int {
    let page = i / layout.slots() as int;
    let slot = i % layout.slots() as int;
    let covers = cover_count(meta, include_cover);
    let total = photo_page_count(photos.len(), layout) + covers;
    let number = (page + 1 + covers) as nat;
    (before_pages(photos, layout, meta, settings, include_cover, now_ms).len() + concat(
        printed_pages(photos, bytes, layout, meta, settings, numbered, include_cover).take(page),
    ).len() + section_head(
        layout,
        header_div(rendered(settings.header_template@, meta, number, total)),
        number_div(numbered, number),
    ).len() + concat(
        slot_texts(all_pages(photos, layout)[page], bytes, layout).take(slot),
    ).len()) as int
}

/// Every photo of the list stands in the printed document.
#[verifier::spinoff_prover]
pub proof fn photo_is_printed(
    photos: Seq<PhotoItem>,
    bytes: Map<u64, Vec<u8>>,
    layout: GridLayout,
    meta: &ReportMeta,
    settings: &PdfSettings,
    numbered: bool,
    include_cover: bool,
    now_ms: u64,
    i: int,
)
    requires
        0 <= i < photos.len(),
    ensures
        occurs_at(
            print_html(photos, bytes, layout, meta, settings, numbered, include_cover, now_ms),
            photo_html(photos[i], bytes, layout),
            photo_place(
                photos,
                bytes,
                layout,
                meta,
                settings,
                numbered,
                include_cover,
                now_ms,
                i,
            ),
        ),
{
    let head = before_pages(photos, layout, meta, settings, include_cover, now_ms);
    let sections = printed_pages(photos, bytes, layout, meta, settings, numbered, include_cover);
    let page = i / layout.slots() as int;
    let slot = i % layout.slots() as int;
    let covers = cover_count(meta, include_cover);
    let total = photo_page_count(photos.len(), layout) + covers;
    let number = (page + 1 + covers) as nat;
    photo_stands_on_its_page(photos, layout, i);
    let texts = slot_texts(all_pages(photos, layout)[page], bytes, layout);
    let top = section_head(
        layout,
        header_div(rendered(settings.header_template@, meta, number, total)),
        number_div(numbered, number),
    );
    let foot = section_foot(
        layout,
        footer_div(rendered(settings.footer_template@, meta, number, total)),
    );
    assert(sections[page] == top + concat(texts) + foot);
    assert(texts[slot] == photo_html(photos[i], bytes, layout));

    document_in_three(
        photos,
        bytes,
        layout,
        meta,
        settings,
        numbered,
        include_cover,
        now_ms,
    );
    slot_occurs(head, sections, DOCUMENT_CLOSE@, page, top, texts, foot, slot);
}

/// The document is what stands before its pages of photos, those pages, and its close.
pub proof fn document_in_three(
    photos: Seq<PhotoItem>,
    bytes: Map<u64, Vec<u8>>,
    layout: GridLayout,
    meta: &ReportMeta,
    settings: &PdfSettings,
    numbered: bool,
    include_cover: bool,
    now_ms: u64,
)
    ensures
        print_html(photos, bytes, layout, meta, settings, numbered, include_cover, now_ms)
            == before_pages(photos, layout, meta, settings, include_cover, now_ms) + concat(
            printed_pages(photos, bytes, layout, meta, settings, numbered, include_cover),
        ) + DOCUMENT_CLOSE@,
{
    let head = document_head(document_title(meta, now_ms), settings);
    let front = cover(
        meta,
        settings,
        include_cover && meta.has_content(),
        photo_page_count(photos.len(), layout) + cover_count(meta, include_cover),
    );
    let pages = concat(
        printed_pages(photos, bytes, layout, meta, settings, numbered, include_cover),
    );
    regroup(head, front, pages, DOCUMENT_CLOSE@);
}

/// Where texts are grouped does not matter.
pub proof fn regroup(a: Seq<char>, b: Seq<char>, c: Seq<char>, d: Seq<char>)
    ensures
        a + (b + c) + d == (a + b) + c + d,
{
    assert(a + (b + c) + d =~= (a + b) + c + d);
}

proof fn slot_occurs(
    head: Seq<char>,
    sections: Seq<Seq<char>>,
    close: Seq<char>,
    page: int,
    top: Seq<char>,
    texts: Seq<Seq<char>>,
    foot: Seq<char>,
    slot: int,
)
    requires
        0 <= page < sections.len(),
        sections[page] == top + concat(texts) + foot,
        0 <= slot < texts.len(),
    ensures
        occurs_at(
            head + concat(sections) + close,
            texts[slot],
            (head.len() + concat(sections.take(page)).len() + top.len() + concat(
                texts.take(slot),
            ).len()) as int,
        ),
{
    let html = head + concat(sections) + close;
    middle_occurs(head, concat(sections), close);
    part_occurs(sections, page);
    middle_occurs(top, concat(texts), foot);
    part_occurs(texts, slot);
    let a = head.len() as int;
    let b = concat(sections.take(page)).len() as int;
    let c = top.len() as int;
    let d = concat(texts.take(slot)).len() as int;
    occurs_through(html, concat(sections), sections[page], a, b);
    occurs_through(html, sections[page], concat(texts), a + b, c);
    occurs_through(html, concat(texts), texts[slot], a + b + c, d);
}

/// Photos stand in the printed document in the order of the list, none within another.
#[verifier::spinoff_prover]
pub proof fn photos_print_in_order(
    photos: Seq<PhotoItem>,
    bytes: Map<u64, Vec<u8>>,
    layout: GridLayout,
    meta: &ReportMeta,
    settings: &PdfSettings,
    numbered: bool,
    include_cover: bool,
    now_ms: u64,
    i: int,
    j: int,
)
    requires
        0 <= i < j < photos.len(),
    ensures
        photo_place(
            photos,
            bytes,
            layout,
            meta,
            settings,
            numbered,
            include_cover,
            now_ms,
            i,
        ) + photo_html(photos[i], bytes, layout).len() <= photo_place(
            photos,
            bytes,
            layout,
            meta,
            settings,
            numbered,
            include_cover,
            now_ms,
            j,
        ),
{
    let sections = printed_pages(photos, bytes, layout, meta, settings, numbered, include_cover);
    let size = layout.slots() as int;
    let page = i / size;
    let slot = i % size;
    let covers = cover_count(meta, include_cover);
    let total = photo_page_count(photos.len(), layout) + covers;
    let number = (page + 1 + covers) as nat;
    photo_stands_on_its_page(photos, layout, i);
    photo_stands_on_its_page(photos, layout, j);
    let texts = slot_texts(all_pages(photos, layout)[page], bytes, layout);
    let top = section_head(
        layout,
        header_div(rendered(settings.header_template@, meta, number, total)),
        number_div(numbered, number),
    );
    let foot = section_foot(
        layout,
        footer_div(rendered(settings.footer_template@, meta, number, total)),
    );
    assert(sections[page] == top + concat(texts) + foot);
    assert(texts[slot] == photo_html(photos[i], bytes, layout));
    places_are_ordered(i, j, layout);
    slot_ends_before(sections, page, top, texts, foot, slot, j / size, j % size);
}

proof fn slot_ends_before(
    sections: Seq<Seq<char>>,
    page: int,
    top: Seq<char>,
    texts: Seq<Seq<char>>,
    foot: Seq<char>,
    slot: int,
    later_page: int,
    later_slot: int,
)
    requires
        0 <= page <= later_page < sections.len(),
        sections[page] == top + concat(texts) + foot,
        0 <= slot < texts.len(),
        page == later_page ==> slot < later_slot < texts.len(),
    ensures
        page == later_page ==> concat(texts.take(slot)).len() + texts[slot].len() <= concat(
            texts.take(later_slot),
        ).len(),
        page < later_page ==> concat(sections.take(page)).len() + top.len() + concat(
            texts.take(slot),
        ).len() + texts[slot].len() <= concat(sections.take(later_page)).len(),
{
    if page == later_page {
        parts_before(texts, slot, later_slot);
    } else {
        parts_before(texts, slot, texts.len() as int);
        assert(texts.take(texts.len() as int) =~= texts);
        parts_before(sections, page, later_page);
    }
}

proof fn places_are_ordered(i: int, j: int, layout: GridLayout)
    requires
        0 <= i < j,
    ensures
        0 <= i / (layout.slots() as int) <= j / (layout.slots() as int),
        0 <= i % (layout.slots() as int) < layout.slots(),
        0 <= j % (layout.slots() as int) < layout.slots(),
        i / (layout.slots() as int) == j / (layout.slots() as int) ==> i % (layout.slots() as int)
            < j % (layout.slots() as int),
{
    match layout {
        GridLayout::OneUp => {},
        GridLayout::TwoUp => {},
        GridLayout::TwoByTwo => {},
        GridLayout::TwoByThree => {},
    }
}

/// The page of photos that the preview shows under a number is printed under that number, with
/// the same photos in the same slots.
pub proof fn preview_shows_what_is_printed(
    photos: Seq<PhotoItem>,
    bytes: Map<u64, Vec<u8>>,
    layout: GridLayout,
    meta: &ReportMeta,
    settings: &PdfSettings,
    numbered: bool,
    include_cover: bool,
    shown: nat,
)
    requires
        cover_count(meta, include_cover) <= shown < photo_page_count(photos.len(), layout)
            + cover_count(meta, include_cover),
    ensures
        ({
            let covers = cover_count(meta, include_cover);
            printed_pages(
                photos,
                bytes,
                layout,
                meta,
                settings,
                numbered,
                include_cover,
            )[shown - covers] == page_section(
                all_pages(photos, layout)[shown - covers],
                bytes,
                layout,
                meta,
                settings,
                numbered,
                shown + 1,
                photo_page_count(photos.len(), layout) + covers,
            )
        }),
{
}

/// A report with a title prints the same at any time.
pub proof fn titled_report_ignores_the_time(
    photos: Seq<PhotoItem>,
    bytes: Map<u64, Vec<u8>>,
    layout: GridLayout,
    meta: &ReportMeta,
    settings: &PdfSettings,
    numbered: bool,
    include_cover: bool,
    now_ms: u64,
    later_ms: u64,
)
    requires
        meta.title@.len() > 0,
    ensures
        print_html(photos, bytes, layout, meta, settings, numbered, include_cover, now_ms)
            == print_html(
            photos,
            bytes,
            layout,
            meta,
            settings,
            numbered,
            include_cover,
            later_ms,
        ),
{
}

// ---------------------------------------------------------------------------
// Captions and rotation
// ---------------------------------------------------------------------------

/// A printed photo shows its title, its description where it has one, its picture, and the
/// rotation that the preview shows; the picture's text for readers that see none is the title.
pub proof fn printed_photo_is_complete(
    photo: PhotoItem,
    bytes: Map<u64, Vec<u8>>,
    layout: GridLayout,
)
    ensures
        occurs(
            photo_html(photo, bytes, layout),
            "<img src=\""@ + picture_source(photo, bytes) + "\" alt=\""@ + escaped(photo.title@)
                + "\" style=\""@ + photo.style() + "\" />"@,
        ),
        occurs(
            photo_html(photo, bytes, layout),
            "<strong>"@ + escaped(photo.title@) + "</strong>"@,
        ),
        photo.description@.len() > 0 && stacks(layout) ==> occurs(
            photo_html(photo, bytes, layout),
            "<p>"@ + with_breaks(escaped(photo.description@)) + "</p>"@,
        ),
        photo.description@.len() > 0 && !stacks(layout) ==> occurs(
            photo_html(photo, bytes, layout),
            "<span class=\"desc\">"@ + escaped(photo.description@) + "</span>"@,
        ),
{
    let source = picture_source(photo, bytes);
    if stacks(layout) {
        block_is_complete(photo, source);
    } else {
        cell_is_complete(photo, source);
    }
}

proof fn block_is_complete(photo: PhotoItem, source: Seq<char>)
    ensures
        occurs(
            block(photo, source),
            "<img src=\""@ + source + "\" alt=\""@ + escaped(photo.title@) + "\" style=\""@
                + photo.style() + "\" />"@,
        ),
        occurs(block(photo, source), "<strong>"@ + escaped(photo.title@) + "</strong>"@),
        photo.description@.len() > 0 ==> occurs(
            block(photo, source),
            "<p>"@ + with_breaks(escaped(photo.description@)) + "</p>"@,
        ),
{
    let title = escaped(photo.title@);
    let start = "<div class=\"photo-block\"><div class=\"photo-media\"><img src=\""@;
    let fore = "<div class=\"photo-block\"><div class=\"photo-media\">"@;
    let join = "\" /></div><div class=\"caption\"><strong>"@;
    let join_a = "\" />"@;
    let join_b = "</div><div class=\"caption\">"@;
    reveal_strlit("<div class=\"photo-block\"><div class=\"photo-media\"><img src=\"");
    reveal_strlit("<div class=\"photo-block\"><div class=\"photo-media\">");
    reveal_strlit("<img src=\"");
    reveal_strlit("\" /></div><div class=\"caption\"><strong>");
    reveal_strlit("\" />");
    reveal_strlit("</div><div class=\"caption\">");
    reveal_strlit("<strong>");
    assert(start =~= fore + "<img src=\""@);
    assert(join =~= join_a + join_b + "<strong>"@);
    let note = if photo.description@.len() == 0 {
        Seq::empty()
    } else {
        "<p>"@ + with_breaks(escaped(photo.description@)) + "</p>"@
    };
    let image = "<img src=\""@ + source + "\" alt=\""@ + title + "\" style=\""@ + photo.style()
        + join_a;
    let strong = "<strong>"@ + title + "</strong>"@;
    let end = "</div></div>"@;
    pieces_occur(fore, image, join_b, strong, note, end);
    assert(block(photo, source) =~= fore + image + join_b + strong + note + end);
}

proof fn cell_is_complete(photo: PhotoItem, source: Seq<char>)
    ensures
        occurs(
            cell(photo, source),
            "<img src=\""@ + source + "\" alt=\""@ + escaped(photo.title@) + "\" style=\""@
                + photo.style() + "\" />"@,
        ),
        occurs(cell(photo, source), "<strong>"@ + escaped(photo.title@) + "</strong>"@),
        photo.description@.len() > 0 ==> occurs(
            cell(photo, source),
            "<span class=\"desc\">"@ + escaped(photo.description@) + "</span>"@,
        ),
{
    let title = escaped(photo.title@);
    let start = "<figure class=\"cell\"><div class=\"cell-media\"><img src=\""@;
    let fore = "<figure class=\"cell\"><div class=\"cell-media\">"@;
    let join = "\" /></div><figcaption><strong>"@;
    let join_a = "\" />"@;
    let join_b = "</div><figcaption>"@;
    reveal_strlit("<figure class=\"cell\"><div class=\"cell-media\"><img src=\"");
    reveal_strlit("<figure class=\"cell\"><div class=\"cell-media\">");
    reveal_strlit("<img src=\"");
    reveal_strlit("\" /></div><figcaption><strong>");
    reveal_strlit("\" />");
    reveal_strlit("</div><figcaption>");
    reveal_strlit("<strong>");
    assert(start =~= fore + "<img src=\""@);
    assert(join =~= join_a + join_b + "<strong>"@);
    let image = "<img src=\""@ + source + "\" alt=\""@ + title + "\" style=\""@ + photo.style()
        + join_a;
    let strong = "<strong>"@ + title + "</strong>"@;
    let end = "</figcaption></figure>"@;
    let desc = "<span class=\"desc\">"@ + escaped(photo.description@) + "</span>"@;
    reveal_strlit("<br/><span class=\"desc\">");
    reveal_strlit("<span class=\"desc\">");
    reveal_strlit("<br/>");
    assert("<br/><span class=\"desc\">"@ =~= "<br/>"@ + "<span class=\"desc\">"@);
    if photo.description@.len() == 0 {
        pieces_occur(fore, image, join_b, strong, Seq::empty(), end);
        assert(cell(photo, source) =~= fore + image + join_b + strong + Seq::empty() + end);
    } else {
        pieces_occur(fore, image, join_b, strong, "<br/>"@ + desc, end);
        assert(cell(photo, source) =~= fore + image + join_b + strong + ("<br/>"@ + desc) + end);
        last_of_joined_occurs(fore + image + join_b + strong + "<br/>"@, desc);
        first_of_joined_occurs(fore + image + join_b + strong + "<br/>"@ + desc, end, desc);
        assert(cell(photo, source) =~= fore + image + join_b + strong + "<br/>"@ + desc + end);
    }
}

proof fn pieces_occur(
    a: Seq<char>,
    b: Seq<char>,
    c: Seq<char>,
    d: Seq<char>,
    e: Seq<char>,
    f: Seq<char>,
)
    ensures
        occurs(a + b + c + d + e + f, b),
        occurs(a + b + c + d + e + f, d),
        occurs(a + b + c + d + e + f, e),
{
    last_of_joined_occurs(a, b);
    first_of_joined_occurs(a + b, c, b);
    first_of_joined_occurs(a + b + c, d, b);
    first_of_joined_occurs(a + b + c + d, e, b);
    first_of_joined_occurs(a + b + c + d + e, f, b);
    last_of_joined_occurs(a + b + c, d);
    first_of_joined_occurs(a + b + c + d, e, d);
    first_of_joined_occurs(a + b + c + d + e, f, d);
    last_of_joined_occurs(a + b + c + d, e);
    first_of_joined_occurs(a + b + c + d + e, f, e);
}

} // verus!
