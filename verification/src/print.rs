//! The document that the browser prints: one section per page, photos in their order.
use std::collections::HashMap;
use vstd::prelude::*;

use crate::codec::{
    base64_char, base64_text, can_encode, data_url, data_url_text, encodable, encode_data_url,
    in_alphabet, url_bytes, DataUrlError,
};
use crate::escape::{escaped, html_escape, html_escape_lines, with_breaks};
use crate::filename::{export_filename, export_name};
use crate::layout::GridLayout;
use crate::number::{decimal, push_decimal};
use crate::pages::{all_pages, photo_page_count, photo_stands_on_its_page, slots_of, split_pages};
use crate::photo::PhotoItem;
use crate::report::ReportMeta;
use crate::sections::{bracketless, margins_bracketless, one_section_per_page, openings};
use crate::settings::PdfSettings;
use crate::sheet::{DOCUMENT_CLOSE, DOCUMENT_OPEN, DOCUMENT_RULES, DOCUMENT_STYLE};
use crate::template::{apply_pdf_template, rendered};
use crate::text::{blank, concat, is_blank};

verus! {

broadcast use vstd::std_specs::hash::group_hash_axioms;

// ---------------------------------------------------------------------------
// Photos
// ---------------------------------------------------------------------------

/// The source of a photo's picture: its bytes where they were exported, else nothing.
pub open spec fn picture_source(photo: PhotoItem, bytes: Map<u64, Vec<u8>>) -> Seq<char> {
    data_url(
        photo.mime@,
        if bytes.contains_key(photo.id) {
            base64_text(bytes[photo.id]@)
        } else {
            Seq::empty()
        },
    )
}

/// A photo of a stacked page.
pub open spec fn block(photo: PhotoItem, source: Seq<char>) -> Seq<char> {
    "<div class=\"photo-block\"><div class=\"photo-media\"><img src=\""@ + source + "\" alt=\""@
        + escaped(photo.title@) + "\" style=\""@ + photo.style()
        + "\" /></div><div class=\"caption\"><strong>"@ + escaped(photo.title@) + "</strong>"@ + (
    if photo.description@.len() == 0 {
        Seq::empty()
    } else {
        "<p>"@ + with_breaks(escaped(photo.description@)) + "</p>"@
    }) + "</div></div>"@
}

/// A photo of a grid page.
pub open spec fn cell(photo: PhotoItem, source: Seq<char>) -> Seq<char> {
    "<figure class=\"cell\"><div class=\"cell-media\"><img src=\""@ + source + "\" alt=\""@
        + escaped(photo.title@) + "\" style=\""@ + photo.style()
        + "\" /></div><figcaption><strong>"@ + escaped(photo.title@) + "</strong>"@ + (
    if photo.description@.len() == 0 {
        Seq::empty()
    } else {
        "<br/><span class=\"desc\">"@ + escaped(photo.description@) + "</span>"@
    }) + "</figcaption></figure>"@
}

/// Whether the pages of a layout stack their photos instead of setting them in a grid.
pub open spec fn stacks(layout: GridLayout) -> bool {
    layout == GridLayout::OneUp || layout == GridLayout::TwoUp
}

/// A photo on a page of this layout.
pub open spec fn photo_html(
    photo: PhotoItem,
    bytes: Map<u64, Vec<u8>>,
    layout: GridLayout,
) -> Seq<char> {
    if stacks(layout) {
        block(photo, picture_source(photo, bytes))
    } else {
        cell(photo, picture_source(photo, bytes))
    }
}

/// A slot of a page; an empty one shows in a grid only.
pub open spec fn slot_html(
    slot: Option<PhotoItem>,
    bytes: Map<u64, Vec<u8>>,
    layout: GridLayout,
) -> Seq<char> {
    match slot {
        Some(photo) => photo_html(photo, bytes, layout),
        None => if stacks(layout) {
            Seq::empty()
        } else {
            "<div class=\"cell empty-cell\"><span>Empty</span></div>"@
        },
    }
}

fn stacked(layout: GridLayout) -> (r: bool)
    ensures
        r == stacks(layout),
{
    match layout {
        GridLayout::OneUp | GridLayout::TwoUp => true,
        GridLayout::TwoByTwo | GridLayout::TwoByThree => false,
    }
}

/// Whether the picture of a photo, where it was exported, is written in the base64 alphabet.
pub open spec fn picture_in_alphabet(photo: PhotoItem, bytes: Map<u64, Vec<u8>>) -> bool {
    bytes.contains_key(photo.id) ==> in_alphabet(base64_text(bytes[photo.id]@))
}

/// Writes the source of a photo's picture. Decoding it gives the exported bytes back, unless
/// the photo's type holds a comma.
pub fn picture_source_text(photo: &PhotoItem, bytes: &HashMap<u64, Vec<u8>>) -> (s: String)
    requires
        bytes@.contains_key(photo.id) ==> encodable(bytes@[photo.id]@.len()),
    ensures
        s@ == picture_source(*photo, bytes@),
        picture_in_alphabet(*photo, bytes@),
        bytes@.contains_key(photo.id) && (forall|i: int|
            0 <= i < photo.mime@.len() ==> photo.mime@[i] != ',') ==> url_bytes(s@) == Ok::<
            Seq<u8>,
            DataUrlError,
        >(bytes@[photo.id]@),
{
    match bytes.get(&photo.id) {
        Some(b) => encode_data_url(photo.mime.as_str(), b.as_slice()),
        None => {
            let none = String::new();
            data_url_text(photo.mime.as_str(), none.as_str())
        },
    }
}

/// Writes a photo of a stacked page, given the source of its picture.
pub fn photo_block(photo: &PhotoItem, source: &str) -> (s: String)
    ensures
        s@ == block(*photo, source@),
{
    let title = html_escape(photo.title.as_str());
    let mut caption = String::new();
    if !photo.description.as_str().is_empty() {
        caption.append("<p>");
        assert(caption@ =~= "<p>"@);
        caption.append(html_escape_lines(photo.description.as_str()).as_str());
        caption.append("</p>");
    }
    let mut s = String::new();
    s.append("<div class=\"photo-block\"><div class=\"photo-media\"><img src=\"");
    assert(s@ =~= "<div class=\"photo-block\"><div class=\"photo-media\"><img src=\""@);
    s.append(source);
    s.append("\" alt=\"");
    s.append(title.as_str());
    s.append("\" style=\"");
    s.append(photo.rotation_style().as_str());
    s.append("\" /></div><div class=\"caption\"><strong>");
    s.append(title.as_str());
    s.append("</strong>");
    s.append(caption.as_str());
    s.append("</div></div>");
    s
}

/// Writes a photo of a grid page, given the source of its picture.
pub fn photo_cell(photo: &PhotoItem, source: &str) -> (s: String)
    ensures
        s@ == cell(*photo, source@),
{
    let title = html_escape(photo.title.as_str());
    let mut caption = String::new();
    if !photo.description.as_str().is_empty() {
        caption.append("<br/><span class=\"desc\">");
        assert(caption@ =~= "<br/><span class=\"desc\">"@);
        caption.append(html_escape(photo.description.as_str()).as_str());
        caption.append("</span>");
    }
    let mut s = String::new();
    s.append("<figure class=\"cell\"><div class=\"cell-media\"><img src=\"");
    assert(s@ =~= "<figure class=\"cell\"><div class=\"cell-media\"><img src=\""@);
    s.append(source);
    s.append("\" alt=\"");
    s.append(title.as_str());
    s.append("\" style=\"");
    s.append(photo.rotation_style().as_str());
    s.append("\" /></div><figcaption><strong>");
    s.append(title.as_str());
    s.append("</strong>");
    s.append(caption.as_str());
    s.append("</figcaption></figure>");
    s
}

fn write_slot(slot: &Option<PhotoItem>, bytes: &HashMap<u64, Vec<u8>>, layout: GridLayout) -> (s:
    String)
    requires
        slot matches Some(photo) ==> bytes@.contains_key(photo.id) ==> encodable(
            bytes@[photo.id]@.len(),
        ),
    ensures
        s@ == slot_html(*slot, bytes@, layout),
        slot matches Some(photo) ==> picture_in_alphabet(*photo, bytes@),
{
    match slot {
        Some(photo) => {
            let source = picture_source_text(photo, bytes);
            if stacked(layout) {
                photo_block(photo, source.as_str())
            } else {
                photo_cell(photo, source.as_str())
            }
        },
        None => {
            let mut s = String::new();
            if !stacked(layout) {
                s.append("<div class=\"cell empty-cell\"><span>Empty</span></div>");
            }
            assert(s@ =~= slot_html(*slot, bytes@, layout));
            s
        },
    }
}

// ---------------------------------------------------------------------------
// Pages
// ---------------------------------------------------------------------------

/// The header of a page; none where it is blank.
pub open spec fn header_of(html: Seq<char>, is_blank: bool) -> Seq<char> {
    if is_blank {
        Seq::empty()
    } else {
        "<div class=\"page-header\">"@ + html + "</div>"@
    }
}

/// The footer of a page; none where it is blank.
pub open spec fn footer_of(html: Seq<char>, is_blank: bool) -> Seq<char> {
    if is_blank {
        Seq::empty()
    } else {
        "<div class=\"page-footer\">"@ + html + "</div>"@
    }
}

/// The header of a page; none where nothing is seen of it.
pub open spec fn header_div(html: Seq<char>) -> Seq<char> {
    header_of(html, blank(html))
}

/// The footer of a page; none where nothing is seen of it.
pub open spec fn footer_div(html: Seq<char>) -> Seq<char> {
    footer_of(html, blank(html))
}

/// The page number of a page.
pub open spec fn number_div(shown: bool, number: nat) -> Seq<char> {
    if shown {
        "<div class=\"page-label\">Page "@ + decimal(number) + "</div>"@
    } else {
        Seq::empty()
    }
}

/// What opens the photos of a page.
pub open spec fn main_open(layout: GridLayout) -> Seq<char> {
    if stacks(layout) {
        "<div class=\"page-main\">"@
    } else {
        "<div class=\"page-main\"><div class=\"grid rows-"@ + decimal(layout.row_count()) + "\">"@
    }
}

/// What closes the photos of a page.
pub open spec fn main_close(layout: GridLayout) -> Seq<char> {
    if stacks(layout) {
        "</div>"@
    } else {
        "</div></div>"@
    }
}

/// The slots of a page, each as it is written.
pub open spec fn slot_texts(
    slots: Seq<Option<PhotoItem>>,
    bytes: Map<u64, Vec<u8>>,
    layout: GridLayout,
) -> Seq<Seq<char>> {
    slots.map_values(|slot: Option<PhotoItem>| slot_html(slot, bytes, layout))
}

/// The part of a page before its photos, with its header as it is written.
pub open spec fn section_head(layout: GridLayout, header: Seq<char>, label: Seq<char>) -> Seq<char> {
    "<section class=\"page\">"@ + header + label + main_open(layout)
}

/// The part of a page behind its photos, with its footer as it is written.
pub open spec fn section_foot(layout: GridLayout, footer: Seq<char>) -> Seq<char> {
    main_close(layout) + footer + "</section>"@
}

/// A page of photos, with its header and footer as they are written.
pub open spec fn section(
    layout: GridLayout,
    header: Seq<char>,
    label: Seq<char>,
    slots: Seq<Seq<char>>,
    footer: Seq<char>,
) -> Seq<char> {
    section_head(layout, header, label) + concat(slots) + section_foot(layout, footer)
}

/// Writes the header of a page, unless it is blank.
pub fn page_header(html: &str, is_blank: bool) -> (s: String)
    ensures
        s@ == header_of(html@, is_blank),
{
    let mut s = String::new();
    if !is_blank {
        s.append("<div class=\"page-header\">");
        assert(s@ =~= "<div class=\"page-header\">"@);
        s.append(html);
        s.append("</div>");
    }
    s
}

/// Writes the footer of a page, unless it is blank.
pub fn page_footer(html: &str, is_blank: bool) -> (s: String)
    ensures
        s@ == footer_of(html@, is_blank),
{
    let mut s = String::new();
    if !is_blank {
        s.append("<div class=\"page-footer\">");
        assert(s@ =~= "<div class=\"page-footer\">"@);
        s.append(html);
        s.append("</div>");
    }
    s
}

fn write_header(html: &str) -> (s: String)
    ensures
        s@ == header_div(html@),
{
    page_header(html, is_blank(html))
}

fn write_footer(html: &str) -> (s: String)
    ensures
        s@ == footer_div(html@),
{
    page_footer(html, is_blank(html))
}

fn write_number(shown: bool, number: usize) -> (s: String)
    ensures
        s@ == number_div(shown, number as nat),
{
    let mut s = String::new();
    if shown {
        s.append("<div class=\"page-label\">Page ");
        assert(s@ =~= "<div class=\"page-label\">Page "@);
        push_decimal(&mut s, number as u64);
        s.append("</div>");
    }
    s
}

fn write_main_open(layout: GridLayout) -> (s: String)
    ensures
        s@ == main_open(layout),
{
    let mut s = String::new();
    if stacked(layout) {
        s.append("<div class=\"page-main\">");
        assert(s@ =~= main_open(layout));
    } else {
        s.append("<div class=\"page-main\"><div class=\"grid rows-");
        assert(s@ =~= "<div class=\"page-main\"><div class=\"grid rows-"@);
        push_decimal(&mut s, layout.rows() as u64);
        s.append("\">");
    }
    s
}

/// Whether the exported bytes of the photos in these slots can be encoded.
pub open spec fn slots_encodable(slots: Seq<Option<PhotoItem>>, bytes: Map<u64, Vec<u8>>) -> bool {
    forall|i: int|
        0 <= i < slots.len() ==> (#[trigger] slots[i] matches Some(photo) ==> bytes.contains_key(
            photo.id,
        ) ==> encodable(bytes[photo.id]@.len()))
}

/// Whether the exported pictures in these slots are written in the base64 alphabet.
pub open spec fn slots_in_alphabet(
    slots: Seq<Option<PhotoItem>>,
    bytes: Map<u64, Vec<u8>>,
) -> bool {
    forall|i: int|
        0 <= i < slots.len() ==> (#[trigger] slots[i] matches Some(photo) ==> picture_in_alphabet(
            photo,
            bytes,
        ))
}

/// Writes the photos of a page.
pub fn write_slots(
    slots: &Vec<Option<PhotoItem>>,
    bytes: &HashMap<u64, Vec<u8>>,
    layout: GridLayout,
) -> (s: String)
    requires
        slots_encodable(slots@, bytes@),
    ensures
        s@ == concat(slot_texts(slots@, bytes@, layout)),
        slots_in_alphabet(slots@, bytes@),
{
    let ghost all = slot_texts(slots@, bytes@, layout);
    let mut s = String::new();
    let mut i: usize = 0;
    assert(all.take(0) =~= Seq::<Seq<char>>::empty());
    while i < slots.len()
        invariant
            i <= slots@.len(),
            slots_encodable(slots@, bytes@),
            all == slot_texts(slots@, bytes@, layout),
            s@ == concat(all.take(i as int)),
            slots_in_alphabet(slots@.take(i as int), bytes@),
        decreases slots@.len() - i,
    {
        assert(all.take(i + 1).drop_last() =~= all.take(i as int));
        assert(slots@.take(i + 1) =~= slots@.take(i as int).push(slots@[i as int]));
        s.append(write_slot(&slots[i], bytes, layout).as_str());
        i += 1;
    }
    assert(all.take(i as int) =~= all);
    assert(slots@.take(i as int) =~= slots@);
    s
}

/// Writes a page, given its header, its photos and its footer as they are written.
pub fn write_section(
    layout: GridLayout,
    header: &str,
    numbered: bool,
    number: usize,
    photos: &str,
    footer: &str,
) -> (s: String)
    ensures
        s@ == section_head(layout, header@, number_div(numbered, number as nat)) + photos@
            + section_foot(layout, footer@),
{
    let mut s = String::new();
    s.append("<section class=\"page\">");
    assert(s@ =~= "<section class=\"page\">"@);
    s.append(header);
    s.append(write_number(numbered, number).as_str());
    s.append(write_main_open(layout).as_str());
    s.append(photos);
    let mut foot = String::new();
    if stacked(layout) {
        foot.append("</div>");
    } else {
        foot.append("</div></div>");
    }
    assert(foot@ =~= main_close(layout));
    foot.append(footer);
    foot.append("</section>");
    s.append(foot.as_str());
    s
}

/// A page of photos under its number, out of so many pages in all.
pub open spec fn page_section(
    slots: Seq<Option<PhotoItem>>,
    bytes: Map<u64, Vec<u8>>,
    layout: GridLayout,
    meta: &ReportMeta,
    settings: &PdfSettings,
    numbered: bool,
    number: nat,
    total: nat,
) -> Seq<char> {
    section(
        layout,
        header_div(rendered(settings.header_template@, meta, number, total)),
        number_div(numbered, number),
        slot_texts(slots, bytes, layout),
        footer_div(rendered(settings.footer_template@, meta, number, total)),
    )
}

/// All pages of photos of the report, numbered behind the title pages.
pub open spec fn page_sections(
    pages: Seq<Seq<Option<PhotoItem>>>,
    bytes: Map<u64, Vec<u8>>,
    layout: GridLayout,
    meta: &ReportMeta,
    settings: &PdfSettings,
    numbered: bool,
    covers: nat,
) -> Seq<Seq<char>> {
    Seq::new(
        pages.len(),
        |i: int|
            page_section(
                pages[i],
                bytes,
                layout,
                meta,
                settings,
                numbered,
                (i + 1 + covers) as nat,
                pages.len() + covers,
            ),
    )
}

fn write_pages(
    pages: &Vec<Vec<Option<PhotoItem>>>,
    bytes: &HashMap<u64, Vec<u8>>,
    layout: GridLayout,
    meta: &ReportMeta,
    settings: &PdfSettings,
    numbered: bool,
    has_cover: bool,
) -> (s: String)
    requires
        pages@.len() < usize::MAX,
        forall|p: int| 0 <= p < pages@.len() ==> slots_encodable(#[trigger] pages@[p]@, bytes@),
    ensures
        s@ == concat(
            page_sections(
                slots_of(pages@),
                bytes@,
                layout,
                meta,
                settings,
                numbered,
                if has_cover {
                    1
                } else {
                    0
                },
            ),
        ),
        forall|p: int| 0 <= p < pages@.len() ==> slots_in_alphabet(#[trigger] pages@[p]@, bytes@),
{
    let covers: usize = if has_cover {
        1
    } else {
        0
    };
    let total = pages.len() + covers;
    let ghost all = page_sections(
        slots_of(pages@),
        bytes@,
        layout,
        meta,
        settings,
        numbered,
        covers as nat,
    );
    let mut s = String::new();
    let mut i: usize = 0;
    assert(all.take(0) =~= Seq::<Seq<char>>::empty());
    while i < pages.len()
        invariant
            i <= pages@.len(),
            covers <= 1,
            pages@.len() + covers == total,
            forall|p: int| 0 <= p < pages@.len() ==> slots_encodable(#[trigger] pages@[p]@, bytes@),
            all == page_sections(
                slots_of(pages@),
                bytes@,
                layout,
                meta,
                settings,
                numbered,
                covers as nat,
            ),
            s@ == concat(all.take(i as int)),
            forall|p: int| 0 <= p < i ==> slots_in_alphabet(#[trigger] pages@[p]@, bytes@),
        decreases pages@.len() - i,
    {
        let number = i + 1 + covers;
        let header = apply_pdf_template(settings.header_template.as_str(), meta, number, total);
        let footer = apply_pdf_template(settings.footer_template.as_str(), meta, number, total);
        let photos = write_slots(&pages[i], bytes, layout);
        let page = write_section(
            layout,
            write_header(header.as_str()).as_str(),
            numbered,
            number,
            photos.as_str(),
            write_footer(footer.as_str()).as_str(),
        );
        assert(page@ == all[i as int]);
        assert(all.take(i + 1).drop_last() =~= all.take(i as int));
        s.append(page.as_str());
        i += 1;
    }
    assert(all.take(i as int) =~= all);
    s
}

// ---------------------------------------------------------------------------
// The title page
// ---------------------------------------------------------------------------

/// A line of the title page; none for an empty field.
pub open spec fn detail(label: Seq<char>, value: Seq<char>) -> Seq<char> {
    if value.len() == 0 {
        Seq::empty()
    } else {
        "<p class=\"cover-detail\"><strong>"@ + label + ":</strong> "@ + escaped(value) + "</p>"@
    }
}

/// The fields of the title page.
pub open spec fn cover_fields(meta: &ReportMeta) -> Seq<char> {
    (if meta.logo_data_url@.len() == 0 {
        Seq::empty()
    } else {
        "<div class=\"cover-logo\"><img src=\""@ + meta.logo_data_url@ + "\" alt=\"Logo\" /></div>"@
    }) + (if meta.title@.len() == 0 {
        Seq::empty()
    } else {
        "<h1 class=\"cover-title\">"@ + escaped(meta.title@) + "</h1>"@
    }) + detail("Site / Address"@, meta.site_address@) + detail("Prepared By"@, meta.author@)
        + detail("Date"@, meta.date@) + (if meta.notes@.len() == 0 {
        Seq::empty()
    } else {
        "<div class=\"cover-notes\"><strong>Notes:</strong><p>"@ + with_breaks(
            escaped(meta.notes@),
        ) + "</p></div>"@
    })
}

/// The title page, with its header and footer as they are written.
pub open spec fn cover_section(meta: &ReportMeta, header: Seq<char>, footer: Seq<char>) -> Seq<char> {
    "<section class=\"page cover-page\">"@ + header + "<div class=\"page-main cover-main\">"@
        + cover_fields(meta) + "</div>"@ + footer + "</section>"@
}

fn write_detail(label: &str, value: &str) -> (s: String)
    ensures
        s@ == detail(label@, value@),
{
    let mut s = String::new();
    if !value.is_empty() {
        s.append("<p class=\"cover-detail\"><strong>");
        assert(s@ =~= "<p class=\"cover-detail\"><strong>"@);
        s.append(label);
        s.append(":</strong> ");
        s.append(html_escape(value).as_str());
        s.append("</p>");
    }
    s
}

fn write_cover_fields(meta: &ReportMeta) -> (s: String)
    ensures
        s@ == cover_fields(meta),
{
    let mut s = String::new();
    if !meta.logo_data_url.as_str().is_empty() {
        s.append("<div class=\"cover-logo\"><img src=\"");
        assert(s@ =~= "<div class=\"cover-logo\"><img src=\""@);
        s.append(meta.logo_data_url.as_str());
        s.append("\" alt=\"Logo\" /></div>");
    }
    let mut title = String::new();
    if !meta.title.as_str().is_empty() {
        title.append("<h1 class=\"cover-title\">");
        assert(title@ =~= "<h1 class=\"cover-title\">"@);
        title.append(html_escape(meta.title.as_str()).as_str());
        title.append("</h1>");
    }
    let mut notes = String::new();
    if !meta.notes.as_str().is_empty() {
        notes.append("<div class=\"cover-notes\"><strong>Notes:</strong><p>");
        assert(notes@ =~= "<div class=\"cover-notes\"><strong>Notes:</strong><p>"@);
        notes.append(html_escape_lines(meta.notes.as_str()).as_str());
        notes.append("</p></div>");
    }
    s.append(title.as_str());
    s.append(write_detail("Site / Address", meta.site_address.as_str()).as_str());
    s.append(write_detail("Prepared By", meta.author.as_str()).as_str());
    s.append(write_detail("Date", meta.date.as_str()).as_str());
    s.append(notes.as_str());
    s
}

/// Writes the title page, given its header and footer as they are written.
pub fn write_cover(meta: &ReportMeta, header: &str, footer: &str) -> (s: String)
    ensures
        s@ == cover_section(meta, header@, footer@),
{
    let mut s = String::new();
    s.append("<section class=\"page cover-page\">");
    assert(s@ =~= "<section class=\"page cover-page\">"@);
    s.append(header);
    s.append("<div class=\"page-main cover-main\">");
    s.append(write_cover_fields(meta).as_str());
    s.append("</div>");
    s.append(footer);
    s.append("</section>");
    s
}

// ---------------------------------------------------------------------------
// The document
// ---------------------------------------------------------------------------

/// The title page of the report; none where it has none.
pub open spec fn cover(
    meta: &ReportMeta,
    settings: &PdfSettings,
    has_cover: bool,
    total: nat,
) -> Seq<char> {
    if has_cover {
        cover_section(
            meta,
            header_div(rendered(settings.header_template@, meta, 1, total)),
            footer_div(rendered(settings.footer_template@, meta, 1, total)),
        )
    } else {
        Seq::empty()
    }
}

/// The title of the document: that of the report, or the name of its file.
pub open spec fn document_title(meta: &ReportMeta, now_ms: u64) -> Seq<char> {
    if meta.title@.len() == 0 {
        escaped(export_name(meta, "pdf"@, now_ms))
    } else {
        escaped(meta.title@)
    }
}

/// The document before its body.
pub open spec fn document_head(title: Seq<char>, settings: &PdfSettings) -> Seq<char> {
    DOCUMENT_OPEN@ + title + DOCUMENT_STYLE@ + settings.margin_top_in.text@ + "in "@
        + settings.margin_right_in.text@ + "in "@ + settings.margin_bottom_in.text@ + "in "@
        + settings.margin_left_in.text@ + DOCUMENT_RULES@
}

/// How many title pages a report has.
pub open spec fn cover_count(meta: &ReportMeta, include_cover: bool) -> nat {
    if include_cover && meta.has_content() {
        1
    } else {
        0
    }
}

/// The pages of photos as they are printed.
pub open spec fn printed_pages(
    photos: Seq<PhotoItem>,
    bytes: Map<u64, Vec<u8>>,
    layout: GridLayout,
    meta: &ReportMeta,
    settings: &PdfSettings,
    numbered: bool,
    include_cover: bool,
) -> Seq<Seq<char>> {
    page_sections(
        all_pages(photos, layout),
        bytes,
        layout,
        meta,
        settings,
        numbered,
        cover_count(meta, include_cover),
    )
}

/// The printed document before its pages of photos.
pub open spec fn before_pages(
    photos: Seq<PhotoItem>,
    layout: GridLayout,
    meta: &ReportMeta,
    settings: &PdfSettings,
    include_cover: bool,
    now_ms: u64,
) -> Seq<char> {
    document_head(document_title(meta, now_ms), settings) + cover(
        meta,
        settings,
        include_cover && meta.has_content(),
        photo_page_count(photos.len(), layout) + cover_count(meta, include_cover),
    )
}

/// The pages of the printed document, the title page among them.
pub open spec fn print_body(
    photos: Seq<PhotoItem>,
    bytes: Map<u64, Vec<u8>>,
    layout: GridLayout,
    meta: &ReportMeta,
    settings: &PdfSettings,
    numbered: bool,
    include_cover: bool,
) -> Seq<char> {
    cover(
        meta,
        settings,
        include_cover && meta.has_content(),
        photo_page_count(photos.len(), layout) + cover_count(meta, include_cover),
    ) + concat(printed_pages(photos, bytes, layout, meta, settings, numbered, include_cover))
}

/// The printed document.
pub open spec fn print_html(
    photos: Seq<PhotoItem>,
    bytes: Map<u64, Vec<u8>>,
    layout: GridLayout,
    meta: &ReportMeta,
    settings: &PdfSettings,
    numbered: bool,
    include_cover: bool,
    now_ms: u64,
) -> Seq<char> {
    document_head(document_title(meta, now_ms), settings) + print_body(
        photos,
        bytes,
        layout,
        meta,
        settings,
        numbered,
        include_cover,
    ) + DOCUMENT_CLOSE@
}

/// Whether the document can be written: its pages can be counted, and the bytes of its photos
/// can be encoded.
pub open spec fn can_print(photos: Seq<PhotoItem>, bytes: Map<u64, Vec<u8>>) -> bool {
    &&& photos.len() < usize::MAX
    &&& forall|i: int|
        0 <= i < photos.len() ==> (bytes.contains_key((#[trigger] photos[i]).id) ==> encodable(
            bytes[photos[i].id]@.len(),
        ))
}

/// Whether what is written unescaped, the photos' types, the logo and the margins, holds no
/// opening bracket.
pub open spec fn markup_free(
    photos: Seq<PhotoItem>,
    meta: &ReportMeta,
    settings: &PdfSettings,
) -> bool {
    &&& forall|i: int| 0 <= i < photos.len() ==> bracketless(#[trigger] photos[i].mime@)
    &&& bracketless(meta.logo_data_url@)
    &&& margins_bracketless(settings)
}

/// Writes the document that the browser prints. `export_bytes` holds the pictures by photo;
/// the time in milliseconds counts only for a report without a title. Where nothing unescaped
/// holds markup, one section opens for each page, and no other.
pub fn build_print_html(
    photos: &[PhotoItem],
    export_bytes: &HashMap<u64, Vec<u8>>,
    layout: GridLayout,
    meta: &ReportMeta,
    settings: &PdfSettings,
    show_page_numbers: bool,
    include_cover: bool,
    now_ms: u64,
) -> (html: String)
    requires
        can_print(photos@, export_bytes@),
    ensures
        html@ == print_html(
            photos@,
            export_bytes@,
            layout,
            meta,
            settings,
            show_page_numbers,
            include_cover,
            now_ms,
        ),
        markup_free(photos@, meta, settings) ==> openings(html@) == photo_page_count(photos@.len(), layout) + cover_count(meta, include_cover),
{
    let pages = split_pages(photos, layout);
    let has_cover = meta.has_cover_page(include_cover);
    assert(pages@.len() == slots_of(pages@).len());
    assert(pages@.len() <= photos@.len() || pages@.len() == 1) by {
        page_count_is_small(photos@.len(), layout);
    }
    assert forall|p: int| 0 <= p < pages@.len() implies slots_encodable(
        #[trigger] pages@[p]@,
        export_bytes@,
    ) by {
        assert(pages@[p]@ == slots_of(pages@)[p]);
    }
    let total = if has_cover {
        pages.len() + 1
    } else {
        pages.len()
    };

    let mut cover_html = String::new();
    if has_cover {
        let header = apply_pdf_template(settings.header_template.as_str(), meta, 1, total);
        let footer = apply_pdf_template(settings.footer_template.as_str(), meta, 1, total);
        cover_html = write_cover(
            meta,
            write_header(header.as_str()).as_str(),
            write_footer(footer.as_str()).as_str(),
        );
    }
    let pages_html = write_pages(
        &pages,
        export_bytes,
        layout,
        meta,
        settings,
        show_page_numbers,
        has_cover,
    );
    let title = if meta.title.as_str().is_empty() {
        html_escape(export_filename(meta, "pdf", now_ms).as_str())
    } else {
        html_escape(meta.title.as_str())
    };

    let mut body = String::new();
    body.append(cover_html.as_str());
    body.append(pages_html.as_str());
    assert(body@ =~= print_body(
        photos@,
        export_bytes@,
        layout,
        meta,
        settings,
        show_page_numbers,
        include_cover,
    ));
    proof {
        assert forall|p: int| 0 <= p < all_pages(photos@, layout).len() implies slots_in_alphabet(
            #[trigger] all_pages(photos@, layout)[p],
            export_bytes@,
        ) by {
            assert(slots_of(pages@)[p] == pages@[p]@);
        }
        sections_are_counted(
            photos@,
            export_bytes@,
            layout,
            meta,
            settings,
            show_page_numbers,
            include_cover,
            now_ms,
        );
    }
    write_document(title.as_str(), settings, body.as_str())
}

fn write_document(title: &str, settings: &PdfSettings, body: &str) -> (html: String)
    ensures
        html@ == document_head(title@, settings) + body@ + DOCUMENT_CLOSE@,
{
    let mut html = String::new();
    html.append(DOCUMENT_OPEN);
    assert(html@ =~= DOCUMENT_OPEN@);
    html.append(title);
    html.append(DOCUMENT_STYLE);
    html.append(settings.margin_top_in.text.as_str());
    html.append("in ");
    html.append(settings.margin_right_in.text.as_str());
    html.append("in ");
    html.append(settings.margin_bottom_in.text.as_str());
    html.append("in ");
    html.append(settings.margin_left_in.text.as_str());
    html.append(DOCUMENT_RULES);
    html.append(body);
    html.append(DOCUMENT_CLOSE);
    html
}

/// Tells whether the document can be written.
pub fn is_printable(photos: &[PhotoItem], export_bytes: &HashMap<u64, Vec<u8>>) -> (r: bool)
    ensures
        r == can_print(photos@, export_bytes@),
{
    let count = photos.len();
    if count == usize::MAX {
        return false;
    }
    let mut i: usize = 0;
    while i < count
        invariant
            i <= count == photos@.len(),
            forall|j: int|
                0 <= j < i ==> (export_bytes@.contains_key((#[trigger] photos@[j]).id)
                    ==> encodable(export_bytes@[photos@[j].id]@.len())),
        decreases count - i,
    {
        match export_bytes.get(&photos[i].id) {
            Some(b) => {
                if !can_encode(b.len()) {
                    return false;
                }
            },
            None => {},
        }
        i += 1;
    }
    true
}

/// Writes the document that the browser prints; none where it cannot be written.
pub fn try_build_print_html(
    photos: &[PhotoItem],
    export_bytes: &HashMap<u64, Vec<u8>>,
    layout: GridLayout,
    meta: &ReportMeta,
    settings: &PdfSettings,
    show_page_numbers: bool,
    include_cover: bool,
    now_ms: u64,
) -> (html: Option<String>)
    ensures
        match html {
            Some(html) => can_print(photos@, export_bytes@) && html@ == print_html(
                photos@,
                export_bytes@,
                layout,
                meta,
                settings,
                show_page_numbers,
                include_cover,
                now_ms,
            ),
            None => !can_print(photos@, export_bytes@),
        },
{
    if is_printable(photos, export_bytes) {
        Some(
            build_print_html(
                photos,
                export_bytes,
                layout,
                meta,
                settings,
                show_page_numbers,
                include_cover,
                now_ms,
            ),
        )
    } else {
        None
    }
}

proof fn sections_are_counted(
    photos: Seq<PhotoItem>,
    bytes: Map<u64, Vec<u8>>,
    layout: GridLayout,
    meta: &ReportMeta,
    settings: &PdfSettings,
    numbered: bool,
    include_cover: bool,
    now_ms: u64,
)
    requires
        forall|p: int|
            0 <= p < all_pages(photos, layout).len() ==> slots_in_alphabet(
                #[trigger] all_pages(photos, layout)[p],
                bytes,
            ),
    ensures
        markup_free(photos, meta, settings) ==> openings(
            print_html(photos, bytes, layout, meta, settings, numbered, include_cover, now_ms),
        ) == photo_page_count(photos.len(), layout) + cover_count(meta, include_cover),
{
    if markup_free(photos, meta, settings) {
        assert forall|i: int| 0 <= i < photos.len() implies bracketless(
            picture_source(#[trigger] photos[i], bytes),
        ) by {
            photo_stands_on_its_page(photos, layout, i);
            let slots = all_pages(photos, layout)[i / layout.slots() as int];
            assert(slots[i % layout.slots() as int] == Some(photos[i]));
            source_is_bracketless(photos[i], bytes);
        }
        one_section_per_page(
            photos,
            bytes,
            layout,
            meta,
            settings,
            numbered,
            include_cover,
            now_ms,
        );
    }
}

proof fn source_is_bracketless(photo: PhotoItem, bytes: Map<u64, Vec<u8>>)
    requires
        bracketless(photo.mime@),
        picture_in_alphabet(photo, bytes),
    ensures
        bracketless(picture_source(photo, bytes)),
{
    reveal_strlit("data:");
    reveal_strlit(";base64,");
    let text = if bytes.contains_key(photo.id) {
        base64_text(bytes[photo.id]@)
    } else {
        Seq::empty()
    };
    assert(in_alphabet(text));
    let url = picture_source(photo, bytes);
    let front = "data:"@ + photo.mime@ + ";base64,"@;
    assert forall|i: int| 0 <= i < url.len() implies #[trigger] url[i] != '<' by {
        if i < 5 {
            assert(url[i] == "data:"@[i]);
        } else if i < 5 + photo.mime@.len() {
            assert(url[i] == photo.mime@[i - 5]);
        } else if i < front.len() {
            assert(url[i] == ";base64,"@[i - 5 - photo.mime@.len()]);
        } else {
            assert(url[i] == text[i - front.len()]);
            assert(base64_char(text[i - front.len()]));
        }
    }
}

proof fn page_count_is_small(count: nat, layout: GridLayout)
    ensures
        photo_page_count(count, layout) <= count || photo_page_count(count, layout) == 1,
{
    match layout {
        GridLayout::OneUp => {},
        GridLayout::TwoUp => {},
        GridLayout::TwoByTwo => {},
        GridLayout::TwoByThree => {},
    }
}

} // verus!
