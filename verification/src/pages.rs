//! Photos spread over pages, for the preview and for the export alike.
use vstd::arithmetic::div_mod::lemma_fundamental_div_mod;
use vstd::prelude::*;

use crate::layout::GridLayout;
use crate::number::{decimal, decimals_differ, push_decimal};
use crate::photo::PhotoItem;
use crate::text::middle_tells_apart;

verus! {

/// How many pages `count` photos take; no photos still take one empty page.
pub open spec fn photo_page_count(count: nat, layout: GridLayout) -> nat {
    if count == 0 {
        1
    } else {
        ((count + layout.slots() - 1) / layout.slots() as int) as nat
    }
}

/// The slots of one page: each holds the photo at its place in the list, or nothing past the
/// end of the list.
pub open spec fn page_slots(items: Seq<PhotoItem>, layout: GridLayout, page: nat) -> Seq<
    Option<PhotoItem>,
> {
    Seq::new(
        layout.slots(),
        |slot: int|
            {
                let place = page * layout.slots() + slot;
                if place < items.len() {
                    Some(items[place])
                } else {
                    None
                }
            },
    )
}

/// All pages of the photos.
pub open spec fn all_pages(items: Seq<PhotoItem>, layout: GridLayout) -> Seq<
    Seq<Option<PhotoItem>>,
> {
    Seq::new(
        photo_page_count(items.len(), layout),
        |page: int| page_slots(items, layout, page as nat),
    )
}

/// The slots of the pages of a split.
pub open spec fn slots_of(pages: Seq<Vec<Option<PhotoItem>>>) -> Seq<Seq<Option<PhotoItem>>> {
    pages.map_values(|page: Vec<Option<PhotoItem>>| page@)
}

/// The slots of page number `page`.
pub fn page_at(items: &[PhotoItem], layout: GridLayout, page: usize) -> (slots: Vec<
    Option<PhotoItem>,
>)
    ensures
        slots@ == page_slots(items@, layout, page as nat),
{
    let page_size = layout.page_size();
    let count = items.len();
    let start: usize = match page.checked_mul(page_size) {
        Some(start) => start,
        None => usize::MAX,
    };
    let mut slots: Vec<Option<PhotoItem>> = Vec::with_capacity(page_size);
    let mut slot: usize = 0;
    while slot < page_size
        invariant
            slot <= page_size,
            page_size == layout.slots(),
            count == items@.len(),
            start == page * page_size || (start == usize::MAX && page * page_size > usize::MAX),
            slots@ =~= page_slots(items@, layout, page as nat).take(slot as int),
        decreases page_size - slot,
    {
        if start < count && slot < count - start {
            slots.push(Some(items[start + slot].clone()));
        } else {
            slots.push(None);
        }
        slot += 1;
    }
    assert(slots@ =~= page_slots(items@, layout, page as nat));
    slots
}

/// How many pages `count` photos take.
pub fn photo_pages(count: usize, layout: GridLayout) -> (n: usize)
    ensures
        n == photo_page_count(count as nat, layout),
{
    let page_size = layout.page_size();
    proof {
        if count > 0 {
            page_count_by_division(count as nat, layout);
        }
    }
    if count == 0 {
        1
    } else if count % page_size == 0 {
        count / page_size
    } else {
        count / page_size + 1
    }
}

/// Spreads the photos over pages, in their order; the last page is filled up with empty slots.
pub fn split_pages(items: &[PhotoItem], layout: GridLayout) -> (pages: Vec<
    Vec<Option<PhotoItem>>,
>)
    ensures
        slots_of(pages@) == all_pages(items@, layout),
{
    let count = photo_pages(items.len(), layout);
    let mut pages: Vec<Vec<Option<PhotoItem>>> = Vec::new();
    let mut page: usize = 0;
    while page < count
        invariant
            page <= count,
            count == photo_page_count(items@.len(), layout),
            slots_of(pages@) =~= all_pages(items@, layout).take(page as int),
        decreases count - page,
    {
        let ghost before = pages@;
        let slots = page_at(items, layout, page);
        pages.push(slots);
        assert(slots_of(pages@) =~= slots_of(before).push(slots@));
        assert(all_pages(items@, layout).take(page + 1) =~= all_pages(items@, layout).take(
            page as int,
        ).push(slots@));
        page += 1;
    }
    assert(slots_of(pages@) =~= all_pages(items@, layout));
    pages
}

// ---------------------------------------------------------------------------
// The preview
// ---------------------------------------------------------------------------

/// How many pages the report has, the cover counted.
pub fn total_pages(count: usize, layout: GridLayout, has_cover: bool) -> (n: usize)
    requires
        count < usize::MAX,
    ensures
        n == photo_page_count(count as nat, layout) + (if has_cover {
            1nat
        } else {
            0nat
        }),
        n >= 1,
{
    let pages = photo_pages(count, layout);
    if has_cover {
        pages + 1
    } else {
        pages
    }
}

/// The page that the preview shows out of so many, counted from zero.
pub open spec fn shown_page(wanted: nat, total: nat) -> nat {
    if total == 0 {
        0
    } else if wanted < total {
        wanted
    } else {
        (total - 1) as nat
    }
}

/// The wanted page after a step back from the page shown.
pub open spec fn stepped_back(wanted: nat, shown: nat) -> nat {
    if shown > 0 {
        (shown - 1) as nat
    } else {
        wanted
    }
}

/// The wanted page after a step forward from the page shown.
pub open spec fn stepped_forward(wanted: nat, shown: nat, total: nat) -> nat {
    if shown + 1 < total {
        shown + 1
    } else {
        wanted
    }
}

/// The page that the preview shows: the wanted one, or the last where there are fewer.
pub fn clamped_page(wanted: usize, total: usize) -> (page: usize)
    ensures
        page == shown_page(wanted as nat, total as nat),
        page == (if total == 0 {
            0
        } else if wanted < total {
            wanted as int
        } else {
            total - 1
        }),
{
    if total == 0 {
        0
    } else if wanted < total {
        wanted
    } else {
        total - 1
    }
}

/// The wanted page after a step back from the page shown; unchanged on the first page.
pub fn page_back(wanted: usize, shown: usize) -> (page: usize)
    ensures
        page == stepped_back(wanted as nat, shown as nat),
        page == (if shown > 0 {
            shown - 1
        } else {
            wanted as int
        }),
{
    if shown > 0 {
        shown - 1
    } else {
        wanted
    }
}

/// Whether a page stands behind the one shown.
pub fn has_next_page(shown: usize, total: usize) -> (r: bool)
    ensures
        r == (shown + 1 < total),
{
    total > 0 && shown < total - 1
}

/// The wanted page after a step forward from the page shown; unchanged on the last page.
pub fn page_forward(wanted: usize, shown: usize, total: usize) -> (page: usize)
    ensures
        page == stepped_forward(wanted as nat, shown as nat, total as nat),
        page == (if shown + 1 < total {
            shown + 1
        } else {
            wanted as int
        }),
{
    if has_next_page(shown, total) {
        shown + 1
    } else {
        wanted
    }
}

/// The text between the arrows of the preview.
pub open spec fn nav_text(shown: nat, total: nat, has_cover: bool) -> Seq<char> {
    if has_cover && shown == 0 {
        "Title Page \u{2014} 1 / "@ + decimal(total)
    } else {
        "Page "@ + decimal(shown + 1) + " / "@ + decimal(total)
    }
}

/// The text between the arrows of the preview.
pub fn nav_label(shown: usize, total: usize, has_cover: bool) -> (s: String)
    requires
        shown < usize::MAX,
    ensures
        s@ == nav_text(shown as nat, total as nat, has_cover),
        s@ == (if has_cover && shown == 0 {
            "Title Page \u{2014} 1 / "@ + decimal(total as nat)
        } else {
            "Page "@ + decimal((shown + 1) as nat) + " / "@ + decimal(total as nat)
        }),
{
    let mut s = String::new();
    if has_cover && shown == 0 {
        s.append("Title Page \u{2014} 1 / ");
        assert(s@ =~= "Title Page \u{2014} 1 / "@);
    } else {
        s.append("Page ");
        push_decimal(&mut s, shown as u64 + 1);
        s.append(" / ");
        assert(s@ =~= "Page "@ + decimal((shown + 1) as nat) + " / "@);
    }
    push_decimal(&mut s, total as u64);
    s
}

/// The label above a page of the preview.
pub fn page_label(shown: usize) -> (s: String)
    requires
        shown < usize::MAX,
    ensures
        s@ == "Page "@ + decimal((shown + 1) as nat),
{
    let mut s = String::new();
    s.append("Page ");
    push_decimal(&mut s, shown as u64 + 1);
    assert(s@ =~= "Page "@ + decimal((shown + 1) as nat));
    s
}

/// What the preview shows on one page.
pub enum PreviewPage {
    /// The title page.
    Cover,
    /// A page of photos: the list position of its first slot, and its slots.
    Photos { first: usize, slots: Vec<Option<PhotoItem>> },
}

/// The page of the preview, counted with the cover.
pub fn preview_page(
    items: &[PhotoItem],
    layout: GridLayout,
    has_cover: bool,
    shown: usize,
) -> (page: PreviewPage)
    requires
        shown < photo_page_count(items@.len(), layout) + (if has_cover {
            1nat
        } else {
            0nat
        }),
    ensures
        (page is Cover) == (has_cover && shown == 0),
        page matches PreviewPage::Photos { first, slots } ==> {
            let number = shown - (if has_cover {
                1int
            } else {
                0int
            });
            &&& first == number * layout.slots()
            &&& slots@ == all_pages(items@, layout)[number]
            &&& forall|slot: int|
                0 <= slot < slots@.len() && #[trigger] slots@[slot] is Some ==> first + slot
                    < items@.len() && slots@[slot] == Some(items@[first + slot])
        },
{
    if has_cover && shown == 0 {
        return PreviewPage::Cover;
    }
    let number = if has_cover {
        shown - 1
    } else {
        shown
    };
    proof {
        page_starts_in_list(items@, layout, number as nat);
    }
    let first = if items.len() == 0 {
        0
    } else {
        number * layout.page_size()
    };
    PreviewPage::Photos { first, slots: page_at(items, layout, number) }
}

// ---------------------------------------------------------------------------
// Laws
// ---------------------------------------------------------------------------

/// The photos of a row of slots, in their order.
pub open spec fn filled(slots: Seq<Option<PhotoItem>>) -> Seq<PhotoItem>
    decreases slots.len(),
{
    if slots.len() == 0 {
        Seq::empty()
    } else {
        match slots.last() {
            Some(photo) => filled(slots.drop_last()).push(photo),
            None => filled(slots.drop_last()),
        }
    }
}

/// The photos of a row of pages, in their order.
pub open spec fn all_filled(pages: Seq<Seq<Option<PhotoItem>>>) -> Seq<PhotoItem>
    decreases pages.len(),
{
    if pages.len() == 0 {
        Seq::empty()
    } else {
        all_filled(pages.drop_last()) + filled(pages.last())
    }
}

/// Read page by page and slot by slot, the pages hold every photo once and in the order of the
/// list: none is dropped, none is repeated, none moves.
pub proof fn pages_hold_all_photos_in_order(items: Seq<PhotoItem>, layout: GridLayout)
    ensures
        all_filled(all_pages(items, layout)) == items,
{
    let count = photo_page_count(items.len(), layout);
    pages_hold_prefix(items, layout, count);
    assert(all_pages(items, layout).take(count as int) =~= all_pages(items, layout));
    pages_suffice(items.len(), layout);
    assert(items.take(items.len() as int) =~= items);
}

proof fn pages_suffice(count: nat, layout: GridLayout)
    ensures
        photo_page_count(count, layout) * layout.slots() >= count,
{
    let pages = photo_page_count(count, layout);
    times_slots(pages, layout);
    match layout {
        GridLayout::OneUp => {
            assert(pages >= count);
        },
        GridLayout::TwoUp => {
            assert(2 * pages >= count);
        },
        GridLayout::TwoByTwo => {
            assert(4 * pages >= count);
        },
        GridLayout::TwoByThree => {
            assert(6 * pages >= count);
        },
    }
}

/// Every page has as many slots as the layout says, and only the last page has empty ones.
pub proof fn pages_are_full_but_the_last(items: Seq<PhotoItem>, layout: GridLayout, page: int)
    requires
        0 <= page < all_pages(items, layout).len(),
    ensures
        all_pages(items, layout)[page].len() == layout.slots(),
        page + 1 < all_pages(items, layout).len() ==> forall|slot: int|
            0 <= slot < layout.slots() ==> all_pages(items, layout)[page][slot] is Some,
{
    let size = layout.slots();
    if page + 1 < all_pages(items, layout).len() {
        page_starts_in_list(items, layout, (page + 1) as nat);
        assert((page + 1) * size == page * size + size) by (nonlinear_arith);
    }
}

/// A list position stands on the page and in the slot that division by the page size gives.
pub proof fn photo_stands_on_its_page(items: Seq<PhotoItem>, layout: GridLayout, place: int)
    requires
        0 <= place < items.len(),
    ensures
        0 <= place / (layout.slots() as int) < all_pages(items, layout).len(),
        all_pages(items, layout)[place / (layout.slots() as int)][place % (layout.slots() as int)]
            == Some(items[place]),
{
    let size = layout.slots() as int;
    lemma_fundamental_div_mod(place, size);
    assert(size * (place / size) == (place / size) * size) by (nonlinear_arith);
}

proof fn page_count_by_division(count: nat, layout: GridLayout)
    requires
        count > 0,
    ensures
        count % layout.slots() == 0 ==> photo_page_count(count, layout) == count / layout.slots(),
        count % layout.slots() != 0 ==> photo_page_count(count, layout) == count / layout.slots()
            + 1,
        count % layout.slots() != 0 ==> count / layout.slots() < count,
{
    match layout {
        GridLayout::OneUp => {},
        GridLayout::TwoUp => {},
        GridLayout::TwoByTwo => {},
        GridLayout::TwoByThree => {},
    }
}

proof fn page_starts_in_list(items: Seq<PhotoItem>, layout: GridLayout, page: nat)
    requires
        page < photo_page_count(items.len(), layout),
    ensures
        items.len() > 0 ==> page * layout.slots() < items.len(),
        items.len() == 0 ==> page * layout.slots() == 0,
{
    times_slots(page, layout);
}

/// Multiplication by the page size, spelled out for each layout.
proof fn times_slots(n: nat, layout: GridLayout)
    ensures
        n * layout.slots() == (match layout {
            GridLayout::OneUp => n,
            GridLayout::TwoUp => 2 * n,
            GridLayout::TwoByTwo => 4 * n,
            GridLayout::TwoByThree => 6 * n,
        }),
{
    let size = layout.slots();
    assert(size == 1 ==> n * size == n) by (nonlinear_arith);
    assert(size == 2 ==> n * size == 2 * n) by (nonlinear_arith);
    assert(size == 4 ==> n * size == 4 * n) by (nonlinear_arith);
    assert(size == 6 ==> n * size == 6 * n) by (nonlinear_arith);
}

spec fn smaller(a: int, b: int) -> int {
    if a < b {
        a
    } else {
        b
    }
}

proof fn pages_hold_prefix(items: Seq<PhotoItem>, layout: GridLayout, n: nat)
    requires
        n <= photo_page_count(items.len(), layout),
    ensures
        all_filled(all_pages(items, layout).take(n as int)) == items.take(
            smaller((n * layout.slots()) as int, items.len() as int),
        ),
    decreases n,
{
    let size = layout.slots();
    let pages = all_pages(items, layout);
    if n == 0 {
        assert(pages.take(0) =~= Seq::empty());
        assert(items.take(0) =~= Seq::empty());
    } else {
        let last = (n - 1) as nat;
        pages_hold_prefix(items, layout, last);
        assert(pages.take(n as int).drop_last() =~= pages.take(last as int));
        page_starts_in_list(items, layout, last);
        slots_hold_range(items, layout, last, size);
        assert(page_slots(items, layout, last).take(size as int) =~= page_slots(
            items,
            layout,
            last,
        ));
        assert(n * size == last * size + size) by (nonlinear_arith)
            requires
                n == last + 1,
        ;
        let start = (last * size) as int;
        let end = smaller(start + size, items.len() as int);
        assert(items.take(start) + items.subrange(start, end) =~= items.take(end));
    }
}

proof fn slots_hold_range(items: Seq<PhotoItem>, layout: GridLayout, page: nat, n: nat)
    requires
        n <= layout.slots(),
        page * layout.slots() <= items.len(),
    ensures
        filled(page_slots(items, layout, page).take(n as int)) == items.subrange(
            (page * layout.slots()) as int,
            smaller((page * layout.slots() + n) as int, items.len() as int),
        ),
    decreases n,
{
    let slots = page_slots(items, layout, page);
    if n == 0 {
        assert(slots.take(0) =~= Seq::empty());
    } else {
        slots_hold_range(items, layout, page, (n - 1) as nat);
        assert(slots.take(n as int).drop_last() =~= slots.take(n - 1));
        let start = (page * layout.slots()) as int;
        assert(filled(slots.take(n as int)) =~= items.subrange(
            start,
            smaller(start + n, items.len() as int),
        ));
    }
}

/// The photos fill all pages but the last, and the last holds at least one; more photos never
/// take fewer pages, and one page more is begun exactly when the last is full.
pub proof fn last_page_is_begun(count: nat, more: nat, layout: GridLayout)
    requires
        count <= more,
    ensures
        photo_page_count(count, layout) >= 1,
        count > 0 ==> (photo_page_count(count, layout) - 1) * layout.slots() < count,
        count <= photo_page_count(count, layout) * layout.slots(),
        photo_page_count(count, layout) <= photo_page_count(more, layout),
        count > 0 ==> photo_page_count(count + layout.slots(), layout) == photo_page_count(
            count,
            layout,
        ) + 1,
{
    let pages = photo_page_count(count, layout);
    pages_suffice(count, layout);
    if count > 0 {
        times_slots((pages - 1) as nat, layout);
    }
    match layout {
        GridLayout::OneUp => {},
        GridLayout::TwoUp => {},
        GridLayout::TwoByTwo => {},
        GridLayout::TwoByThree => {},
    }
}

/// The preview always shows a page that there is, and the wanted one where there is such a page.
/// A step forward shows the next page and a step back the one before; each undoes the other, and
/// at either end nothing changes.
pub proof fn steps_turn_one_page(wanted: nat, total: nat)
    requires
        total > 0,
    ensures
        ({
            let shown = shown_page(wanted, total);
            let next = shown_page(stepped_forward(wanted, shown, total), total);
            let last = shown_page(stepped_back(wanted, shown), total);
            &&& shown < total
            &&& shown <= wanted
            &&& wanted < total ==> shown == wanted
            &&& wanted >= total ==> shown + 1 == total
            &&& shown + 1 < total ==> next == shown + 1
            &&& shown + 1 < total ==> shown_page(stepped_back(next, next), total) == shown
            &&& shown + 1 == total ==> next == shown
            &&& shown > 0 ==> last + 1 == shown
            &&& shown > 0 ==> shown_page(stepped_forward(last, last, total), total) == shown
            &&& shown == 0 ==> last == shown
        }),
{
}

/// The text between the arrows ends in the number of pages and, behind a title page, tells each
/// page by its number.
pub proof fn arrows_tell_page_and_total(shown: nat, other: nat, total: nat, has_cover: bool)
    ensures
        nav_text(shown, total, false) == "Page "@ + decimal(shown + 1) + " / "@ + decimal(total),
        shown > 0 ==> nav_text(shown, total, has_cover) == nav_text(shown, total, false),
        nav_text(0, total, true) == "Title Page \u{2014} "@ + decimal(1) + " / "@ + decimal(total),
        shown != other ==> nav_text(shown, total, false) != nav_text(other, total, false),
{
    decimals_differ(shown + 1, other + 1);
    let fore = "Page "@;
    let aft = " / "@ + decimal(total);
    middle_tells_apart(fore, decimal(shown + 1), decimal(other + 1), aft);
    assert(fore + decimal(shown + 1) + aft =~= nav_text(shown, total, false));
    assert(fore + decimal(other + 1) + aft =~= nav_text(other, total, false));
    reveal_strlit("Title Page \u{2014} 1 / ");
    reveal_strlit("Title Page \u{2014} ");
    reveal_strlit(" / ");
    reveal_with_fuel(decimal, 2);
    assert(decimal(1) =~= seq!['1']);
    assert("Title Page \u{2014} 1 / "@ =~= "Title Page \u{2014} "@ + decimal(1) + " / "@);
}

} // verus!
