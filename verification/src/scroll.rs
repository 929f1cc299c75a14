//! What of the list is drawn, and when the panes scroll by themselves.
use vstd::prelude::*;

use crate::double::Double;
use crate::number::{decimal, index_of, index_reads_back, push_decimal};
use crate::photo::PhotoItem;
use crate::text::{contains, middle_occurs, occurs};

verus! {

/// The height of a row of the photo list, in pixels.
pub const ROW_HEIGHT: usize = 64;

/// How many rows more are drawn above and below what is seen.
pub const OVERSCAN: usize = 10;

/// The height of what stands above the list, in pixels.
pub const LIST_TOP: i64 = 80;

/// The height of a pane before it is first measured, in pixels.
pub const INITIAL_HEIGHT: i32 = 800;

/// The first row drawn when the list is scrolled this far.
pub open spec fn first_drawn(scroll_top: int) -> int {
    let rows = if scroll_top > LIST_TOP {
        (scroll_top - LIST_TOP) / ROW_HEIGHT as int
    } else {
        0
    };
    if rows > OVERSCAN {
        rows - OVERSCAN
    } else {
        0
    }
}

/// How many rows a pane of this height draws.
pub open spec fn drawn_count(height: int) -> int {
    let rows = if height > 0 {
        (height + ROW_HEIGHT - 1) / ROW_HEIGHT as int
    } else {
        0
    };
    rows + 2 * OVERSCAN + 2
}

/// The rows of a list that are drawn: from the first to before the second.
pub open spec fn drawn_range(total: int, scroll_top: int, height: int) -> (int, int) {
    let start = first_drawn(scroll_top);
    if total == 0 {
        (0, 0)
    } else if start + drawn_count(height) < total {
        (start, start + drawn_count(height))
    } else {
        (start, total)
    }
}

/// The style of a space as high as so many rows.
pub open spec fn spacer_text(rows: nat) -> Seq<char> {
    "height: "@ + decimal(rows * ROW_HEIGHT as nat) + "px;"@
}

/// The rows of the list that are drawn: from the first to before the second.
pub fn visible_range(total: usize, scroll_top: i32, client_height: i32) -> (r: (usize, usize))
    ensures
        (r.0 as int, r.1 as int) == drawn_range(
            total as int,
            scroll_top as int,
            client_height as int,
        ),
        total == 0 ==> r == (0usize, 0usize),
        total > 0 ==> r.0 == first_drawn(scroll_top as int),
        total > 0 ==> r.1 == (if r.0 + drawn_count(client_height as int) < total {
            r.0 + drawn_count(client_height as int)
        } else {
            total as int
        }),
{
    if total == 0 {
        return (0, 0);
    }
    let scrolled: i64 = scroll_top as i64 - LIST_TOP;
    let rows_above: usize = if scrolled > 0 {
        (scrolled / 64) as usize
    } else {
        0
    };
    let start = if rows_above > OVERSCAN {
        rows_above - OVERSCAN
    } else {
        0
    };
    let rows_seen: usize = if client_height > 0 {
        ((client_height as i64 + 63) / 64) as usize
    } else {
        0
    };
    let count = rows_seen + OVERSCAN * 2 + 2;
    let end = if start + count < total {
        start + count
    } else {
        total
    };
    (start, end)
}

/// The drawn rows with their positions.
pub fn visible_rows(items: &Vec<PhotoItem>, start: usize, end: usize) -> (rows: Vec<
    (usize, PhotoItem),
>)
    ensures
        forall|i: int|
            0 <= i < rows@.len() ==> #[trigger] rows@[i] == ((start + i) as usize, items@[start
                + i]),
        rows@.len() == (if start < end && start < items@.len() {
            if end < items@.len() {
                end - start
            } else {
                items@.len() - start
            }
        } else {
            0
        }),
{
    let mut rows: Vec<(usize, PhotoItem)> = Vec::new();
    let mut i: usize = start;
    while i < end && i < items.len()
        invariant
            start <= i,
            i == start || (i <= end && i <= items@.len()),
            rows@.len() == i - start,
            forall|k: int|
                0 <= k < rows@.len() ==> #[trigger] rows@[k] == ((start + k) as usize, items@[start
                    + k]),
        decreases items@.len() - i,
    {
        rows.push((i, items[i].clone()));
        i += 1;
    }
    rows
}

/// The style of the empty space that stands for rows that are not drawn.
pub fn spacer_style(rows: usize) -> (s: String)
    requires
        rows <= 0x20_0000_0000_0000,
        rows * ROW_HEIGHT <= usize::MAX,
    ensures
        s@ == spacer_text(rows as nat),
        s@ == "height: "@ + decimal((rows * ROW_HEIGHT) as nat) + "px;"@,
{
    let mut s = String::new();
    s.append("height: ");
    push_decimal(&mut s, (rows * ROW_HEIGHT) as u64);
    s.append("px;");
    assert(s@ =~= "height: "@ + decimal((rows * ROW_HEIGHT) as nat) + "px;"@);
    s
}

/// How many rows stand behind the drawn ones.
pub fn rows_below(total: usize, end: usize) -> (n: usize)
    ensures
        n == (if total > end {
            total - end
        } else {
            0
        }),
{
    if total > end {
        total - end
    } else {
        0
    }
}

// ---------------------------------------------------------------------------
// Scrolling near an edge
// ---------------------------------------------------------------------------

/// The pattern of 80: closer to an edge than this many pixels a pane scrolls.
pub const EDGE_BITS: u64 = 0x4054_0000_0000_0000;

/// The pattern of one half: slower than this many pixels a step a pane stands still.
pub const HALF_BITS: u64 = 0x3FE0_0000_0000_0000;

/// Which way a pane is pulled.
#[derive(Clone, Copy, PartialEq, Eq, Structural, Debug)]
pub enum EdgePull {
    Up,
    Down,
    Still,
}

/// Which way a pane scrolls whose edges are this far from the pointer.
pub open spec fn pulled(dist_top: Double, dist_bottom: Double) -> EdgePull {
    if dist_top.less(Double { bits: EDGE_BITS }) {
        EdgePull::Up
    } else if dist_bottom.less(Double { bits: EDGE_BITS }) {
        EdgePull::Down
    } else {
        EdgePull::Still
    }
}

/// Which way a pane scrolls whose edges are this far from the pointer; the upper edge is asked
/// first.
pub fn edge_pull(dist_top: Double, dist_bottom: Double) -> (p: EdgePull)
    ensures
        p == pulled(dist_top, dist_bottom),
        p == (if dist_top.less(Double { bits: EDGE_BITS }) {
            EdgePull::Up
        } else if dist_bottom.less(Double { bits: EDGE_BITS }) {
            EdgePull::Down
        } else {
            EdgePull::Still
        }),
{
    let edge = Double { bits: EDGE_BITS };
    if dist_top.lt(edge) {
        EdgePull::Up
    } else if dist_bottom.lt(edge) {
        EdgePull::Down
    } else {
        EdgePull::Still
    }
}

/// What an element under the pointer means for scrolling.
#[derive(Clone, Copy, PartialEq, Eq, Structural, Debug)]
pub enum PaneRole {
    /// It is no pane: the element around it is asked next.
    Inside,
    /// It is a pane that scrolls.
    Scrolls,
    /// It is a pane with nothing to scroll: the window scrolls instead.
    Fixed,
}

/// What an element means for scrolling, by its classes, the height of what it holds and the
/// height it shows.
pub open spec fn role_of(class_name: Seq<char>, scroll_height: int, client_height: int) -> PaneRole {
    if !occurs(class_name, "left-pane"@) && !occurs(class_name, "right-pane"@) {
        PaneRole::Inside
    } else if scroll_height > client_height {
        PaneRole::Scrolls
    } else {
        PaneRole::Fixed
    }
}

/// Tells what an element means for scrolling, by its classes, the height of what it holds and
/// the height it shows.
pub fn pane_role(class_name: &str, scroll_height: i32, client_height: i32) -> (r: PaneRole)
    ensures
        r == role_of(class_name@, scroll_height as int, client_height as int),
        r == (if !occurs(class_name@, "left-pane"@) && !occurs(class_name@, "right-pane"@) {
            PaneRole::Inside
        } else if scroll_height > client_height {
            PaneRole::Scrolls
        } else {
            PaneRole::Fixed
        }),
{
    if !contains(class_name, "left-pane") && !contains(class_name, "right-pane") {
        PaneRole::Inside
    } else if scroll_height > client_height {
        PaneRole::Scrolls
    } else {
        PaneRole::Fixed
    }
}

/// Which way the window scrolls; a window without a height stands still.
pub fn window_pull(height: Double, dist_top: Double, dist_bottom: Double) -> (p: EdgePull)
    ensures
        (Double { bits: 0 }).less(height) ==> p == pulled(dist_top, dist_bottom),
        height.at_most(Double { bits: 0 }) ==> p == EdgePull::Still,
        p == (if height.at_most(Double { bits: 0 }) {
            EdgePull::Still
        } else if dist_top.less(Double { bits: EDGE_BITS }) {
            EdgePull::Up
        } else if dist_bottom.less(Double { bits: EDGE_BITS }) {
            EdgePull::Down
        } else {
            EdgePull::Still
        }),
{
    if height.le(Double { bits: 0 }) {
        EdgePull::Still
    } else {
        edge_pull(dist_top, dist_bottom)
    }
}

/// Whether a step of this size, up or down, is worth taking.
pub open spec fn worth_a_step(speed: Double) -> bool {
    !speed.is_nan() && speed.magnitude() > HALF_BITS
}

/// Tells whether a step of this size, up or down, is worth taking.
pub fn worth_scrolling(speed: Double) -> (r: bool)
    ensures
        r == worth_a_step(speed),
        r == (!speed.is_nan() && speed.magnitude() > HALF_BITS),
{
    Double { bits: HALF_BITS }.lt(speed.abs())
}

// ---------------------------------------------------------------------------
// Laws
// ---------------------------------------------------------------------------

/// Every row of which the pane shows a pixel is drawn. The list begins `LIST_TOP` pixels below
/// the top of what scrolls.
pub proof fn seen_rows_are_drawn(total: nat, scroll_top: int, height: int, row: int)
    requires
        scroll_top >= 0,
        height >= 0,
        0 <= row < total,
        LIST_TOP + (row + 1) * ROW_HEIGHT > scroll_top,
        LIST_TOP + row * ROW_HEIGHT < scroll_top + height,
    ensures
        first_drawn(scroll_top) <= row,
        row < first_drawn(scroll_top) + drawn_count(height),
{
}

/// Rows are 64 pixels high and begin 80 pixels down. A list that is scrolled past ten rows and
/// `row` more draws from that row on, and one that is scrolled less draws from the first; a pane
/// that shows `rows` rows, the last one perhaps in part, draws 22 more.
pub proof fn ten_rows_more_are_drawn(row: int, rows: int, part: int)
    requires
        0 <= row,
        0 < rows,
        0 <= part < 64,
    ensures
        first_drawn(80 + 64 * (10 + row) + part) == row,
        row < 10 ==> first_drawn(80 + 64 * row + part) == 0,
        first_drawn(80 - row) == 0,
        drawn_count(64 * rows - part) == rows + 22,
        drawn_count(-part) == 22,
{
}

/// A list that is scrolled further draws from no earlier row, and a higher pane draws no fewer.
pub proof fn drawing_follows_the_scroll(scroll_top: int, further: int, height: int, higher: int)
    requires
        scroll_top <= further,
        height <= higher,
    ensures
        0 <= first_drawn(scroll_top) <= first_drawn(further),
        22 <= drawn_count(height) <= drawn_count(higher),
{
}

/// A pane is pulled by an edge that is nearer than 80 pixels: up by the upper one whatever the
/// lower one says, down by the lower one where the upper one is far. An edge that pulls still
/// pulls from nearer.
pub proof fn near_edges_pull(dist_top: Double, dist_bottom: Double, nearer: Double)
    ensures
        dist_top.less(Double { bits: 0x4054_0000_0000_0000 }) <==> pulled(dist_top, dist_bottom)
            == EdgePull::Up,
        pulled(dist_top, dist_bottom) == EdgePull::Down <==> pulled(dist_top, dist_top)
            != EdgePull::Up && pulled(dist_bottom, dist_bottom) == EdgePull::Up,
        pulled(dist_top, dist_bottom) == EdgePull::Up && nearer.at_most(dist_top) ==> pulled(
            nearer,
            dist_bottom,
        ) == EdgePull::Up,
        pulled(dist_top, dist_bottom) == EdgePull::Down && nearer.at_most(dist_bottom) ==> pulled(
            dist_top,
            nearer,
        ) == EdgePull::Down,
{
}

/// An element is a pane where its classes name one, wherever they do; a pane scrolls exactly
/// where it holds more than it shows.
pub proof fn panes_are_named(
    a: Seq<char>,
    b: Seq<char>,
    class_name: Seq<char>,
    scroll_height: int,
    client_height: int,
)
    ensures
        ({
            let role = if scroll_height > client_height {
                PaneRole::Scrolls
            } else {
                PaneRole::Fixed
            };
            &&& role_of(a + "left-pane"@ + b, scroll_height, client_height) == role
            &&& role_of(a + "right-pane"@ + b, scroll_height, client_height) == role
            &&& !occurs(class_name, "left-pane"@) && !occurs(class_name, "right-pane"@)
                ==> role_of(class_name, scroll_height, client_height) == PaneRole::Inside
        }),
{
    middle_occurs(a, "left-pane"@, b);
    middle_occurs(a, "right-pane"@, b);
}

/// Steps up and down are judged alike, and a longer step than one worth taking is worth taking;
/// a step of half a pixel is not, the next longer one is.
pub proof fn steps_are_judged_by_length(speed: Double, back: Double, longer: Double)
    requires
        speed.magnitude() == back.magnitude(),
        !longer.is_nan(),
    ensures
        worth_a_step(speed) == worth_a_step(back),
        worth_a_step(speed) && longer.magnitude() >= speed.magnitude() ==> worth_a_step(longer),
        !speed.is_nan() && speed.magnitude() <= 0x3FE0_0000_0000_0000 ==> !worth_a_step(speed),
        longer.magnitude() > 0x3FE0_0000_0000_0000 ==> worth_a_step(longer),
        speed.is_nan() ==> !worth_a_step(speed),
{
}

/// The rows drawn are within the list, every row that is seen is among them, and the list is
/// drawn whole where the pane is high enough and not scrolled.
pub proof fn range_covers_what_is_seen(total: int, scroll_top: int, height: int, row: int)
    requires
        0 <= total,
        0 <= scroll_top,
        0 <= height,
    ensures
        ({
            let (start, end) = drawn_range(total, scroll_top, height);
            &&& 0 <= start
            &&& end <= total
            &&& 0 <= row < total && 80 + 64 * (row + 1) > scroll_top && 80 + 64 * row < scroll_top
                + height ==> start <= row < end
            &&& 80 + 64 * total <= height && scroll_top == 0 ==> (start, end) == (0int, total)
            &&& end - start <= (height + 63) / 64 + 22
        }),
{
    if 0 <= row < total && 80 + 64 * (row + 1) > scroll_top && 80 + 64 * row < scroll_top + height {
        seen_rows_are_drawn(total as nat, scroll_top, height, row);
    }
}

/// A space is 64 pixels high for each row it stands for, so that the spaces above and below and
/// the rows between are as high as the whole list.
pub proof fn spaces_keep_the_height(rows: nat)
    requires
        64 * rows <= usize::MAX,
    ensures
        index_of(spacer_text(rows).subrange(8, spacer_text(rows).len() - 3)) == Some(
            (64 * rows) as usize,
        ),
        spacer_text(rows).subrange(0, 8) == "height: "@,
        spacer_text(rows).skip(spacer_text(rows).len() - 3) == "px;"@,
{
    reveal_strlit("height: ");
    reveal_strlit("px;");
    let text = spacer_text(rows);
    index_reads_back((64 * rows) as usize);
    assert(text.subrange(8, text.len() - 3) =~= decimal(64 * rows));
    assert(text.subrange(0, 8) =~= "height: "@);
    assert(text.skip(text.len() - 3) =~= "px;"@);
}

} // verus!
