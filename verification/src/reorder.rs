//! Reordering the photo list, by mouse, by finger and by button.
use vstd::prelude::*;

use crate::photo::{distinct_ids, PhotoItem};
use crate::double::Double;

verus! {

// ---------------------------------------------------------------------------
// Moving one photo
// ---------------------------------------------------------------------------

/// The list with the photo at `from` taken out and put back so that it stands at `to`; the same
/// list where either position is outside it or both are one.
pub open spec fn moved(items: Seq<PhotoItem>, from: int, to: int) -> Seq<PhotoItem> {
    if 0 <= from < items.len() && 0 <= to < items.len() && from != to {
        items.remove(from).insert(to, items[from])
    } else {
        items
    }
}

/// Moves the photo at `from` to `to`; the others keep their order.
pub fn move_item(items: &mut Vec<PhotoItem>, from: usize, to: usize)
    ensures
        final(items)@ == moved(old(items)@, from as int, to as int),
{
    if from >= items.len() || to >= items.len() || from == to {
        return;
    }
    let item = items.remove(from);
    items.insert(to, item);
}

/// The list with the photo at `i` one place further to the front.
pub open spec fn raised(items: Seq<PhotoItem>, i: int) -> Seq<PhotoItem> {
    moved(items, i, i - 1)
}

/// The list with the photo at `i` one place further to the end.
pub open spec fn lowered(items: Seq<PhotoItem>, i: int) -> Seq<PhotoItem> {
    moved(items, i, i + 1)
}

/// Moves the photo at `i` one place towards the front.
pub fn move_up(items: &mut Vec<PhotoItem>, i: usize)
    ensures
        final(items)@ == raised(old(items)@, i as int),
        final(items)@ == moved(old(items)@, i as int, i - 1),
{
    if i > 0 {
        move_item(items, i, i - 1);
    }
}

/// Moves the photo at `i` one place towards the end.
pub fn move_down(items: &mut Vec<PhotoItem>, i: usize)
    ensures
        final(items)@ == lowered(old(items)@, i as int),
        final(items)@ == moved(old(items)@, i as int, i + 1),
{
    if i < items.len() && i + 1 < items.len() {
        move_item(items, i, i + 1);
    }
}

/// Whether no photo stands behind position `i` of a list of this length.
pub fn is_last(i: usize, len: usize) -> (r: bool)
    ensures
        r == (len == 0 || i + 1 >= len),
{
    len == 0 || i >= len - 1
}

// ---------------------------------------------------------------------------
// Where a dragged photo would go
// ---------------------------------------------------------------------------

/// The insertion point shown while the photo at `from` is dragged over the row `target`: before
/// that row or behind it, and never a point that would leave the photo where it is. None over
/// the dragged row itself.
pub open spec fn drop_indicator(from: int, target: int, before: bool) -> Option<int> {
    if target == from {
        None
    } else {
        let raw = if before {
            target
        } else {
            target + 1
        };
        if raw == from || raw == from + 1 {
            Some(
                if target < from {
                    target
                } else {
                    target + 1
                },
            )
        } else {
            Some(raw)
        }
    }
}

/// A possible position as an index.
pub open spec fn position(p: Option<int>) -> Option<usize> {
    match p {
        Some(i) => Some(i as usize),
        None => None,
    }
}

fn resolve_indicator(from: usize, target: usize, before: bool) -> (r: Option<usize>)
    requires
        target < usize::MAX,
    ensures
        r == position(drop_indicator(from as int, target as int, before)),
{
    if target == from {
        return None;
    }
    let raw = if before {
        target
    } else {
        target + 1
    };
    if raw == from || (raw > from && raw - from == 1) {
        Some(
            if target < from {
                target
            } else {
                target + 1
            },
        )
    } else {
        Some(raw)
    }
}

/// Whether a height over a row means before it.
pub open spec fn before_row(mid: Double, y: Double) -> bool {
    y.at_most(mid)
}

/// The insertion point for a list: down to its vertical middle `mid` a row means before it.
pub fn compute_drop_indicator(from: usize, target: usize, mid: Double, y: Double) -> (r: Option<usize>)
    requires
        target < usize::MAX,
    ensures
        r == position(drop_indicator(from as int, target as int, before_row(mid, y))),
        r == position(drop_indicator(from as int, target as int, y.at_most(mid))),
{
    resolve_indicator(from, target, y.le(mid))
}

/// Whether a point of a slot means before it. In one column that is the upper half; in a grid
/// it is all but the lower right quarter.
pub open spec fn before_slot(cols: nat, mid_x: Double, mid_y: Double, x: Double, y: Double) -> bool {
    y.at_most(mid_y) || (cols > 1 && x.at_most(mid_x))
}

/// The insertion point for a page of the preview.
pub fn compute_slot_indicator(
    from: usize,
    target: usize,
    cols: usize,
    mid_x: Double,
    mid_y: Double,
    x: Double,
    y: Double,
) -> (r: Option<usize>)
    requires
        target < usize::MAX,
    ensures
        r == position(
            drop_indicator(
                from as int,
                target as int,
                before_slot(cols as nat, mid_x, mid_y, x, y),
            ),
        ),
{
    resolve_indicator(from, target, y.le(mid_y) || (cols > 1 && x.le(mid_x)))
}

/// The position that an insertion point means once the dragged photo has been taken out.
pub open spec fn drop_position(from: int, indicator: int) -> int {
    if from < indicator {
        indicator - 1
    } else {
        indicator
    }
}

/// The list after a drop at an insertion point; unchanged where there is none.
pub open spec fn dropped(items: Seq<PhotoItem>, from: int, indicator: Option<usize>) -> Seq<
    PhotoItem,
> {
    match indicator {
        Some(at) => moved(items, from, drop_position(from, at as int)),
        None => items,
    }
}

/// Drops the photo dragged from `from` at an insertion point.
pub fn drop_photo(items: &mut Vec<PhotoItem>, from: usize, indicator: Option<usize>)
    ensures
        final(items)@ == dropped(old(items)@, from as int, indicator),
{
    match indicator {
        Some(at) => {
            let to = if from < at {
                at - 1
            } else {
                at
            };
            move_item(items, from, to);
        },
        None => {},
    }
}

// ---------------------------------------------------------------------------
// Laws
// ---------------------------------------------------------------------------

/// Moving a photo puts it where it was sent, keeps the others in their order, and adds or loses
/// none.
pub proof fn move_only_moves(items: Seq<PhotoItem>, from: int, to: int)
    requires
        0 <= from < items.len(),
        0 <= to < items.len(),
    ensures
        moved(items, from, to).len() == items.len(),
        moved(items, from, to)[to] == items[from],
        moved(items, from, to).remove(to) == items.remove(from),
        moved(items, from, to).to_multiset() == items.to_multiset(),
        distinct_ids(items) ==> distinct_ids(moved(items, from, to)),
{
    broadcast use vstd::seq_lib::group_to_multiset_ensures;

    let out = moved(items, from, to);
    assert(out.remove(to) =~= items.remove(from));
    if from != to {
        assert(items.remove(from).insert(to, items[from]).to_multiset() =~= items.to_multiset());
        if distinct_ids(items) {
            assert forall|i: int, j: int| 0 <= i < j < out.len() implies out[i].id != out[j].id by {
                let a = source_of(from, to, i);
                let b = source_of(from, to, j);
                assert(out[i] == items[a]);
                assert(out[j] == items[b]);
                assert(a != b);
                if a < b {
                    assert(items[a].id != items[b].id);
                } else {
                    assert(items[b].id != items[a].id);
                }
            }
        }
    }
}

/// Moving a photo back where it came from restores the list.
pub proof fn move_back_restores(items: Seq<PhotoItem>, from: int, to: int)
    ensures
        moved(moved(items, from, to), to, from) == items,
{
    assert(moved(moved(items, from, to), to, from) =~= items);
}

/// An insertion point that is shown always moves the photo, next to the row under the cursor:
/// directly before that photo or directly behind it, and never outside the list.
pub proof fn indicator_lands_beside_target(
    items: Seq<PhotoItem>,
    from: int,
    target: int,
    before: bool,
)
    requires
        0 <= from < items.len(),
        0 <= target < items.len(),
        from != target,
    ensures
        drop_indicator(from, target, before) matches Some(at) && {
            let to = drop_position(from, at);
            let out = moved(items, from, to);
            &&& 0 <= to < items.len()
            &&& to != from
            &&& out[to] == items[from]
            &&& at == target ==> out[to + 1] == items[target]
            &&& at == target + 1 ==> out[to - 1] == items[target]
            &&& at == target || at == target + 1
        },
{
    let at = drop_indicator(from, target, before)->0;
    let to = drop_position(from, at);
    let out = moved(items, from, to);
    assert forall|i: int| 0 <= i < items.len() implies out[i] == items[source_of(from, to, i)] by {}
}

spec fn source_of(from: int, to: int, i: int) -> int {
    if i == to {
        from
    } else if from <= i < to {
        i + 1
    } else if to < i <= from {
        i - 1
    } else {
        i
    }
}

/// Where a drag over another row drops the photo: in the part that means before it, directly
/// before that row's photo; in the part that means behind it, directly behind. Only where the
/// photo stands there already does it go to the other side.
pub proof fn drop_lands_on_the_side_shown(
    items: Seq<PhotoItem>,
    from: usize,
    target: usize,
    before: bool,
)
    requires
        from < items.len() < usize::MAX,
        target < items.len(),
        from != target,
    ensures
        ({
            let at = position(drop_indicator(from as int, target as int, before));
            let out = dropped(items, from as int, at);
            &&& at is Some
            &&& out.len() == items.len()
            &&& out.to_multiset() == items.to_multiset()
            &&& before && target != from + 1 || !before && target + 1 == from ==> stands_before(
                out,
                items[from as int],
                items[target as int],
            )
            &&& !before && target + 1 != from || before && target == from + 1 ==> stands_before(
                out,
                items[target as int],
                items[from as int],
            )
            &&& out.remove(new_place(from as int, target as int, before)) == items.remove(
                from as int,
            )
        }),
{
    let at = drop_indicator(from as int, target as int, before)->0;
    let to = drop_position(from as int, at);
    let out = moved(items, from as int, to);
    move_only_moves(items, from as int, to);
    assert forall|i: int| 0 <= i < items.len() implies out[i] == items[source_of(
        from as int,
        to,
        i,
    )] by {}
    assert(to == new_place(from as int, target as int, before));
    if at == target {
        assert(out[to] == items[from as int] && out[to + 1] == items[target as int]);
    } else {
        assert(out[to - 1] == items[target as int] && out[to] == items[from as int]);
    }
}

/// Whether one photo stands directly before another.
pub open spec fn stands_before(items: Seq<PhotoItem>, a: PhotoItem, b: PhotoItem) -> bool {
    exists|i: int| 0 <= i < items.len() - 1 && #[trigger] items[i] == a && items[i + 1] == b
}

/// The place of a dragged photo after the drop: that of the target, one further up where the
/// photo comes from above and goes before it, one further down where it comes from below and
/// goes behind it; next to the target it changes places with it.
pub open spec fn new_place(from: int, target: int, before: bool) -> int {
    if from < target {
        if before && target != from + 1 {
            target - 1
        } else {
            target
        }
    } else {
        if before || target + 1 == from {
            target
        } else {
            target + 1
        }
    }
}

/// A drag over its own row shows no insertion point, and a drop without one, or a move from or to
/// a place outside the list, changes nothing.
pub proof fn idle_drops_change_nothing(items: Seq<PhotoItem>, from: int, to: int, before: bool)
    ensures
        drop_indicator(from, from, before) is None,
        dropped(items, from, None) == items,
        !(0 <= from < items.len()) || !(0 <= to < items.len()) || from == to ==> moved(
            items,
            from,
            to,
        ) == items,
{
}

/// In one column only the height of the pointer counts; in a grid a point means behind exactly
/// where it is both below and to the right of the middle, so a step up or to the left never turns
/// before into behind.
pub proof fn lower_right_means_behind(
    cols: nat,
    mid_x: Double,
    mid_y: Double,
    x: Double,
    y: Double,
    left: Double,
    up: Double,
)
    ensures
        cols <= 1 ==> before_slot(cols, mid_x, mid_y, x, y) == before_slot(
            cols,
            mid_x,
            mid_y,
            left,
            y,
        ),
        mid_y.less(y) && cols <= 1 ==> !before_slot(cols, mid_x, mid_y, x, y),
        y.at_most(mid_y) ==> before_slot(cols, mid_x, mid_y, x, y),
        cols > 1 && x.at_most(mid_x) ==> before_slot(cols, mid_x, mid_y, x, y),
        mid_x.less(x) && mid_y.less(y) ==> !before_slot(cols, mid_x, mid_y, x, y),
        left.at_most(x) && up.at_most(y) && before_slot(cols, mid_x, mid_y, x, y) ==> before_slot(
            cols,
            mid_x,
            mid_y,
            left,
            up,
        ),
{
}

/// A step up or down changes places with the neighbour on that side and leaves all others where
/// they are; one undoes the other. The first photo cannot go up, nor the last one down.
pub proof fn steps_swap_neighbours(items: Seq<PhotoItem>, i: int)
    ensures
        0 < i < items.len() ==> raised(items, i) == items.update(i - 1, items[i]).update(
            i,
            items[i - 1],
        ),
        0 <= i < items.len() - 1 ==> lowered(items, i) == items.update(i + 1, items[i]).update(
            i,
            items[i + 1],
        ),
        0 < i < items.len() ==> lowered(raised(items, i), i - 1) == items,
        0 <= i < items.len() - 1 ==> raised(lowered(items, i), i + 1) == items,
        i <= 0 || i >= items.len() ==> raised(items, i) == items,
        i < 0 || i >= items.len() - 1 ==> lowered(items, i) == items,
{
    if 0 < i < items.len() {
        assert(raised(items, i) =~= items.update(i - 1, items[i]).update(i, items[i - 1]));
        move_back_restores(items, i, i - 1);
    }
    if 0 <= i < items.len() - 1 {
        assert(lowered(items, i) =~= items.update(i + 1, items[i]).update(i, items[i + 1]));
        move_back_restores(items, i, i + 1);
    }
}

/// A row of the list is judged as a slot in a single column is, wherever the pointer stands across
/// it: its middle and what is above mean before, what is below means behind.
pub proof fn rows_are_slots_of_one_column(mid_x: Double, mid: Double, x: Double, y: Double)
    ensures
        before_row(mid, y) == before_slot(1, mid_x, mid, x, y),
        !mid.is_nan() ==> before_row(mid, mid),
        mid.less(y) ==> !before_row(mid, y),
        y.less(mid) ==> before_row(mid, y),
{
}

} // verus!
