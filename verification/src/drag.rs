//! The gesture that reorders photos: what is dragged, where it would go, what a release does.
use vstd::prelude::*;

use crate::double::Double;
use crate::photo::PhotoItem;
use crate::reorder::{
    before_row, before_slot, compute_drop_indicator, compute_slot_indicator, drop_indicator,
    drop_lands_on_the_side_shown, drop_photo, dropped, position, stands_before,
};
use crate::text::same_text;

verus! {

/// How long a finger must rest before the touch becomes a drag, in milliseconds.
pub const TOUCH_HOLD_MS: u32 = 250;

/// A finger that moves further than this many pixels before the hold is over scrolls instead.
pub const TOUCH_MOVE_THRESHOLD_PX: i64 = 8;

/// The state of a reordering gesture.
#[derive(Clone, Copy, PartialEq, Eq, Debug)]
pub struct DragState {
    /// The position of the photo that is dragged.
    pub drag_idx: Option<usize>,
    /// The insertion point that is shown.
    pub drop_indicator: Option<usize>,
    /// The last insertion point that a finger reached, kept when it drifts off.
    pub last_indicator: Option<usize>,
    /// Whether a held touch has become a drag.
    pub touch_active: bool,
    /// Where the touch began.
    pub touch_start: (i32, i32),
    /// Where the pointer was last seen.
    pub cursor: (i32, i32),
}

/// What a move of the finger means.
#[derive(Clone, Copy, PartialEq, Eq, Structural, Debug)]
pub enum TouchMove {
    /// The finger still rests: the hold goes on.
    Hold,
    /// The finger scrolls: the hold is over, and no drag begins.
    CancelHold,
    /// The finger drags a photo.
    Drag,
}

/// The distance of two coordinates.
pub open spec fn distance(a: int, b: int) -> int {
    if a < b {
        b - a
    } else {
        a - b
    }
}

/// Whether a finger has left the place where it came down.
pub open spec fn strayed(start: (i32, i32), at: (i32, i32)) -> bool {
    distance(at.0 as int, start.0 as int) > TOUCH_MOVE_THRESHOLD_PX || distance(
        at.1 as int,
        start.1 as int,
    ) > TOUCH_MOVE_THRESHOLD_PX
}

fn coordinate_distance(a: i32, b: i32) -> (d: i64)
    ensures
        d == distance(a as int, b as int),
{
    if a < b {
        b as i64 - a as i64
    } else {
        a as i64 - b as i64
    }
}

/// Tells whether a pointer is a finger or a pen, which reorder by holding. The mouse has its
/// own drag and drop.
pub fn is_touch(pointer_type: &str) -> (r: bool)
    ensures
        r == (pointer_type@ != "mouse"@),
{
    !same_text(pointer_type, "mouse")
}

/// Whether a press may become a touch drag.
pub open spec fn holdable(
    pointer_type: Seq<char>,
    editing: bool,
    interactive: bool,
    primary: bool,
) -> bool {
    pointer_type != "mouse"@ && !editing && !interactive && primary
}

/// Tells whether a press may become a touch drag: by the first finger, outside text that is
/// edited and outside elements that react to a tap.
pub fn may_hold(pointer_type: &str, editing: bool, interactive: bool, primary: bool) -> (r: bool)
    ensures
        r == holdable(pointer_type@, editing, interactive, primary),
        r == (pointer_type@ != "mouse"@ && !editing && !interactive && primary),
{
    is_touch(pointer_type) && !editing && !interactive && primary
}

impl DragState {
    /// Whether the insertion point belongs to a drag and would move the photo.
    pub open spec fn well_formed(&self) -> bool {
        self.drop_indicator matches Some(at) ==> (self.drag_idx matches Some(from) && at != from
            && at != from + 1)
    }

    /// The state once the pointer is over the row or slot `target`, in the part that means
    /// before it or in the part that means behind it.
    pub open spec fn hovered(self, target: usize, before: bool) -> DragState {
        match self.drag_idx {
            Some(from) => DragState {
                drop_indicator: position(drop_indicator(from as int, target as int, before)),
                ..self
            },
            None => self,
        }
    }

    /// The same for a finger, whose last insertion point is kept.
    pub open spec fn touched(self, target: usize, before: bool) -> DragState {
        let over = self.hovered(target, before);
        match (self.drag_idx, over.drop_indicator) {
            (Some(_), Some(at)) => DragState { last_indicator: Some(at), ..over },
            _ => over,
        }
    }

    /// The state once a drag of the photo at `index` has begun.
    pub open spec fn started(self, index: usize) -> DragState {
        DragState { drag_idx: Some(index), drop_indicator: None, ..self }
    }

    /// The state once a drag is over.
    pub open spec fn ended(self) -> DragState {
        DragState { drag_idx: None, drop_indicator: None, ..self }
    }

    /// The state once a finger has come down.
    pub open spec fn pressed(self, x: i32, y: i32) -> DragState {
        DragState { touch_start: (x, y), cursor: (x, y), ..self }
    }

    /// The state once a finger has rested long enough on the photo at `index`.
    pub open spec fn confirmed(self, index: usize) -> DragState {
        DragState { touch_active: true, ..self.started(index) }
    }

    /// What a move of the finger to a place means.
    pub open spec fn meaning(self, x: i32, y: i32) -> TouchMove {
        if self.touch_active {
            TouchMove::Drag
        } else if strayed(self.touch_start, (x, y)) {
            TouchMove::CancelHold
        } else {
            TouchMove::Hold
        }
    }

    /// The list once the mouse has let go over it.
    pub open spec fn dropped_list(self, items: Seq<PhotoItem>) -> Seq<PhotoItem> {
        match self.drag_idx {
            Some(from) => dropped(items, from as int, self.drop_indicator),
            None => items,
        }
    }

    /// The list once the finger has lifted.
    pub open spec fn released_list(
        self,
        items: Seq<PhotoItem>,
        under_finger: Option<usize>,
    ) -> Seq<PhotoItem> {
        match self.drag_idx {
            Some(from) if self.touch_active => dropped(
                items,
                from as int,
                self.release_point(under_finger),
            ),
            _ => items,
        }
    }

    /// No gesture.
    pub fn idle() -> (s: Self)
        ensures
            s.drag_idx is None,
            s.drop_indicator is None,
            s.last_indicator is None,
            !s.touch_active,
            s.touch_start == (0i32, 0i32),
            s.cursor == (0i32, 0i32),
            s.well_formed(),
    {
        DragState {
            drag_idx: None,
            drop_indicator: None,
            last_indicator: None,
            touch_active: false,
            touch_start: (0, 0),
            cursor: (0, 0),
        }
    }

    /// Whether a photo is dragged.
    pub fn is_dragging(&self) -> (r: bool)
        ensures
            r == (self.drag_idx is Some),
    {
        self.drag_idx.is_some()
    }

    /// Whether the panes scroll by themselves near their edges.
    pub fn scrolls(&self) -> (r: bool)
        ensures
            r == (self.drag_idx is Some || self.touch_active),
    {
        self.drag_idx.is_some() || self.touch_active
    }

    /// A drag of the photo at `index` begins.
    pub fn start(&mut self, index: usize)
        ensures
            *final(self) == old(self).started(index),
            *final(self) == (DragState {
                drag_idx: Some(index),
                drop_indicator: None,
                ..*old(self)
            }),
            final(self).well_formed(),
    {
        self.drag_idx = Some(index);
        self.drop_indicator = None;
    }

    /// The drag is over without a drop.
    pub fn end(&mut self)
        ensures
            *final(self) == old(self).ended(),
            *final(self) == (DragState { drag_idx: None, drop_indicator: None, ..*old(self) }),
            final(self).well_formed(),
    {
        self.drag_idx = None;
        self.drop_indicator = None;
    }

    /// The pointer is seen at a place while a photo is dragged.
    pub fn track(&mut self, x: i32, y: i32)
        ensures
            *final(self) == (DragState { cursor: (x, y), ..*old(self) }),
            old(self).well_formed() ==> final(self).well_formed(),
    {
        self.cursor = (x, y);
    }

    /// The mouse drags over the row `target` of the list.
    pub fn over_row(&mut self, target: usize, mid: Double, y: Double)
        requires
            target < usize::MAX,
        ensures
            *final(self) == old(self).hovered(target, before_row(mid, y)),
            *final(self) == old(self).hovered(target, y.at_most(mid)),
            old(self).well_formed() ==> final(self).well_formed(),
    {
        match self.drag_idx {
            Some(from) => {
                self.drop_indicator = compute_drop_indicator(from, target, mid, y);
            },
            None => {},
        }
    }

    /// The mouse drags over the slot of the photo `target` in the preview.
    pub fn over_slot(
        &mut self,
        target: usize,
        cols: usize,
        mid_x: Double,
        mid_y: Double,
        x: Double,
        y: Double,
    )
        requires
            target < usize::MAX,
        ensures
            *final(self) == old(self).hovered(
                target,
                before_slot(cols as nat, mid_x, mid_y, x, y),
            ),
            old(self).well_formed() ==> final(self).well_formed(),
    {
        match self.drag_idx {
            Some(from) => {
                self.drop_indicator = compute_slot_indicator(
                    from,
                    target,
                    cols,
                    mid_x,
                    mid_y,
                    x,
                    y,
                );
            },
            None => {},
        }
    }

    /// Keeps the insertion point that is shown now, if there is one, as the last one reached.
    fn remember(&mut self)
        ensures
            *final(self) == (DragState {
                last_indicator: if old(self).drop_indicator is Some {
                    old(self).drop_indicator
                } else {
                    old(self).last_indicator
                },
                ..*old(self)
            }),
    {
        if self.drop_indicator.is_some() {
            self.last_indicator = self.drop_indicator;
        }
    }

    /// A finger drags over the row `target` of the list.
    pub fn touch_over_row(&mut self, target: usize, mid: Double, y: Double)
        requires
            target < usize::MAX,
        ensures
            *final(self) == old(self).touched(target, before_row(mid, y)),
            *final(self) == old(self).touched(target, y.at_most(mid)),
            old(self).well_formed() ==> final(self).well_formed(),
    {
        if self.is_dragging() {
            self.over_row(target, mid, y);
            self.remember();
        }
    }

    /// A finger drags over the slot of the photo `target` in the preview.
    pub fn touch_over_slot(
        &mut self,
        target: usize,
        cols: usize,
        mid_x: Double,
        mid_y: Double,
        x: Double,
        y: Double,
    )
        requires
            target < usize::MAX,
        ensures
            *final(self) == old(self).touched(
                target,
                before_slot(cols as nat, mid_x, mid_y, x, y),
            ),
            old(self).well_formed() ==> final(self).well_formed(),
    {
        if self.is_dragging() {
            self.over_slot(target, cols, mid_x, mid_y, x, y);
            self.remember();
        }
    }

    /// The mouse lets go over the list. Moves the dragged photo to the insertion point, ends
    /// the drag, and tells whether there was one: a drop that was none of ours brings files.
    pub fn drop_on_list(&mut self, items: &mut Vec<PhotoItem>) -> (ours: bool)
        ensures
            ours == (old(self).drag_idx is Some),
            final(items)@ == old(self).dropped_list(old(items)@),
            final(items)@ == (match old(self).drag_idx {
                Some(from) => dropped(old(items)@, from as int, old(self).drop_indicator),
                None => old(items)@,
            }),
            *final(self) == (DragState { drag_idx: None, drop_indicator: None, ..*old(self) }),
            final(self).well_formed(),
    {
        let ours = self.is_dragging();
        match self.drag_idx {
            Some(from) => {
                drop_photo(items, from, self.drop_indicator);
            },
            None => {},
        }
        self.end();
        ours
    }

    /// Something is dropped on the workspace. A drag of ours ends there without effect; `true`
    /// means that it was none and that the files that came with it are to be read.
    pub fn drop_on_workspace(&mut self) -> (files: bool)
        ensures
            files == (old(self).drag_idx is None),
            *final(self) == (if files {
                *old(self)
            } else {
                DragState { drag_idx: None, drop_indicator: None, ..*old(self) }
            }),
            old(self).well_formed() ==> final(self).well_formed(),
    {
        if self.is_dragging() {
            self.end();
            false
        } else {
            true
        }
    }

    /// A finger comes down.
    pub fn press(&mut self, x: i32, y: i32)
        ensures
            *final(self) == old(self).pressed(x, y),
            *final(self) == (DragState { touch_start: (x, y), cursor: (x, y), ..*old(self) }),
            old(self).well_formed() ==> final(self).well_formed(),
    {
        self.touch_start = (x, y);
        self.cursor = (x, y);
    }

    /// The finger has rested long enough: the photo at `index` is dragged.
    pub fn confirm_touch(&mut self, index: usize)
        ensures
            *final(self) == old(self).confirmed(index),
            *final(self) == (DragState {
                drag_idx: Some(index),
                drop_indicator: None,
                touch_active: true,
                ..*old(self)
            }),
            final(self).well_formed(),
    {
        self.touch_active = true;
        self.start(index);
    }

    /// A finger moves.
    pub fn touch_moved(&mut self, x: i32, y: i32) -> (m: TouchMove)
        ensures
            m == old(self).meaning(x, y),
            *final(self) == (DragState { cursor: (x, y), ..*old(self) }),
            m == (if old(self).touch_active {
                TouchMove::Drag
            } else if strayed(old(self).touch_start, (x, y)) {
                TouchMove::CancelHold
            } else {
                TouchMove::Hold
            }),
            old(self).well_formed() ==> final(self).well_formed(),
    {
        self.cursor = (x, y);
        if self.touch_active {
            TouchMove::Drag
        } else if coordinate_distance(x, self.touch_start.0) > TOUCH_MOVE_THRESHOLD_PX
            || coordinate_distance(y, self.touch_start.1) > TOUCH_MOVE_THRESHOLD_PX {
            TouchMove::CancelHold
        } else {
            TouchMove::Hold
        }
    }

    /// The insertion point that a release of the finger uses: the one shown, else the last one
    /// reached, else the one found under the finger.
    pub open spec fn release_point(&self, under_finger: Option<usize>) -> Option<usize> {
        if self.drop_indicator is Some {
            self.drop_indicator
        } else if self.last_indicator is Some {
            self.last_indicator
        } else {
            under_finger
        }
    }

    /// The dragged position, where a release has to look for a row under the finger.
    pub open spec fn looking(self) -> Option<usize> {
        if self.touch_active && self.drop_indicator is None && self.last_indicator is None {
            self.drag_idx
        } else {
            None
        }
    }

    /// Whether a release has to look for a row under the finger; gives the dragged position.
    pub fn release_looks_under_finger(&self) -> (r: Option<usize>)
        ensures
            r == self.looking(),
            r == (if self.touch_active && self.drop_indicator is None && self.last_indicator is None {
                self.drag_idx
            } else {
                None
            }),
    {
        if self.touch_active && self.drop_indicator.is_none() && self.last_indicator.is_none() {
            self.drag_idx
        } else {
            None
        }
    }

    /// The finger lifts. Moves the dragged photo to the insertion point and ends the gesture;
    /// `under_finger` is the insertion point found under the finger.
    pub fn release(&mut self, items: &mut Vec<PhotoItem>, under_finger: Option<usize>)
        ensures
            final(items)@ == old(self).released_list(old(items)@, under_finger),
            final(items)@ == (if old(self).touch_active && old(self).drag_idx is Some {
                dropped(
                    old(items)@,
                    old(self).drag_idx->0 as int,
                    old(self).release_point(under_finger),
                )
            } else {
                old(items)@
            }),
            *final(self) == old(self).cleaned(),
            final(self).well_formed(),
    {
        if self.touch_active {
            match self.drag_idx {
                Some(from) => {
                    let at = if self.drop_indicator.is_some() {
                        self.drop_indicator
                    } else if self.last_indicator.is_some() {
                        self.last_indicator
                    } else {
                        under_finger
                    };
                    drop_photo(items, from, at);
                },
                None => {},
            }
        }
        self.cleanup();
    }

    /// The state once a gesture is over.
    pub open spec fn cleaned(self) -> DragState {
        DragState {
            drag_idx: None,
            drop_indicator: None,
            last_indicator: None,
            touch_active: false,
            ..self
        }
    }

    /// Ends the gesture whatever it was; doing so twice does no more.
    pub fn cleanup(&mut self)
        ensures
            *final(self) == old(self).cleaned(),
            final(self).well_formed(),
    {
        self.touch_active = false;
        self.drag_idx = None;
        self.drop_indicator = None;
        self.last_indicator = None;
    }

    /// The style class of the list.
    pub fn list_class(&self) -> (s: &'static str)
        ensures
            s@ == (if self.drag_idx is Some {
                "photo-list reordering"@
            } else {
                "photo-list"@
            }),
    {
        if self.is_dragging() {
            "photo-list reordering"
        } else {
            "photo-list"
        }
    }

    /// The marks of the row at `index` of a list of `len` photos.
    pub open spec fn marks(&self, index: usize, len: usize) -> Seq<char> {
        if self.drag_idx == Some(index) {
            " dragging"@
        } else {
            (if self.drop_indicator == Some(index) {
                " drag-above"@
            } else {
                Seq::empty()
            }) + (if index + 1 == len && self.drop_indicator == Some(len) {
                " drag-below"@
            } else {
                Seq::empty()
            })
        }
    }

    /// The style class of a row or slot: `base` and its marks.
    pub fn class(&self, base: &str, index: usize, len: usize) -> (s: String)
        ensures
            s@ == base@ + self.marks(index, len),
    {
        let mut s = String::new();
        s.append(base);
        let dragged = match self.drag_idx {
            Some(i) => i == index,
            None => false,
        };
        if dragged {
            s.append(" dragging");
        } else {
            match self.drop_indicator {
                Some(at) => {
                    if at == index {
                        s.append(" drag-above");
                    }
                    if len > 0 && index == len - 1 && at == len {
                        s.append(" drag-below");
                    }
                },
                None => {},
            }
        }
        assert(s@ =~= base@ + self.marks(index, len));
        s
    }
}

// ---------------------------------------------------------------------------
// Laws
// ---------------------------------------------------------------------------

/// A drop at the insertion point of a well-formed drag always moves the dragged photo.
pub proof fn drop_of_a_drag_moves(s: DragState, items: Seq<PhotoItem>)
    requires
        s.well_formed(),
        s.drag_idx is Some,
        s.drag_idx->0 < items.len(),
        s.drop_indicator is Some,
        s.drop_indicator->0 <= items.len(),
    ensures
        ({
            let from = s.drag_idx->0 as int;
            let at = s.drop_indicator->0 as int;
            let to = if from < at {
                at - 1
            } else {
                at
            };
            &&& to != from
            &&& 0 <= to < items.len()
            &&& dropped(items, from, s.drop_indicator)[to] == items[from]
            &&& dropped(items, from, s.drop_indicator).remove(to) == items.remove(from)
        }),
{
    let from = s.drag_idx->0 as int;
    let at = s.drop_indicator->0 as int;
    let to = if from < at {
        at - 1
    } else {
        at
    };
    crate::reorder::move_only_moves(items, from, to);
}

/// Ending a gesture twice is ending it once, and nothing is dragged then.
pub proof fn cleaning_twice_is_cleaning_once(s: DragState)
    ensures
        s.cleaned().cleaned() == s.cleaned(),
        s.cleaned().drag_idx is None,
        s.cleaned().well_formed(),
{
}

/// A finger that drifts back over the dragged photo itself loses the mark that is shown, but
/// not its target: the release still drops where it last pointed.
pub proof fn drifting_back_keeps_the_target(
    s: DragState,
    target: usize,
    before: bool,
    drift: bool,
    under_finger: Option<usize>,
)
    requires
        s.drag_idx is Some,
        s.drag_idx != Some(target),
        target < usize::MAX,
    ensures
        ({
            let there = s.touched(target, before);
            let back = there.touched(s.drag_idx->0, drift);
            &&& there.drop_indicator is Some
            &&& back.drop_indicator is None
            &&& back.release_point(under_finger) == there.drop_indicator
        }),
{
}

/// A finger rests as long as it stays within eight pixels of where it came down, to either side
/// and up or down; one pixel more in either direction and it scrolls.
pub proof fn eight_pixels_are_rest(start: (i32, i32), at: (i32, i32))
    ensures
        strayed(start, at) == strayed(at, start),
        !strayed(start, at) <==> (start.0 - 8 <= at.0 <= start.0 + 8 && start.1 - 8 <= at.1
            <= start.1 + 8),
{
}

/// What a pointer over a row changes is the insertion point alone, and only while a photo is
/// dragged; a finger also remembers it, and forgets it only for another one.
pub proof fn hovering_changes_the_insertion_point_only(s: DragState, target: usize, before: bool)
    ensures
        s.drag_idx is None ==> s.hovered(target, before) == s && s.touched(target, before) == s,
        s.hovered(target, before).drag_idx == s.drag_idx,
        s.hovered(target, before).last_indicator == s.last_indicator,
        s.hovered(target, before).touch_active == s.touch_active,
        s.hovered(target, before).touch_start == s.touch_start,
        s.hovered(target, before).cursor == s.cursor,
        s.drag_idx == Some(target) ==> s.hovered(target, before).drop_indicator is None,
        s.touched(target, before).drop_indicator == s.hovered(target, before).drop_indicator,
        s.touched(target, before).drag_idx == s.drag_idx,
        s.touched(target, before).touch_active == s.touch_active,
        s.touched(target, before).touch_start == s.touch_start,
        s.touched(target, before).cursor == s.cursor,
        s.drag_idx is Some && s.drag_idx != Some(target) ==> s.touched(
            target,
            before,
        ).last_indicator == s.touched(target, before).drop_indicator,
        s.drag_idx == Some(target) ==> s.touched(target, before).last_indicator
            == s.last_indicator,
{
}

/// A drag drops the photo beside the one it last pointed at: directly before it where it pointed
/// at the part that means before, directly behind it where it pointed at the rest, and on the
/// other side where it stood there already. The mouse and a finger agree, whatever a finger
/// pointed at earlier and whatever is found under it.
pub proof fn drag_drops_where_it_points(
    s: DragState,
    items: Seq<PhotoItem>,
    target: usize,
    before: bool,
    under_finger: Option<usize>,
)
    requires
        items.len() < usize::MAX,
        s.drag_idx is Some,
        s.drag_idx->0 < items.len(),
        target < items.len(),
        s.drag_idx != Some(target),
    ensures
        ({
            let from = s.drag_idx->0;
            let photo = items[from as int];
            let beside = items[target as int];
            let by_mouse = dropped(items, from as int, s.hovered(target, before).drop_indicator);
            let by_finger = dropped(
                items,
                from as int,
                s.touched(target, before).release_point(under_finger),
            );
            &&& by_finger == by_mouse
            &&& by_mouse.to_multiset() == items.to_multiset()
            &&& before && target != from + 1 || !before && target + 1 == from ==> stands_before(
                by_mouse,
                photo,
                beside,
            )
            &&& !before && target + 1 != from || before && target == from + 1 ==> stands_before(
                by_mouse,
                beside,
                photo,
            )
        }),
{
    drop_lands_on_the_side_shown(items, s.drag_idx->0, target, before);
}

/// A release uses the insertion point that is shown; without one the last that was reached; and
/// what is found under the finger only where there was never one.
pub proof fn release_prefers_what_is_shown(s: DragState, under_finger: Option<usize>, at: usize)
    ensures
        s.drop_indicator == Some(at) ==> s.release_point(under_finger) == Some(at),
        s.drop_indicator is None && s.last_indicator == Some(at) ==> s.release_point(under_finger)
            == Some(at),
        s.drop_indicator is None && s.last_indicator is None ==> s.release_point(under_finger)
            == under_finger,
{
}

/// The marks show the drag: the dragged row, and one other row beside the insertion point, above
/// the row it comes before or below the last row. All other rows are unmarked.
pub proof fn marks_show_the_drag(s: DragState, index: usize, len: usize)
    requires
        s.well_formed(),
        index < len,
    ensures
        s.drag_idx == Some(index) ==> s.marks(index, len) == " dragging"@,
        s.drop_indicator == Some(index) ==> s.marks(index, len) == " drag-above"@,
        s.drop_indicator == Some(len) && index == len - 1 ==> s.marks(index, len)
            == " drag-below"@,
        s.drag_idx != Some(index) && s.drop_indicator != Some(index) && !(s.drop_indicator == Some(
            len,
        ) && index == len - 1) ==> s.marks(index, len) == Seq::<char>::empty(),
{
    assert(Seq::<char>::empty() + " drag-below"@ =~= " drag-below"@);
    assert(" drag-above"@ + Seq::<char>::empty() =~= " drag-above"@);
    assert(Seq::<char>::empty() + Seq::<char>::empty() =~= Seq::<char>::empty());
}

/// A whole drag with the mouse: from wherever it starts, the photo ends up beside the one it was
/// last dragged over, on the side that was pointed at, whatever it was dragged over before.
pub proof fn mouse_drag_reorders(
    s: DragState,
    items: Seq<PhotoItem>,
    index: usize,
    earlier: usize,
    earlier_before: bool,
    target: usize,
    before: bool,
)
    requires
        items.len() < usize::MAX,
        index < items.len(),
        target < items.len(),
        index != target,
    ensures
        ({
            let over = s.started(index).hovered(earlier, earlier_before).hovered(target, before);
            let out = over.dropped_list(items);
            &&& out.to_multiset() == items.to_multiset()
            &&& before && target != index + 1 ==> stands_before(
                out,
                items[index as int],
                items[target as int],
            )
            &&& !before && target + 1 != index ==> stands_before(
                out,
                items[target as int],
                items[index as int],
            )
            &&& s.started(index).dropped_list(items) == items
            &&& over.ended().dropped_list(items) == items
        }),
{
    let over = s.started(index).hovered(earlier, earlier_before);
    drag_drops_where_it_points(over, items, target, before, None);
}

/// A whole drag with a finger: it comes down, rests, is moved over photos and lifts. The photo
/// ends up beside the last other one it was moved over. Without the rest nothing moves; a finger
/// that strays before it rested scrolls, and one that has rested drags wherever it goes.
pub proof fn finger_drag_reorders(
    s: DragState,
    items: Seq<PhotoItem>,
    start: (i32, i32),
    at: (i32, i32),
    index: usize,
    target: usize,
    before: bool,
    under_finger: Option<usize>,
)
    requires
        items.len() < usize::MAX,
        index < items.len(),
        target < items.len(),
        index != target,
        !s.touch_active,
    ensures
        ({
            let down = s.pressed(start.0, start.1);
            let held = down.confirmed(index);
            let over = held.touched(target, before).touched(index, before);
            let out = over.released_list(items, under_finger);
            &&& down.released_list(items, under_finger) == items
            &&& down.meaning(at.0, at.1) == TouchMove::Hold <==> (start.0 - 8 <= at.0 <= start.0
                + 8 && start.1 - 8 <= at.1 <= start.1 + 8)
            &&& down.meaning(at.0, at.1) != TouchMove::Drag
            &&& held.meaning(at.0, at.1) == TouchMove::Drag
            &&& out.to_multiset() == items.to_multiset()
            &&& before && target != index + 1 ==> stands_before(
                out,
                items[index as int],
                items[target as int],
            )
            &&& !before && target + 1 != index ==> stands_before(
                out,
                items[target as int],
                items[index as int],
            )
            &&& over.cleaned().released_list(items, under_finger) == items
            &&& over.cleaned().meaning(at.0, at.1) != TouchMove::Drag
        }),
{
    let held = s.pressed(start.0, start.1).confirmed(index);
    drag_drops_where_it_points(held, items, target, before, under_finger);
    drifting_back_keeps_the_target(held, target, before, before, under_finger);
}

/// A release looks under the finger exactly where what is found there can make a difference, and
/// what it looks for is a place for the photo that is dragged.
pub proof fn looking_matters(s: DragState, items: Seq<PhotoItem>, a: Option<usize>, b: Option<usize>)
    ensures
        s.looking() is None ==> s.released_list(items, a) == s.released_list(items, b),
        s.looking() matches Some(from) ==> s.drag_idx == Some(from) && s.released_list(items, a)
            == dropped(items, from as int, a),
{
}

/// A press of the mouse never becomes a touch drag, nor one in edited text, on a control, or by a
/// second finger; any other press does, with a finger and with a pen alike.
pub proof fn only_plain_presses_hold(
    pointer: Seq<char>,
    editing: bool,
    interactive: bool,
    primary: bool,
)
    ensures
        !holdable("mouse"@, editing, interactive, primary),
        !holdable(pointer, true, interactive, primary),
        !holdable(pointer, editing, true, primary),
        !holdable(pointer, editing, interactive, false),
        pointer != "mouse"@ ==> holdable(pointer, false, false, true),
{
}

} // verus!
