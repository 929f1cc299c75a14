//! Which photo or control a pointer meets, told from what the page says of its elements.
use vstd::prelude::*;

use crate::double::Double;
use crate::number::{decimal, index_of, index_reads_back, parse_index};
use crate::text::same_text;

verus! {

/// How many elements above the one that was hit may make it a control.
pub const INTERACTIVE_DEPTH: usize = 4;

/// Whether elements of this kind react to taps and keys themselves.
pub open spec fn interactive_tag(tag: Seq<char>) -> bool {
    tag == "INPUT"@ || tag == "TEXTAREA"@ || tag == "BUTTON"@ || tag == "SELECT"@ || tag == "A"@
}

/// Tells whether elements of this kind react to taps and keys themselves.
pub fn is_interactive_tag(tag: &str) -> (r: bool)
    ensures
        r == interactive_tag(tag@),
{
    same_text(tag, "INPUT") || same_text(tag, "TEXTAREA") || same_text(tag, "BUTTON")
        || same_text(tag, "SELECT") || same_text(tag, "A")
}

/// Whether one of the innermost elements is a control.
pub open spec fn control_near(tags: Seq<String>) -> bool {
    exists|i: int|
        0 <= i < tags.len() && i < INTERACTIVE_DEPTH && interactive_tag(#[trigger] tags[i]@)
}

/// Tells whether a press belongs to a control: `tags` are the kinds of the element that was hit
/// and of those around it, from the inside out.
pub fn pointer_target_is_interactive(tags: &Vec<String>) -> (r: bool)
    ensures
        r == control_near(tags@),
        r == exists|i: int|
            0 <= i < tags@.len() && i < INTERACTIVE_DEPTH && interactive_tag(#[trigger] tags@[i]@),
{
    let mut i: usize = 0;
    while i < tags.len() && i < INTERACTIVE_DEPTH
        invariant
            i <= tags@.len(),
            forall|j: int| 0 <= j < i ==> !interactive_tag(#[trigger] tags@[j]@),
        decreases tags@.len() - i,
    {
        if is_interactive_tag(tags[i].as_str()) {
            return true;
        }
        i += 1;
    }
    false
}

/// What is known of an element of the page.
pub struct HitNode {
    /// Whether it belongs to the picture that follows the finger.
    pub in_ghost: bool,
    /// The text of its photo position, where it has one.
    pub index_attr: Option<String>,
}

impl HitNode {
    /// The photo position of the element; the picture under the finger has none.
    pub open spec fn photo_index(&self) -> Option<usize> {
        match self.index_attr {
            Some(text) if !self.in_ghost => index_of(text@),
            _ => None,
        }
    }

    /// Reads the photo position of the element.
    pub fn read_index(&self) -> (r: Option<usize>)
        ensures
            r == self.photo_index(),
    {
        if self.in_ghost {
            return None;
        }
        match &self.index_attr {
            Some(text) => parse_index(text.as_str()),
            None => None,
        }
    }
}

/// Finds the innermost element with a photo position: its place in `chain`, which runs from the
/// inside out, and the position.
pub fn hit_index(chain: &Vec<HitNode>) -> (r: Option<(usize, usize)>)
    ensures
        match r {
            Some((at, index)) => at < chain@.len() && chain@[at as int].photo_index() == Some(index)
                && forall|j: int| 0 <= j < at ==> (#[trigger] chain@[j]).photo_index() is None,
            None => forall|j: int|
                0 <= j < chain@.len() ==> (#[trigger] chain@[j]).photo_index() is None,
        },
{
    let mut i: usize = 0;
    while i < chain.len()
        invariant
            i <= chain@.len(),
            forall|j: int| 0 <= j < i ==> (#[trigger] chain@[j]).photo_index() is None,
        decreases chain@.len() - i,
    {
        match chain[i].read_index() {
            Some(index) => {
                return Some((i, index));
            },
            None => {},
        }
        i += 1;
    }
    None
}

/// An element with its reach across the page and its distance from the pointer.
pub struct RowBand {
    pub node: HitNode,
    /// The reach to the left, with some tolerance.
    pub left_limit: Double,
    /// The reach to the right, with some tolerance.
    pub right_limit: Double,
    /// How far the pointer is from the middle, up or down.
    pub distance: Double,
}

impl RowBand {
    /// Whether the element has a photo position and stands above, below or under the pointer.
    pub open spec fn aligned(&self, x: Double) -> bool {
        &&& self.node.photo_index() is Some
        &&& !x.less(self.left_limit)
        &&& !self.right_limit.less(x)
    }
}

/// The place of the nearest of the first `n` aligned elements; the earlier one of two that are
/// equally near.
pub open spec fn nearest(rows: Seq<RowBand>, x: Double, n: nat) -> Option<int>
    decreases n,
{
    if n == 0 {
        None
    } else {
        let i = n - 1;
        match nearest(rows, x, (n - 1) as nat) {
            Some(best) => if rows[i].aligned(x) && rows[i].distance.less(rows[best].distance) {
                Some(i)
            } else {
                Some(best)
            },
            None => if rows[i].aligned(x) {
                Some(i)
            } else {
                None
            },
        }
    }
}

/// Finds the photo row nearest to the pointer: its place in `rows` and its photo position.
pub fn nearest_row(rows: &Vec<RowBand>, x: Double) -> (r: Option<(usize, usize)>)
    ensures
        match nearest(rows@, x, rows@.len()) {
            Some(best) => r matches Some((at, index)) && at == best
                && rows@[best].node.photo_index() == Some(index),
            None => r is None,
        },
{
    let mut best: Option<(usize, usize)> = None;
    let mut i: usize = 0;
    while i < rows.len()
        invariant
            i <= rows@.len(),
            match nearest(rows@, x, i as nat) {
                Some(place) => best matches Some((at, index)) && at == place && at < i
                    && rows@[place].node.photo_index() == Some(index),
                None => best is None,
            },
        decreases rows@.len() - i,
    {
        match rows[i].node.read_index() {
            Some(index) => {
                if !x.lt(rows[i].left_limit) && !rows[i].right_limit.lt(x) {
                    let nearer = match best {
                        Some((at, _)) => rows[i].distance.lt(rows[at].distance),
                        None => true,
                    };
                    if nearer {
                        best = Some((i, index));
                    }
                }
            },
            None => {},
        }
        i += 1;
    }
    best
}

// ---------------------------------------------------------------------------
// Laws
// ---------------------------------------------------------------------------

/// Where all distances are numbers, the row found is aligned, no aligned row is nearer, and
/// every aligned row before it is farther.
pub proof fn nearest_is_nearest(rows: Seq<RowBand>, x: Double, n: nat)
    requires
        n <= rows.len(),
        forall|i: int| 0 <= i < n ==> !(#[trigger] rows[i]).distance.is_nan(),
    ensures
        match nearest(rows, x, n) {
            Some(best) => {
                &&& 0 <= best < n
                &&& rows[best].aligned(x)
                &&& forall|j: int|
                    0 <= j < n && (#[trigger] rows[j]).aligned(x) ==> rows[best].distance.rank()
                        <= rows[j].distance.rank()
                &&& forall|j: int|
                    0 <= j < best && (#[trigger] rows[j]).aligned(x) ==> rows[best].distance.rank()
                        < rows[j].distance.rank()
            },
            None => forall|j: int| 0 <= j < n ==> !(#[trigger] rows[j]).aligned(x),
        },
    decreases n,
{
    if n > 0 {
        nearest_is_nearest(rows, x, (n - 1) as nat);
    }
}

/// An element that carries a position as a number has that position, unless it belongs to the
/// picture under the finger; one that carries none has none.
pub proof fn written_positions_are_read(node: HitNode, n: usize)
    ensures
        node.in_ghost ==> node.photo_index() is None,
        node.index_attr is None ==> node.photo_index() is None,
        !node.in_ghost && node.index_attr is Some && node.index_attr->0@ == decimal(n as nat)
            ==> node.photo_index() == Some(n),
{
    index_reads_back(n);
}

/// An element with a position is aligned exactly where the pointer is not outside its reach; a
/// pointer further to the left than one that is too far left, or further to the right than one
/// that is too far right, is not aligned either.
pub proof fn aligned_within_reach(row: RowBand, x: Double, further: Double)
    requires
        row.node.photo_index() is Some,
        !x.is_nan(),
        !further.is_nan(),
        !row.left_limit.is_nan(),
        !row.right_limit.is_nan(),
    ensures
        row.aligned(x) <==> row.left_limit.at_most(x) && x.at_most(row.right_limit),
        further.less(x) && x.less(row.left_limit) ==> !row.aligned(further),
        x.less(further) && row.right_limit.less(x) ==> !row.aligned(further),
{
}

/// A press belongs to a control that is hit or stands up to three elements further out; what
/// stands around these does not matter.
pub proof fn four_elements_decide(tags: Seq<String>, around: Seq<String>, i: int)
    ensures
        0 <= i < tags.len() && i < 4 && interactive_tag(tags[i]@) ==> control_near(tags),
        tags.len() >= 4 ==> control_near(tags + around) == control_near(tags),
        (forall|j: int| 0 <= j < tags.len() ==> !interactive_tag(#[trigger] tags[j]@))
            ==> !control_near(tags),
{
    if tags.len() >= 4 {
        let all = tags + around;
        if control_near(all) {
            let k = choose|k: int|
                0 <= k < all.len() && k < INTERACTIVE_DEPTH && interactive_tag(#[trigger] all[k]@);
            assert(tags[k] == all[k]);
        }
        if control_near(tags) {
            let k = choose|k: int|
                0 <= k < tags.len() && k < INTERACTIVE_DEPTH && interactive_tag(
                    #[trigger] tags[k]@,
                );
            assert(all[k] == tags[k]);
        }
    }
}

} // verus!
