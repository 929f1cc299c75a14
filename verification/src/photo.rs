//! A photo of the report and what can be done to it in the list.
use std::collections::HashMap;
use vstd::prelude::*;

use crate::number::{decimal, push_decimal};
use crate::text::{chars_of, last_index, last_index_is_last, rfind, string_from};

verus! {

broadcast use vstd::std_specs::hash::group_hash_axioms;

/// One photo with its caption.
#[derive(PartialEq, Debug)]
pub struct PhotoItem {
    pub id: u64,
    pub title: String,
    pub description: String,
    pub filename: String,
    pub mime: String,
    /// Clockwise quarter turns; only the remainder by four shows.
    pub rotation_quadrants: u8,
    /// Small data URL for the list.
    pub thumb_url: String,
    /// Medium data URL for the page preview.
    pub preview_url: String,
}

impl Clone for PhotoItem {
    fn clone(&self) -> (r: Self)
        ensures
            r == *self,
    {
        PhotoItem {
            id: self.id,
            title: self.title.clone(),
            description: self.description.clone(),
            filename: self.filename.clone(),
            mime: self.mime.clone(),
            rotation_quadrants: self.rotation_quadrants,
            thumb_url: self.thumb_url.clone(),
            preview_url: self.preview_url.clone(),
        }
    }
}

impl PhotoItem {
    /// The clockwise rotation in degrees.
    pub open spec fn degrees(&self) -> nat {
        (self.rotation_quadrants % 4) as nat * 90
    }

    /// The style that rotates the picture; none where it stands upright.
    pub open spec fn style(&self) -> Seq<char> {
        if self.degrees() == 0 {
            Seq::empty()
        } else {
            "transform: rotate("@ + decimal(self.degrees()) + "deg);"@
        }
    }

    /// The clockwise rotation in degrees: 0, 90, 180 or 270.
    pub fn rotation_degrees(&self) -> (d: u16)
        ensures
            d == self.degrees(),
    {
        (self.rotation_quadrants as u16 % 4) * 90
    }

    /// The style that rotates the picture, the same in the list, the preview and the export.
    pub fn rotation_style(&self) -> (s: String)
        ensures
            s@ == self.style(),
    {
        let degrees = self.rotation_degrees();
        if degrees == 0 {
            String::new()
        } else {
            let mut s = String::new();
            s.append("transform: rotate(");
            push_decimal(&mut s, degrees as u64);
            s.append("deg);");
            assert(s@ =~= self.style());
            s
        }
    }
}

// ---------------------------------------------------------------------------
// Identity
// ---------------------------------------------------------------------------

/// Hands out photo identifiers, counting up.
pub struct PhotoIds {
    pub next: u64,
}

impl PhotoIds {
    /// Starts at one.
    pub fn new() -> (ids: Self)
        ensures
            ids.next == 1,
    {
        PhotoIds { next: 1 }
    }

    /// The next identifier; the count starts again at zero after the largest one.
    pub fn next_photo_id(&mut self) -> (id: u64)
        ensures
            id == old(self).next,
            final(self).next == following_id(old(self).next),
    {
        let id = self.next;
        self.next = if id == u64::MAX {
            0
        } else {
            id + 1
        };
        id
    }
}

/// The identifier after this one; after the largest comes zero.
pub open spec fn following_id(id: u64) -> u64 {
    if id == u64::MAX {
        0
    } else {
        (id + 1) as u64
    }
}

/// The identifier handed out `n` calls after `first`.
pub open spec fn nth_id(first: u64, n: nat) -> u64
    decreases n,
{
    if n == 0 {
        first
    } else {
        following_id(nth_id(first, (n - 1) as nat))
    }
}

/// Whether no two photos share an identifier.
pub open spec fn distinct_ids(items: Seq<PhotoItem>) -> bool {
    forall|i: int, j: int| 0 <= i < j < items.len() ==> items[i].id != items[j].id
}

/// The position of the first photo with this identifier.
pub open spec fn position_of(items: Seq<PhotoItem>, id: u64) -> Option<int>
    decreases items.len(),
{
    if items.len() == 0 {
        None
    } else {
        match position_of(items.drop_last(), id) {
            Some(i) => Some(i),
            None => if items.last().id == id {
                Some(items.len() - 1)
            } else {
                None
            },
        }
    }
}

/// The photo found by `position_of` has the identifier, and none before it has.
pub proof fn position_of_is_first(items: Seq<PhotoItem>, id: u64)
    ensures
        match position_of(items, id) {
            Some(i) => 0 <= i < items.len() && items[i].id == id && forall|j: int|
                0 <= j < i ==> items[j].id != id,
            None => forall|j: int| 0 <= j < items.len() ==> items[j].id != id,
        },
    decreases items.len(),
{
    if items.len() > 0 {
        position_of_is_first(items.drop_last(), id);
        assert forall|j: int| 0 <= j < items.len() - 1 implies items[j] == items.drop_last()[j] by {}
    }
}

/// Finds the first photo with this identifier.
pub fn find_photo(items: &Vec<PhotoItem>, id: u64) -> (r: Option<usize>)
    ensures
        match r {
            Some(i) => i < items@.len() && position_of(items@, id) == Some(i as int),
            None => position_of(items@, id) is None,
        },
{
    let mut i: usize = 0;
    while i < items.len()
        invariant
            i <= items@.len(),
            forall|j: int| 0 <= j < i ==> items@[j].id != id,
        decreases items@.len() - i,
    {
        if items[i].id == id {
            proof {
                position_of_is_first(items@, id);
            }
            return Some(i);
        }
        i += 1;
    }
    proof {
        position_of_is_first(items@, id);
    }
    None
}

/// Where each identifier stands in the list; the last place counts where one occurs twice.
pub fn photo_positions(items: &Vec<PhotoItem>) -> (m: HashMap<u64, usize>)
    ensures
        forall|id: u64|
            m@.contains_key(id) <==> exists|i: int| 0 <= i < items@.len() && items@[i].id == id,
        forall|id: u64| #[trigger]
            m@.contains_key(id) ==> m@[id] < items@.len() && items@[m@[id] as int].id == id
                && forall|j: int| m@[id] < j < items@.len() ==> items@[j].id != id,
{
    let mut m: HashMap<u64, usize> = HashMap::new();
    let mut i: usize = 0;
    while i < items.len()
        invariant
            i <= items@.len(),
            forall|id: u64|
                m@.contains_key(id) <==> exists|k: int| 0 <= k < i && items@[k].id == id,
            forall|id: u64| #[trigger]
                m@.contains_key(id) ==> m@[id] < i && items@[m@[id] as int].id == id && forall|
                    j: int,
                |
                    m@[id] < j < i ==> items@[j].id != id,
        decreases items@.len() - i,
    {
        let ghost before = m@;
        m.insert(items[i].id, i);
        assert forall|id: u64| m@.contains_key(id) <==> exists|k: int|
            0 <= k < i + 1 && items@[k].id == id by {
            if m@.contains_key(id) {
                if id == items@[i as int].id {
                    assert(items@[i as int].id == id);
                } else {
                    assert(before.contains_key(id));
                    let k = choose|k: int| 0 <= k < i && items@[k].id == id;
                    assert(items@[k].id == id);
                }
            }
        }
        i += 1;
    }
    m
}

/// The position that the list shows for a photo: its place, or the first where it has none.
pub fn photo_index(positions: &HashMap<u64, usize>, id: u64) -> (i: usize)
    ensures
        i == (if positions@.contains_key(id) {
            positions@[id]
        } else {
            0
        }),
{
    match positions.get(&id) {
        Some(i) => *i,
        None => 0,
    }
}

// ---------------------------------------------------------------------------
// Names
// ---------------------------------------------------------------------------

/// A file name without its extension; a name that only begins with a dot keeps it.
pub open spec fn bare_name(name: Seq<char>) -> Seq<char> {
    match last_index(name, '.') {
        Some(i) if i > 0 => name.take(i),
        _ => name,
    }
}

/// The title that a photo starts with: its file name without the extension.
pub fn title_from_filename(name: &str) -> (title: String)
    ensures
        title@ == bare_name(name@),
{
    let chars = chars_of(name);
    proof {
        last_index_is_last(name@, '.');
    }
    match rfind(&chars, '.') {
        Some(pos) => {
            if pos > 0 {
                return string_from(&chars, 0, pos);
            }
        },
        None => {},
    }
    let title = string_from(&chars, 0, chars.len());
    assert(title@ =~= name@);
    title
}

/// A photo as it enters the list: titled by its file, without a description, upright.
pub fn new_photo_item(
    id: u64,
    filename: String,
    thumb_url: String,
    preview_url: String,
) -> (p: PhotoItem)
    ensures
        p.id == id,
        p.title@ == bare_name(filename@),
        p.description@ == Seq::<char>::empty(),
        p.filename == filename,
        p.mime@ == "image/jpeg"@,
        p.rotation_quadrants == 0,
        p.thumb_url == thumb_url,
        p.preview_url == preview_url,
{
    let title = title_from_filename(filename.as_str());
    PhotoItem {
        id,
        title,
        description: String::new(),
        filename,
        mime: "image/jpeg".to_string(),
        rotation_quadrants: 0,
        thumb_url,
        preview_url,
    }
}

// ---------------------------------------------------------------------------
// Changes
// ---------------------------------------------------------------------------

/// The list with the first photo of this identifier replaced by `photo`; the same list where
/// none has it.
pub open spec fn with_photo(items: Seq<PhotoItem>, id: u64, photo: PhotoItem) -> Seq<PhotoItem> {
    match position_of(items, id) {
        Some(i) => items.update(i, photo),
        None => items,
    }
}

/// The first photo with this identifier.
pub open spec fn photo_with(items: Seq<PhotoItem>, id: u64) -> PhotoItem {
    items[position_of(items, id)->0]
}

/// The signed reading of a turn count, in which the upper half of the range is negative.
pub open spec fn signed_turns(quadrants: u8) -> int {
    if quadrants < 128 {
        quadrants as int
    } else {
        quadrants - 256
    }
}

/// The list with a photo turned by `delta` quarter turns clockwise.
pub open spec fn rotated(items: Seq<PhotoItem>, id: u64, delta: int) -> Seq<PhotoItem> {
    let photo = photo_with(items, id);
    with_photo(
        items,
        id,
        (PhotoItem {
            rotation_quadrants: ((photo.rotation_quadrants + delta) % 4) as u8,
            ..photo
        }),
    )
}

/// The list with a photo's title replaced.
pub open spec fn retitled(items: Seq<PhotoItem>, id: u64, title: String) -> Seq<PhotoItem> {
    with_photo(items, id, (PhotoItem { title, ..photo_with(items, id) }))
}

/// The list with a photo's description replaced.
pub open spec fn redescribed(items: Seq<PhotoItem>, id: u64, description: String) -> Seq<
    PhotoItem,
> {
    with_photo(items, id, (PhotoItem { description, ..photo_with(items, id) }))
}

/// Turns a photo by `delta` quarter turns clockwise.
pub fn rotate_photo(items: &mut Vec<PhotoItem>, photo_id: u64, delta: i8)
    requires
        position_of(old(items)@, photo_id) is Some ==> i8::MIN <= signed_turns(
            photo_with(old(items)@, photo_id).rotation_quadrants,
        ) + delta <= i8::MAX,
    ensures
        final(items)@ == rotated(old(items)@, photo_id, delta as int),
{
    match find_photo(items, photo_id) {
        Some(i) => {
            let q = items[i].rotation_quadrants;
            let base: i16 = if q < 128 {
                q as i16
            } else {
                q as i16 - 256
            };
            let turned: i16 = (base + delta as i16 + 256) % 4;
            items[i].rotation_quadrants = turned as u8;
        },
        None => {},
    }
}

/// Replaces the title of a photo.
pub fn update_photo_title(items: &mut Vec<PhotoItem>, photo_id: u64, title: String)
    ensures
        final(items)@ == retitled(old(items)@, photo_id, title),
{
    match find_photo(items, photo_id) {
        Some(i) => {
            items[i].title = title;
        },
        None => {},
    }
}

/// Replaces the description of a photo.
pub fn update_photo_description(items: &mut Vec<PhotoItem>, photo_id: u64, description: String)
    ensures
        final(items)@ == redescribed(old(items)@, photo_id, description),
{
    match find_photo(items, photo_id) {
        Some(i) => {
            items[i].description = description;
        },
        None => {},
    }
}

/// The photos whose identifier differs from `id`, in their order.
pub open spec fn without_id(items: Seq<PhotoItem>, id: u64) -> Seq<PhotoItem>
    decreases items.len(),
{
    if items.len() == 0 {
        Seq::empty()
    } else if items.last().id == id {
        without_id(items.drop_last(), id)
    } else {
        without_id(items.drop_last(), id).push(items.last())
    }
}

/// Takes every photo with this identifier out of the list.
pub fn remove_photo(items: &mut Vec<PhotoItem>, photo_id: u64)
    ensures
        final(items)@ == without_id(old(items)@, photo_id),
{
    let ghost all = items@;
    let mut i: usize = 0;
    let ghost mut seen: int = 0;
    assert(all.take(0) =~= Seq::<PhotoItem>::empty());
    assert(items@ =~= without_id(all.take(0), photo_id) + all.skip(0));
    while i < items.len()
        invariant
            0 <= seen <= all.len(),
            i == without_id(all.take(seen), photo_id).len(),
            i <= items@.len(),
            items@ == without_id(all.take(seen), photo_id) + all.skip(seen),
        decreases items@.len() - i,
    {
        let ghost kept = without_id(all.take(seen), photo_id);
        assert(items@[i as int] == all[seen]);
        assert(all.take(seen + 1).drop_last() =~= all.take(seen));
        if items[i].id == photo_id {
            items.remove(i);
            assert(items@ =~= kept + all.skip(seen + 1));
        } else {
            assert(items@ =~= kept.push(all[seen]) + all.skip(seen + 1));
            i += 1;
        }
        proof {
            seen = seen + 1;
        }
    }
    assert(all.take(seen) =~= all);
    assert(items@ =~= without_id(all, photo_id));
}

// ---------------------------------------------------------------------------
// Laws
// ---------------------------------------------------------------------------

/// The rotation of a photo is always one of the four quarter turns.
pub proof fn rotation_is_a_quarter_turn(photo: PhotoItem)
    ensures
        photo.degrees() == 0 || photo.degrees() == 90 || photo.degrees() == 180 || photo.degrees()
            == 270,
{
    assert(photo.rotation_quadrants % 4 < 4);
}

/// A photo that was turned counts its turns from zero to three.
pub proof fn turned_photo_counts_below_four(items: Seq<PhotoItem>, id: u64, delta: int)
    requires
        position_of(items, id) is Some,
    ensures
        position_of(rotated(items, id, delta), id) == position_of(items, id),
        photo_with(rotated(items, id, delta), id).rotation_quadrants < 4,
{
    position_of_is_first(items, id);
    let photo = photo_with(items, id);
    let turned = PhotoItem {
        rotation_quadrants: ((photo.rotation_quadrants + delta) % 4) as u8,
        ..photo
    };
    position_kept(items, id, turned);
}

/// Turning by `a` and then by `b` is turning by their sum.
pub proof fn turns_add_up(items: Seq<PhotoItem>, id: u64, a: int, b: int)
    ensures
        rotated(rotated(items, id, a), id, b) == rotated(items, id, a + b),
{
    position_of_is_first(items, id);
    if position_of(items, id) is Some {
        turned_photo_counts_below_four(items, id, a);
        let q = photo_with(items, id).rotation_quadrants as int;
        assert(((q + a) % 4 + b) % 4 == (q + (a + b)) % 4);
        assert(rotated(rotated(items, id, a), id, b) =~= rotated(items, id, a + b));
    }
}

/// A turn and the turn back leave the list as it was, and so do four turns the same way.
pub proof fn turns_undo(items: Seq<PhotoItem>, id: u64)
    requires
        position_of(items, id) is Some ==> photo_with(items, id).rotation_quadrants < 4,
    ensures
        rotated(rotated(items, id, 1), id, -1) == items,
        rotated(rotated(items, id, -1), id, 1) == items,
        rotated(rotated(rotated(rotated(items, id, 1), id, 1), id, 1), id, 1) == items,
{
    position_of_is_first(items, id);
    turns_add_up(items, id, 1, -1);
    turns_add_up(items, id, -1, 1);
    turns_add_up(items, id, 1, 1);
    turns_add_up(items, id, 2, 1);
    turns_add_up(items, id, 3, 1);
    if position_of(items, id) is Some {
        let i = position_of(items, id)->0;
        assert(rotated(items, id, 0) =~= items);
        assert(rotated(items, id, 4) =~= items);
    }
}

/// A photo with the next identifier joins a list without sharing its identifier with another,
/// as long as every identifier of the list was handed out before and the count has not gone
/// round.
pub proof fn next_identifier_is_new(items: Seq<PhotoItem>, next: u64, photo: PhotoItem)
    requires
        distinct_ids(items),
        forall|i: int| 0 <= i < items.len() ==> (#[trigger] items[i]).id < next,
        next < u64::MAX,
        photo.id == next,
    ensures
        distinct_ids(items.push(photo)),
        forall|i: int|
            0 <= i < items.push(photo).len() ==> (#[trigger] items.push(photo)[i]).id
                < following_id(next),
{
    let all = items.push(photo);
    assert forall|i: int| 0 <= i < all.len() implies (#[trigger] all[i]).id < following_id(
        next,
    ) by {
        if i < items.len() {
            assert(all[i] == items[i]);
        }
    }
    assert forall|i: int, j: int| 0 <= i < j < all.len() implies all[i].id != all[j].id by {
        assert(all[i] == items[i]);
        if j < items.len() {
            assert(all[j] == items[j]);
        }
    }
}

/// Changing a photo in place keeps every identifier at its position.
pub proof fn change_keeps_ids(items: Seq<PhotoItem>, id: u64, photo: PhotoItem)
    requires
        photo.id == id,
    ensures
        with_photo(items, id, photo).len() == items.len(),
        forall|i: int|
            0 <= i < items.len() ==> (#[trigger] with_photo(items, id, photo)[i]).id
                == items[i].id,
        distinct_ids(items) ==> distinct_ids(with_photo(items, id, photo)),
{
    position_of_is_first(items, id);
}

/// A removed identifier is gone, every other photo is still there, and their order holds.
pub proof fn removal_takes_only_its_photo(items: Seq<PhotoItem>, id: u64)
    ensures
        forall|i: int|
            0 <= i < without_id(items, id).len() ==> (#[trigger] without_id(items, id)[i]).id != id,
        forall|p: PhotoItem|
            p.id != id ==> (items.contains(p) <==> without_id(items, id).contains(p)),
        without_id(items, id) == items.filter(|p: PhotoItem| p.id != id),
        distinct_ids(items) ==> distinct_ids(without_id(items, id)),
    decreases items.len(),
{
    reveal(Seq::filter);
    if items.len() > 0 {
        let head = items.drop_last();
        let rest = without_id(head, id);
        removal_takes_only_its_photo(head, id);
        let out = without_id(items, id);
        assert(items =~= head.push(items.last()));
        assert forall|p: PhotoItem| p.id != id implies (items.contains(p) <==> out.contains(p)) by {
            if items.contains(p) {
                let i = choose|i: int| 0 <= i < items.len() && items[i] == p;
                if i < head.len() {
                    assert(head[i] == p);
                    assert(rest.contains(p));
                    let j = choose|j: int| 0 <= j < rest.len() && rest[j] == p;
                    assert(out[j] == p);
                } else {
                    assert(out[out.len() - 1] == p);
                }
            }
            if out.contains(p) {
                let j = choose|j: int| 0 <= j < out.len() && out[j] == p;
                if j < rest.len() {
                    assert(rest[j] == p);
                    assert(head.contains(p));
                    let i = choose|i: int| 0 <= i < head.len() && head[i] == p;
                    assert(items[i] == p);
                } else {
                    assert(items[items.len() - 1] == p);
                }
            }
        }
        if distinct_ids(items) {
            assert(distinct_ids(head));
            assert forall|i: int, j: int| 0 <= i < j < out.len() implies out[i].id != out[j].id by {
                if j == rest.len() {
                    assert(rest.contains(rest[i]));
                    assert(rest[i].id != id);
                    assert(head.contains(rest[i]));
                    let k = choose|k: int| 0 <= k < head.len() && head[k] == rest[i];
                    assert(items[k].id != items[items.len() - 1].id);
                }
            }
        }
    }
}

/// Identifiers handed out one after the other differ until the count has gone round.
pub proof fn identifiers_differ(first: u64, i: nat, j: nat)
    requires
        i < j < 0x1_0000_0000_0000_0000,
    ensures
        nth_id(first, i) != nth_id(first, j),
{
    nth_id_counts_up(first, i);
    nth_id_counts_up(first, j);
}

proof fn nth_id_counts_up(first: u64, n: nat)
    ensures
        nth_id(first, n) == (first + n) % 0x1_0000_0000_0000_0000,
    decreases n,
{
    if n > 0 {
        nth_id_counts_up(first, (n - 1) as nat);
    }
}

proof fn position_kept(items: Seq<PhotoItem>, id: u64, photo: PhotoItem)
    requires
        position_of(items, id) is Some,
        photo.id == id,
    ensures
        position_of(with_photo(items, id, photo), id) == position_of(items, id),
{
    position_of_is_first(items, id);
    position_of_is_first(with_photo(items, id, photo), id);
    let i = position_of(items, id)->0;
    let after = with_photo(items, id, photo);
    assert(after[i].id == id);
    assert forall|j: int| 0 <= j < i implies after[j].id != id by {
        assert(after[j] == items[j]);
    }
}

/// A photo is turned by a quarter for each of its quarter turns, what is beyond four of them not
/// counted, and its style writes that very angle; an upright photo has no style.
pub proof fn style_writes_the_angle(photo: PhotoItem, other: PhotoItem)
    ensures
        photo.rotation_quadrants % 4 == 0 ==> photo.degrees() == 0 && photo.style() == Seq::<
            char,
        >::empty(),
        photo.rotation_quadrants % 4 == 1 ==> photo.degrees() == 90 && photo.style()
            == "transform: rotate(90deg);"@,
        photo.rotation_quadrants % 4 == 2 ==> photo.degrees() == 180 && photo.style()
            == "transform: rotate(180deg);"@,
        photo.rotation_quadrants % 4 == 3 ==> photo.degrees() == 270 && photo.style()
            == "transform: rotate(270deg);"@,
        photo.style() == other.style() <==> photo.rotation_quadrants % 4
            == other.rotation_quadrants % 4,
{
    written_angles();
    assert(photo.rotation_quadrants % 4 < 4);
    assert(other.rotation_quadrants % 4 < 4);
    let (a, b, c) = (
        "transform: rotate(90deg);"@,
        "transform: rotate(180deg);"@,
        "transform: rotate(270deg);"@,
    );
    assert(a.len() == 25 && b.len() == 26 && c.len() == 26 && b[18] != c[18]);
}

proof fn written_angles()
    ensures
        "transform: rotate("@ + decimal(90) + "deg);"@ == "transform: rotate(90deg);"@,
        "transform: rotate("@ + decimal(180) + "deg);"@ == "transform: rotate(180deg);"@,
        "transform: rotate("@ + decimal(270) + "deg);"@ == "transform: rotate(270deg);"@,
        "transform: rotate(90deg);"@.len() == 25,
        "transform: rotate(180deg);"@.len() == 26,
        "transform: rotate(270deg);"@.len() == 26,
        "transform: rotate(180deg);"@[18] == '1',
        "transform: rotate(270deg);"@[18] == '2',
{
    reveal_strlit("transform: rotate(");
    reveal_strlit("deg);");
    reveal_strlit("transform: rotate(90deg);");
    reveal_strlit("transform: rotate(180deg);");
    reveal_strlit("transform: rotate(270deg);");
    reveal_with_fuel(decimal, 3);
    assert(decimal(90) =~= seq!['9', '0']);
    assert(decimal(180) =~= seq!['1', '8', '0']);
    assert(decimal(270) =~= seq!['2', '7', '0']);
    assert("transform: rotate("@ + decimal(90) + "deg);"@ =~= "transform: rotate(90deg);"@);
    assert("transform: rotate("@ + decimal(180) + "deg);"@ =~= "transform: rotate(180deg);"@);
    assert("transform: rotate("@ + decimal(270) + "deg);"@ =~= "transform: rotate(270deg);"@);
}

/// Turning a photo adds quarter turns to its angle, clockwise for a positive number of them, and
/// changes nothing else of it nor any other photo.
pub proof fn turning_changes_the_angle_only(items: Seq<PhotoItem>, id: u64, delta: int, i: int)
    requires
        0 <= i < items.len(),
    ensures
        rotated(items, id, delta).len() == items.len(),
        ({
            let was = items[i];
            let is = rotated(items, id, delta)[i];
            if was.id == id && forall|j: int| 0 <= j < i ==> items[j].id != id {
                &&& is.degrees() == (was.degrees() + 90 * delta) % 360
                &&& is == (PhotoItem { rotation_quadrants: is.rotation_quadrants, ..was })
            } else {
                is == was
            }
        }),
{
    position_of_is_first(items, id);
    if position_of(items, id) == Some(i) {
        let q = items[i].rotation_quadrants as int;
        assert(((q + delta) % 4) % 4 == (q % 4 + delta) % 4);
        let m = q % 4 + delta;
        assert((90 * m) % 360 == 90 * (m % 4));
    }
}

/// A new title or description goes to the first photo of that identifier and changes nothing else
/// of it nor any other photo.
pub proof fn captions_change_one_field(
    items: Seq<PhotoItem>,
    id: u64,
    text: String,
    i: int,
)
    requires
        0 <= i < items.len(),
    ensures
        retitled(items, id, text).len() == items.len(),
        redescribed(items, id, text).len() == items.len(),
        if items[i].id == id && forall|j: int| 0 <= j < i ==> items[j].id != id {
            &&& retitled(items, id, text)[i] == (PhotoItem { title: text, ..items[i] })
            &&& redescribed(items, id, text)[i] == (PhotoItem { description: text, ..items[i] })
        } else {
            &&& retitled(items, id, text)[i] == items[i]
            &&& redescribed(items, id, text)[i] == items[i]
        },
{
    position_of_is_first(items, id);
}

/// What stands behind the last dot of a file name is its extension and does not belong to the
/// title, unless nothing stands before that dot; a name without a dot is the title.
pub proof fn extension_is_dropped(stem: Seq<char>, ext: Seq<char>)
    requires
        forall|i: int| 0 <= i < ext.len() ==> ext[i] != '.',
    ensures
        stem.len() > 0 ==> bare_name(stem + seq!['.'] + ext) == stem,
        bare_name(seq!['.'] + ext) == seq!['.'] + ext,
        bare_name(ext) == ext,
{
    let name = stem + seq!['.'] + ext;
    last_index_is_last(name, '.');
    assert(name[stem.len() as int] == '.');
    assert forall|j: int| stem.len() < j < name.len() implies name[j] != '.' by {
        assert(name[j] == ext[j - stem.len() - 1]);
    }
    assert(last_index(name, '.') == Some(stem.len() as int));
    assert(name.take(stem.len() as int) =~= stem);
    let hidden = seq!['.'] + ext;
    last_index_is_last(hidden, '.');
    assert(hidden[0] == '.');
    assert forall|j: int| 0 < j < hidden.len() implies hidden[j] != '.' by {
        assert(hidden[j] == ext[j - 1]);
    }
    last_index_is_last(ext, '.');
}

} // verus!
