//! Bringing files into the list: which, how many, in what order.
use vstd::prelude::*;
use vstd::utf8::is_ascii_chars;

use crate::number::{decimal, decimals_differ, push_decimal};
use crate::photo::{distinct_ids, PhotoItem};
use crate::text::{
    begins_with, chars_of, contains, ends_with, finishes_with, last_index, last_index_is_last,
    middle_occurs, middle_tells_apart, occurs, rfind, starts_with, string_from,
};
use crate::unicode::{lowercase, to_lowercase};

verus! {

/// The list holds at most this many photos.
pub const MAX_PHOTOS: usize = 200;

/// So many files are read at the same time.
pub const MAX_PARALLEL_IMAGE_TASKS: usize = 6;

// ---------------------------------------------------------------------------
// Which files
// ---------------------------------------------------------------------------

/// Whether a type and a name, both in lowercase, are those of a HEIC or HEIF picture.
pub open spec fn heic_names(mime: Seq<char>, name: Seq<char>) -> bool {
    occurs(mime, "heic"@) || occurs(mime, "heif"@) || finishes_with(name, ".heic"@)
        || finishes_with(name, ".heif"@)
}

/// Tells whether a type and a name, both in lowercase, are those of a HEIC or HEIF picture.
pub fn is_heic_name(mime: &str, name: &str) -> (r: bool)
    ensures
        r == heic_names(mime@, name@),
{
    contains(mime, "heic") || contains(mime, "heif") || ends_with(name, ".heic") || ends_with(
        name,
        ".heif",
    )
}

/// Tells whether a file is a HEIC or HEIF picture, by its type or by its name: browsers often
/// give such files no type.
pub fn is_heic(mime: &str, name: &str) -> (r: bool)
    ensures
        r == heic_names(lowercase(mime@), lowercase(name@)),
{
    is_heic_name(to_lowercase(mime).as_str(), to_lowercase(name).as_str())
}

/// Whether a file is a picture that can be brought in.
pub open spec fn acceptable(mime: Seq<char>, name: Seq<char>) -> bool {
    begins_with(mime, "image/"@) || heic_names(lowercase(mime), lowercase(name))
}

/// Tells whether a file is a picture that can be brought in.
pub fn accepts_file(mime: &str, name: &str) -> (r: bool)
    ensures
        r == acceptable(mime@, name@),
        r == (begins_with(mime@, "image/"@) || heic_names(lowercase(mime@), lowercase(name@))),
{
    starts_with(mime, "image/") || is_heic(mime, name)
}

/// The name of a picture converted to JPEG.
pub open spec fn jpeg_name(name: Seq<char>) -> Seq<char> {
    match last_index(name, '.') {
        Some(i) => name.take(i) + ".jpg"@,
        None => name + ".jpg"@,
    }
}

/// The name of a picture converted to JPEG: its extension replaced.
pub fn jpeg_filename(name: &str) -> (r: String)
    ensures
        r@ == jpeg_name(name@),
{
    let chars = chars_of(name);
    proof {
        last_index_is_last(name@, '.');
    }
    let end = match rfind(&chars, '.') {
        Some(pos) => pos,
        None => chars.len(),
    };
    let mut r = string_from(&chars, 0, end);
    assert(r@ =~= name@.take(end as int));
    assert(name@.take(name@.len() as int) =~= name@);
    r.append(".jpg");
    r
}

// ---------------------------------------------------------------------------
// How many
// ---------------------------------------------------------------------------

/// What is done with files that are offered.
#[derive(Clone, Copy, PartialEq, Eq, Structural, Debug)]
pub enum ImportPlan {
    /// None of them is a picture.
    NoImages,
    /// The list is full.
    Full,
    /// The first so many are brought in.
    Take(usize),
}

/// How many of `offered` pictures are brought into a list of `count`: as many as it still takes.
pub open spec fn planned(count: usize, offered: usize) -> ImportPlan {
    if offered == 0 {
        ImportPlan::NoImages
    } else if count >= MAX_PHOTOS {
        ImportPlan::Full
    } else if offered <= MAX_PHOTOS - count {
        ImportPlan::Take(offered)
    } else {
        ImportPlan::Take((MAX_PHOTOS - count) as usize)
    }
}

/// Decides how many of `offered` pictures are brought into a list of `count`.
pub fn plan_import(count: usize, offered: usize) -> (p: ImportPlan)
    ensures
        p == planned(count, offered),
        p matches ImportPlan::Take(n) ==> 0 < n <= offered && count + n <= MAX_PHOTOS,
{
    if offered == 0 {
        return ImportPlan::NoImages;
    }
    if count >= MAX_PHOTOS {
        return ImportPlan::Full;
    }
    let available = MAX_PHOTOS - count;
    if offered <= available {
        ImportPlan::Take(offered)
    } else {
        ImportPlan::Take(available)
    }
}

/// The status when a plan is made: it is refused, or so many files are taken.
pub open spec fn plan_text(plan: ImportPlan, offered: nat) -> Seq<char> {
    match plan {
        ImportPlan::NoImages => "No image files found."@,
        ImportPlan::Full => "Maximum of "@ + decimal(MAX_PHOTOS as nat) + " photos reached."@,
        ImportPlan::Take(n) => if n < offered {
            "Loading "@ + decimal(n as nat) + " of "@ + decimal(offered) + " image(s) (max "@
                + decimal(MAX_PHOTOS as nat) + ")\u{2026}"@
        } else {
            "Loading "@ + decimal(n as nat) + " image(s)\u{2026}"@
        },
    }
}

/// The status that tells what was decided of the files offered.
pub fn plan_status(plan: ImportPlan, offered: usize) -> (s: String)
    ensures
        s@ == plan_text(plan, offered as nat),
{
    let mut s = String::new();
    match plan {
        ImportPlan::NoImages => {
            s.append("No image files found.");
        },
        ImportPlan::Full => {
            s.append("Maximum of ");
            push_decimal(&mut s, MAX_PHOTOS as u64);
            s.append(" photos reached.");
        },
        ImportPlan::Take(n) => {
            s.append("Loading ");
            push_decimal(&mut s, n as u64);
            if n < offered {
                s.append(" of ");
                push_decimal(&mut s, offered as u64);
                s.append(" image(s) (max ");
                push_decimal(&mut s, MAX_PHOTOS as u64);
                s.append(")\u{2026}");
            } else {
                s.append(" image(s)\u{2026}");
            }
        },
    }
    assert(s@ =~= plan_text(plan, offered as nat));
    s
}

/// How many of `n` files are read at the same time.
pub open spec fn workers_for(n: nat) -> nat {
    if n < MAX_PARALLEL_IMAGE_TASKS {
        n
    } else {
        MAX_PARALLEL_IMAGE_TASKS as nat
    }
}

/// The status while `n` files are read.
pub fn processing_status(n: usize) -> (s: String)
    ensures
        s@ == "Processing "@ + decimal(n as nat) + " image(s) with "@ + decimal(
            workers_for(n as nat),
        ) + " parallel worker(s)\u{2026}"@,
        s@ == "Processing "@ + decimal(n as nat) + " image(s) with "@ + decimal(
            (if n < MAX_PARALLEL_IMAGE_TASKS {
                n
            } else {
                MAX_PARALLEL_IMAGE_TASKS
            }) as nat,
        ) + " parallel worker(s)\u{2026}"@,
{
    let workers = if n < MAX_PARALLEL_IMAGE_TASKS {
        n
    } else {
        MAX_PARALLEL_IMAGE_TASKS
    };
    let mut s = String::new();
    s.append("Processing ");
    assert(s@ =~= "Processing "@);
    push_decimal(&mut s, n as u64);
    s.append(" image(s) with ");
    push_decimal(&mut s, workers as u64);
    s.append(" parallel worker(s)\u{2026}");
    s
}

// ---------------------------------------------------------------------------
// In what order
// ---------------------------------------------------------------------------

/// The list with one more entry, put behind all whose file number is not larger.
pub open spec fn inserted(list: Seq<(usize, PhotoItem)>, e: (usize, PhotoItem)) -> Seq<
    (usize, PhotoItem),
>
    decreases list.len(),
{
    if list.len() == 0 || list.last().0 <= e.0 {
        list.push(e)
    } else {
        inserted(list.drop_last(), e).push(list.last())
    }
}

/// The entries ordered by file number; those with one number stay in the order they came.
pub open spec fn file_order(list: Seq<(usize, PhotoItem)>) -> Seq<(usize, PhotoItem)>
    decreases list.len(),
{
    if list.len() == 0 {
        Seq::empty()
    } else {
        inserted(file_order(list.drop_last()), list.last())
    }
}

/// The photos of a row of entries.
pub open spec fn photos_of(list: Seq<(usize, PhotoItem)>) -> Seq<PhotoItem> {
    list.map_values(|e: (usize, PhotoItem)| e.1)
}

/// How many of `n` photos a list of `count` still takes.
pub open spec fn room_for(count: nat, n: nat) -> nat {
    if count >= MAX_PHOTOS {
        0
    } else if n < MAX_PHOTOS - count {
        n
    } else {
        (MAX_PHOTOS - count) as nat
    }
}

/// The photos that join a list of `count`: in the order of their files, as many as it takes.
pub open spec fn joining(loaded: Seq<(usize, PhotoItem)>, count: nat) -> Seq<PhotoItem> {
    photos_of(file_order(loaded)).take(room_for(count, loaded.len()) as int)
}

/// What the status says of files that the limit left out.
pub open spec fn limit_text(left_out: nat) -> Seq<char> {
    " Limit of "@ + decimal(MAX_PHOTOS as nat) + " photos reached: "@ + decimal(left_out)
        + " file(s) left out."@
}

fn insert_entry(list: &mut Vec<(usize, PhotoItem)>, e: (usize, PhotoItem))
    ensures
        final(list)@ == inserted(old(list)@, e),
{
    let ghost all = list@;
    let mut at: usize = list.len();
    assert(all.take(at as int) =~= all);
    assert(inserted(all, e) =~= inserted(all.take(at as int), e) + all.skip(at as int));
    while at > 0 && list[at - 1].0 > e.0
        invariant
            at <= list@.len(),
            list@ == all,
            inserted(all, e) == inserted(all.take(at as int), e) + all.skip(at as int),
        decreases at,
    {
        let ghost head = all.take(at as int);
        assert(head.drop_last() =~= all.take(at - 1));
        assert(inserted(head, e) == inserted(all.take(at - 1), e).push(all[at - 1]));
        assert(inserted(all, e) =~= inserted(all.take(at - 1), e) + all.skip(at - 1));
        at -= 1;
    }
    list.insert(at, e);
    assert(list@ =~= all.take(at as int).push(e) + all.skip(at as int));
}

/// Puts entries in the order of their file numbers.
pub fn sort_by_file(list: Vec<(usize, PhotoItem)>) -> (r: Vec<(usize, PhotoItem)>)
    ensures
        r@ == file_order(list@),
{
    let ghost all = list@;
    let mut sorted: Vec<(usize, PhotoItem)> = Vec::new();
    let mut i: usize = 0;
    assert(all.take(0) =~= Seq::<(usize, PhotoItem)>::empty());
    while i < list.len()
        invariant
            i <= list@.len(),
            list@ == all,
            sorted@ == file_order(all.take(i as int)),
        decreases list@.len() - i,
    {
        assert(all.take(i + 1).drop_last() =~= all.take(i as int));
        let e = (list[i].0, list[i].1.clone());
        assert(e == all[i as int]);
        insert_entry(&mut sorted, e);
        i += 1;
    }
    assert(all.take(i as int) =~= all);
    sorted
}

/// The state of an import under way: files finish in any order.
pub struct ImportRun {
    pub total: usize,
    pub done: usize,
    pub skipped: usize,
    /// How many files were offered beyond those that the list still took.
    pub left_out: usize,
    /// The photos read so far, with the number of their file.
    pub loaded: Vec<(usize, PhotoItem)>,
}

impl ImportRun {
    /// Whether every file that is done was read or skipped, and the files can be counted.
    pub open spec fn well_formed(&self) -> bool {
        &&& self.done == self.loaded@.len() + self.skipped
        &&& self.done <= self.total
        &&& self.total + self.left_out <= usize::MAX
    }

    /// An import of `total` files begins.
    pub fn begin(total: usize) -> (run: Self)
        ensures
            run.total == total,
            run.done == 0,
            run.skipped == 0,
            run.left_out == 0,
            run.loaded@ == Seq::<(usize, PhotoItem)>::empty(),
            run.well_formed(),
    {
        ImportRun { total, done: 0, skipped: 0, left_out: 0, loaded: Vec::new() }
    }

    /// An import of `taken` out of `offered` files begins; the others are left out.
    pub fn begin_planned(taken: usize, offered: usize) -> (run: Self)
        requires
            taken <= offered,
        ensures
            run.total == taken,
            run.done == 0,
            run.skipped == 0,
            run.left_out == offered - taken,
            run.loaded@ == Seq::<(usize, PhotoItem)>::empty(),
            run.well_formed(),
    {
        ImportRun {
            total: taken,
            done: 0,
            skipped: 0,
            left_out: offered - taken,
            loaded: Vec::new(),
        }
    }

    /// How far the import has come, and the name of the last file.
    pub open spec fn step_text(&self, verb: Seq<char>, file_name: Seq<char>) -> Seq<char> {
        verb + decimal(self.done as nat) + "/"@ + decimal(self.total as nat) + ": "@ + file_name
    }

    fn step_status(&self, verb: &str, file_name: &str) -> (s: String)
        ensures
            s@ == self.step_text(verb@, file_name@),
    {
        let mut s = String::new();
        s.append(verb);
        assert(s@ =~= verb@);
        push_decimal(&mut s, self.done as u64);
        s.append("/");
        push_decimal(&mut s, self.total as u64);
        s.append(": ");
        s.append(file_name);
        s
    }

    /// File number `idx` was read. Gives the new status.
    pub fn record_photo(&mut self, idx: usize, photo: PhotoItem, file_name: &str) -> (s: String)
        requires
            old(self).well_formed(),
            old(self).done < old(self).total,
        ensures
            final(self).total == old(self).total,
            final(self).done == old(self).done + 1,
            final(self).skipped == old(self).skipped,
            final(self).left_out == old(self).left_out,
            final(self).loaded@ == old(self).loaded@.push((idx, photo)),
            final(self).well_formed(),
            s@ == final(self).step_text("Processed "@, file_name@),
    {
        self.done = self.done + 1;
        self.loaded.push((idx, photo));
        self.step_status("Processed ", file_name)
    }

    /// A file could not be read. Gives the new status.
    pub fn record_failure(&mut self, file_name: &str) -> (s: String)
        requires
            old(self).well_formed(),
            old(self).done < old(self).total,
        ensures
            final(self).total == old(self).total,
            final(self).done == old(self).done + 1,
            final(self).skipped == old(self).skipped + 1,
            final(self).left_out == old(self).left_out,
            final(self).loaded == old(self).loaded,
            final(self).well_formed(),
            s@ == final(self).step_text("Skipped "@, file_name@),
    {
        self.done = self.done + 1;
        self.skipped = self.skipped + 1;
        self.step_status("Skipped ", file_name)
    }

    /// How many files the limit leaves out in all where the list holds `count` photos at the end:
    /// those that were not taken, and those that were read and no longer find room.
    pub open spec fn left_out_of(&self, count: nat) -> nat {
        (self.left_out + self.loaded@.len() - joining(self.loaded@, count).len()) as nat
    }

    /// What the status at the end says of the files that were taken.
    pub open spec fn loaded_text(&self, count: nat) -> Seq<char> {
        let joined = joining(self.loaded@, count).len();
        if self.skipped == 0 {
            "Loaded "@ + decimal(joined) + " image(s)."@
        } else {
            "Loaded "@ + decimal(joined) + " image(s); skipped "@ + decimal(self.skipped as nat)
                + " file(s)."@
        }
    }

    /// The status at the end of an import into a list of `count` photos; it tells how many files
    /// the limit left out.
    pub open spec fn end_text(&self, count: nat) -> Seq<char> {
        if self.left_out_of(count) == 0 {
            self.loaded_text(count)
        } else {
            self.loaded_text(count) + limit_text(self.left_out_of(count))
        }
    }

    fn end_status(&self, joined: usize, left_out: usize, count: Ghost<nat>) -> (s: String)
        requires
            joined == joining(self.loaded@, count@).len(),
            left_out == self.left_out_of(count@),
        ensures
            s@ == self.end_text(count@),
    {
        let mut s = String::new();
        s.append("Loaded ");
        push_decimal(&mut s, joined as u64);
        if self.skipped == 0 {
            s.append(" image(s).");
        } else {
            s.append(" image(s); skipped ");
            push_decimal(&mut s, self.skipped as u64);
            s.append(" file(s).");
        }
        assert(s@ =~= self.loaded_text(count@));
        if left_out > 0 {
            let ghost told = s@;
            s.append(" Limit of ");
            push_decimal(&mut s, MAX_PHOTOS as u64);
            s.append(" photos reached: ");
            push_decimal(&mut s, left_out as u64);
            s.append(" file(s) left out.");
            assert(s@ =~= told + limit_text(left_out as nat));
        }
        s
    }

    /// The import is over: the photos join the end of the list in the order of their files, as
    /// many as it still takes. Gives the new status.
    pub fn finish(self, items: &mut Vec<PhotoItem>) -> (s: String)
        requires
            self.well_formed(),
        ensures
            final(items)@ == old(items)@ + joining(self.loaded@, old(items)@.len()),
            old(items)@.len() <= MAX_PHOTOS ==> final(items)@.len() <= MAX_PHOTOS,
            s@ == self.end_text(old(items)@.len()),
    {
        let ghost before = items@;
        proof {
            file_order_keeps_all(self.loaded@);
        }
        let count = items.len();
        let room = if count < MAX_PHOTOS {
            MAX_PHOTOS - count
        } else {
            0
        };
        let read = self.loaded.len();
        let joined = if read < room {
            read
        } else {
            room
        };
        let s = self.end_status(joined, self.left_out + (read - joined), Ghost(before.len()));
        let sorted = sort_by_file(self.loaded);
        let mut i: usize = 0;
        while i < joined
            invariant
                i <= joined <= sorted@.len(),
                items@ =~= before + photos_of(sorted@).take(i as int),
            decreases joined - i,
        {
            items.push(sorted[i].1.clone());
            i += 1;
        }
        s
    }
}

// ---------------------------------------------------------------------------
// Laws
// ---------------------------------------------------------------------------

/// No import takes a list beyond the limit, whatever happened to the list since it was planned,
/// and where the list is as it was planned for, every photo that was read joins it.
pub proof fn import_keeps_the_limit(items: Seq<PhotoItem>, offered: usize, run: ImportRun)
    requires
        run.well_formed(),
    ensures
        items.len() <= MAX_PHOTOS ==> (items + joining(run.loaded@, items.len())).len()
            <= MAX_PHOTOS,
        items.len() <= usize::MAX && planned(items.len() as usize, offered) == ImportPlan::Take(
            run.total,
        ) ==> joining(run.loaded@, items.len()) == photos_of(file_order(run.loaded@)),
{
    file_order_keeps_all(run.loaded@);
    let all = photos_of(file_order(run.loaded@));
    assert(all.take(all.len() as int) =~= all);
}

/// Every file that was offered is accounted for once an import is done, into whatever list: it
/// joins the list, was skipped, or is left out by the limit, and the status tells of those.
pub proof fn every_file_is_accounted_for(count: nat, run: ImportRun)
    requires
        run.well_formed(),
        run.done == run.total,
    ensures
        joining(run.loaded@, count).len() + run.skipped + run.left_out_of(count) == run.total
            + run.left_out,
        run.left_out_of(count) > 0 ==> finishes_with(
            run.end_text(count),
            limit_text(run.left_out_of(count)),
        ),
{
    file_order_keeps_all(run.loaded@);
    if run.left_out_of(count) > 0 {
        let tail = limit_text(run.left_out_of(count));
        let text = run.end_text(count);
        assert(text.subrange(text.len() - tail.len(), text.len() as int) =~= tail);
    }
}

/// Ordering by file number loses nothing and adds nothing.
pub proof fn file_order_keeps_all(list: Seq<(usize, PhotoItem)>)
    ensures
        file_order(list).to_multiset() == list.to_multiset(),
        file_order(list).len() == list.len(),
    decreases list.len(),
{
    broadcast use vstd::seq_lib::group_to_multiset_ensures;

    if list.len() > 0 {
        file_order_keeps_all(list.drop_last());
        inserted_adds_one(file_order(list.drop_last()), list.last());
        assert(list =~= list.drop_last().push(list.last()));
    }
}

/// The order is that of the file numbers.
pub proof fn file_order_is_sorted(list: Seq<(usize, PhotoItem)>)
    ensures
        forall|i: int, j: int|
            0 <= i < j < file_order(list).len() ==> (#[trigger] file_order(list)[i]).0 <= (
            #[trigger] file_order(list)[j]).0,
    decreases list.len(),
{
    if list.len() > 0 {
        file_order_is_sorted(list.drop_last());
        inserted_stays_sorted(file_order(list.drop_last()), list.last());
    }
}

/// Whether no two entries have one file number.
pub open spec fn distinct_files(list: Seq<(usize, PhotoItem)>) -> bool {
    forall|i: int, j: int| 0 <= i < j < list.len() ==> list[i].0 != list[j].0
}

/// The order in which files finish does not matter: the photos that join the list are the same
/// and stand in the order of their files.
pub proof fn finishing_order_does_not_matter(
    a: Seq<(usize, PhotoItem)>,
    b: Seq<(usize, PhotoItem)>,
)
    requires
        a.to_multiset() == b.to_multiset(),
        distinct_files(a),
    ensures
        photos_of(file_order(a)) == photos_of(file_order(b)),
        forall|count: nat| #[trigger] joining(a, count) == joining(b, count),
{
    file_order_keeps_all(a);
    file_order_keeps_all(b);
    file_order_is_sorted(a);
    file_order_is_sorted(b);
    distinct_after_sorting(a);
    sorted_lists_agree(file_order(a), file_order(b));
}

/// Photos that join the list keep their identifiers apart from each other and from those of the
/// list, in whatever order their files finished.
pub proof fn import_keeps_ids_distinct(items: Seq<PhotoItem>, loaded: Seq<(usize, PhotoItem)>)
    requires
        distinct_ids(items + photos_of(loaded)),
    ensures
        distinct_ids(items + joining(loaded, items.len())),
{
    sorted_ids_are_distinct(items, loaded);
    file_order_keeps_all(loaded);
    let all = items + photos_of(file_order(loaded));
    let out = items + joining(loaded, items.len());
    assert forall|i: int, j: int| 0 <= i < j < out.len() implies out[i].id != out[j].id by {
        assert(out[i] == all[i] && out[j] == all[j]);
    }
}

proof fn sorted_ids_are_distinct(items: Seq<PhotoItem>, loaded: Seq<(usize, PhotoItem)>)
    requires
        distinct_ids(items + photos_of(loaded)),
    ensures
        distinct_ids(items + photos_of(file_order(loaded))),
    decreases loaded.len(),
{
    if loaded.len() == 0 {
        assert(file_order(loaded) =~= loaded);
    } else {
        let head = loaded.drop_last();
        let e = loaded.last();
        let whole = items + photos_of(loaded);
        assert(photos_of(loaded) =~= photos_of(head).push(e.1));
        let front = items + photos_of(head);
        assert(whole =~= front.push(e.1));
        assert(distinct_ids(front)) by {
            assert forall|i: int, j: int| 0 <= i < j < front.len() implies front[i].id
                != front[j].id by {
                assert(whole[i] == front[i] && whole[j] == front[j]);
            }
        }
        sorted_ids_are_distinct(items, head);
        let sorted = file_order(head);
        assert forall|k: int| 0 <= k < items.len() implies (#[trigger] items[k]).id != e.1.id by {
            assert(whole[k] == items[k]);
            assert(whole[whole.len() - 1] == e.1);
        }
        assert forall|k: int| 0 <= k < sorted.len() implies (#[trigger] sorted[k]).1.id != e.1.id by {
            sorted_entry_is_loaded(head, k);
            let m = choose|m: int| 0 <= m < head.len() && head[m] == sorted[k];
            assert(whole[items.len() + m] == head[m].1);
            assert(whole[whole.len() - 1] == e.1);
        }
        distinct_with_inserted(items, sorted, e);
    }
}

proof fn sorted_entry_is_loaded(list: Seq<(usize, PhotoItem)>, k: int)
    requires
        0 <= k < file_order(list).len(),
    ensures
        exists|m: int| 0 <= m < list.len() && list[m] == file_order(list)[k],
{
    broadcast use vstd::seq_lib::group_to_multiset_ensures;

    file_order_keeps_all(list);
    let e = file_order(list)[k];
    assert(file_order(list).contains(e));
    assert(file_order(list).to_multiset().count(e) > 0);
    assert(list.contains(e));
}

proof fn distinct_with_inserted(
    items: Seq<PhotoItem>,
    list: Seq<(usize, PhotoItem)>,
    e: (usize, PhotoItem),
)
    requires
        distinct_ids(items + photos_of(list)),
        forall|k: int| 0 <= k < items.len() ==> (#[trigger] items[k]).id != e.1.id,
        forall|k: int| 0 <= k < list.len() ==> (#[trigger] list[k]).1.id != e.1.id,
    ensures
        distinct_ids(items + photos_of(inserted(list, e))),
    decreases list.len(),
{
    let out = items + photos_of(inserted(list, e));
    let whole = items + photos_of(list);
    if list.len() == 0 || list.last().0 <= e.0 {
        assert(inserted(list, e) =~= list.push(e));
        assert(out =~= whole.push(e.1));
        assert forall|i: int, j: int| 0 <= i < j < out.len() implies out[i].id != out[j].id by {
            assert(out[i] == whole[i]);
            if j < whole.len() {
                assert(out[j] == whole[j]);
            } else if i < items.len() {
                assert(whole[i] == items[i]);
            } else {
                assert(whole[i] == list[i - items.len()].1);
            }
        }
    } else {
        let head = list.drop_last();
        let front = items + photos_of(head);
        assert(distinct_ids(front)) by {
            assert forall|i: int, j: int| 0 <= i < j < front.len() implies front[i].id
                != front[j].id by {
                assert(whole[i] == front[i] && whole[j] == front[j]);
            }
        }
        distinct_with_inserted(items, head, e);
        let inner = items + photos_of(inserted(head, e));
        let last = list.last();
        assert(inserted(list, e) =~= inserted(head, e).push(last));
        assert(out =~= inner.push(last.1));
        assert forall|i: int, j: int| 0 <= i < j < out.len() implies out[i].id != out[j].id by {
            assert(out[i] == inner[i]);
            if j < inner.len() {
                assert(out[j] == inner[j]);
            } else {
                assert(out[j] == last.1);
                assert(whole[whole.len() - 1] == last.1);
                if i < items.len() {
                    assert(inner[i] == items[i]);
                    assert(whole[i] == items[i]);
                } else {
                    let k = i - items.len();
                    assert(inner[i] == inserted(head, e)[k].1);
                    inserted_entry(head, e, k);
                    if inserted(head, e)[k] != e {
                        let m = choose|m: int| 0 <= m < head.len() && head[m] == inserted(head, e)[k];
                        assert(list[m] == head[m]);
                        assert(whole[items.len() + m] == list[m].1);
                    } else {
                        assert(list[list.len() - 1] == last);
                    }
                }
            }
        }
    }
}

proof fn inserted_entry(list: Seq<(usize, PhotoItem)>, e: (usize, PhotoItem), k: int)
    requires
        0 <= k < inserted(list, e).len(),
    ensures
        inserted(list, e)[k] == e || exists|m: int|
            0 <= m < list.len() && list[m] == inserted(list, e)[k],
    decreases list.len(),
{
    if list.len() == 0 || list.last().0 <= e.0 {
        if k < list.len() {
            assert(list[k] == inserted(list, e)[k]);
        }
    } else {
        let head = list.drop_last();
        inserted_adds_one(head, e);
        if k < inserted(head, e).len() {
            inserted_entry(head, e, k);
            assert(inserted(list, e)[k] == inserted(head, e)[k]);
            if inserted(head, e)[k] != e {
                let m = choose|m: int| 0 <= m < head.len() && head[m] == inserted(head, e)[k];
                assert(list[m] == inserted(list, e)[k]);
            }
        } else {
            assert(list[list.len() - 1] == inserted(list, e)[k]);
        }
    }
}

proof fn inserted_adds_one(list: Seq<(usize, PhotoItem)>, e: (usize, PhotoItem))
    ensures
        inserted(list, e).to_multiset() == list.to_multiset().insert(e),
        inserted(list, e).len() == list.len() + 1,
    decreases list.len(),
{
    broadcast use vstd::seq_lib::group_to_multiset_ensures;

    if list.len() == 0 || list.last().0 <= e.0 {
    } else {
        inserted_adds_one(list.drop_last(), e);
        assert(list =~= list.drop_last().push(list.last()));
        assert(inserted(list, e).to_multiset() =~= list.to_multiset().insert(e));
    }
}

proof fn inserted_stays_sorted(list: Seq<(usize, PhotoItem)>, e: (usize, PhotoItem))
    requires
        forall|i: int, j: int|
            0 <= i < j < list.len() ==> (#[trigger] list[i]).0 <= (#[trigger] list[j]).0,
    ensures
        forall|i: int, j: int|
            0 <= i < j < inserted(list, e).len() ==> (#[trigger] inserted(list, e)[i]).0 <= (
            #[trigger] inserted(list, e)[j]).0,
        forall|i: int|
            0 <= i < inserted(list, e).len() ==> (#[trigger] inserted(list, e)[i]).0 <= (
            if list.len() > 0 && list.last().0 > e.0 {
                list.last().0
            } else {
                e.0
            }),
    decreases list.len(),
{
    let out = inserted(list, e);
    if list.len() == 0 || list.last().0 <= e.0 {
        assert(out == list.push(e));
        assert forall|i: int| 0 <= i < list.len() implies (#[trigger] list[i]).0 <= e.0 by {
            if i < list.len() - 1 {
                assert(list[i].0 <= list[list.len() - 1].0);
            }
        }
    } else {
        let head = list.drop_last();
        let before = inserted(head, e);
        inserted_stays_sorted(head, e);
        if head.len() > 0 {
            assert(head.last() == list[list.len() - 2]);
            assert(list[list.len() - 2].0 <= list[list.len() - 1].0);
        }
        assert(out == before.push(list.last()));
        assert forall|i: int| 0 <= i < before.len() implies (#[trigger] out[i]).0
            <= list.last().0 by {
            assert(out[i] == before[i]);
        }
    }
}

proof fn distinct_after_sorting(list: Seq<(usize, PhotoItem)>)
    requires
        distinct_files(list),
    ensures
        distinct_files(file_order(list)),
{
    broadcast use vstd::seq_lib::group_to_multiset_ensures;

    let sorted = file_order(list);
    file_order_keeps_all(list);
    assert forall|i: int, j: int| 0 <= i < j < sorted.len() implies sorted[i].0 != sorted[j].0 by {
        if sorted[i].0 == sorted[j].0 {
            let x = sorted[i];
            let y = sorted[j];
            in_multiset(sorted, i);
            in_multiset(sorted, j);
            assert(list.contains(x) && list.contains(y));
            let a = choose|a: int| 0 <= a < list.len() && list[a] == x;
            let b = choose|b: int| 0 <= b < list.len() && list[b] == y;
            if a != b {
                if a < b {
                    assert(list[a].0 != list[b].0);
                } else {
                    assert(list[b].0 != list[a].0);
                }
            }
            assert(x == y);
            twice_in_multiset(sorted, i, j);
            once_in_multiset(list, a);
        }
    }
}

proof fn in_multiset(s: Seq<(usize, PhotoItem)>, i: int)
    requires
        0 <= i < s.len(),
    ensures
        s.to_multiset().count(s[i]) > 0,
        s.contains(s[i]),
{
    broadcast use vstd::seq_lib::group_to_multiset_ensures;

    assert(s.contains(s[i]));
}

proof fn twice_in_multiset(s: Seq<(usize, PhotoItem)>, i: int, j: int)
    requires
        0 <= i < j < s.len(),
        s[i] == s[j],
    ensures
        s.to_multiset().count(s[i]) >= 2,
{
    broadcast use vstd::seq_lib::group_to_multiset_ensures;

    let rest = s.remove(j);
    assert(rest[i] == s[i]);
    in_multiset(rest, i);
    assert(s =~= rest.insert(j, s[j]));
}

proof fn once_in_multiset(s: Seq<(usize, PhotoItem)>, i: int)
    requires
        0 <= i < s.len(),
        distinct_files(s),
    ensures
        s.to_multiset().count(s[i]) == 1,
{
    broadcast use vstd::seq_lib::group_to_multiset_ensures;

    let rest = s.remove(i);
    in_multiset(s, i);
    if rest.contains(s[i]) {
        let k = choose|k: int| 0 <= k < rest.len() && rest[k] == s[i];
        if k < i {
            assert(s[k].0 != s[i].0);
        } else {
            assert(s[i].0 != s[k + 1].0);
        }
    }
    assert(s =~= rest.insert(i, s[i]));
    assert(rest.to_multiset().count(s[i]) == 0);
}

proof fn sorted_lists_agree(a: Seq<(usize, PhotoItem)>, b: Seq<(usize, PhotoItem)>)
    requires
        a.to_multiset() == b.to_multiset(),
        distinct_files(a),
        forall|i: int, j: int| 0 <= i < j < a.len() ==> (#[trigger] a[i]).0 <= (#[trigger] a[j]).0,
        forall|i: int, j: int| 0 <= i < j < b.len() ==> (#[trigger] b[i]).0 <= (#[trigger] b[j]).0,
    ensures
        a == b,
    decreases a.len(),
{
    broadcast use vstd::seq_lib::group_to_multiset_ensures;

    assert(a.len() == a.to_multiset().len());
    assert(b.len() == b.to_multiset().len());
    if a.len() == 0 {
        assert(a =~= b);
    } else {
        let n = a.len() - 1;
        let x = a[n];
        let y = b[n];
        in_multiset(a, n);
        in_multiset(b, n);
        assert(b.contains(x) && a.contains(y));
        let i = choose|i: int| 0 <= i < b.len() && b[i] == x;
        let j = choose|j: int| 0 <= j < a.len() && a[j] == y;
        assert(x.0 == y.0);
        if j < n {
            assert(a[j].0 != a[n].0);
        }
        assert(x == y);
        assert(a =~= a.drop_last().push(x));
        assert(b =~= b.drop_last().push(y));
        assert(a.drop_last().to_multiset() =~= a.to_multiset().remove(x));
        assert(b.drop_last().to_multiset() =~= b.to_multiset().remove(x));
        sorted_lists_agree(a.drop_last(), b.drop_last());
    }
}

/// Converting a picture replaces the extension of its name, what stands behind the last dot, and
/// gives one to a name without; doing so twice changes nothing more.
pub proof fn extension_becomes_jpg(stem: Seq<char>, ext: Seq<char>)
    requires
        forall|i: int| 0 <= i < ext.len() ==> ext[i] != '.',
    ensures
        jpeg_name(stem + "."@ + ext) == stem + ".jpg"@,
        jpeg_name(ext) == ext + ".jpg"@,
        jpeg_name(jpeg_name(stem + "."@ + ext)) == jpeg_name(stem + "."@ + ext),
{
    reveal_strlit(".");
    reveal_strlit(".jpg");
    let name = stem + "."@ + ext;
    let done = stem + ".jpg"@;
    last_index_is_last(name, '.');
    last_index_is_last(done, '.');
    last_index_is_last(ext, '.');
    let dot = stem.len() as int;
    assert(name[dot] == '.');
    assert forall|i: int| dot < i < name.len() implies name[i] != '.' by {
        assert(name[i] == ext[i - dot - 1]);
    }
    assert(last_index(name, '.') == Some(dot));
    assert(name.take(dot) =~= stem);
    assert(done[dot] == '.');
    assert forall|i: int| dot < i < done.len() implies done[i] != '.' by {}
    assert(last_index(done, '.') == Some(dot));
    assert(done.take(dot) =~= stem);
}

/// A HEIC or HEIF picture is known by its type or, in capital or small letters, by the end of
/// its name; a name that ends otherwise says nothing.
pub proof fn heic_is_known_by_type_or_name(
    a: Seq<char>,
    b: Seq<char>,
    name: Seq<char>,
    stem: Seq<char>,
    ext: Seq<char>,
)
    requires
        is_ascii_chars(stem + ext),
    ensures
        heic_names(a + "heic"@ + b, name),
        heic_names(a + "heif"@ + b, name),
        lowercase(ext) == ".heic"@ || lowercase(ext) == ".heif"@ ==> heic_names(
            a,
            lowercase(stem + ext),
        ),
        heic_names(a, name + ".jpg"@) ==> occurs(a, "heic"@) || occurs(a, "heif"@),
        heic_names(a, Seq::empty()) ==> occurs(a, "heic"@) || occurs(a, "heif"@),
{
    middle_occurs(a, "heic"@, b);
    middle_occurs(a, "heif"@, b);
    reveal_strlit(".heic");
    reveal_strlit(".heif");
    reveal_strlit(".jpg");
    assert(is_ascii_chars(ext)) by {
        assert forall|i: int| 0 <= i < ext.len() implies '\0' <= #[trigger] ext[i] <= '\u{7f}' by {
            assert((stem + ext)[stem.len() + i] == ext[i]);
        }
    }
    let low = lowercase(stem + ext);
    let tail = lowercase(ext);
    assert(low.subrange(low.len() - tail.len(), low.len() as int) =~= tail);
    let jpg = name + ".jpg"@;
    if finishes_with(jpg, ".heic"@) {
        assert(jpg.subrange(jpg.len() - 5, jpg.len() as int)[4] == 'c');
    }
    if finishes_with(jpg, ".heif"@) {
        assert(jpg.subrange(jpg.len() - 5, jpg.len() as int)[4] == 'f');
    }
}

/// An import takes all that is offered or fills the list to 200 photos; it takes nothing where
/// nothing is offered or the list is full. What joins the list at the end keeps to the same: all
/// photos that were read, or as many as make it 200.
pub proof fn imports_fill_the_list(
    count: usize,
    offered: usize,
    loaded: Seq<(usize, PhotoItem)>,
    n: nat,
)
    ensures
        planned(count, offered) == ImportPlan::NoImages <==> offered == 0,
        planned(count, offered) == ImportPlan::Full <==> offered > 0 && count >= 200,
        planned(count, offered) matches ImportPlan::Take(taken) ==> taken <= offered && count
            + taken <= 200 && (taken == offered || count + taken == 200) && taken > 0,
        n >= 200 ==> joining(loaded, n).len() == 0,
        n < 200 ==> joining(loaded, n).len() <= loaded.len() && n + joining(loaded, n).len() <= 200
            && (joining(loaded, n).len() == loaded.len() || n + joining(loaded, n).len() == 200),
        forall|i: int|
            0 <= i < joining(loaded, n).len() ==> #[trigger] joining(loaded, n)[i] == file_order(
                loaded,
            )[i].1,
{
    file_order_keeps_all(loaded);
}

/// The statuses tell their numbers: how many files are taken of how many, how far an import has
/// come, and how many photos it brought.
pub proof fn statuses_tell_their_numbers(
    n: usize,
    offered: nat,
    run: ImportRun,
    verb: Seq<char>,
    file_name: Seq<char>,
    count: nat,
)
    ensures
        begins_with(
            plan_text(ImportPlan::Take(n), offered),
            "Loading "@ + decimal(n as nat) + " "@,
        ),
        n < offered ==> begins_with(
            plan_text(ImportPlan::Take(n), offered),
            "Loading "@ + decimal(n as nat) + " of "@ + decimal(offered) + " image(s)"@,
        ),
        n >= offered ==> plan_text(ImportPlan::Take(n), offered) == "Loading "@ + decimal(n as nat)
            + " image(s)\u{2026}"@,
        begins_with(
            run.step_text(verb, file_name),
            verb + decimal(run.done as nat) + "/"@ + decimal(run.total as nat),
        ),
        finishes_with(run.step_text(verb, file_name), file_name),
        begins_with(
            run.end_text(count),
            "Loaded "@ + decimal(joining(run.loaded@, count).len()) + " image(s)"@,
        ),
        run.skipped > 0 ==> begins_with(
            run.end_text(count),
            "Loaded "@ + decimal(joining(run.loaded@, count).len()) + " image(s)"@ + "; skipped "@
                + decimal(run.skipped as nat) + " file(s)."@,
        ),
        run.skipped == 0 && run.left_out_of(count) == 0 ==> run.end_text(count) == "Loaded "@
            + decimal(joining(run.loaded@, count).len()) + " image(s)."@,
{
    plan_text_tells_its_numbers(n, offered);
    let first = verb + decimal(run.done as nat) + "/"@ + decimal(run.total as nat);
    step_text_is_framed(first, ": "@, file_name);
    end_text_tells_its_numbers(run, count);
}

proof fn step_text_is_framed(first: Seq<char>, colon: Seq<char>, file_name: Seq<char>)
    ensures
        begins_with(first + colon + file_name, first),
        finishes_with(first + colon + file_name, file_name),
{
    let step = first + colon + file_name;
    starts_with_first(first, colon + file_name);
    assert(step =~= first + (colon + file_name));
    assert(step.subrange(step.len() - file_name.len(), step.len() as int) =~= file_name);
}

proof fn plan_text_tells_its_numbers(n: usize, offered: nat)
    ensures
        ({
            let plan = plan_text(ImportPlan::Take(n), offered);
            let fore = "Loading "@ + decimal(n as nat);
            &&& begins_with(plan, fore + " "@)
            &&& n < offered ==> begins_with(
                plan,
                fore + " of "@ + decimal(offered) + " image(s)"@,
            )
        }),
{
    let plan = plan_text(ImportPlan::Take(n), offered);
    let fore = "Loading "@ + decimal(n as nat);
    reveal_strlit(" ");
    if n < offered {
        reveal_strlit(" of ");
        reveal_strlit(" image(s)");
        reveal_strlit(" image(s) (max ");
        let of = " of "@.skip(1);
        let max = " image(s) (max "@.skip(9);
        assert(" of "@ =~= " "@ + of);
        assert(" image(s) (max "@ =~= " image(s)"@ + max);
        let end = decimal(MAX_PHOTOS as nat) + ")\u{2026}"@;
        numbers_stand_in_front(fore, " "@, of, decimal(offered), " image(s)"@, max, end);
        assert(plan =~= fore + (" "@ + of) + decimal(offered) + (" image(s)"@ + max) + end);
    } else {
        reveal_strlit(" image(s)\u{2026}");
        let rest = " image(s)\u{2026}"@.skip(1);
        assert(" image(s)\u{2026}"@ =~= " "@ + rest);
        starts_with_first(fore + " "@, rest);
        assert(plan =~= (fore + " "@) + rest);
    }
}

proof fn numbers_stand_in_front(
    fore: Seq<char>,
    space: Seq<char>,
    of: Seq<char>,
    number: Seq<char>,
    unit: Seq<char>,
    max: Seq<char>,
    end: Seq<char>,
)
    ensures
        begins_with(fore + (space + of) + number + (unit + max) + end, fore + space),
        begins_with(
            fore + (space + of) + number + (unit + max) + end,
            fore + (space + of) + number + unit,
        ),
{
    let text = fore + (space + of) + number + (unit + max) + end;
    starts_with_first(fore + space, of + number + (unit + max) + end);
    assert(text =~= (fore + space) + (of + number + (unit + max) + end));
    starts_with_first(fore + (space + of) + number + unit, max + end);
    assert(text =~= (fore + (space + of) + number + unit) + (max + end));
}

proof fn end_text_tells_its_numbers(run: ImportRun, count: nat)
    ensures
        ({
            let joined = "Loaded "@ + decimal(joining(run.loaded@, count).len()) + " image(s)"@;
            &&& begins_with(run.end_text(count), joined)
            &&& run.skipped > 0 ==> begins_with(
                run.end_text(count),
                joined + "; skipped "@ + decimal(run.skipped as nat) + " file(s)."@,
            )
        }),
{
    reveal_strlit(" image(s)");
    reveal_strlit("; skipped ");
    reveal_strlit(" image(s); skipped ");
    reveal_strlit(" image(s).");
    let fore = "Loaded "@ + decimal(joining(run.loaded@, count).len());
    let joined = fore + " image(s)"@;
    let told = run.loaded_text(count);
    let text = run.end_text(count);
    let more = text.skip(told.len() as int);
    assert(text =~= told + more);
    if run.skipped > 0 {
        assert(" image(s); skipped "@ =~= " image(s)"@ + "; skipped "@);
        let end = decimal(run.skipped as nat) + " file(s)."@;
        assert(told =~= joined + "; skipped "@ + decimal(run.skipped as nat) + " file(s)."@);
        starts_with_first(told, more);
        starts_with_first(joined, "; skipped "@ + end + more);
        assert(text =~= joined + ("; skipped "@ + end + more));
    } else {
        assert(" image(s)."@ =~= " image(s)"@ + " image(s)."@.skip(9));
        starts_with_first(joined, " image(s)."@.skip(9) + more);
        assert(text =~= joined + (" image(s)."@.skip(9) + more));
    }
}

proof fn starts_with_first(a: Seq<char>, b: Seq<char>)
    ensures
        begins_with(a + b, a),
{
    assert((a + b).subrange(0, a.len() as int) =~= a);
}

/// Every file of an image type is accepted under any name, and a file that its type says nothing
/// of where its name ends, in capital or small letters, like that of a HEIC or HEIF picture.
pub proof fn images_are_accepted(
    kind: Seq<char>,
    name: Seq<char>,
    stem: Seq<char>,
    ext: Seq<char>,
    mime: Seq<char>,
)
    requires
        is_ascii_chars(stem + ext),
    ensures
        acceptable("image/"@ + kind, name),
        lowercase(ext) == ".heic"@ || lowercase(ext) == ".heif"@ ==> acceptable(mime, stem + ext),
        !begins_with(mime, "image/"@) && acceptable(mime, name) ==> heic_names(
            lowercase(mime),
            lowercase(name),
        ),
{
    starts_with_first("image/"@, kind);
    heic_is_known_by_type_or_name(lowercase(mime), Seq::empty(), name, stem, ext);
}

/// Entries that stand in the order of their files already stay as they are, those with one file
/// number among them.
pub proof fn sorted_entries_stay(list: Seq<(usize, PhotoItem)>)
    requires
        forall|i: int, j: int| 0 <= i < j < list.len() ==> list[i].0 <= list[j].0,
    ensures
        file_order(list) == list,
    decreases list.len(),
{
    if list.len() > 0 {
        let rest = list.drop_last();
        sorted_entries_stay(rest);
        if rest.len() > 0 {
            assert(list[rest.len() - 1].0 <= list[rest.len() as int].0);
        }
        assert(rest.push(list.last()) =~= list);
    } else {
        assert(file_order(list) =~= list);
    }
}

/// Files are read six at a time, or all at once where they are fewer; more files never mean
/// fewer at a time.
pub proof fn six_files_at_a_time(n: nat, more: nat)
    requires
        n <= more,
    ensures
        workers_for(n) <= n,
        workers_for(n) <= 6,
        workers_for(n) == n || workers_for(n) == 6,
        workers_for(n) <= workers_for(more),
{
}

/// The status counts the files that the limit leaves out and names the limit; two counts give two
/// statuses.
pub proof fn limit_tells_its_numbers(left_out: nat, other: nat)
    ensures
        limit_text(left_out) == " Limit of "@ + decimal(200) + " photos reached: "@ + decimal(
            left_out,
        ) + " file(s) left out."@,
        left_out != other ==> limit_text(left_out) != limit_text(other),
{
    decimals_differ(left_out, other);
    let fore = " Limit of "@ + decimal(MAX_PHOTOS as nat) + " photos reached: "@;
    middle_tells_apart(fore, decimal(left_out), decimal(other), " file(s) left out."@);
}

} // verus!
