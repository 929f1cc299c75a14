//! The export from request to result: when it starts, what it tells, and what it asks then.
use std::collections::HashMap;
use vstd::prelude::*;

use crate::number::{decimal, decimals_differ, push_decimal};
use crate::photo::PhotoItem;
use crate::text::{finishes_with, middle_tells_apart, same_text};

verus! {

broadcast use vstd::std_specs::hash::group_hash_axioms;

/// What becomes of a request to export.
#[derive(Clone, Copy, PartialEq, Eq, Structural, Debug)]
pub enum ExportRequest {
    /// Other work is running.
    Ignored,
    /// There are no photos.
    Refused,
    /// The export starts.
    Accepted,
}

/// What becomes of a request to export `count` photos.
pub open spec fn decided(loading: bool, count: nat) -> ExportRequest {
    if loading {
        ExportRequest::Ignored
    } else if count == 0 {
        ExportRequest::Refused
    } else {
        ExportRequest::Accepted
    }
}

/// Decides on a request to export `count` photos.
pub fn request_export(loading: bool, count: usize) -> (r: ExportRequest)
    ensures
        r == decided(loading, count as nat),
        r == (if loading {
            ExportRequest::Ignored
        } else if count == 0 {
            ExportRequest::Refused
        } else {
            ExportRequest::Accepted
        }),
{
    if loading {
        ExportRequest::Ignored
    } else if count == 0 {
        ExportRequest::Refused
    } else {
        ExportRequest::Accepted
    }
}

/// A step of the export that the status tells of.
#[derive(Clone, Copy, PartialEq, Eq, Structural, Debug)]
pub enum ExportStep {
    /// There were no photos to export.
    NoPhotos,
    /// The browser gave no window.
    NoWindow,
    /// The browser opened no new window.
    PopupBlocked,
    /// The pictures are being compressed.
    Preparing,
    /// The new window has no document to write to.
    NoDocument,
    /// The document is written; so many photos are in it without their picture.
    Printed(usize),
}

/// What the status says at a step of the export.
pub open spec fn step_text(step: ExportStep) -> Seq<char> {
    match step {
        ExportStep::NoPhotos => "Add photos before exporting."@,
        ExportStep::NoWindow => "Could not access the browser window."@,
        ExportStep::PopupBlocked =>
            "Popup was blocked. Allow popups for this app and try again."@,
        ExportStep::Preparing => "Preparing PDF\u{2026} compressing images"@,
        ExportStep::NoDocument => "Could not open print document."@,
        ExportStep::Printed(missing) => if missing == 0 {
            "Print dialog opened. Choose \u{201c}Save as PDF\u{201d} in the browser print dialog."@
        } else {
            "Print dialog opened, but the picture export failed for "@ + decimal(missing as nat)
                + " photo(s)."@
        },
    }
}

/// The status at a step of the export.
pub fn export_status(step: ExportStep) -> (s: String)
    ensures
        s@ == step_text(step),
{
    match step {
        ExportStep::NoPhotos => "Add photos before exporting.".to_string(),
        ExportStep::NoWindow => "Could not access the browser window.".to_string(),
        ExportStep::PopupBlocked =>
            "Popup was blocked. Allow popups for this app and try again.".to_string(),
        ExportStep::Preparing => "Preparing PDF\u{2026} compressing images".to_string(),
        ExportStep::NoDocument => "Could not open print document.".to_string(),
        ExportStep::Printed(missing) => {
            if missing == 0 {
                "Print dialog opened. Choose \u{201c}Save as PDF\u{201d} in the browser print dialog.".to_string()
            } else {
                let mut s = String::new();
                s.append("Print dialog opened, but the picture export failed for ");
                assert(s@ =~= "Print dialog opened, but the picture export failed for "@);
                push_decimal(&mut s, missing as u64);
                s.append(" photo(s).");
                s
            }
        },
    }
}

/// How many photos have no exported picture.
pub open spec fn missing_count(photos: Seq<PhotoItem>, bytes: Map<u64, Vec<u8>>) -> nat
    decreases photos.len(),
{
    if photos.len() == 0 {
        0
    } else {
        missing_count(photos.drop_last(), bytes) + (if bytes.contains_key(photos.last().id) {
            0nat
        } else {
            1nat
        })
    }
}

/// Counts the photos that have no exported picture.
pub fn missing_pictures(photos: &[PhotoItem], export_bytes: &HashMap<u64, Vec<u8>>) -> (n: usize)
    ensures
        n == missing_count(photos@, export_bytes@),
{
    let mut n: usize = 0;
    let mut i: usize = 0;
    assert(photos@.take(0) =~= Seq::<PhotoItem>::empty());
    while i < photos.len()
        invariant
            n <= i <= photos@.len(),
            n == missing_count(photos@.take(i as int), export_bytes@),
        decreases photos@.len() - i,
    {
        assert(photos@.take(i + 1).drop_last() =~= photos@.take(i as int));
        if !export_bytes.contains_key(&photos[i].id) {
            n += 1;
        }
        i += 1;
    }
    assert(photos@.take(i as int) =~= photos@);
    n
}

/// What went wrong with one file.
#[derive(Clone, Copy, PartialEq, Eq, Structural, Debug)]
pub enum FileFailure {
    /// It could not be brought in.
    Import,
    /// Its picture could not be decoded for the export.
    Decode,
    /// Its picture could not be compressed for the export.
    Compress,
}

/// What a warning says first.
pub open spec fn failure_words(failure: FileFailure) -> Seq<char> {
    match failure {
        FileFailure::Import => "Image processing failed for "@,
        FileFailure::Decode => "Bitmap decode failed for "@,
        FileFailure::Compress => "Export JPEG failed for "@,
    }
}

/// The warning about a file, with the reason.
pub fn failure_warning(failure: FileFailure, file_name: &str, reason: &str) -> (s: String)
    ensures
        s@ == failure_words(failure) + file_name@ + ": "@ + reason@,
{
    let words: &str = match failure {
        FileFailure::Import => "Image processing failed for ",
        FileFailure::Decode => "Bitmap decode failed for ",
        FileFailure::Compress => "Export JPEG failed for ",
    };
    let mut s = String::new();
    s.append(words);
    assert(s@ =~= failure_words(failure));
    s.append(file_name);
    s.append(": ");
    s.append(reason);
    s
}

/// The value that the browser keeps once the question for support was dismissed for good.
pub const DISMISSED: &'static str = "1";

/// Tells whether to ask for support after an export, given what the browser keeps.
pub fn asks_for_support(kept: &Option<String>) -> (r: bool)
    ensures
        r == !(kept matches Some(value) && value@ == DISMISSED@),
{
    match kept {
        Some(value) => !same_text(value.as_str(), DISMISSED),
        None => true,
    }
}

// ---------------------------------------------------------------------------
// Laws
// ---------------------------------------------------------------------------

/// No photo lacks its picture exactly where the count of those that do is zero.
pub proof fn none_missing_means_all_exported(photos: Seq<PhotoItem>, bytes: Map<u64, Vec<u8>>)
    ensures
        missing_count(photos, bytes) == 0 <==> forall|i: int|
            0 <= i < photos.len() ==> bytes.contains_key((#[trigger] photos[i]).id),
    decreases photos.len(),
{
    if photos.len() > 0 {
        let rest = photos.drop_last();
        none_missing_means_all_exported(rest, bytes);
        assert forall|i: int| 0 <= i < rest.len() implies rest[i] == photos[i] by {}
        if forall|i: int|
            0 <= i < rest.len() ==> bytes.contains_key((#[trigger] rest[i]).id) {
            if bytes.contains_key(photos.last().id) {
                assert forall|i: int| 0 <= i < photos.len() implies bytes.contains_key(
                    (#[trigger] photos[i]).id,
                ) by {
                    if i < rest.len() {
                        assert(bytes.contains_key(rest[i].id));
                    }
                }
            } else {
                assert(!bytes.contains_key(photos[photos.len() - 1].id));
            }
        } else {
            let i = choose|i: int|
                0 <= i < rest.len() && !bytes.contains_key((#[trigger] rest[i]).id);
            assert(!bytes.contains_key(photos[i].id));
        }
    }
}

/// Each photo counts for itself: the photos without a picture of two lists are those of the one
/// and those of the other, one photo counts as one or none, and exporting a picture more never
/// makes more of them lack theirs.
pub proof fn missing_pictures_add_up(
    a: Seq<PhotoItem>,
    b: Seq<PhotoItem>,
    photo: PhotoItem,
    bytes: Map<u64, Vec<u8>>,
    id: u64,
    picture: Vec<u8>,
)
    ensures
        missing_count(a + b, bytes) == missing_count(a, bytes) + missing_count(b, bytes),
        missing_count(seq![photo], bytes) == (if bytes.contains_key(photo.id) {
            0nat
        } else {
            1nat
        }),
        missing_count(b, bytes) <= b.len(),
        missing_count(b, bytes.insert(id, picture)) <= missing_count(b, bytes),
    decreases b.len(),
{
    reveal_with_fuel(missing_count, 2);
    assert(seq![photo].drop_last() =~= Seq::<PhotoItem>::empty());
    assert(seq![photo].last() == photo);
    if b.len() == 0 {
        assert(a + b =~= a);
    } else {
        assert((a + b).drop_last() =~= a + b.drop_last());
        missing_pictures_add_up(a, b.drop_last(), photo, bytes, id, picture);
    }
}

/// The status tells how many pictures are missing: it ends in that number of photos, and two
/// numbers give two statuses.
pub proof fn status_counts_missing_pictures(missing: usize, other: usize)
    requires
        missing > 0,
    ensures
        finishes_with(
            step_text(ExportStep::Printed(missing)),
            " "@ + decimal(missing as nat) + " photo(s)."@,
        ),
        other > 0 && missing != other ==> step_text(ExportStep::Printed(missing)) != step_text(
            ExportStep::Printed(other),
        ),
{
    let fore = "Print dialog opened, but the picture export failed for "@;
    let end = " photo(s)."@;
    reveal_strlit("Print dialog opened, but the picture export failed for ");
    reveal_strlit(" ");
    let lead = fore.take(fore.len() - 1);
    assert(fore =~= lead + " "@);
    let text = step_text(ExportStep::Printed(missing));
    let tail = " "@ + decimal(missing as nat) + end;
    assert(text =~= lead + tail);
    assert(text.subrange(text.len() - tail.len(), text.len() as int) =~= tail);
    decimals_differ(missing as nat, other as nat);
    middle_tells_apart(fore, decimal(missing as nat), decimal(other as nat), end);
}

/// While other work runs no request is answered, however many photos there are; otherwise every
/// request with a photo starts an export, and only one without any is refused.
pub proof fn photos_are_exported_unless_busy(count: nat, other: nat)
    ensures
        decided(true, count) == decided(true, other),
        decided(true, count) == ExportRequest::Ignored,
        decided(false, count + 1) == ExportRequest::Accepted,
        decided(false, count) == ExportRequest::Refused <==> count == 0,
{
}

} // verus!
