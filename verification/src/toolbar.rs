//! The toolbar and the status bar: what they say and what they look like.
use vstd::prelude::*;

use crate::export::{step_text, ExportStep};
use crate::layout::GridLayout;
use crate::number::{decimal, decimals_differ, index_of, index_reads_back, push_decimal};
use crate::photo::PhotoItem;
use crate::text::{contains, middle_occurs, occurs, occurs_at, same_text};

verus! {

// ---------------------------------------------------------------------------
// Status
// ---------------------------------------------------------------------------

/// What a status is about.
#[derive(Clone, Copy, PartialEq, Eq, Structural, Debug)]
pub enum StatusKind {
    Error,
    Progress,
    Success,
    Hidden,
    Plain,
}

/// What a status is about, by the words in it: failure before progress before success.
pub open spec fn kind_of(status: Seq<char>) -> StatusKind {
    if occurs(status, "failed"@) || occurs(status, "blocked"@) || occurs(status, "error"@) {
        StatusKind::Error
    } else if occurs(status, "\u{2026}"@) || occurs(status, "Processing"@) {
        StatusKind::Progress
    } else if occurs(status, "downloaded"@) || occurs(status, "Loaded"@) || occurs(
        status,
        "Cleared"@,
    ) {
        StatusKind::Success
    } else if status.len() == 0 {
        StatusKind::Hidden
    } else {
        StatusKind::Plain
    }
}

/// Tells what a status is about.
pub fn status_kind(status: &str) -> (k: StatusKind)
    ensures
        k == kind_of(status@),
{
    if contains(status, "failed") || contains(status, "blocked") || contains(status, "error") {
        StatusKind::Error
    } else if contains(status, "\u{2026}") || contains(status, "Processing") {
        StatusKind::Progress
    } else if contains(status, "downloaded") || contains(status, "Loaded") || contains(
        status,
        "Cleared",
    ) {
        StatusKind::Success
    } else if status.is_empty() {
        StatusKind::Hidden
    } else {
        StatusKind::Plain
    }
}

/// The classes of the status bar for a status.
pub fn status_class(status: &str) -> (s: &'static str)
    ensures
        s@ == (match kind_of(status@) {
            StatusKind::Error => "status-bar status-error"@,
            StatusKind::Progress => "status-bar status-progress"@,
            StatusKind::Success => "status-bar status-success"@,
            StatusKind::Hidden => "status-bar status-hidden"@,
            StatusKind::Plain => "status-bar"@,
        }),
{
    match status_kind(status) {
        StatusKind::Error => "status-bar status-error",
        StatusKind::Progress => "status-bar status-progress",
        StatusKind::Success => "status-bar status-success",
        StatusKind::Hidden => "status-bar status-hidden",
        StatusKind::Plain => "status-bar",
    }
}

// ---------------------------------------------------------------------------
// Clearing the list
// ---------------------------------------------------------------------------

/// The button that clears the list: it asks first, and waits so long for the answer.
pub const CLEAR_WAIT_MS: u32 = 3_000;

/// The button that clears the list.
#[derive(Clone, Copy, PartialEq, Eq, Structural, Debug)]
pub struct ClearButton {
    /// It was clicked once and waits for the second click.
    pub pending: bool,
}

impl ClearButton {
    /// The button before any click.
    pub fn new() -> (b: Self)
        ensures
            !b.pending,
    {
        ClearButton { pending: false }
    }

    /// A click: the first one asks, the second one clears the list. Gives the status, and
    /// whether the list was cleared.
    pub fn click(&mut self, items: &mut Vec<PhotoItem>) -> (r: (bool, &'static str))
        ensures
            final(self).pending == !old(self).pending,
            r.0 == old(self).pending,
            r.1@ == (if old(self).pending {
                "Cleared all photos."@
            } else {
                "Click again to confirm clear."@
            }),
            final(items)@ == (if old(self).pending {
                Seq::empty()
            } else {
                old(items)@
            }),
    {
        if self.pending {
            self.pending = false;
            items.clear();
            (true, "Cleared all photos.")
        } else {
            self.pending = true;
            (false, "Click again to confirm clear.")
        }
    }

    /// The wait is over. Gives the status where the button was still waiting.
    pub fn time_out(&mut self) -> (r: Option<&'static str>)
        ensures
            !final(self).pending,
            match r {
                Some(s) => old(self).pending && s@ == "Clear cancelled."@,
                None => !old(self).pending,
            },
    {
        if self.pending {
            self.pending = false;
            Some("Clear cancelled.")
        } else {
            None
        }
    }

    /// What the button says.
    pub fn label(&self) -> (s: &'static str)
        ensures
            s@ == (if self.pending {
                "Confirm?"@
            } else {
                "Clear"@
            }),
    {
        if self.pending {
            "Confirm?"
        } else {
            "Clear"
        }
    }

    /// The classes of the button.
    pub fn class(&self) -> (s: &'static str)
        ensures
            s@ == (if self.pending {
                "btn-danger btn-confirm"@
            } else {
                "btn-danger"@
            }),
    {
        if self.pending {
            "btn-danger btn-confirm"
        } else {
            "btn-danger"
        }
    }
}

// ---------------------------------------------------------------------------
// Buttons, labels and keys
// ---------------------------------------------------------------------------

/// The classes of the button that chooses a layout.
pub fn layout_button_class(button: GridLayout, chosen: GridLayout) -> (s: &'static str)
    ensures
        s@ == (if button == chosen {
            "layout-btn active"@
        } else {
            "layout-btn"@
        }),
{
    if button == chosen {
        "layout-btn active"
    } else {
        "layout-btn"
    }
}

/// Tells whether a key adds files: the letter O with Ctrl or Meta.
pub fn is_open_shortcut(ctrl: bool, meta: bool, key: &str) -> (r: bool)
    ensures
        r == ((ctrl || meta) && (key@ == "o"@ || key@ == "O"@)),
{
    (ctrl || meta) && (same_text(key, "o") || same_text(key, "O"))
}

/// The number of photos, as the list's heading shows it.
pub open spec fn count_text(count: nat) -> Seq<char> {
    "("@ + decimal(count) + ")"@
}

/// The number of a row, counted from one.
pub open spec fn row_text(index: nat) -> Seq<char> {
    "#"@ + decimal(index + 1)
}

/// The number of photos, as the list's heading shows it.
pub fn count_label(count: usize) -> (s: String)
    ensures
        s@ == count_text(count as nat),
        s@ == "("@ + decimal(count as nat) + ")"@,
{
    let mut s = String::new();
    s.append("(");
    assert(s@ =~= "("@);
    push_decimal(&mut s, count as u64);
    s.append(")");
    s
}

/// The number of a row, counted from one.
pub fn row_label(index: usize) -> (s: String)
    requires
        index < usize::MAX,
    ensures
        s@ == row_text(index as nat),
        s@ == "#"@ + decimal((index + 1) as nat),
{
    let mut s = String::new();
    s.append("#");
    assert(s@ =~= "#"@);
    push_decimal(&mut s, (index + 1) as u64);
    s
}

/// The heading of the preview.
pub fn preview_label(layout: GridLayout) -> (s: String)
    ensures
        s@ == "Preview \u{2014} "@ + layout.name(),
{
    let mut s = String::new();
    s.append("Preview \u{2014} ");
    assert(s@ =~= "Preview \u{2014} "@);
    s.append(layout.label());
    s
}

/// What the button for the logo says.
pub fn logo_label(logo_data_url: &str) -> (s: &'static str)
    ensures
        s@ == (if logo_data_url@.len() == 0 {
            "Upload Logo"@
        } else {
            "Replace"@
        }),
{
    if logo_data_url.is_empty() {
        "Upload Logo"
    } else {
        "Replace"
    }
}

// ---------------------------------------------------------------------------
// Laws
// ---------------------------------------------------------------------------

/// An export that left out pictures is shown as an error, however many it left out.
pub proof fn missing_pictures_show_as_error(missing: usize)
    requires
        missing > 0,
    ensures
        kind_of(step_text(ExportStep::Printed(missing))) == StatusKind::Error,
{
    let text = step_text(ExportStep::Printed(missing));
    reveal_strlit("Print dialog opened, but the picture export failed for ");
    reveal_strlit("failed");
    assert(text.subrange(44, 50) =~= "failed"@);
    assert(occurs_at(text, "failed"@, 44));
}

/// A word of failure anywhere in a status makes it an error, whatever else it says; without one
/// an ellipsis or a word of work makes it progress; without these a word of success makes it a
/// success. Only an empty status is hidden.
pub proof fn words_tell_the_kind(a: Seq<char>, b: Seq<char>, status: Seq<char>)
    ensures
        kind_of(a + "failed"@ + b) == StatusKind::Error,
        kind_of(a + "blocked"@ + b) == StatusKind::Error,
        kind_of(a + "error"@ + b) == StatusKind::Error,
        kind_of(a + "\u{2026}"@ + b) == StatusKind::Progress || kind_of(a + "\u{2026}"@ + b)
            == StatusKind::Error,
        kind_of(a + "Processing"@ + b) == StatusKind::Progress || kind_of(a + "Processing"@ + b)
            == StatusKind::Error,
        ({
            let kind = kind_of(a + "downloaded"@ + b);
            kind == StatusKind::Success || kind == StatusKind::Progress || kind
                == StatusKind::Error
        }),
        ({
            let kind = kind_of(a + "Loaded"@ + b);
            kind == StatusKind::Success || kind == StatusKind::Progress || kind
                == StatusKind::Error
        }),
        ({
            let kind = kind_of(a + "Cleared"@ + b);
            kind == StatusKind::Success || kind == StatusKind::Progress || kind
                == StatusKind::Error
        }),
        kind_of(status) == StatusKind::Hidden <==> status.len() == 0,
        kind_of(status) == StatusKind::Error ==> occurs(status, "failed"@) || occurs(
            status,
            "blocked"@,
        ) || occurs(status, "error"@),
        kind_of(status) == StatusKind::Progress ==> occurs(status, "\u{2026}"@) || occurs(
            status,
            "Processing"@,
        ),
        kind_of(status) == StatusKind::Success ==> occurs(status, "downloaded"@) || occurs(
            status,
            "Loaded"@,
        ) || occurs(status, "Cleared"@),
{
    middle_occurs(a, "failed"@, b);
    middle_occurs(a, "blocked"@, b);
    middle_occurs(a, "error"@, b);
    middle_occurs(a, "\u{2026}"@, b);
    middle_occurs(a, "Processing"@, b);
    middle_occurs(a, "downloaded"@, b);
    middle_occurs(a, "Loaded"@, b);
    middle_occurs(a, "Cleared"@, b);
    reveal_strlit("failed");
    reveal_strlit("blocked");
    reveal_strlit("error");
    reveal_strlit("\u{2026}");
    reveal_strlit("Processing");
    reveal_strlit("downloaded");
    reveal_strlit("Loaded");
    reveal_strlit("Cleared");
}

/// The heading counts as the rows do: the last row of a list has the number that the heading
/// shows, read back both give the number of photos, and no two rows have one label.
pub proof fn rows_count_up_to_the_heading(count: usize, other: nat)
    requires
        0 < count,
    ensures
        index_of(row_text((count - 1) as nat).skip(1)) == Some(count),
        index_of(count_text(count as nat).drop_first().drop_last()) == Some(count),
        row_text((count - 1) as nat)[0] == '#',
        count_text(count as nat)[0] == '(' && count_text(count as nat).last() == ')',
        row_text((count - 1) as nat) == row_text(other) ==> other == count - 1,
{
    reveal_strlit("#");
    reveal_strlit("(");
    reveal_strlit(")");
    index_reads_back(count);
    decimals_differ(count as nat, other + 1);
    let digits = decimal(count as nat);
    assert(row_text((count - 1) as nat).skip(1) =~= digits);
    assert(row_text(other).skip(1) =~= decimal(other + 1));
    assert(count_text(count as nat).drop_first().drop_last() =~= digits);
}

} // verus!
