//! How the export frames its pages.
use vstd::prelude::*;

use crate::double::Double;
use crate::text::same_text;

verus! {

/// A page margin in inches: the number, and how it is written.
#[derive(PartialEq, Debug)]
pub struct Margin {
    pub value: Double,
    pub text: String,
}

/// The pattern of 0.25, the margin that an export starts with.
pub const QUARTER_INCH: u64 = 0x3FD0_0000_0000_0000;

/// The pattern of 0, the smallest margin.
pub const NO_INCH: u64 = 0;

/// The pattern of 2, the largest margin.
pub const TWO_INCHES: u64 = 0x4000_0000_0000_0000;

impl Clone for Margin {
    fn clone(&self) -> (r: Self)
        ensures
            r == *self,
    {
        Margin { value: self.value, text: self.text.clone() }
    }
}

impl Margin {
    /// Whether the margin is this number, written so.
    pub open spec fn is(&self, bits: u64, text: Seq<char>) -> bool {
        self.value.bits == bits && self.text@ == text
    }

    /// Whether this margin is `wanted`, brought into the range from none to two inches. What is
    /// no number stays as it is.
    pub open spec fn is_clamped(&self, wanted: Margin) -> bool {
        if wanted.value.less(Double { bits: NO_INCH }) {
            self.is(NO_INCH, "0"@)
        } else if (Double { bits: TWO_INCHES }).less(wanted.value) {
            self.is(TWO_INCHES, "2"@)
        } else {
            *self == wanted
        }
    }

    /// Whether the margin is from none to two inches, or no number.
    pub open spec fn in_range(&self) -> bool {
        self.value.is_nan() || 0 <= self.value.rank() <= TWO_INCHES
    }

    /// Brings a margin into the range from none to two inches.
    pub fn clamp(self) -> (r: Margin)
        ensures
            r.is_clamped(self),
            r.in_range(),
    {
        if self.value.lt(Double { bits: NO_INCH }) {
            Margin { value: Double { bits: NO_INCH }, text: "0".to_string() }
        } else if (Double { bits: TWO_INCHES }).lt(self.value) {
            Margin { value: Double { bits: TWO_INCHES }, text: "2".to_string() }
        } else {
            self
        }
    }
}

/// Margins and the templates of header and footer.
#[derive(PartialEq, Debug)]
pub struct PdfSettings {
    pub margin_top_in: Margin,
    pub margin_right_in: Margin,
    pub margin_bottom_in: Margin,
    pub margin_left_in: Margin,
    pub header_template: String,
    pub footer_template: String,
}

impl Clone for PdfSettings {
    fn clone(&self) -> (r: Self)
        ensures
            r == *self,
    {
        PdfSettings {
            margin_top_in: self.margin_top_in.clone(),
            margin_right_in: self.margin_right_in.clone(),
            margin_bottom_in: self.margin_bottom_in.clone(),
            margin_left_in: self.margin_left_in.clone(),
            header_template: self.header_template.clone(),
            footer_template: self.footer_template.clone(),
        }
    }
}

fn quarter_inch() -> (m: Margin)
    ensures
        m.is(QUARTER_INCH, "0.25"@),
{
    Margin { value: Double { bits: QUARTER_INCH }, text: "0.25".to_string() }
}

impl Default for PdfSettings {
    /// A quarter of an inch on every side, no header and no footer.
    fn default() -> (s: Self)
        ensures
            s.margin_top_in.is(QUARTER_INCH, "0.25"@),
            s.margin_right_in.is(QUARTER_INCH, "0.25"@),
            s.margin_bottom_in.is(QUARTER_INCH, "0.25"@),
            s.margin_left_in.is(QUARTER_INCH, "0.25"@),
            s.header_template@ == Seq::<char>::empty(),
            s.footer_template@ == Seq::<char>::empty(),
            s.in_range(),
    {
        PdfSettings {
            margin_top_in: quarter_inch(),
            margin_right_in: quarter_inch(),
            margin_bottom_in: quarter_inch(),
            margin_left_in: quarter_inch(),
            header_template: String::new(),
            footer_template: String::new(),
        }
    }
}

impl PdfSettings {
    /// Whether every margin is from none to two inches, or no number.
    pub open spec fn in_range(&self) -> bool {
        &&& self.margin_top_in.in_range()
        &&& self.margin_right_in.in_range()
        &&& self.margin_bottom_in.in_range()
        &&& self.margin_left_in.in_range()
    }
}

/// Whether these are the settings `before` with the margin of the side `field` set to `value`,
/// brought into range.
pub open spec fn side_is_set(
    now: PdfSettings,
    before: PdfSettings,
    field: Seq<char>,
    value: Margin,
) -> bool {
    &&& now.header_template == before.header_template
    &&& now.footer_template == before.footer_template
    &&& if field == "top"@ {
        now.margin_top_in.is_clamped(value)
    } else {
        now.margin_top_in == before.margin_top_in
    }
    &&& if field == "right"@ {
        now.margin_right_in.is_clamped(value)
    } else {
        now.margin_right_in == before.margin_right_in
    }
    &&& if field == "bottom"@ {
        now.margin_bottom_in.is_clamped(value)
    } else {
        now.margin_bottom_in == before.margin_bottom_in
    }
    &&& if field == "left"@ {
        now.margin_left_in.is_clamped(value)
    } else {
        now.margin_left_in == before.margin_left_in
    }
}

/// Sets the margin of one side, named `top`, `right`, `bottom` or `left`, brought into range.
/// Any other name changes nothing.
pub fn update_pdf_margin(settings: &mut PdfSettings, field: &str, value: Margin)
    ensures
        side_is_set(*final(settings), *old(settings), field@, value),
        *final(settings) == (PdfSettings {
            margin_top_in: final(settings).margin_top_in,
            margin_right_in: final(settings).margin_right_in,
            margin_bottom_in: final(settings).margin_bottom_in,
            margin_left_in: final(settings).margin_left_in,
            ..*old(settings)
        }),
        if field@ == "top"@ {
            final(settings).margin_top_in.is_clamped(value)
        } else {
            final(settings).margin_top_in == old(settings).margin_top_in
        },
        if field@ == "right"@ {
            final(settings).margin_right_in.is_clamped(value)
        } else {
            final(settings).margin_right_in == old(settings).margin_right_in
        },
        if field@ == "bottom"@ {
            final(settings).margin_bottom_in.is_clamped(value)
        } else {
            final(settings).margin_bottom_in == old(settings).margin_bottom_in
        },
        if field@ == "left"@ {
            final(settings).margin_left_in.is_clamped(value)
        } else {
            final(settings).margin_left_in == old(settings).margin_left_in
        },
        old(settings).in_range() ==> final(settings).in_range(),
{
    proof {
        reveal_strlit("top");
        reveal_strlit("right");
        reveal_strlit("bottom");
        reveal_strlit("left");
        assert("top"@.len() == 3 && "right"@.len() == 5 && "bottom"@.len() == 6 && "left"@.len()
            == 4);
    }
    let clamped = value.clamp();
    if same_text(field, "top") {
        settings.margin_top_in = clamped;
    } else if same_text(field, "right") {
        settings.margin_right_in = clamped;
    } else if same_text(field, "bottom") {
        settings.margin_bottom_in = clamped;
    } else if same_text(field, "left") {
        settings.margin_left_in = clamped;
    }
}

// ---------------------------------------------------------------------------
// Laws
// ---------------------------------------------------------------------------

/// A margin from none to two inches is kept as it is written; a smaller one becomes none and a
/// larger one two inches. Bringing it into range once more changes nothing.
pub proof fn margins_in_range_are_kept(wanted: Margin, got: Margin)
    requires
        got.is_clamped(wanted),
    ensures
        wanted.value.is_nan() ==> got == wanted,
        !wanted.value.is_nan() && 0 <= wanted.value.rank() <= 0x4000_0000_0000_0000 ==> got
            == wanted,
        !wanted.value.is_nan() && wanted.value.rank() < 0 ==> got.text@ == "0"@
            && got.value.rank() == 0,
        !wanted.value.is_nan() && wanted.value.rank() > 0x4000_0000_0000_0000 ==> got.text@ == "2"@
            && got.value.rank() == 0x4000_0000_0000_0000,
        got.is_clamped(got),
{
}

/// A wider margin that is asked for never gives a narrower one.
pub proof fn margins_keep_their_order(a: Margin, b: Margin, got_a: Margin, got_b: Margin)
    requires
        got_a.is_clamped(a),
        got_b.is_clamped(b),
        a.value.at_most(b.value),
    ensures
        got_a.value.at_most(got_b.value),
{
}

/// A margin in range that is set for a side stands on that side, and the other three sides, the
/// header and the footer stay; a name that is no side changes nothing.
pub proof fn one_side_is_set(
    now: PdfSettings,
    before: PdfSettings,
    field: Seq<char>,
    value: Margin,
)
    requires
        side_is_set(now, before, field, value),
        value.in_range(),
    ensures
        field == "top"@ ==> now == (PdfSettings { margin_top_in: value, ..before }),
        field == "right"@ ==> now == (PdfSettings { margin_right_in: value, ..before }),
        field == "bottom"@ ==> now == (PdfSettings { margin_bottom_in: value, ..before }),
        field == "left"@ ==> now == (PdfSettings { margin_left_in: value, ..before }),
        field != "top"@ && field != "right"@ && field != "bottom"@ && field != "left"@ ==> now
            == before,
{
    reveal_strlit("top");
    reveal_strlit("right");
    reveal_strlit("bottom");
    reveal_strlit("left");
    assert("top"@.len() == 3 && "right"@.len() == 5 && "bottom"@.len() == 6 && "left"@.len() == 4);
}

} // verus!
