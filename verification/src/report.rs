//! What the report says of itself.
use vstd::prelude::*;

use crate::number::{decimal, index_of, padded, padded_keeps_the_value, padded_text};

verus! {

/// The fields of the title page.
#[derive(PartialEq, Debug)]
pub struct ReportMeta {
    pub title: String,
    pub site_address: String,
    pub author: String,
    pub date: String,
    pub notes: String,
    /// Data URL of the logo on the title page.
    pub logo_data_url: String,
}

impl Clone for ReportMeta {
    fn clone(&self) -> (r: Self)
        ensures
            r == *self,
    {
        ReportMeta {
            title: self.title.clone(),
            site_address: self.site_address.clone(),
            author: self.author.clone(),
            date: self.date.clone(),
            notes: self.notes.clone(),
            logo_data_url: self.logo_data_url.clone(),
        }
    }
}

impl Default for ReportMeta {
    /// Every field empty.
    fn default() -> (m: Self)
        ensures
            !m.has_content(),
    {
        ReportMeta {
            title: String::new(),
            site_address: String::new(),
            author: String::new(),
            date: String::new(),
            notes: String::new(),
            logo_data_url: String::new(),
        }
    }
}

impl ReportMeta {
    /// Whether any field is filled in.
    pub open spec fn has_content(&self) -> bool {
        ||| self.title@.len() > 0
        ||| self.site_address@.len() > 0
        ||| self.author@.len() > 0
        ||| self.date@.len() > 0
        ||| self.notes@.len() > 0
        ||| self.logo_data_url@.len() > 0
    }

    /// The fields that a new report starts with.
    pub fn starter(today: String) -> (m: Self)
        ensures
            m.title@ == "Report Title"@,
            m.site_address@ == "123 Site Address, 12345 ST"@,
            m.author@ == "The Author"@,
            m.date == today,
            m.notes@ == "Photos and descriptions of 123 Site Address, 12345 ST"@,
            m.logo_data_url@ == Seq::<char>::empty(),
    {
        ReportMeta {
            title: "Report Title".to_string(),
            site_address: "123 Site Address, 12345 ST".to_string(),
            author: "The Author".to_string(),
            date: today,
            notes: "Photos and descriptions of 123 Site Address, 12345 ST".to_string(),
            logo_data_url: String::new(),
        }
    }

    /// Whether the report has a title page: it is wanted, and there is something to put on it.
    pub fn has_cover_page(&self, wanted: bool) -> (r: bool)
        ensures
            r == (wanted && self.has_content()),
    {
        wanted && (!self.title.as_str().is_empty() || !self.site_address.as_str().is_empty()
            || !self.author.as_str().is_empty() || !self.date.as_str().is_empty()
            || !self.notes.as_str().is_empty() || !self.logo_data_url.as_str().is_empty())
    }
}

/// A date as year, month and day; months count from zero.
pub open spec fn iso_text(year: nat, month: nat, day: nat) -> Seq<char> {
    padded(year, 4) + "-"@ + padded(month + 1, 2) + "-"@ + padded(day, 2)
}

/// A date as year, month and day; months count from zero.
pub fn iso_date(year: u32, month: u32, day: u32) -> (s: String)
    ensures
        s@ == padded(year as nat, 4) + "-"@ + padded((month + 1) as nat, 2) + "-"@ + padded(
            day as nat,
            2,
        ),
        s@ == iso_text(year as nat, month as nat, day as nat),
{
    let mut s = padded_text(year as u64, 4);
    s.append("-");
    s.append(padded_text(month as u64 + 1, 2).as_str());
    s.append("-");
    s.append(padded_text(day as u64, 2).as_str());
    s
}

// ---------------------------------------------------------------------------
// Laws
// ---------------------------------------------------------------------------

/// A date of four-digit years is ten characters long and gives the year, the month counted from
/// one, and the day back, so that different days are written differently.
pub proof fn date_reads_back(year: nat, month: nat, day: nat)
    requires
        year < 10_000,
        month < 99,
        day < 100,
    ensures
        iso_text(year, month, day).len() == 10,
        index_of(iso_text(year, month, day).subrange(0, 4)) == Some(year as usize),
        iso_text(year, month, day)[4] == '-',
        index_of(iso_text(year, month, day).subrange(5, 7)) == Some((month + 1) as usize),
        iso_text(year, month, day)[7] == '-',
        index_of(iso_text(year, month, day).subrange(8, 10)) == Some(day as usize),
{
    reveal_strlit("-");
    padded_reads_back(year, 4);
    padded_reads_back(month + 1, 2);
    padded_reads_back(day, 2);
    let text = iso_text(year, month, day);
    assert(text.subrange(0, 4) =~= padded(year, 4));
    assert(text.subrange(5, 7) =~= padded(month + 1, 2));
    assert(text.subrange(8, 10) =~= padded(day, 2));
}

proof fn padded_reads_back(n: nat, width: nat)
    requires
        width == 2 && n < 100 || width == 4 && n < 10_000,
    ensures
        padded(n, width).len() == width,
        index_of(padded(n, width)) == Some(n as usize),
{
    padded_keeps_the_value(n, width);
    reveal_with_fuel(decimal, 5);
}

} // verus!
