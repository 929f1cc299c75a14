//! The grids that photos are laid out in.
use vstd::prelude::*;

verus! {

/// How many photos a page holds, and in what grid.
#[derive(Clone, Copy, PartialEq, Eq, Structural, Debug)]
pub enum GridLayout {
    OneUp,
    TwoUp,
    TwoByTwo,
    TwoByThree,
}

impl GridLayout {
    /// The rows of the grid.
    pub open spec fn row_count(self) -> nat {
        match self {
            GridLayout::OneUp => 1,
            GridLayout::TwoUp => 2,
            GridLayout::TwoByTwo => 2,
            GridLayout::TwoByThree => 3,
        }
    }

    /// The columns of the grid.
    pub open spec fn col_count(self) -> nat {
        match self {
            GridLayout::OneUp | GridLayout::TwoUp => 1,
            GridLayout::TwoByTwo | GridLayout::TwoByThree => 2,
        }
    }

    /// The slots of one page.
    pub open spec fn slots(self) -> nat {
        match self {
            GridLayout::OneUp => 1,
            GridLayout::TwoUp => 2,
            GridLayout::TwoByTwo => 4,
            GridLayout::TwoByThree => 6,
        }
    }

    /// The name shown to the user.
    pub open spec fn name(self) -> Seq<char> {
        match self {
            GridLayout::OneUp => "1\u{2011}up"@,
            GridLayout::TwoUp => "2\u{2011}up"@,
            GridLayout::TwoByTwo => "2 \u{00d7} 2"@,
            GridLayout::TwoByThree => "2 \u{00d7} 3"@,
        }
    }

    /// Gives the name shown to the user.
    pub fn label(self) -> (s: &'static str)
        ensures
            s@ == self.name(),
    {
        match self {
            GridLayout::OneUp => "1\u{2011}up",
            GridLayout::TwoUp => "2\u{2011}up",
            GridLayout::TwoByTwo => "2 \u{00d7} 2",
            GridLayout::TwoByThree => "2 \u{00d7} 3",
        }
    }

    pub fn rows(self) -> (n: usize)
        ensures
            n == self.row_count(),
    {
        match self {
            GridLayout::OneUp => 1,
            GridLayout::TwoUp => 2,
            GridLayout::TwoByTwo => 2,
            GridLayout::TwoByThree => 3,
        }
    }

    pub fn cols(self) -> (n: usize)
        ensures
            n == self.col_count(),
    {
        match self {
            GridLayout::OneUp | GridLayout::TwoUp => 1,
            GridLayout::TwoByTwo | GridLayout::TwoByThree => 2,
        }
    }

    /// How many photos one page holds: its rows times its columns.
    pub fn page_size(self) -> (n: usize)
        ensures
            n == self.slots(),
            n == self.row_count() * self.col_count(),
    {
        self.rows() * self.cols()
    }

    /// The short name of the layout.
    pub fn value(self) -> (s: &'static str)
        ensures
            s@ == (match self {
                GridLayout::OneUp => "1up"@,
                GridLayout::TwoUp => "2up"@,
                GridLayout::TwoByTwo => "2x2"@,
                GridLayout::TwoByThree => "2x3"@,
            }),
    {
        match self {
            GridLayout::OneUp => "1up",
            GridLayout::TwoUp => "2up",
            GridLayout::TwoByTwo => "2x2",
            GridLayout::TwoByThree => "2x3",
        }
    }

    /// The style class that tells the preview how many columns to draw.
    pub fn cols_class(self) -> (s: &'static str)
        ensures
            s@ == (if self.col_count() == 1 {
                "cols-1"@
            } else {
                "cols-2"@
            }),
    {
        if self.cols() == 1 {
            "cols-1"
        } else {
            "cols-2"
        }
    }
}

// ---------------------------------------------------------------------------
// Laws
// ---------------------------------------------------------------------------

/// A page holds its rows times its columns; more photos to a page means no fewer rows and no
/// fewer columns; and the name of a layout gives its numbers.
pub proof fn layouts_are_grids(layout: GridLayout, other: GridLayout)
    ensures
        layout.slots() == layout.row_count() * layout.col_count(),
        layout.slots() > 0,
        layout.slots() <= other.slots() ==> layout.row_count() <= other.row_count()
            && layout.col_count() <= other.col_count(),
        layout.slots() == other.slots() ==> layout == other,
        layout.name() == other.name() ==> layout == other,
        layout.col_count() == 1 ==> layout.name() == seq![
            (layout.slots() + 0x30) as char,
            '\u{2011}',
            'u',
            'p',
        ],
        layout.col_count() > 1 ==> layout.name() == seq![
            (layout.col_count() + 0x30) as char,
            ' ',
            '\u{00d7}',
            ' ',
            (layout.row_count() + 0x30) as char,
        ],
{
    reveal_strlit("1\u{2011}up");
    reveal_strlit("2\u{2011}up");
    reveal_strlit("2 \u{00d7} 2");
    reveal_strlit("2 \u{00d7} 3");
    assert(layout.col_count() == 1 ==> layout.name() =~= seq![
        (layout.slots() + 0x30) as char,
        '\u{2011}',
        'u',
        'p',
    ]);
    assert(layout.col_count() > 1 ==> layout.name() =~= seq![
        (layout.col_count() + 0x30) as char,
        ' ',
        '\u{00d7}',
        ' ',
        (layout.row_count() + 0x30) as char,
    ]);
    if layout.name() == other.name() {
        assert(layout.name()[0] == other.name()[0]);
        assert(layout.name()[1] == other.name()[1]);
        if layout.col_count() > 1 && other.col_count() > 1 {
            assert(layout.name()[4] == other.name()[4]);
        }
    }
}

} // verus!
