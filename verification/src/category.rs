//! The five categories of problem and the display text that goes with each.

use vstd::prelude::*;
use vstd::string::*;

verus! {

/// The five kinds of problem, in the order in which a summary lists them.
#[derive(Debug, Hash, PartialEq, Eq, PartialOrd, Ord, Clone, Copy, Structural)]
pub enum ProblemCategory {
    MismatchedCells,
    ExtraCells,
    MissingCells,
    ExtraLines,
    MissingLines,
}

/// One named piece of display text, as a renderer receives it.
pub type DisplayEntry = (String, String);

/// The texts of a list of display entries.
pub open spec fn entry_texts(entries: Seq<DisplayEntry>) -> Seq<(Seq<char>, Seq<char>)> {
    entries.map_values(|e: DisplayEntry| (e.0@, e.1@))
}

/// The three entries that describe anything shown in a report: what it is
/// called, the colour it is drawn in, and a sentence about it.
pub open spec fn display_entries(label: Seq<char>, color: Seq<char>, description: Seq<char>) -> Seq<
    (Seq<char>, Seq<char>),
> {
    seq![("type"@, label), ("color"@, color), ("description"@, description)]
}

/// Builds the three display entries from their texts.
pub(crate) fn make_entries(label: String, color: String, description: String) -> (entries: Vec<DisplayEntry>)
    ensures
        entry_texts(entries@) == display_entries(label@, color@, description@),
{
    let mut entries: Vec<DisplayEntry> = Vec::new();
    entries.push((String::from_str("type"), label));
    entries.push((String::from_str("color"), color));
    entries.push((String::from_str("description"), description));
    assert(entry_texts(entries@) =~= display_entries(label@, color@, description@));
    entries
}

impl ProblemCategory {
    /// The place of the category in the listing order, counted from zero.
    pub open spec fn rank_of(self) -> nat {
        match self {
            ProblemCategory::MismatchedCells => 0,
            ProblemCategory::ExtraCells => 1,
            ProblemCategory::MissingCells => 2,
            ProblemCategory::ExtraLines => 3,
            ProblemCategory::MissingLines => 4,
        }
    }

    /// The category that stands at place `rank` of the listing order; ranks
    /// past the last place name the last category.
    pub open spec fn at_rank(rank: nat) -> ProblemCategory {
        if rank == 0 {
            ProblemCategory::MismatchedCells
        } else if rank == 1 {
            ProblemCategory::ExtraCells
        } else if rank == 2 {
            ProblemCategory::MissingCells
        } else if rank == 3 {
            ProblemCategory::ExtraLines
        } else {
            ProblemCategory::MissingLines
        }
    }

    /// The name of the category.
    pub open spec fn label_text(self) -> Seq<char> {
        match self {
            ProblemCategory::MismatchedCells => "Mismatched cells"@,
            ProblemCategory::ExtraCells => "Extra cells"@,
            ProblemCategory::MissingCells => "Missing cells"@,
            ProblemCategory::ExtraLines => "Extra lines"@,
            ProblemCategory::MissingLines => "Missing lines"@,
        }
    }

    /// The colour tag of the category.
    pub open spec fn color_text(self) -> Seq<char> {
        match self {
            ProblemCategory::MismatchedCells => "red"@,
            ProblemCategory::ExtraCells => "orange"@,
            ProblemCategory::MissingCells => "yellow"@,
            ProblemCategory::ExtraLines => "green"@,
            ProblemCategory::MissingLines => "blue"@,
        }
    }

    /// The sentence that explains the category.
    pub open spec fn description_text(self) -> Seq<char> {
        match self {
            ProblemCategory::MismatchedCells => "The contents of one or more cells in the actual file did not match up."@,
            ProblemCategory::ExtraCells => "A line (or lines) in the actual file had more cells than expected."@,
            ProblemCategory::MissingCells => "A line (or lines) in the actual file is missing cells."@,
            ProblemCategory::ExtraLines => "The actual file had more lines in it than expected."@,
            ProblemCategory::MissingLines => "The actual file had fewer lines in it than expected."@,
        }
    }

    /// The place of the category in the listing order, counted from zero.
    pub fn rank(&self) -> (rank: u8)
        ensures
            rank == self.rank_of(),
            ProblemCategory::at_rank(rank as nat) == *self,
    {
        match self {
            ProblemCategory::MismatchedCells => 0,
            ProblemCategory::ExtraCells => 1,
            ProblemCategory::MissingCells => 2,
            ProblemCategory::ExtraLines => 3,
            ProblemCategory::MissingLines => 4,
        }
    }

    /// The category at place `rank` of the listing order.
    pub fn from_rank(rank: u8) -> (category: ProblemCategory)
        ensures
            category == ProblemCategory::at_rank(rank as nat),
    {
        if rank == 0 {
            ProblemCategory::MismatchedCells
        } else if rank == 1 {
            ProblemCategory::ExtraCells
        } else if rank == 2 {
            ProblemCategory::MissingCells
        } else if rank == 3 {
            ProblemCategory::ExtraLines
        } else {
            ProblemCategory::MissingLines
        }
    }

    /// The name of the category.
    pub fn label(&self) -> (text: &'static str)
        ensures
            text@ == self.label_text(),
    {
        match self {
            ProblemCategory::MismatchedCells => "Mismatched cells",
            ProblemCategory::ExtraCells => "Extra cells",
            ProblemCategory::MissingCells => "Missing cells",
            ProblemCategory::ExtraLines => "Extra lines",
            ProblemCategory::MissingLines => "Missing lines",
        }
    }

    /// The colour tag of the category.
    pub fn color(&self) -> (text: &'static str)
        ensures
            text@ == self.color_text(),
    {
        match self {
            ProblemCategory::MismatchedCells => "red",
            ProblemCategory::ExtraCells => "orange",
            ProblemCategory::MissingCells => "yellow",
            ProblemCategory::ExtraLines => "green",
            ProblemCategory::MissingLines => "blue",
        }
    }

    /// The sentence that explains the category.
    pub fn description(&self) -> (text: &'static str)
        ensures
            text@ == self.description_text(),
    {
        match self {
            ProblemCategory::MismatchedCells => "The contents of one or more cells in the actual file did not match up.",
            ProblemCategory::ExtraCells => "A line (or lines) in the actual file had more cells than expected.",
            ProblemCategory::MissingCells => "A line (or lines) in the actual file is missing cells.",
            ProblemCategory::ExtraLines => "The actual file had more lines in it than expected.",
            ProblemCategory::MissingLines => "The actual file had fewer lines in it than expected.",
        }
    }

    /// The display entries of the category: its name, colour and sentence,
    /// under the keys `type`, `color` and `description`, in that order.
    pub fn entries(&self) -> (entries: Vec<DisplayEntry>)
        ensures
            entry_texts(entries@) == display_entries(
                self.label_text(),
                self.color_text(),
                self.description_text(),
            ),
    {
        make_entries(
            String::from_str(self.label()),
            String::from_str(self.color()),
            String::from_str(self.description()),
        )
    }
}

} // verus!
