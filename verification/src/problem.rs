//! The problems a comparison can find, and what each one says.

use vstd::prelude::*;
use vstd::string::*;

use crate::category::display_entries;
use crate::category::entry_texts;
use crate::category::make_entries;
use crate::category::DisplayEntry;
use crate::category::ProblemCategory;
use crate::text::decimal;
use crate::text::decimal_string;

verus! {

/// A difference within one pair of aligned rows.
#[derive(Debug)]
pub enum LineProblem {
    /// Both rows have a cell at this column, with different text.
    MismatchedCell { line: usize, column: usize, expected: String, actual: String },
    /// The actual row has a cell at this column and the expected row has none.
    ExtraCell { line: usize, column: usize },
    /// The expected row has a cell at this column and the actual row has none.
    MissingCell { line: usize, column: usize },
}

/// The rows that the actual file has beyond the end of the expected one.
#[derive(Debug)]
pub struct ExtraLinesProblem {
    line: usize,
    num_extra: usize,
}

/// The rows that the expected file has beyond the end of the actual one.
#[derive(Debug)]
pub struct MissingLinesProblem {
    line: usize,
    num_missing: usize,
}

/// A difference in the number of rows.
#[derive(Debug)]
pub enum FileProblem {
    ExtraLines(ExtraLinesProblem),
    MissingLines(MissingLinesProblem),
}

/// Anything a comparison can report.
#[derive(Debug)]
pub enum Problem {
    Line(LineProblem),
    File(FileProblem),
}

/// What a [`LineProblem`] says: a difference at one column of one line.
pub enum FieldDiscrepancy {
    MismatchedCell { line: nat, column: nat, expected: Seq<char>, actual: Seq<char> },
    ExtraCell { line: nat, column: nat },
    MissingCell { line: nat, column: nat },
}

/// A run of surplus rows on one side: the line at which the run was first
/// seen, and how many rows it counts so far.
pub struct LineRun {
    pub line: nat,
    pub count: nat,
}

impl LineRun {
    /// The same run with one more row counted; the line it began at stays.
    pub open spec fn grown(self) -> LineRun {
        LineRun { line: self.line, count: self.count + 1 }
    }
}

/// What a [`FileProblem`] says.
pub enum RowCountDiscrepancy {
    ExtraLines(LineRun),
    MissingLines(LineRun),
}

/// What a [`Problem`] says.
pub enum Discrepancy {
    Line(FieldDiscrepancy),
    File(RowCountDiscrepancy),
}

impl FieldDiscrepancy {
    /// The line on which the difference was found.
    pub open spec fn line(self) -> nat {
        match self {
            FieldDiscrepancy::MismatchedCell { line, .. } => line,
            FieldDiscrepancy::ExtraCell { line, .. } => line,
            FieldDiscrepancy::MissingCell { line, .. } => line,
        }
    }

    /// The column at which the difference was found, counted from one.
    pub open spec fn column(self) -> nat {
        match self {
            FieldDiscrepancy::MismatchedCell { column, .. } => column,
            FieldDiscrepancy::ExtraCell { column, .. } => column,
            FieldDiscrepancy::MissingCell { column, .. } => column,
        }
    }

    /// The category that the difference falls under.
    pub open spec fn category(self) -> ProblemCategory {
        match self {
            FieldDiscrepancy::MismatchedCell { .. } => ProblemCategory::MismatchedCells,
            FieldDiscrepancy::ExtraCell { .. } => ProblemCategory::ExtraCells,
            FieldDiscrepancy::MissingCell { .. } => ProblemCategory::MissingCells,
        }
    }
}

impl RowCountDiscrepancy {
    /// The category that the difference falls under.
    pub open spec fn category(self) -> ProblemCategory {
        match self {
            RowCountDiscrepancy::ExtraLines(_) => ProblemCategory::ExtraLines,
            RowCountDiscrepancy::MissingLines(_) => ProblemCategory::MissingLines,
        }
    }
}

impl Discrepancy {
    /// The category that the problem falls under. It depends on the kind of
    /// problem alone, never on the lines, columns or texts it carries.
    pub open spec fn category(self) -> ProblemCategory {
        match self {
            Discrepancy::Line(d) => d.category(),
            Discrepancy::File(d) => d.category(),
        }
    }

    /// The name under which the problem is shown.
    pub open spec fn label_text(self) -> Seq<char> {
        match self {
            Discrepancy::Line(FieldDiscrepancy::MismatchedCell { .. }) => "Mismatched cell"@,
            Discrepancy::Line(FieldDiscrepancy::ExtraCell { .. }) => "Extra cell"@,
            Discrepancy::Line(FieldDiscrepancy::MissingCell { .. }) => "Missing cell"@,
            Discrepancy::File(RowCountDiscrepancy::ExtraLines(_)) => "Extra line"@,
            Discrepancy::File(RowCountDiscrepancy::MissingLines(_)) => "Missing line"@,
        }
    }

    /// The colour tag of the problem: that of its category.
    pub open spec fn color_text(self) -> Seq<char> {
        self.category().color_text()
    }

    /// The sentence that tells where the problem is and what was found.
    pub open spec fn description_text(self) -> Seq<char> {
        match self {
            Discrepancy::Line(FieldDiscrepancy::MismatchedCell { line, column, expected, actual }) => {
                "The cell at line "@ + decimal(line) + ", column "@ + decimal(column) + " was "@
                    + actual + ", but the expected value was "@ + expected + "."@
            },
            Discrepancy::Line(FieldDiscrepancy::ExtraCell { line, column }) => {
                "The cell at line "@ + decimal(line) + ", column "@ + decimal(column)
                    + " is not present in the expected file."@
            },
            Discrepancy::Line(FieldDiscrepancy::MissingCell { line, column }) => {
                "A cell is missing at line "@ + decimal(line) + ", column "@ + decimal(column)
                    + "."@
            },
            Discrepancy::File(RowCountDiscrepancy::ExtraLines(run)) => {
                "There were "@ + decimal(run.count) + " extra lines, starting with line "@
                    + decimal(run.line) + "."@
            },
            Discrepancy::File(RowCountDiscrepancy::MissingLines(run)) => {
                "There were "@ + decimal(run.count) + " lines missing, ending at line "@ + decimal(
                    run.line,
                ) + "."@
            },
        }
    }
}

impl View for LineProblem {
    type V = FieldDiscrepancy;

    open spec fn view(&self) -> FieldDiscrepancy {
        match *self {
            LineProblem::MismatchedCell { line, column, expected, actual } => {
                FieldDiscrepancy::MismatchedCell {
                    line: line as nat,
                    column: column as nat,
                    expected: expected@,
                    actual: actual@,
                }
            },
            LineProblem::ExtraCell { line, column } => FieldDiscrepancy::ExtraCell {
                line: line as nat,
                column: column as nat,
            },
            LineProblem::MissingCell { line, column } => FieldDiscrepancy::MissingCell {
                line: line as nat,
                column: column as nat,
            },
        }
    }
}

impl View for ExtraLinesProblem {
    type V = LineRun;

    closed spec fn view(&self) -> LineRun {
        LineRun { line: self.line as nat, count: self.num_extra as nat }
    }
}

impl View for MissingLinesProblem {
    type V = LineRun;

    closed spec fn view(&self) -> LineRun {
        LineRun { line: self.line as nat, count: self.num_missing as nat }
    }
}

impl View for FileProblem {
    type V = RowCountDiscrepancy;

    open spec fn view(&self) -> RowCountDiscrepancy {
        match *self {
            FileProblem::ExtraLines(p) => RowCountDiscrepancy::ExtraLines(p@),
            FileProblem::MissingLines(p) => RowCountDiscrepancy::MissingLines(p@),
        }
    }
}

impl View for Problem {
    type V = Discrepancy;

    open spec fn view(&self) -> Discrepancy {
        match *self {
            Problem::Line(p) => Discrepancy::Line(p@),
            Problem::File(p) => Discrepancy::File(p@),
        }
    }
}

impl Clone for LineProblem {
    fn clone(&self) -> (copy: LineProblem)
        ensures
            copy == *self,
    {
        match self {
            LineProblem::MismatchedCell { line, column, expected, actual } => {
                LineProblem::MismatchedCell {
                    line: *line,
                    column: *column,
                    expected: expected.clone(),
                    actual: actual.clone(),
                }
            },
            LineProblem::ExtraCell { line, column } => LineProblem::ExtraCell {
                line: *line,
                column: *column,
            },
            LineProblem::MissingCell { line, column } => LineProblem::MissingCell {
                line: *line,
                column: *column,
            },
        }
    }
}

impl Clone for ExtraLinesProblem {
    fn clone(&self) -> (copy: ExtraLinesProblem)
        ensures
            copy == *self,
    {
        ExtraLinesProblem { line: self.line, num_extra: self.num_extra }
    }
}

impl Clone for MissingLinesProblem {
    fn clone(&self) -> (copy: MissingLinesProblem)
        ensures
            copy == *self,
    {
        MissingLinesProblem { line: self.line, num_missing: self.num_missing }
    }
}

impl ExtraLinesProblem {
    /// A run of one surplus row, first seen at `line`.
    pub(crate) fn first(line: usize) -> (run: ExtraLinesProblem)
        ensures
            run@ == (LineRun { line: line as nat, count: 1 }),
    {
        ExtraLinesProblem { line, num_extra: 1 }
    }

    /// The same run with one more row counted.
    pub(crate) fn grown(&self) -> (run: ExtraLinesProblem)
        requires
            self@.count < usize::MAX,
        ensures
            run@ == self@.grown(),
    {
        ExtraLinesProblem { line: self.line, num_extra: self.num_extra + 1 }
    }

    /// The line at which the surplus rows began.
    pub fn line(&self) -> (line: usize)
        ensures
            line == self@.line,
    {
        self.line
    }

    /// How many surplus rows were counted.
    pub fn num_extra(&self) -> (count: usize)
        ensures
            count == self@.count,
    {
        self.num_extra
    }
}

impl MissingLinesProblem {
    /// A run of one absent row, first seen at `line`.
    pub(crate) fn first(line: usize) -> (run: MissingLinesProblem)
        ensures
            run@ == (LineRun { line: line as nat, count: 1 }),
    {
        MissingLinesProblem { line, num_missing: 1 }
    }

    /// The same run with one more row counted.
    pub(crate) fn grown(&self) -> (run: MissingLinesProblem)
        requires
            self@.count < usize::MAX,
        ensures
            run@ == self@.grown(),
    {
        MissingLinesProblem { line: self.line, num_missing: self.num_missing + 1 }
    }

    /// The line at which the absent rows began.
    pub fn line(&self) -> (line: usize)
        ensures
            line == self@.line,
    {
        self.line
    }

    /// How many absent rows were counted.
    pub fn num_missing(&self) -> (count: usize)
        ensures
            count == self@.count,
    {
        self.num_missing
    }
}

impl LineProblem {
    /// The category that the difference falls under.
    pub fn category(&self) -> (category: ProblemCategory)
        ensures
            category == self@.category(),
    {
        match self {
            LineProblem::MismatchedCell { .. } => ProblemCategory::MismatchedCells,
            LineProblem::ExtraCell { .. } => ProblemCategory::ExtraCells,
            LineProblem::MissingCell { .. } => ProblemCategory::MissingCells,
        }
    }
}

impl Problem {
    /// The category that the problem falls under.
    pub fn category(&self) -> (category: ProblemCategory)
        ensures
            category == self@.category(),
    {
        match self {
            Problem::Line(line_problem) => line_problem.category(),
            Problem::File(FileProblem::ExtraLines(_)) => ProblemCategory::ExtraLines,
            Problem::File(FileProblem::MissingLines(_)) => ProblemCategory::MissingLines,
        }
    }
}

impl Problem {
    /// The name under which the problem is shown.
    pub fn label(&self) -> (text: &'static str)
        ensures
            text@ == self@.label_text(),
    {
        match self {
            Problem::Line(LineProblem::MismatchedCell { .. }) => "Mismatched cell",
            Problem::Line(LineProblem::ExtraCell { .. }) => "Extra cell",
            Problem::Line(LineProblem::MissingCell { .. }) => "Missing cell",
            Problem::File(FileProblem::ExtraLines(_)) => "Extra line",
            Problem::File(FileProblem::MissingLines(_)) => "Missing line",
        }
    }

    /// The colour tag of the problem: that of its category.
    pub fn color(&self) -> (text: &'static str)
        ensures
            text@ == self@.color_text(),
    {
        self.category().color()
    }

    /// The sentence that tells where the problem is and what was found.
    pub fn description(&self) -> (text: String)
        ensures
            text@ == self@.description_text(),
    {
        match self {
            Problem::Line(LineProblem::MismatchedCell { line, column, expected, actual }) => {
                let mut text = String::from_str("The cell at line ");
                text.append(decimal_string(*line).as_str());
                text.append(", column ");
                text.append(decimal_string(*column).as_str());
                text.append(" was ");
                text.append(actual.as_str());
                text.append(", but the expected value was ");
                text.append(expected.as_str());
                text.append(".");
                text
            },
            Problem::Line(LineProblem::ExtraCell { line, column }) => {
                let mut text = String::from_str("The cell at line ");
                text.append(decimal_string(*line).as_str());
                text.append(", column ");
                text.append(decimal_string(*column).as_str());
                text.append(" is not present in the expected file.");
                text
            },
            Problem::Line(LineProblem::MissingCell { line, column }) => {
                let mut text = String::from_str("A cell is missing at line ");
                text.append(decimal_string(*line).as_str());
                text.append(", column ");
                text.append(decimal_string(*column).as_str());
                text.append(".");
                text
            },
            Problem::File(FileProblem::ExtraLines(run)) => {
                let mut text = String::from_str("There were ");
                text.append(decimal_string(run.num_extra).as_str());
                text.append(" extra lines, starting with line ");
                text.append(decimal_string(run.line).as_str());
                text.append(".");
                text
            },
            Problem::File(FileProblem::MissingLines(run)) => {
                let mut text = String::from_str("There were ");
                text.append(decimal_string(run.num_missing).as_str());
                text.append(" lines missing, ending at line ");
                text.append(decimal_string(run.line).as_str());
                text.append(".");
                text
            },
        }
    }

    /// The display entries of the problem: its name, colour and sentence,
    /// under the keys `type`, `color` and `description`, in that order.
    pub fn entries(&self) -> (entries: Vec<DisplayEntry>)
        ensures
            entry_texts(entries@) == display_entries(
                self@.label_text(),
                self@.color_text(),
                self@.description_text(),
            ),
    {
        make_entries(
            String::from_str(self.label()),
            String::from_str(self.color()),
            self.description(),
        )
    }
}

} // verus!
