//! The comparison itself: two rows held against each other cell by cell, and
//! two files held against each other row by row.

use vstd::prelude::*;
use vstd::string::*;

use crate::align::longest;
use crate::align::zip_longest;
use crate::problem::FieldDiscrepancy;
use crate::problem::LineProblem;
use crate::problems::DisplayProblems;
use crate::problems::ProblemSet;
use crate::problems::Problems;

verus! {

/// The cap on shown problems where none is asked for.
pub const DEFAULT_MAX_PROBLEMS: usize = 50;

/// One row as it was read: its cells, or the reason it could not be read.
pub type RowRead = Result<Vec<String>, String>;

/// What a row that was read holds: the text of its cells, or the text of the
/// reason it could not be read.
pub type Reading = Result<Seq<Seq<char>>, Seq<char>>;

/// The text of each cell of a row.
pub open spec fn row_text(row: Seq<String>) -> Seq<Seq<char>> {
    row.map_values(|cell: String| cell@)
}

/// What a row that was read holds.
pub open spec fn reading_of(row: RowRead) -> Reading {
    match row {
        Ok(cells) => Ok(row_text(cells@)),
        Err(detail) => Err(detail@),
    }
}

/// What each of a list of rows holds.
pub open spec fn readings_of(rows: Seq<RowRead>) -> Seq<Reading> {
    rows.map_values(|row: RowRead| reading_of(row))
}

/// What the row handed over at one step holds, if one was handed over.
pub open spec fn reading_at(row: Option<&RowRead>) -> Option<Reading> {
    match row {
        Some(row) => Some(reading_of(*row)),
        None => None,
    }
}

/// The reading at position `i` of `rows`, if the rows reach that far.
pub open spec fn reading_in(rows: Seq<Reading>, i: int) -> Option<Reading> {
    if 0 <= i < rows.len() {
        Some(rows[i])
    } else {
        None
    }
}

/// What holding position `i` of two rows against each other yields: nothing
/// where both have the same text or neither has a cell, else the one
/// difference found there. Positions count from zero, columns from one.
pub open spec fn cell_problems(
    line: nat,
    i: int,
    expected: Seq<Seq<char>>,
    actual: Seq<Seq<char>>,
) -> Seq<FieldDiscrepancy> {
    let column = (i + 1) as nat;
    if 0 <= i < expected.len() && i < actual.len() {
        if expected[i] != actual[i] {
            seq![
                FieldDiscrepancy::MismatchedCell {
                    line,
                    column,
                    expected: expected[i],
                    actual: actual[i],
                },
            ]
        } else {
            Seq::empty()
        }
    } else if 0 <= i < expected.len() {
        seq![FieldDiscrepancy::MissingCell { line, column }]
    } else if 0 <= i < actual.len() {
        seq![FieldDiscrepancy::ExtraCell { line, column }]
    } else {
        Seq::empty()
    }
}

/// The differences found in the first `count` positions of two rows, from
/// left to right.
pub open spec fn row_problems_upto(
    line: nat,
    expected: Seq<Seq<char>>,
    actual: Seq<Seq<char>>,
    count: nat,
) -> Seq<FieldDiscrepancy>
    decreases count,
{
    if count == 0 {
        Seq::empty()
    } else {
        row_problems_upto(line, expected, actual, (count - 1) as nat) + cell_problems(
            line,
            count - 1,
            expected,
            actual,
        )
    }
}

/// The differences between two rows of line `line`, from left to right, over
/// every position that either row has.
pub open spec fn row_problems(line: nat, expected: Seq<Seq<char>>, actual: Seq<Seq<char>>) -> Seq<
    FieldDiscrepancy,
> {
    row_problems_upto(line, expected, actual, longest(expected.len(), actual.len()))
}

/// The file on one side of a comparison.
#[derive(Debug, PartialEq, Eq, Clone, Copy, Structural)]
pub enum Side {
    Expected,
    Actual,
}

/// A row that could not be read: on which side, at which line, and why.
#[derive(Debug)]
pub struct ReadFailure {
    side: Side,
    line: usize,
    detail: String,
}

/// What a [`ReadFailure`] says.
pub struct Failure {
    pub side: Side,
    pub line: nat,
    pub detail: Seq<char>,
}

impl View for ReadFailure {
    type V = Failure;

    closed spec fn view(&self) -> Failure {
        Failure { side: self.side, line: self.line as nat, detail: self.detail@ }
    }
}

impl ReadFailure {
    /// The side whose row could not be read.
    pub fn side(&self) -> (side: Side)
        ensures
            side == self@.side,
    {
        self.side
    }

    /// The line of the row that could not be read.
    pub fn line(&self) -> (line: usize)
        ensures
            line == self@.line,
    {
        self.line
    }

    /// Why the row could not be read.
    pub fn detail(&self) -> (detail: &str)
        ensures
            detail@ == self@.detail,
    {
        self.detail.as_str()
    }
}

/// What each of a list of read failures says.
pub open spec fn failure_views(failures: Seq<ReadFailure>) -> Seq<Failure> {
    failures.map_values(|f: ReadFailure| f@)
}

/// The read failures of one step: that of the expected side, if its row could
/// not be read, then that of the actual side.
pub open spec fn failures_at(line: nat, expected: Option<Reading>, actual: Option<Reading>) -> Seq<
    Failure,
> {
    (match expected {
        Some(Err(detail)) => seq![Failure { side: Side::Expected, line, detail }],
        _ => Seq::empty(),
    }) + (match actual {
        Some(Err(detail)) => seq![Failure { side: Side::Actual, line, detail }],
        _ => Seq::empty(),
    })
}

/// The collection after one step in which every row handed over could be
/// read: two rows are held against each other, a row on one side alone counts
/// as a surplus row of that side.
pub open spec fn found_at(
    problems: ProblemSet,
    line: nat,
    expected: Option<Reading>,
    actual: Option<Reading>,
) -> ProblemSet {
    match (expected, actual) {
        (Some(Ok(e)), Some(Ok(a))) => problems.with_line_problems(row_problems(line, e, a)),
        (Some(Ok(_)), None) => problems.with_missing_line(line),
        (None, Some(Ok(_))) => problems.with_extra_line(line),
        _ => problems,
    }
}

/// What a [`Summary`] holds: the problems found, the read failures met, and
/// the cap it was made with.
pub struct SummaryState {
    pub problems: ProblemSet,
    pub errors: Seq<Failure>,
    pub max_problems: nat,
}

impl SummaryState {
    /// The state before anything was compared.
    pub open spec fn fresh(cap: nat) -> SummaryState {
        SummaryState { problems: ProblemSet::empty(cap), errors: Seq::empty(), max_problems: cap }
    }

    /// The collection of problems is well formed.
    pub open spec fn wf(self) -> bool {
        self.problems.wf()
    }

    /// Whether a row could not be read, which ends the comparison.
    pub open spec fn failed(self) -> bool {
        self.errors.len() > 0
    }

    /// The state after the step of line `line`. A row that could not be read,
    /// on either side, is recorded as a failure and nothing else of the step
    /// is; else what the step found is recorded.
    pub open spec fn step(self, line: nat, expected: Option<Reading>, actual: Option<Reading>)
        -> SummaryState {
        let failures = failures_at(line, expected, actual);
        if failures.len() > 0 {
            SummaryState { errors: self.errors + failures, ..self }
        } else {
            SummaryState { problems: found_at(self.problems, line, expected, actual), ..self }
        }
    }

    /// The state after the first `steps` lines of the two files, or after as
    /// many of them as were compared before a row could not be read. Lines
    /// count from one.
    pub open spec fn after(self, expected: Seq<Reading>, actual: Seq<Reading>, steps: nat)
        -> SummaryState
        decreases steps,
    {
        if steps == 0 {
            self
        } else {
            let before = self.after(expected, actual, (steps - 1) as nat);
            if before.failed() {
                before
            } else {
                before.step(steps, reading_in(expected, steps - 1), reading_in(actual, steps - 1))
            }
        }
    }

    /// The state after the comparison of two whole files.
    pub open spec fn compared(self, expected: Seq<Reading>, actual: Seq<Reading>) -> SummaryState {
        self.after(expected, actual, longest(expected.len(), actual.len()))
    }
}

/// One comparison in progress: the problems found so far and the rows that
/// could not be read.
#[derive(Debug)]
pub struct Summary {
    problems: Problems,
    errors: Vec<ReadFailure>,
    max_problems: usize,
}

impl View for Summary {
    type V = SummaryState;

    closed spec fn view(&self) -> SummaryState {
        SummaryState {
            problems: self.problems@,
            errors: failure_views(self.errors@),
            max_problems: self.max_problems as nat,
        }
    }
}

impl Summary {
    /// A comparison that has not begun, with the given cap on shown problems
    /// or, without one, the default.
    pub fn new(max_problems: Option<usize>) -> (summary: Summary)
        requires
            max_problems matches Some(cap) ==> cap > 0,
        ensures
            summary@ == SummaryState::fresh(
                match max_problems {
                    Some(cap) => cap as nat,
                    None => DEFAULT_MAX_PROBLEMS as nat,
                },
            ),
            summary@.wf(),
    {
        let cap = match max_problems {
            Some(cap) => cap,
            None => DEFAULT_MAX_PROBLEMS,
        };
        let summary = Summary { problems: Problems::new(cap), errors: Vec::new(), max_problems: cap };
        assert(summary@.errors =~= Seq::empty());
        summary
    }

    /// The problems found so far.
    pub fn problems(&self) -> (problems: &Problems)
        ensures
            problems@ == self@.problems,
    {
        &self.problems
    }

    /// The rows that could not be read.
    pub fn errors(&self) -> (errors: &Vec<ReadFailure>)
        ensures
            failure_views(errors@) == self@.errors,
    {
        &self.errors
    }

    /// The cap on shown problems that the comparison was made with.
    pub fn max_problems(&self) -> (cap: usize)
        ensures
            cap == self@.max_problems,
    {
        self.max_problems
    }

    /// Whether a row could not be read, which ends the comparison.
    pub fn failed(&self) -> (failed: bool)
        ensures
            failed == self@.failed(),
    {
        self.errors.len() > 0
    }

    /// Holds the two rows of line `line_number` against each other, cell by
    /// cell, and records each difference.
    pub fn compare_line(
        &mut self,
        line_number: usize,
        expected_line: &Vec<String>,
        actual_line: &Vec<String>,
    )
        requires
            old(self)@.wf(),
        ensures
            final(self)@ == (SummaryState {
                problems: old(self)@.problems.with_line_problems(
                    row_problems(
                        line_number as nat,
                        row_text(expected_line@),
                        row_text(actual_line@),
                    ),
                ),
                ..old(self)@
            }),
            final(self)@.wf(),
    {
        let ghost line = line_number as nat;
        let ghost expected = row_text(expected_line@);
        let ghost actual = row_text(actual_line@);
        let ghost start = self@.problems;
        let cells = zip_longest(expected_line, actual_line);
        let mut i: usize = 0;
        assert(start.with_line_problems(row_problems_upto(line, expected, actual, 0)) =~= start);
        while i < cells.len()
            invariant
                i <= cells.len(),
                cells@.len() == longest(expected_line@.len(), actual_line@.len()),
                forall|k: int|
                    0 <= k < cells@.len() ==> (#[trigger] cells@[k]).0 == (if k
                        < expected_line@.len() {
                        Some(&expected_line@[k])
                    } else {
                        None::<&String>
                    }),
                forall|k: int|
                    0 <= k < cells@.len() ==> (#[trigger] cells@[k]).1 == (if k
                        < actual_line@.len() {
                        Some(&actual_line@[k])
                    } else {
                        None::<&String>
                    }),
                line == line_number as nat,
                expected == row_text(expected_line@),
                actual == row_text(actual_line@),
                self@.wf(),
                self@ == (SummaryState {
                    problems: start.with_line_problems(
                        row_problems_upto(line, expected, actual, i as nat),
                    ),
                    ..old(self)@
                }),
            decreases cells.len() - i,
        {
            let column_number = i + 1;
            let ghost before = self@.problems;
            let ghost found = cell_problems(line, i as int, expected, actual);
            match cells[i] {
                (Some(expected_cell), Some(actual_cell)) => {
                    if !(*expected_cell == *actual_cell) {
                        self.problems.insert_line_problem(
                            LineProblem::MismatchedCell {
                                line: line_number,
                                column: column_number,
                                expected: expected_cell.clone(),
                                actual: actual_cell.clone(),
                            },
                        );
                    }
                },
                (Some(_), None) => {
                    self.problems.insert_line_problem(
                        LineProblem::MissingCell { line: line_number, column: column_number },
                    );
                },
                (None, Some(_)) => {
                    self.problems.insert_line_problem(
                        LineProblem::ExtraCell { line: line_number, column: column_number },
                    );
                },
                (None, None) => {},
            }
            proof {
                assert(self@.problems == before.with_line_problems(found)) by {
                    assert(before.with_line_problems(found).lines =~= self@.problems.lines);
                }
                assert(start.with_line_problems(
                    row_problems_upto(line, expected, actual, (i + 1) as nat),
                ).lines =~= before.lines + found);
            }
            i += 1;
        }
    }
}

impl SummaryState {
    /// Once a row could not be read, further lines change nothing.
    pub proof fn lemma_failure_is_final(
        self,
        expected: Seq<Reading>,
        actual: Seq<Reading>,
        stopped: nat,
        steps: nat,
    )
        requires
            stopped <= steps,
            self.after(expected, actual, stopped).failed(),
        ensures
            self.after(expected, actual, steps) == self.after(expected, actual, stopped),
        decreases steps,
    {
        if stopped < steps {
            self.lemma_failure_is_final(expected, actual, stopped, (steps - 1) as nat);
        }
    }
}

impl Summary {
    /// Takes one step of a comparison: the rows that the two files have at
    /// line `line_number`, `None` for a file that has ended. Returns whether
    /// the comparison goes on, which it does until a row could not be read.
    pub fn compare_step(
        &mut self,
        line_number: usize,
        expected: Option<&RowRead>,
        actual: Option<&RowRead>,
    ) -> (more: bool)
        requires
            old(self)@.wf(),
            old(self)@.problems.room_for(1),
        ensures
            final(self)@ == old(self)@.step(
                line_number as nat,
                reading_at(expected),
                reading_at(actual),
            ),
            final(self)@.wf(),
            more == !final(self)@.failed(),
    {
        let ghost errors = self@.errors;
        let ghost failures = failures_at(
            line_number as nat,
            reading_at(expected),
            reading_at(actual),
        );
        match (expected, actual) {
            (Some(Ok(expected_line)), Some(Ok(actual_line))) => {
                self.compare_line(line_number, expected_line, actual_line);
            },
            (Some(Err(expected_error)), Some(Err(actual_error))) => {
                self.errors.push(
                    ReadFailure {
                        side: Side::Expected,
                        line: line_number,
                        detail: expected_error.clone(),
                    },
                );
                self.errors.push(
                    ReadFailure {
                        side: Side::Actual,
                        line: line_number,
                        detail: actual_error.clone(),
                    },
                );
            },
            (Some(Err(error)), _) => {
                self.errors.push(
                    ReadFailure { side: Side::Expected, line: line_number, detail: error.clone() },
                );
            },
            (_, Some(Err(error))) => {
                self.errors.push(
                    ReadFailure { side: Side::Actual, line: line_number, detail: error.clone() },
                );
            },
            (Some(Ok(_)), None) => {
                self.problems.insert_missing_lines_problem(line_number);
            },
            (None, Some(Ok(_))) => {
                self.problems.insert_extra_lines_problem(line_number);
            },
            (None, None) => {},
        }
        assert(self@.errors =~= if failures.len() > 0 {
            errors + failures
        } else {
            errors
        });
        self.errors.len() == 0
    }

    /// Compares two files, given as the rows read from each, line by line
    /// until both have ended or a row could not be read.
    pub fn compare_lines(&mut self, expected: &Vec<RowRead>, actual: &Vec<RowRead>)
        requires
            old(self)@.wf(),
            old(self)@.problems.room_for(longest(expected@.len(), actual@.len())),
        ensures
            final(self)@ == old(self)@.compared(readings_of(expected@), readings_of(actual@)),
            final(self)@.wf(),
    {
        let ghost start = self@;
        let ghost expected_rows = readings_of(expected@);
        let ghost actual_rows = readings_of(actual@);
        let lines = zip_longest(expected, actual);
        let mut i: usize = 0;
        while i < lines.len() && self.errors.len() == 0
            invariant
                i <= lines.len(),
                lines@.len() == longest(expected@.len(), actual@.len()),
                forall|k: int|
                    0 <= k < lines@.len() ==> (#[trigger] lines@[k]).0 == (if k < expected@.len() {
                        Some(&expected@[k])
                    } else {
                        None::<&RowRead>
                    }),
                forall|k: int|
                    0 <= k < lines@.len() ==> (#[trigger] lines@[k]).1 == (if k < actual@.len() {
                        Some(&actual@[k])
                    } else {
                        None::<&RowRead>
                    }),
                expected_rows == readings_of(expected@),
                actual_rows == readings_of(actual@),
                self@ == start.after(expected_rows, actual_rows, i as nat),
                self@.wf(),
                self@.problems.room_for((lines@.len() - i) as nat),
            decreases lines.len() - i,
        {
            let line_number = i + 1;
            let line = lines[i];
            assert(reading_at(line.0) == reading_in(expected_rows, i as int));
            assert(reading_at(line.1) == reading_in(actual_rows, i as int));
            self.compare_step(line_number, line.0, line.1);
            i += 1;
        }
        proof {
            if i < lines@.len() {
                start.lemma_failure_is_final(
                    expected_rows,
                    actual_rows,
                    i as nat,
                    lines@.len() as nat,
                );
            }
        }
    }

    /// Ends the comparison: the summary for the file named `actual_filename`
    /// where every row could be read, else the rows that could not.
    pub fn finish(self, actual_filename: &str) -> (outcome: Result<DisplayProblems, Vec<ReadFailure>>)
        requires
            self@.problems.total() <= usize::MAX,
        ensures
            !self@.failed() ==> outcome is Ok && outcome.unwrap()@ == self@.problems.summary(
                actual_filename@,
            ),
            self@.failed() ==> outcome is Err && failure_views(outcome.unwrap_err()@)
                == self@.errors,
    {
        if self.errors.len() == 0 {
            Ok(self.problems.display_data(actual_filename))
        } else {
            Err(self.errors)
        }
    }
}

} // verus!
