//! What holds of every comparison, proved from the definitions.

use vstd::prelude::*;

use crate::align::longest;
use crate::category::ProblemCategory;
use crate::problem::Discrepancy;
use crate::problem::FieldDiscrepancy;
use crate::problem::LineRun;
use crate::problem::RowCountDiscrepancy;
use crate::problems::ProblemSet;
use crate::summary::cell_problems;
use crate::summary::failures_at;
use crate::summary::reading_in;
use crate::summary::row_problems;
use crate::summary::row_problems_upto;
use crate::summary::Reading;
use crate::summary::SummaryState;

verus! {

/// Whether every row of `rows` could be read.
pub open spec fn all_read(rows: Seq<Reading>) -> bool {
    forall|i: int| 0 <= i < rows.len() ==> (#[trigger] rows[i]) is Ok
}

/// Whether every row of `rows` above line `line` could be read. Lines count
/// from one.
pub open spec fn read_before(rows: Seq<Reading>, line: nat) -> bool {
    forall|i: int| 0 <= i < rows.len() && i + 1 < line ==> (#[trigger] rows[i]) is Ok
}

/// Whether everything in `problems` was found above line `line`.
pub open spec fn found_before(problems: ProblemSet, line: nat) -> bool {
    &&& forall|i: int|
        0 <= i < problems.lines.len() ==> (#[trigger] problems.lines[i]).line() < line
    &&& problems.extra matches Some(run) ==> run.line < line
    &&& problems.missing matches Some(run) ==> run.line < line
}

/// A row held against itself shows no difference in its first `count`
/// positions.
proof fn lemma_same_row_prefix(line: nat, row: Seq<Seq<char>>, count: nat)
    ensures
        row_problems_upto(line, row, row, count) == Seq::<FieldDiscrepancy>::empty(),
    decreases count,
{
    if count > 0 {
        lemma_same_row_prefix(line, row, (count - 1) as nat);
        assert(cell_problems(line, count - 1, row, row) =~= Seq::empty());
    }
}

/// A row held against itself shows no difference.
pub proof fn lemma_same_row_no_problems(line: nat, row: Seq<Seq<char>>)
    ensures
        row_problems(line, row, row) == Seq::<FieldDiscrepancy>::empty(),
{
    lemma_same_row_prefix(line, row, longest(row.len(), row.len()));
}

/// Every difference found in the first `count` positions of two rows lies on
/// their line, at a column from one to `count`.
pub proof fn lemma_row_problems_on_line(
    line: nat,
    expected: Seq<Seq<char>>,
    actual: Seq<Seq<char>>,
    count: nat,
)
    ensures
        row_problems_upto(line, expected, actual, count).len() <= count,
        forall|i: int|
            0 <= i < row_problems_upto(line, expected, actual, count).len() ==> {
                let found = #[trigger] row_problems_upto(line, expected, actual, count)[i];
                found.line() == line && 1 <= found.column() <= count
            },
    decreases count,
{
    if count > 0 {
        lemma_row_problems_on_line(line, expected, actual, (count - 1) as nat);
    }
}

/// The differences between two rows come from left to right: each lies at a
/// later column than the one before it, so no position is reported twice.
pub proof fn lemma_row_problems_in_column_order(
    line: nat,
    expected: Seq<Seq<char>>,
    actual: Seq<Seq<char>>,
    count: nat,
)
    ensures
        forall|i: int, j: int|
            0 <= i < j < row_problems_upto(line, expected, actual, count).len()
                ==> row_problems_upto(line, expected, actual, count)[i].column()
                < row_problems_upto(line, expected, actual, count)[j].column(),
    decreases count,
{
    if count > 0 {
        let before = row_problems_upto(line, expected, actual, (count - 1) as nat);
        let whole = row_problems_upto(line, expected, actual, count);
        lemma_row_problems_in_column_order(line, expected, actual, (count - 1) as nat);
        lemma_row_problems_on_line(line, expected, actual, (count - 1) as nat);
        assert forall|i: int, j: int| 0 <= i < j < whole.len() implies whole[i].column()
            < whole[j].column() by {
            assert(whole[i] == before[i]);
            if j < before.len() {
                assert(whole[j] == before[j]);
            } else {
                assert(before[i].column() <= count - 1);
                assert(whole[j].column() == count);
            }
        }
    }
}

/// A position of two rows is reported exactly when the rows differ there:
/// what is found in the first `count` positions holds the difference of each
/// position below `count` that has one, and nothing else.
pub proof fn lemma_row_problems_are_the_differences(
    line: nat,
    expected: Seq<Seq<char>>,
    actual: Seq<Seq<char>>,
    count: nat,
)
    ensures
        forall|i: int|
            0 <= i < count && cell_problems(line, i, expected, actual).len() > 0
                ==> row_problems_upto(line, expected, actual, count).contains(
                #[trigger] cell_problems(line, i, expected, actual)[0],
            ),
        forall|k: int|
            0 <= k < row_problems_upto(line, expected, actual, count).len() ==> {
                let found = #[trigger] row_problems_upto(line, expected, actual, count)[k];
                &&& 1 <= found.column() <= count
                &&& cell_problems(line, found.column() - 1, expected, actual) == seq![found]
            },
    decreases count,
{
    if count > 0 {
        let before = row_problems_upto(line, expected, actual, (count - 1) as nat);
        let last = cell_problems(line, count - 1, expected, actual);
        let whole = row_problems_upto(line, expected, actual, count);
        lemma_row_problems_are_the_differences(line, expected, actual, (count - 1) as nat);
        assert forall|i: int|
            0 <= i < count && cell_problems(line, i, expected, actual).len() > 0 implies whole.contains(
            #[trigger] cell_problems(line, i, expected, actual)[0],
        ) by {
            let found = cell_problems(line, i, expected, actual)[0];
            if i < count - 1 {
                assert(before.contains(found));
                let k = choose|k: int| 0 <= k < before.len() && before[k] == found;
                assert(whole[k] == found);
            } else {
                assert(whole[before.len() as int] == found);
            }
        }
        assert forall|k: int| 0 <= k < whole.len() implies {
            let found = #[trigger] whole[k];
            &&& 1 <= found.column() <= count
            &&& cell_problems(line, found.column() - 1, expected, actual) == seq![found]
        } by {
            if k < before.len() {
                assert(whole[k] == before[k]);
            } else {
                assert(whole[k] == last[0]);
                assert(last =~= seq![last[0]]);
            }
        }
    }
}

/// Two rows that differ in one cell alone show one problem: a mismatched
/// cell at that column, with the text of each side.
pub proof fn lemma_single_mismatch(line: nat, row: Seq<Seq<char>>, at: int, other: Seq<char>)
    requires
        0 <= at < row.len(),
        other != row[at],
    ensures
        row_problems(line, row, row.update(at, other)) == seq![
            FieldDiscrepancy::MismatchedCell {
                line,
                column: (at + 1) as nat,
                expected: row[at],
                actual: other,
            },
        ],
{
    lemma_single_mismatch_prefix(line, row, at, other, row.len());
}

/// The state of [`lemma_single_mismatch`] after `count` positions.
proof fn lemma_single_mismatch_prefix(
    line: nat,
    row: Seq<Seq<char>>,
    at: int,
    other: Seq<char>,
    count: nat,
)
    requires
        0 <= at < row.len(),
        other != row[at],
        count <= row.len(),
    ensures
        row_problems_upto(line, row, row.update(at, other), count) == (if count <= at {
            Seq::<FieldDiscrepancy>::empty()
        } else {
            seq![
                FieldDiscrepancy::MismatchedCell {
                    line,
                    column: (at + 1) as nat,
                    expected: row[at],
                    actual: other,
                },
            ]
        }),
    decreases count,
{
    if count > 0 {
        let changed = row.update(at, other);
        lemma_single_mismatch_prefix(line, row, at, other, (count - 1) as nat);
        let before = row_problems_upto(line, row, changed, (count - 1) as nat);
        let last = cell_problems(line, count - 1, row, changed);
        if count - 1 == at {
            assert(before + last =~= last);
        } else {
            assert(last =~= Seq::empty());
            assert(before + last =~= before);
        }
    }
}

/// An actual row that stops short of the expected one shows one missing cell
/// for each position it lacks, from the first column it lacks on, and no
/// other problem.
pub proof fn lemma_short_actual_row(line: nat, row: Seq<Seq<char>>, rest: Seq<Seq<char>>)
    ensures
        row_problems(line, row + rest, row) == Seq::new(
            rest.len(),
            |k: int| FieldDiscrepancy::MissingCell { line, column: (row.len() + k + 1) as nat },
        ),
{
    lemma_short_actual_row_prefix(line, row, rest, row.len() + rest.len());
}

/// The state of [`lemma_short_actual_row`] after `count` positions.
proof fn lemma_short_actual_row_prefix(
    line: nat,
    row: Seq<Seq<char>>,
    rest: Seq<Seq<char>>,
    count: nat,
)
    requires
        count <= row.len() + rest.len(),
    ensures
        row_problems_upto(line, row + rest, row, count) == Seq::new(
            if count <= row.len() {
                0nat
            } else {
                (count - row.len()) as nat
            },
            |k: int| FieldDiscrepancy::MissingCell { line, column: (row.len() + k + 1) as nat },
        ),
    decreases count,
{
    let missing = |k: int| FieldDiscrepancy::MissingCell { line, column: (row.len() + k + 1) as nat };
    if count > 0 {
        let longer = row + rest;
        lemma_short_actual_row_prefix(line, row, rest, (count - 1) as nat);
        let before = row_problems_upto(line, longer, row, (count - 1) as nat);
        let last = cell_problems(line, count - 1, longer, row);
        if count <= row.len() {
            assert(longer[count - 1] == row[count - 1]);
            assert(last =~= Seq::empty());
            assert(before + last =~= Seq::new(0nat, missing));
        } else {
            assert(before + last =~= Seq::new((count - row.len()) as nat, missing));
        }
    } else {
        assert(row_problems_upto(line, row + rest, row, count) =~= Seq::new(0nat, missing));
    }
}

/// An actual row that goes on past the end of the expected one shows one
/// extra cell for each position beyond it, from the first such column on, and
/// no other problem.
pub proof fn lemma_long_actual_row(line: nat, row: Seq<Seq<char>>, rest: Seq<Seq<char>>)
    ensures
        row_problems(line, row, row + rest) == Seq::new(
            rest.len(),
            |k: int| FieldDiscrepancy::ExtraCell { line, column: (row.len() + k + 1) as nat },
        ),
{
    lemma_long_actual_row_prefix(line, row, rest, row.len() + rest.len());
}

/// The state of [`lemma_long_actual_row`] after `count` positions.
proof fn lemma_long_actual_row_prefix(
    line: nat,
    row: Seq<Seq<char>>,
    rest: Seq<Seq<char>>,
    count: nat,
)
    requires
        count <= row.len() + rest.len(),
    ensures
        row_problems_upto(line, row, row + rest, count) == Seq::new(
            if count <= row.len() {
                0nat
            } else {
                (count - row.len()) as nat
            },
            |k: int| FieldDiscrepancy::ExtraCell { line, column: (row.len() + k + 1) as nat },
        ),
    decreases count,
{
    let extra = |k: int| FieldDiscrepancy::ExtraCell { line, column: (row.len() + k + 1) as nat };
    if count > 0 {
        let longer = row + rest;
        lemma_long_actual_row_prefix(line, row, rest, (count - 1) as nat);
        let before = row_problems_upto(line, row, longer, (count - 1) as nat);
        let last = cell_problems(line, count - 1, row, longer);
        if count <= row.len() {
            assert(longer[count - 1] == row[count - 1]);
            assert(last =~= Seq::empty());
            assert(before + last =~= Seq::new(0nat, extra));
        } else {
            assert(before + last =~= Seq::new((count - row.len()) as nat, extra));
        }
    } else {
        assert(row_problems_upto(line, row, row + rest, count) =~= Seq::new(0nat, extra));
    }
}

/// Where the actual file repeats the expected one and then goes on, the
/// comparison finds no cell-level difference and no missing row. The surplus
/// rows, however many, make one problem: a run that begins on the line after
/// the last expected row and counts them all. Without surplus rows nothing is
/// found at all.
pub proof fn lemma_surplus_actual_rows(cap: nat, shared: Seq<Reading>, surplus: Seq<Reading>)
    requires
        all_read(shared),
        all_read(surplus),
    ensures
        SummaryState::fresh(cap).compared(shared, shared + surplus) == (SummaryState {
            problems: ProblemSet {
                extra: if surplus.len() > 0 {
                    Some(LineRun { line: shared.len() + 1, count: surplus.len() })
                } else {
                    None
                },
                ..ProblemSet::empty(cap)
            },
            ..SummaryState::fresh(cap)
        }),
{
    lemma_surplus_actual_steps(cap, shared, surplus, shared.len() + surplus.len());
}

/// The state of [`lemma_surplus_actual_rows`] after `steps` lines.
proof fn lemma_surplus_actual_steps(
    cap: nat,
    shared: Seq<Reading>,
    surplus: Seq<Reading>,
    steps: nat,
)
    requires
        all_read(shared),
        all_read(surplus),
        steps <= shared.len() + surplus.len(),
    ensures
        SummaryState::fresh(cap).after(shared, shared + surplus, steps) == (SummaryState {
            problems: ProblemSet {
                extra: if steps > shared.len() {
                    Some(LineRun { line: shared.len() + 1, count: (steps - shared.len()) as nat })
                } else {
                    None
                },
                ..ProblemSet::empty(cap)
            },
            ..SummaryState::fresh(cap)
        }),
    decreases steps,
{
    if steps > 0 {
        let at = steps - 1;
        lemma_surplus_actual_steps(cap, shared, surplus, at as nat);
        let actual = shared + surplus;
        let before = SummaryState::fresh(cap).after(shared, actual, at as nat);
        assert(actual[at] is Ok) by {
            if at < shared.len() {
                assert(actual[at] == shared[at]);
            } else {
                assert(actual[at] == surplus[at - shared.len()]);
            }
        }
        assert(failures_at(steps, reading_in(shared, at), reading_in(actual, at)) =~= Seq::empty());
        if at < shared.len() {
            lemma_same_row_no_problems(steps, shared[at]->Ok_0);
            assert(before.problems.lines + Seq::<FieldDiscrepancy>::empty()
                =~= before.problems.lines);
        }
    }
}

/// Where the expected file repeats the actual one and then goes on, the
/// comparison finds no cell-level difference and no extra row. The rows that
/// the actual file lacks, however many, make one problem: a run that begins
/// on the line after the last actual row and counts them all.
pub proof fn lemma_surplus_expected_rows(cap: nat, shared: Seq<Reading>, surplus: Seq<Reading>)
    requires
        all_read(shared),
        all_read(surplus),
    ensures
        SummaryState::fresh(cap).compared(shared + surplus, shared) == (SummaryState {
            problems: ProblemSet {
                missing: if surplus.len() > 0 {
                    Some(LineRun { line: shared.len() + 1, count: surplus.len() })
                } else {
                    None
                },
                ..ProblemSet::empty(cap)
            },
            ..SummaryState::fresh(cap)
        }),
{
    lemma_surplus_expected_steps(cap, shared, surplus, shared.len() + surplus.len());
}

/// The state of [`lemma_surplus_expected_rows`] after `steps` lines.
proof fn lemma_surplus_expected_steps(
    cap: nat,
    shared: Seq<Reading>,
    surplus: Seq<Reading>,
    steps: nat,
)
    requires
        all_read(shared),
        all_read(surplus),
        steps <= shared.len() + surplus.len(),
    ensures
        SummaryState::fresh(cap).after(shared + surplus, shared, steps) == (SummaryState {
            problems: ProblemSet {
                missing: if steps > shared.len() {
                    Some(LineRun { line: shared.len() + 1, count: (steps - shared.len()) as nat })
                } else {
                    None
                },
                ..ProblemSet::empty(cap)
            },
            ..SummaryState::fresh(cap)
        }),
    decreases steps,
{
    if steps > 0 {
        let at = steps - 1;
        lemma_surplus_expected_steps(cap, shared, surplus, at as nat);
        let expected = shared + surplus;
        let before = SummaryState::fresh(cap).after(expected, shared, at as nat);
        assert(expected[at] is Ok) by {
            if at < shared.len() {
                assert(expected[at] == shared[at]);
            } else {
                assert(expected[at] == surplus[at - shared.len()]);
            }
        }
        assert(failures_at(steps, reading_in(expected, at), reading_in(shared, at))
            =~= Seq::empty());
        if at < shared.len() {
            lemma_same_row_no_problems(steps, shared[at]->Ok_0);
            assert(before.problems.lines + Seq::<FieldDiscrepancy>::empty()
                =~= before.problems.lines);
        }
    }
}

/// Two files with the same rows, all of which could be read, compare without
/// a problem: the summary counts none, is not cut short, lists no category
/// and shows nothing.
pub proof fn lemma_identical_files(cap: nat, rows: Seq<Reading>, actual_filename: Seq<char>)
    requires
        cap > 0,
        all_read(rows),
    ensures
        SummaryState::fresh(cap).compared(rows, rows) == SummaryState::fresh(cap),
        ({
            let summary = SummaryState::fresh(cap).compared(rows, rows).problems.summary(
                actual_filename,
            );
            &&& summary.num_problems == 0
            &&& !summary.found_max_problems
            &&& summary.problem_categories == Seq::<ProblemCategory>::empty()
            &&& summary.problems == Seq::<Discrepancy>::empty()
        }),
{
    lemma_surplus_actual_rows(cap, rows, Seq::empty());
    assert(rows + Seq::<Reading>::empty() =~= rows);
    let found = ProblemSet::empty(cap);
    assert(found.none_between(0, 5));
    found.lemma_categories_gap(0, 5);
    assert(found.displayed() =~= Seq::empty());
}

/// Rows that the actual file has beyond the end of the expected one are
/// reported as one problem, never one per row: the run is anchored on the
/// first surplus line and counts every surplus row.
pub proof fn lemma_extra_lines_are_one_problem(
    cap: nat,
    expected: Seq<Reading>,
    surplus: Seq<Reading>,
)
    requires
        all_read(expected),
        all_read(surplus),
        surplus.len() > 0,
    ensures
        ({
            let found = SummaryState::fresh(cap).compared(expected, expected + surplus).problems;
            &&& found.extra == Some(LineRun { line: expected.len() + 1, count: surplus.len() })
            &&& found.missing is None
            &&& found.total() == 1
        }),
{
    lemma_surplus_actual_rows(cap, expected, surplus);
}

/// Rows that the expected file has beyond the end of the actual one are
/// reported as one problem, anchored on the first line that the actual file
/// lacks.
pub proof fn lemma_missing_lines_are_one_problem(
    cap: nat,
    actual: Seq<Reading>,
    surplus: Seq<Reading>,
)
    requires
        all_read(actual),
        all_read(surplus),
        surplus.len() > 0,
    ensures
        ({
            let found = SummaryState::fresh(cap).compared(actual + surplus, actual).problems;
            &&& found.missing == Some(LineRun { line: actual.len() + 1, count: surplus.len() })
            &&& found.extra is None
            &&& found.total() == 1
        }),
{
    lemma_surplus_expected_rows(cap, actual, surplus);
}

/// What is found in the first `steps` lines was found on those lines: where
/// everything held before was found above line `bound`, and `steps` lines end
/// above it too, so was everything held afterwards.
pub proof fn lemma_found_on_compared_lines(
    start: SummaryState,
    expected: Seq<Reading>,
    actual: Seq<Reading>,
    steps: nat,
    bound: nat,
)
    requires
        found_before(start.problems, bound),
        steps < bound,
    ensures
        found_before(start.after(expected, actual, steps).problems, bound),
    decreases steps,
{
    if steps > 0 {
        let at = steps - 1;
        lemma_found_on_compared_lines(start, expected, actual, at as nat, bound);
        let before = start.after(expected, actual, at as nat);
        if !before.failed() {
            let after = before.step(steps, reading_in(expected, at), reading_in(actual, at));
            match (reading_in(expected, at), reading_in(actual, at)) {
                (Some(Ok(e)), Some(Ok(a))) => {
                    let found = row_problems(steps, e, a);
                    lemma_row_problems_on_line(steps, e, a, longest(e.len(), a.len()));
                    assert forall|i: int| 0 <= i < after.problems.lines.len() implies (
                    #[trigger] after.problems.lines[i]).line() < bound by {
                        if i >= before.problems.lines.len() {
                            assert(after.problems.lines[i] == found[i - before.problems.lines.len()]);
                        } else {
                            assert(after.problems.lines[i] == before.problems.lines[i]);
                        }
                    }
                },
                _ => {},
            }
        }
    }
}

/// Whether `first` stands before `second` in reading order: on an earlier
/// line, or on the same line at an earlier column.
pub open spec fn reads_before(first: FieldDiscrepancy, second: FieldDiscrepancy) -> bool {
    first.line() < second.line() || (first.line() == second.line() && first.column()
        < second.column())
}

/// Whether the cell-level differences of `problems` stand in reading order.
pub open spec fn in_reading_order(problems: ProblemSet) -> bool {
    forall|i: int, j: int|
        0 <= i < j < problems.lines.len() ==> reads_before(problems.lines[i], problems.lines[j])
}

/// A comparison records the cell-level differences in the order in which the
/// files are read: line by line, and within a line from left to right.
pub proof fn lemma_problems_in_reading_order(
    cap: nat,
    expected: Seq<Reading>,
    actual: Seq<Reading>,
)
    ensures
        in_reading_order(SummaryState::fresh(cap).compared(expected, actual).problems),
{
    lemma_reading_order_after(cap, expected, actual, longest(expected.len(), actual.len()));
}

/// After any number of lines the cell-level differences stand in reading
/// order.
pub proof fn lemma_reading_order_after(
    cap: nat,
    expected: Seq<Reading>,
    actual: Seq<Reading>,
    steps: nat,
)
    ensures
        in_reading_order(SummaryState::fresh(cap).after(expected, actual, steps).problems),
    decreases steps,
{
    let start = SummaryState::fresh(cap);
    if steps > 0 {
        let at = steps - 1;
        lemma_reading_order_after(cap, expected, actual, at as nat);
        lemma_found_on_compared_lines(start, expected, actual, at as nat, steps);
        let before = start.after(expected, actual, at as nat);
        if !before.failed() {
            let after = before.step(steps, reading_in(expected, at), reading_in(actual, at));
            match (reading_in(expected, at), reading_in(actual, at)) {
                (Some(Ok(e)), Some(Ok(a))) => {
                    let found = row_problems(steps, e, a);
                    let width = longest(e.len(), a.len());
                    lemma_row_problems_on_line(steps, e, a, width);
                    lemma_row_problems_in_column_order(steps, e, a, width);
                    assert forall|i: int, j: int|
                        0 <= i < j < after.problems.lines.len() implies reads_before(
                        after.problems.lines[i],
                        after.problems.lines[j],
                    ) by {
                        let held = before.problems.lines.len();
                        if j < held {
                            assert(after.problems.lines[i] == before.problems.lines[i]);
                            assert(after.problems.lines[j] == before.problems.lines[j]);
                        } else if i < held {
                            assert(after.problems.lines[i] == before.problems.lines[i]);
                            assert(after.problems.lines[j] == found[j - held]);
                        } else {
                            assert(after.problems.lines[i] == found[i - held]);
                            assert(after.problems.lines[j] == found[j - held]);
                        }
                    }
                },
                _ => {},
            }
        }
    }
}

/// A row that cannot be read ends the comparison at once. Where every row
/// above line `line` could be read and one at line `line` could not, the
/// comparison ends failed, with the failures of that line added and no
/// others; the problems it holds are those found above that line, however
/// many rows follow.
pub proof fn lemma_hard_stop(
    start: SummaryState,
    expected: Seq<Reading>,
    actual: Seq<Reading>,
    line: nat,
)
    requires
        !start.failed(),
        1 <= line <= longest(expected.len(), actual.len()),
        read_before(expected, line),
        read_before(actual, line),
        failures_at(line, reading_in(expected, line - 1), reading_in(actual, line - 1)).len() > 0,
    ensures
        ({
            let end = start.compared(expected, actual);
            let before = start.after(expected, actual, (line - 1) as nat);
            &&& end.failed()
            &&& end.problems == before.problems
            &&& end.errors == start.errors + failures_at(
                line,
                reading_in(expected, line - 1),
                reading_in(actual, line - 1),
            )
            &&& found_before(start.problems, line) ==> found_before(end.problems, line)
        }),
{
    lemma_read_rows_do_not_fail(start, expected, actual, (line - 1) as nat);
    let stopped = start.after(expected, actual, line);
    assert(stopped.failed());
    start.lemma_failure_is_final(expected, actual, line, longest(expected.len(), actual.len()));
    if found_before(start.problems, line) {
        lemma_found_on_compared_lines(start, expected, actual, (line - 1) as nat, line);
    }
}

/// As long as every row could be read, the comparison has not failed and
/// holds the failures it began with.
pub proof fn lemma_read_rows_do_not_fail(
    start: SummaryState,
    expected: Seq<Reading>,
    actual: Seq<Reading>,
    steps: nat,
)
    requires
        !start.failed(),
        read_before(expected, steps + 1),
        read_before(actual, steps + 1),
    ensures
        start.after(expected, actual, steps).errors == start.errors,
    decreases steps,
{
    if steps > 0 {
        let at = steps - 1;
        lemma_read_rows_do_not_fail(start, expected, actual, at as nat);
        if at < expected.len() {
            assert(expected[at] is Ok);
        }
        if at < actual.len() {
            assert(actual[at] is Ok);
        }
        assert(failures_at(steps, reading_in(expected, at), reading_in(actual, at)) =~= Seq::empty());
    }
}

/// The number of problems never goes down as a comparison goes on.
pub proof fn lemma_total_never_shrinks(
    start: SummaryState,
    expected: Seq<Reading>,
    actual: Seq<Reading>,
    earlier: nat,
    later: nat,
)
    requires
        earlier <= later,
    ensures
        start.after(expected, actual, earlier).problems.total() <= start.after(
            expected,
            actual,
            later,
        ).problems.total(),
    decreases later,
{
    if earlier < later {
        lemma_total_never_shrinks(start, expected, actual, earlier, (later - 1) as nat);
    }
}

/// Recording anything never lowers the number of problems: a cell-level
/// difference adds one, and a surplus row adds one where it opens a run and
/// nothing where it joins one.
pub proof fn lemma_recording_counts(problems: ProblemSet, found: FieldDiscrepancy, line: nat)
    ensures
        problems.with_line_problem(found).total() == problems.total() + 1,
        problems.with_extra_line(line).total() == problems.total() + (if problems.extra is None {
            1nat
        } else {
            0nat
        }),
        problems.with_missing_line(line).total() == problems.total() + (if problems.missing
            is None {
            1nat
        } else {
            0nat
        }),
{
}

/// What is shown: every row-count problem has its place, whatever the cap;
/// where the cap leaves room for them, no more than the cap is shown; and
/// below the cap everything is shown.
pub proof fn lemma_displayed_within_cap(problems: ProblemSet)
    ensures
        problems.displayed().len() == problems.shown_line_problems()
            + problems.row_count_problems(),
        problems.displayed().len() <= problems.total(),
        problems.cap >= problems.row_count_problems() ==> problems.displayed().len()
            <= problems.cap,
        !problems.truncated() ==> problems.displayed().len() == problems.total(),
        problems.displayed().subrange(
            problems.shown_line_problems() as int,
            problems.displayed().len() as int,
        ) == problems.row_count_part(),
{
    let shown = problems.lines.take(problems.shown_line_problems() as int).map_values(
        |d: FieldDiscrepancy| Discrepancy::Line(d),
    );
    assert(problems.displayed().subrange(shown.len() as int, problems.displayed().len() as int)
        =~= problems.row_count_part());
}

/// Whether two problems are of the same kind, whatever lines, columns, counts
/// or texts they carry.
pub open spec fn same_kind(first: Discrepancy, second: Discrepancy) -> bool {
    match (first, second) {
        (
            Discrepancy::Line(FieldDiscrepancy::MismatchedCell { .. }),
            Discrepancy::Line(FieldDiscrepancy::MismatchedCell { .. }),
        ) => true,
        (
            Discrepancy::Line(FieldDiscrepancy::ExtraCell { .. }),
            Discrepancy::Line(FieldDiscrepancy::ExtraCell { .. }),
        ) => true,
        (
            Discrepancy::Line(FieldDiscrepancy::MissingCell { .. }),
            Discrepancy::Line(FieldDiscrepancy::MissingCell { .. }),
        ) => true,
        (
            Discrepancy::File(RowCountDiscrepancy::ExtraLines(_)),
            Discrepancy::File(RowCountDiscrepancy::ExtraLines(_)),
        ) => true,
        (
            Discrepancy::File(RowCountDiscrepancy::MissingLines(_)),
            Discrepancy::File(RowCountDiscrepancy::MissingLines(_)),
        ) => true,
        _ => false,
    }
}

/// A problem has one category, fixed by its kind: two problems fall under the
/// same category exactly when they are of the same kind, and a category is
/// found again from its place in the listing order.
pub proof fn lemma_category_by_kind(first: Discrepancy, second: Discrepancy)
    ensures
        same_kind(first, second) <==> first.category() == second.category(),
        ProblemCategory::at_rank(first.category().rank_of()) == first.category(),
        first.category().rank_of() < 5,
{
}

} // verus!
