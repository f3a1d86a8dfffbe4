use richdiff::problem::FileProblem;
use richdiff::problem::LineProblem;
use richdiff::problem::Problem;
use richdiff::summary::ReadFailure;
use richdiff::summary::RowRead;
use richdiff::summary::Side;
use richdiff::summary::Summary;
use richdiff::summary::DEFAULT_MAX_PROBLEMS;

fn row(cells: &[&str]) -> Vec<String> {
    cells.iter().map(|cell| cell.to_string()).collect()
}

fn read(cells: &[&str]) -> RowRead {
    Ok(row(cells))
}

fn unreadable(detail: &str) -> RowRead {
    Err(detail.to_string())
}

fn shown(summary: &Summary) -> Vec<Problem> {
    let mut shown = summary.problems().displayable_problems();
    let mut problems = vec![];
    while let Some(problem) = shown.next() {
        problems.push(problem);
    }
    problems
}

fn failures(summary: Summary) -> Vec<ReadFailure> {
    match summary.finish("actual.csv") {
        Ok(_) => panic!("the comparison should have failed"),
        Err(failures) => failures,
    }
}

#[test]
fn default_cap_is_fifty() {
    assert_eq!(DEFAULT_MAX_PROBLEMS, 50);
    assert_eq!(Summary::new(None).max_problems(), 50);
    assert_eq!(Summary::new(Some(7)).max_problems(), 7);
    assert_eq!(Summary::new(Some(7)).problems().max_problems_to_display(), 7);
}

#[test]
fn identical_rows_show_no_problem() {
    let mut summary = Summary::new(None);
    summary.compare_line(1, &row(&["a", "b", "c"]), &row(&["a", "b", "c"]));
    assert_eq!(summary.problems().len(), 0);
    assert!(shown(&summary).is_empty());
}

#[test]
fn empty_rows_show_no_problem() {
    let mut summary = Summary::new(None);
    summary.compare_line(1, &row(&[]), &row(&[]));
    assert_eq!(summary.problems().len(), 0);
}

#[test]
fn single_mismatch() {
    let mut summary = Summary::new(None);
    summary.compare_line(1, &row(&["a", "b", "c"]), &row(&["a", "X", "c"]));
    let problems = shown(&summary);
    assert_eq!(problems.len(), 1);
    assert_eq!(summary.problems().len(), 1);
    match &problems[0] {
        Problem::Line(LineProblem::MismatchedCell { line, column, expected, actual }) => {
            assert_eq!(*line, 1);
            assert_eq!(*column, 2);
            assert_eq!(expected, "b");
            assert_eq!(actual, "X");
        }
        other => panic!("unexpected problem {:?}", other),
    }
}

#[test]
fn cells_are_compared_exactly() {
    let mut summary = Summary::new(None);
    summary.compare_line(3, &row(&["a", "b "]), &row(&["A", "b"]));
    let problems = shown(&summary);
    assert_eq!(problems.len(), 2);
    assert!(matches!(
        &problems[0],
        Problem::Line(LineProblem::MismatchedCell { line: 3, column: 1, expected, actual })
            if expected == "a" && actual == "A"
    ));
    assert!(matches!(
        &problems[1],
        Problem::Line(LineProblem::MismatchedCell { line: 3, column: 2, expected, actual })
            if expected == "b " && actual == "b"
    ));
}

#[test]
fn ragged_short_actual_row() {
    let mut summary = Summary::new(None);
    summary.compare_line(1, &row(&["a", "b", "c"]), &row(&["a", "b"]));
    let problems = shown(&summary);
    assert_eq!(problems.len(), 1);
    assert!(matches!(
        &problems[0],
        Problem::Line(LineProblem::MissingCell { line: 1, column: 3 })
    ));
}

#[test]
fn ragged_long_actual_row() {
    let mut summary = Summary::new(None);
    summary.compare_line(1, &row(&["a", "b"]), &row(&["a", "b", "c"]));
    let problems = shown(&summary);
    assert_eq!(problems.len(), 1);
    assert!(matches!(
        &problems[0],
        Problem::Line(LineProblem::ExtraCell { line: 1, column: 3 })
    ));
}

#[test]
fn columns_advance_once_per_position() {
    let mut summary = Summary::new(None);
    summary.compare_line(9, &row(&["a", "b"]), &row(&["x", "b", "c", "d"]));
    let problems = shown(&summary);
    assert_eq!(problems.len(), 3);
    assert!(matches!(
        &problems[0],
        Problem::Line(LineProblem::MismatchedCell { line: 9, column: 1, .. })
    ));
    assert!(matches!(
        &problems[1],
        Problem::Line(LineProblem::ExtraCell { line: 9, column: 3 })
    ));
    assert!(matches!(
        &problems[2],
        Problem::Line(LineProblem::ExtraCell { line: 9, column: 4 })
    ));
}

#[test]
fn an_empty_row_against_a_full_one() {
    let mut summary = Summary::new(None);
    summary.compare_line(2, &row(&["a", "b"]), &row(&[]));
    let problems = shown(&summary);
    assert_eq!(problems.len(), 2);
    assert!(matches!(
        &problems[0],
        Problem::Line(LineProblem::MissingCell { line: 2, column: 1 })
    ));
    assert!(matches!(
        &problems[1],
        Problem::Line(LineProblem::MissingCell { line: 2, column: 2 })
    ));
}

#[test]
fn identical_files() {
    let rows = vec![read(&["id", "name"]), read(&["1", "ann"]), read(&["2"]), read(&[])];
    let same = vec![read(&["id", "name"]), read(&["1", "ann"]), read(&["2"]), read(&[])];
    let mut summary = Summary::new(None);
    summary.compare_lines(&rows, &same);
    assert!(!summary.failed());
    let data = summary.finish("actual.csv").expect("a summary");
    assert_eq!(data.actual_filename(), "actual.csv");
    assert_eq!(data.num_problems(), 0);
    assert!(!data.found_max_problems());
    assert!(data.problem_categories().is_empty());
    assert!(data.problems().is_empty());
}

#[test]
fn two_empty_files() {
    let mut summary = Summary::new(None);
    summary.compare_lines(&vec![], &vec![]);
    let data = summary.finish("nothing.csv").expect("a summary");
    assert_eq!(data.num_problems(), 0);
    assert!(!data.found_max_problems());
}

#[test]
fn row_count_imbalance_aggregation() {
    let expected: Vec<RowRead> = (0..5).map(|_| read(&["a", "b"])).collect();
    let actual: Vec<RowRead> = (0..7).map(|_| read(&["a", "b"])).collect();
    let mut summary = Summary::new(None);
    summary.compare_lines(&expected, &actual);
    assert_eq!(summary.problems().len(), 1);
    let problems = shown(&summary);
    assert_eq!(problems.len(), 1);
    match &problems[0] {
        Problem::File(FileProblem::ExtraLines(run)) => {
            assert_eq!(run.line(), 6);
            assert_eq!(run.num_extra(), 2);
        }
        other => panic!("unexpected problem {:?}", other),
    }
}

#[test]
fn missing_lines_are_anchored_on_the_first_of_them() {
    let expected: Vec<RowRead> = (0..6).map(|_| read(&["a"])).collect();
    let actual: Vec<RowRead> = (0..3).map(|_| read(&["a"])).collect();
    let mut summary = Summary::new(None);
    summary.compare_lines(&expected, &actual);
    let problems = shown(&summary);
    assert_eq!(problems.len(), 1);
    match &problems[0] {
        Problem::File(FileProblem::MissingLines(run)) => {
            assert_eq!(run.line(), 4);
            assert_eq!(run.num_missing(), 3);
        }
        other => panic!("unexpected problem {:?}", other),
    }
}

#[test]
fn differences_come_in_line_order() {
    let expected = vec![read(&["a", "b"]), read(&["c"]), read(&["e", "f"])];
    let actual = vec![read(&["a", "x"]), read(&["c", "d"]), read(&["e"]), read(&["g"])];
    let mut summary = Summary::new(None);
    summary.compare_lines(&expected, &actual);
    let problems = shown(&summary);
    assert_eq!(problems.len(), 4);
    assert!(matches!(
        &problems[0],
        Problem::Line(LineProblem::MismatchedCell { line: 1, column: 2, .. })
    ));
    assert!(matches!(
        &problems[1],
        Problem::Line(LineProblem::ExtraCell { line: 2, column: 2 })
    ));
    assert!(matches!(
        &problems[2],
        Problem::Line(LineProblem::MissingCell { line: 3, column: 2 })
    ));
    match &problems[3] {
        Problem::File(FileProblem::ExtraLines(run)) => {
            assert_eq!(run.line(), 4);
            assert_eq!(run.num_extra(), 1);
        }
        other => panic!("unexpected problem {:?}", other),
    }
}

#[test]
fn hard_stop_on_malformed_row() {
    let expected = vec![
        read(&["a"]),
        read(&["b"]),
        read(&["c"]),
        read(&["d"]),
        read(&["e"]),
        read(&["f"]),
    ];
    let actual = vec![
        read(&["x"]),
        read(&["b", "extra"]),
        read(&["c"]),
        unreadable("invalid UTF-8 in field 0"),
        read(&["different"]),
        read(&["f"]),
        read(&["g"]),
    ];
    let mut summary = Summary::new(None);
    summary.compare_lines(&expected, &actual);
    assert!(summary.failed());
    assert_eq!(summary.problems().len(), 2);
    let problems = shown(&summary);
    assert_eq!(problems.len(), 2);
    assert!(matches!(
        &problems[0],
        Problem::Line(LineProblem::MismatchedCell { line: 1, column: 1, .. })
    ));
    assert!(matches!(
        &problems[1],
        Problem::Line(LineProblem::ExtraCell { line: 2, column: 2 })
    ));
    let failures = failures(summary);
    assert_eq!(failures.len(), 1);
    assert_eq!(failures[0].side(), Side::Actual);
    assert_eq!(failures[0].line(), 4);
    assert_eq!(failures[0].detail(), "invalid UTF-8 in field 0");
}

#[test]
fn both_sides_malformed_on_one_line() {
    let expected = vec![read(&["a"]), unreadable("left")];
    let actual = vec![read(&["a"]), unreadable("right"), read(&["c"])];
    let mut summary = Summary::new(None);
    summary.compare_lines(&expected, &actual);
    let failures = failures(summary);
    assert_eq!(failures.len(), 2);
    assert_eq!(failures[0].side(), Side::Expected);
    assert_eq!(failures[0].line(), 2);
    assert_eq!(failures[0].detail(), "left");
    assert_eq!(failures[1].side(), Side::Actual);
    assert_eq!(failures[1].line(), 2);
    assert_eq!(failures[1].detail(), "right");
}

#[test]
fn malformed_row_past_the_end_of_the_other_file() {
    let expected = vec![read(&["a"]), read(&["b"]), unreadable("torn"), read(&["d"])];
    let actual = vec![read(&["a"])];
    let mut summary = Summary::new(None);
    summary.compare_lines(&expected, &actual);
    assert!(summary.failed());
    let problems = shown(&summary);
    assert_eq!(problems.len(), 1);
    match &problems[0] {
        Problem::File(FileProblem::MissingLines(run)) => {
            assert_eq!(run.line(), 2);
            assert_eq!(run.num_missing(), 1);
        }
        other => panic!("unexpected problem {:?}", other),
    }
    let failures = failures(summary);
    assert_eq!(failures.len(), 1);
    assert_eq!(failures[0].side(), Side::Expected);
    assert_eq!(failures[0].line(), 3);
}

#[test]
fn malformed_expected_row_beside_a_good_one() {
    let expected = vec![unreadable("torn")];
    let actual = vec![read(&["a", "b"])];
    let mut summary = Summary::new(None);
    summary.compare_lines(&expected, &actual);
    assert_eq!(summary.problems().len(), 0);
    let failures = failures(summary);
    assert_eq!(failures.len(), 1);
    assert_eq!(failures[0].side(), Side::Expected);
    assert_eq!(failures[0].line(), 1);
}

#[test]
fn steps_say_whether_to_go_on() {
    let mut summary = Summary::new(Some(5));
    let first = read(&["a"]);
    let other = read(&["b"]);
    assert!(summary.compare_step(1, Some(&first), Some(&other)));
    assert!(summary.compare_step(2, None, Some(&other)));
    assert!(summary.compare_step(3, None, None));
    assert_eq!(summary.problems().len(), 2);
    let torn = unreadable("torn");
    assert!(!summary.compare_step(4, Some(&first), Some(&torn)));
    assert!(summary.failed());
    assert_eq!(summary.problems().len(), 2);
    assert_eq!(summary.errors().len(), 1);
    assert_eq!(summary.errors()[0].side(), Side::Actual);
    assert_eq!(summary.errors()[0].line(), 4);
}

#[test]
fn a_surplus_row_on_each_side_in_turn() {
    let mut summary = Summary::new(Some(5));
    let line = read(&["a"]);
    assert!(summary.compare_step(1, Some(&line), None));
    assert!(summary.compare_step(2, Some(&line), None));
    assert!(summary.compare_step(3, None, Some(&line)));
    assert_eq!(summary.problems().len(), 2);
    assert_eq!(summary.problems().num_file_problems(), 2);
    assert_eq!(summary.problems().num_line_problems(), 0);
    let problems = shown(&summary);
    assert_eq!(problems.len(), 2);
    match &problems[0] {
        Problem::File(FileProblem::ExtraLines(run)) => {
            assert_eq!(run.line(), 3);
            assert_eq!(run.num_extra(), 1);
        }
        other => panic!("unexpected problem {:?}", other),
    }
    match &problems[1] {
        Problem::File(FileProblem::MissingLines(run)) => {
            assert_eq!(run.line(), 1);
            assert_eq!(run.num_missing(), 2);
        }
        other => panic!("unexpected problem {:?}", other),
    }
}
