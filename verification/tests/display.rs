use richdiff::category::ProblemCategory;
use richdiff::problem::FileProblem;
use richdiff::problem::LineProblem;
use richdiff::problem::Problem;
use richdiff::problems::Problems;

fn extra_cell(line: usize, column: usize) -> LineProblem {
    LineProblem::ExtraCell { line, column }
}

fn missing_cell(line: usize, column: usize) -> LineProblem {
    LineProblem::MissingCell { line, column }
}

fn mismatched_cell(line: usize, column: usize, expected: &str, actual: &str) -> LineProblem {
    LineProblem::MismatchedCell {
        line,
        column,
        expected: expected.to_string(),
        actual: actual.to_string(),
    }
}

#[test]
fn a_new_collection_is_empty() {
    let problems = Problems::new(50);
    assert_eq!(problems.len(), 0);
    assert_eq!(problems.num_line_problems(), 0);
    assert_eq!(problems.num_file_problems(), 0);
    assert_eq!(problems.max_problems_to_display(), 50);
    let data = problems.display_data("actual.csv");
    assert_eq!(data.actual_filename(), "actual.csv");
    assert_eq!(data.num_problems(), 0);
    assert!(!data.found_max_problems());
    assert!(data.problem_categories().is_empty());
    assert!(data.problems().is_empty());
}

#[test]
fn the_count_never_goes_down() {
    let mut problems = Problems::new(2);
    let mut last = problems.len();
    problems.insert_line_problem(extra_cell(1, 1));
    assert_eq!(problems.len(), 1);
    assert!(problems.len() >= last);
    last = problems.len();
    problems.insert_extra_lines_problem(2);
    assert_eq!(problems.len(), 2);
    assert!(problems.len() >= last);
    last = problems.len();
    problems.insert_extra_lines_problem(3);
    assert_eq!(problems.len(), 2);
    assert!(problems.len() >= last);
    last = problems.len();
    problems.insert_missing_lines_problem(4);
    assert_eq!(problems.len(), 3);
    assert!(problems.len() >= last);
    last = problems.len();
    problems.insert_missing_lines_problem(5);
    assert_eq!(problems.len(), 3);
    assert!(problems.len() >= last);
}

#[test]
fn a_run_keeps_its_first_line() {
    let mut problems = Problems::new(10);
    problems.insert_extra_lines_problem(6);
    problems.insert_extra_lines_problem(7);
    problems.insert_extra_lines_problem(8);
    problems.insert_missing_lines_problem(20);
    problems.insert_missing_lines_problem(21);
    let data = problems.display_data("actual.csv");
    assert_eq!(data.problems().len(), 2);
    match &data.problems()[0] {
        Problem::File(FileProblem::ExtraLines(run)) => {
            assert_eq!(run.line(), 6);
            assert_eq!(run.num_extra(), 3);
        }
        other => panic!("unexpected problem {:?}", other),
    }
    match &data.problems()[1] {
        Problem::File(FileProblem::MissingLines(run)) => {
            assert_eq!(run.line(), 20);
            assert_eq!(run.num_missing(), 2);
        }
        other => panic!("unexpected problem {:?}", other),
    }
}

#[test]
fn truncation_priority() {
    let mut problems = Problems::new(3);
    for column in 1..=5 {
        problems.insert_line_problem(extra_cell(1, column));
    }
    problems.insert_extra_lines_problem(2);
    let data = problems.display_data("actual.csv");
    assert_eq!(data.num_problems(), 6);
    assert!(data.found_max_problems());
    assert_eq!(data.problems().len(), 3);
    assert!(matches!(
        &data.problems()[0],
        Problem::Line(LineProblem::ExtraCell { line: 1, column: 1 })
    ));
    assert!(matches!(
        &data.problems()[1],
        Problem::Line(LineProblem::ExtraCell { line: 1, column: 2 })
    ));
    match &data.problems()[2] {
        Problem::File(FileProblem::ExtraLines(run)) => {
            assert_eq!(run.line(), 2);
            assert_eq!(run.num_extra(), 1);
        }
        other => panic!("unexpected problem {:?}", other),
    }
}

#[test]
fn the_cap_is_reached_at_the_cap() {
    let mut problems = Problems::new(3);
    problems.insert_line_problem(extra_cell(1, 1));
    problems.insert_line_problem(extra_cell(1, 2));
    assert!(!problems.display_data("a").found_max_problems());
    assert_eq!(problems.display_data("a").problems().len(), 2);
    problems.insert_line_problem(extra_cell(1, 3));
    let data = problems.display_data("a");
    assert!(data.found_max_problems());
    assert_eq!(data.num_problems(), 3);
    assert_eq!(data.problems().len(), 3);
}

#[test]
fn row_count_problems_are_shown_whatever_the_cap() {
    let mut problems = Problems::new(1);
    problems.insert_line_problem(extra_cell(1, 1));
    problems.insert_extra_lines_problem(5);
    problems.insert_missing_lines_problem(9);
    let data = problems.display_data("actual.csv");
    assert_eq!(data.num_problems(), 3);
    assert!(data.found_max_problems());
    assert_eq!(data.problems().len(), 2);
    assert!(matches!(&data.problems()[0], Problem::File(FileProblem::ExtraLines(_))));
    assert!(matches!(&data.problems()[1], Problem::File(FileProblem::MissingLines(_))));
}

#[test]
fn categories_come_in_listing_order() {
    let mut problems = Problems::new(50);
    problems.insert_missing_lines_problem(8);
    problems.insert_line_problem(missing_cell(1, 2));
    problems.insert_line_problem(extra_cell(2, 3));
    problems.insert_line_problem(missing_cell(3, 1));
    problems.insert_line_problem(mismatched_cell(4, 1, "a", "b"));
    problems.insert_extra_lines_problem(9);
    let data = problems.display_data("actual.csv");
    assert_eq!(
        data.problem_categories(),
        &vec![
            ProblemCategory::MismatchedCells,
            ProblemCategory::ExtraCells,
            ProblemCategory::MissingCells,
            ProblemCategory::ExtraLines,
            ProblemCategory::MissingLines,
        ]
    );
    assert_eq!(problems.categories(), *data.problem_categories());
}

#[test]
fn categories_are_listed_once_each() {
    let mut problems = Problems::new(50);
    problems.insert_line_problem(missing_cell(1, 2));
    problems.insert_line_problem(mismatched_cell(1, 3, "a", "b"));
    problems.insert_line_problem(missing_cell(2, 2));
    problems.insert_line_problem(mismatched_cell(3, 1, "c", "d"));
    assert_eq!(
        problems.categories(),
        vec![ProblemCategory::MismatchedCells, ProblemCategory::MissingCells]
    );
}

#[test]
fn categories_cover_what_is_not_shown() {
    let mut problems = Problems::new(1);
    problems.insert_line_problem(missing_cell(1, 2));
    problems.insert_line_problem(extra_cell(2, 3));
    problems.insert_line_problem(mismatched_cell(4, 1, "a", "b"));
    let data = problems.display_data("actual.csv");
    assert_eq!(data.problems().len(), 1);
    assert_eq!(
        data.problem_categories(),
        &vec![
            ProblemCategory::MismatchedCells,
            ProblemCategory::ExtraCells,
            ProblemCategory::MissingCells,
        ]
    );
}

#[test]
fn problems_are_handed_out_once_each() {
    let mut problems = Problems::new(4);
    problems.insert_line_problem(extra_cell(1, 1));
    problems.insert_extra_lines_problem(2);
    problems.insert_missing_lines_problem(3);
    let mut shown = problems.displayable_problems();
    assert!(matches!(shown.next(), Some(Problem::Line(LineProblem::ExtraCell { .. }))));
    assert!(matches!(shown.next(), Some(Problem::File(FileProblem::ExtraLines(_)))));
    assert!(matches!(shown.next(), Some(Problem::File(FileProblem::MissingLines(_)))));
    assert!(shown.next().is_none());
    assert!(shown.next().is_none());
}

#[test]
fn category_is_the_same_every_time() {
    let mut problems = Problems::new(10);
    problems.insert_line_problem(mismatched_cell(1, 1, "a", "b"));
    problems.insert_line_problem(extra_cell(1, 2));
    problems.insert_line_problem(missing_cell(2, 1));
    problems.insert_extra_lines_problem(3);
    problems.insert_missing_lines_problem(4);
    let data = problems.display_data("actual.csv");
    let expected = [
        ProblemCategory::MismatchedCells,
        ProblemCategory::ExtraCells,
        ProblemCategory::MissingCells,
        ProblemCategory::ExtraLines,
        ProblemCategory::MissingLines,
    ];
    assert_eq!(data.problems().len(), 5);
    for (problem, category) in data.problems().iter().zip(expected.iter()) {
        assert_eq!(problem.category(), *category);
        assert_eq!(problem.category(), problem.category());
    }
}

#[test]
fn category_ignores_what_a_problem_carries() {
    let first = Problem::Line(mismatched_cell(1, 1, "a", "b"));
    let second = Problem::Line(mismatched_cell(700, 12, "", "long text"));
    assert_eq!(first.category(), second.category());
    assert_eq!(Problem::Line(extra_cell(1, 1)).category(), ProblemCategory::ExtraCells);
    assert_eq!(Problem::Line(missing_cell(1, 1)).category(), ProblemCategory::MissingCells);
    assert_eq!(extra_cell(5, 5).category(), ProblemCategory::ExtraCells);
}

#[test]
fn ranks_follow_the_listing_order() {
    let order = [
        ProblemCategory::MismatchedCells,
        ProblemCategory::ExtraCells,
        ProblemCategory::MissingCells,
        ProblemCategory::ExtraLines,
        ProblemCategory::MissingLines,
    ];
    for (place, category) in order.iter().enumerate() {
        assert_eq!(category.rank() as usize, place);
        assert_eq!(ProblemCategory::from_rank(place as u8), *category);
    }
    assert_eq!(ProblemCategory::from_rank(200), ProblemCategory::MissingLines);
    assert!(ProblemCategory::MismatchedCells < ProblemCategory::MissingLines);
}
