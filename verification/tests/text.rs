use richdiff::category::ProblemCategory;
use richdiff::problem::LineProblem;
use richdiff::problem::Problem;
use richdiff::problems::Problems;
use richdiff::text::decimal_string;

fn entry(key: &str, value: &str) -> (String, String) {
    (key.to_string(), value.to_string())
}

#[test]
fn numbers_are_written_in_base_ten() {
    assert_eq!(decimal_string(0), "0");
    assert_eq!(decimal_string(7), "7");
    assert_eq!(decimal_string(10), "10");
    assert_eq!(decimal_string(909), "909");
    assert_eq!(decimal_string(1234567890), "1234567890");
    assert_eq!(decimal_string(usize::MAX), usize::MAX.to_string());
}

#[test]
fn category_display_text() {
    assert_eq!(
        ProblemCategory::MismatchedCells.entries(),
        vec![
            entry("type", "Mismatched cells"),
            entry("color", "red"),
            entry(
                "description",
                "The contents of one or more cells in the actual file did not match up."
            ),
        ]
    );
    assert_eq!(
        ProblemCategory::ExtraCells.entries(),
        vec![
            entry("type", "Extra cells"),
            entry("color", "orange"),
            entry(
                "description",
                "A line (or lines) in the actual file had more cells than expected."
            ),
        ]
    );
    assert_eq!(
        ProblemCategory::MissingCells.entries(),
        vec![
            entry("type", "Missing cells"),
            entry("color", "yellow"),
            entry("description", "A line (or lines) in the actual file is missing cells."),
        ]
    );
    assert_eq!(
        ProblemCategory::ExtraLines.entries(),
        vec![
            entry("type", "Extra lines"),
            entry("color", "green"),
            entry("description", "The actual file had more lines in it than expected."),
        ]
    );
    assert_eq!(
        ProblemCategory::MissingLines.entries(),
        vec![
            entry("type", "Missing lines"),
            entry("color", "blue"),
            entry("description", "The actual file had fewer lines in it than expected."),
        ]
    );
    assert_eq!(ProblemCategory::ExtraLines.label(), "Extra lines");
    assert_eq!(ProblemCategory::ExtraLines.color(), "green");
    assert_eq!(
        ProblemCategory::ExtraLines.description(),
        "The actual file had more lines in it than expected."
    );
}

#[test]
fn mismatched_cell_display_text() {
    let problem = Problem::Line(LineProblem::MismatchedCell {
        line: 12,
        column: 3,
        expected: "blue".to_string(),
        actual: "green".to_string(),
    });
    assert_eq!(problem.label(), "Mismatched cell");
    assert_eq!(problem.color(), "red");
    assert_eq!(
        problem.description(),
        "The cell at line 12, column 3 was green, but the expected value was blue."
    );
    assert_eq!(
        problem.entries(),
        vec![
            entry("type", "Mismatched cell"),
            entry("color", "red"),
            entry(
                "description",
                "The cell at line 12, column 3 was green, but the expected value was blue."
            ),
        ]
    );
}

#[test]
fn extra_cell_display_text() {
    let problem = Problem::Line(LineProblem::ExtraCell { line: 100, column: 21 });
    assert_eq!(problem.label(), "Extra cell");
    assert_eq!(problem.color(), "orange");
    assert_eq!(
        problem.description(),
        "The cell at line 100, column 21 is not present in the expected file."
    );
}

#[test]
fn missing_cell_display_text() {
    let problem = Problem::Line(LineProblem::MissingCell { line: 1, column: 3 });
    assert_eq!(problem.label(), "Missing cell");
    assert_eq!(problem.color(), "yellow");
    assert_eq!(problem.description(), "A cell is missing at line 1, column 3.");
}

#[test]
fn row_count_display_text() {
    let mut problems = Problems::new(5);
    problems.insert_extra_lines_problem(6);
    problems.insert_extra_lines_problem(7);
    problems.insert_missing_lines_problem(40);
    let data = problems.display_data("actual.csv");
    let extra = &data.problems()[0];
    assert_eq!(extra.label(), "Extra line");
    assert_eq!(extra.color(), "green");
    assert_eq!(extra.description(), "There were 2 extra lines, starting with line 6.");
    let missing = &data.problems()[1];
    assert_eq!(missing.label(), "Missing line");
    assert_eq!(missing.color(), "blue");
    assert_eq!(missing.description(), "There were 1 lines missing, ending at line 40.");
    assert_eq!(
        missing.entries(),
        vec![
            entry("type", "Missing line"),
            entry("color", "blue"),
            entry("description", "There were 1 lines missing, ending at line 40."),
        ]
    );
}
