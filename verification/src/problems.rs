//! The bounded collection that gathers the problems of one comparison, and
//! the summary that it hands to a renderer.

use vstd::prelude::*;
use vstd::string::*;

use crate::align::ascending;
use crate::align::sorted;
use crate::category::ProblemCategory;
use crate::problem::Discrepancy;
use crate::problem::ExtraLinesProblem;
use crate::problem::FieldDiscrepancy;
use crate::problem::FileProblem;
use crate::problem::LineProblem;
use crate::problem::LineRun;
use crate::problem::MissingLinesProblem;
use crate::problem::Problem;
use crate::problem::RowCountDiscrepancy;

verus! {

/// What a [`Problems`] collection holds: the display cap it was made with, at
/// most one run of surplus rows per side, and the cell-level differences in
/// the order in which they were found.
pub struct ProblemSet {
    pub cap: nat,
    pub extra: Option<LineRun>,
    pub missing: Option<LineRun>,
    pub lines: Seq<FieldDiscrepancy>,
}

impl ProblemSet {
    /// The collection before anything was found.
    pub open spec fn empty(cap: nat) -> ProblemSet {
        ProblemSet { cap, extra: None, missing: None, lines: Seq::empty() }
    }

    /// The cap is positive, and a run that is present counts at least one row.
    pub open spec fn wf(self) -> bool {
        &&& self.cap > 0
        &&& self.extra matches Some(run) ==> run.count >= 1
        &&& self.missing matches Some(run) ==> run.count >= 1
    }

    /// How many row-count problems are present: none, one or two.
    pub open spec fn row_count_problems(self) -> nat {
        (if self.extra is Some {
            1nat
        } else {
            0nat
        }) + (if self.missing is Some {
            1nat
        } else {
            0nat
        })
    }

    /// The true number of problems: every cell-level difference, and one for
    /// each side that has surplus rows.
    pub open spec fn total(self) -> nat {
        self.lines.len() + self.row_count_problems()
    }

    /// The collection after one more cell-level difference was found.
    pub open spec fn with_line_problem(self, problem: FieldDiscrepancy) -> ProblemSet {
        ProblemSet { lines: self.lines.push(problem), ..self }
    }

    /// The collection after a surplus row of the actual file was seen at
    /// `line`: the first one opens the run there, a later one only counts.
    pub open spec fn with_extra_line(self, line: nat) -> ProblemSet {
        ProblemSet {
            extra: Some(
                match self.extra {
                    None => LineRun { line, count: 1 },
                    Some(run) => run.grown(),
                },
            ),
            ..self
        }
    }

    /// The collection after a surplus row of the expected file was seen at
    /// `line`: the first one opens the run there, a later one only counts.
    pub open spec fn with_missing_line(self, line: nat) -> ProblemSet {
        ProblemSet {
            missing: Some(
                match self.missing {
                    None => LineRun { line, count: 1 },
                    Some(run) => run.grown(),
                },
            ),
            ..self
        }
    }

    /// The collection after the cell-level differences `found` were recorded,
    /// in their order.
    pub open spec fn with_line_problems(self, found: Seq<FieldDiscrepancy>) -> ProblemSet {
        ProblemSet { lines: self.lines + found, ..self }
    }

    /// Either run can still count `rows` more rows within the machine's range.
    pub open spec fn room_for(self, rows: nat) -> bool {
        &&& self.extra matches Some(run) ==> run.count + rows <= usize::MAX
        &&& self.missing matches Some(run) ==> run.count + rows <= usize::MAX
    }

    /// How many cell-level differences are shown: as many as the cap leaves
    /// room for once every row-count problem has its place.
    pub open spec fn shown_line_problems(self) -> nat {
        let room = if self.cap >= self.row_count_problems() {
            (self.cap - self.row_count_problems()) as nat
        } else {
            0nat
        };
        if self.lines.len() <= room {
            self.lines.len()
        } else {
            room
        }
    }

    /// The row-count problems in display order: surplus rows of the actual
    /// file first, then those of the expected file.
    pub open spec fn row_count_part(self) -> Seq<Discrepancy> {
        (match self.extra {
            Some(run) => seq![Discrepancy::File(RowCountDiscrepancy::ExtraLines(run))],
            None => Seq::empty(),
        }) + (match self.missing {
            Some(run) => seq![Discrepancy::File(RowCountDiscrepancy::MissingLines(run))],
            None => Seq::empty(),
        })
    }

    /// The problems that are shown: the first cell-level differences, as many
    /// as [`Self::shown_line_problems`] says, then every row-count problem.
    pub open spec fn displayed(self) -> Seq<Discrepancy> {
        self.lines.take(self.shown_line_problems() as int).map_values(
            |d: FieldDiscrepancy| Discrepancy::Line(d),
        ) + self.row_count_part()
    }

    /// Whether the number of problems has reached the cap.
    pub open spec fn truncated(self) -> bool {
        self.total() >= self.cap
    }

    /// Whether any recorded problem, shown or not, falls under `category`.
    pub open spec fn has_category(self, category: ProblemCategory) -> bool {
        ||| exists|i: int|
            0 <= i < self.lines.len() && (#[trigger] self.lines[i]).category() == category
        ||| category == ProblemCategory::ExtraLines && self.extra is Some
        ||| category == ProblemCategory::MissingLines && self.missing is Some
    }

    /// The categories that are present among those of rank below `bound`, in
    /// listing order.
    pub open spec fn categories_below(self, bound: nat) -> Seq<ProblemCategory>
        decreases bound,
    {
        if bound == 0 {
            Seq::empty()
        } else {
            let below = self.categories_below((bound - 1) as nat);
            let category = ProblemCategory::at_rank((bound - 1) as nat);
            if self.has_category(category) {
                below.push(category)
            } else {
                below
            }
        }
    }

    /// The categories of all recorded problems, each once, in listing order.
    pub open spec fn categories(self) -> Seq<ProblemCategory> {
        self.categories_below(5)
    }
}

/// The problems found so far in one comparison.
#[derive(Debug)]
pub struct Problems {
    max_problems_to_display: usize,
    extra_lines_problem: Option<ExtraLinesProblem>,
    missing_lines_problem: Option<MissingLinesProblem>,
    line_problems: Vec<LineProblem>,
}

/// What each of a list of cell-level problems says.
pub open spec fn line_views(problems: Seq<LineProblem>) -> Seq<FieldDiscrepancy> {
    problems.map_values(|p: LineProblem| p@)
}

/// What each of a list of problems says.
pub open spec fn problem_views(problems: Seq<Problem>) -> Seq<Discrepancy> {
    problems.map_values(|p: Problem| p@)
}

impl View for Problems {
    type V = ProblemSet;

    closed spec fn view(&self) -> ProblemSet {
        ProblemSet {
            cap: self.max_problems_to_display as nat,
            extra: match self.extra_lines_problem {
                Some(run) => Some(run@),
                None => None,
            },
            missing: match self.missing_lines_problem {
                Some(run) => Some(run@),
                None => None,
            },
            lines: line_views(self.line_problems@),
        }
    }
}

impl Problems {
    /// An empty collection that will show at most `max_problems_to_display`
    /// problems.
    pub fn new(max_problems_to_display: usize) -> (problems: Problems)
        requires
            max_problems_to_display > 0,
        ensures
            problems@ == ProblemSet::empty(max_problems_to_display as nat),
            problems@.wf(),
    {
        let problems = Problems {
            max_problems_to_display,
            extra_lines_problem: None,
            missing_lines_problem: None,
            line_problems: Vec::new(),
        };
        assert(problems@.lines =~= Seq::empty());
        problems
    }

    /// The cap that the collection was made with.
    pub fn max_problems_to_display(&self) -> (cap: usize)
        ensures
            cap == self@.cap,
    {
        self.max_problems_to_display
    }

    /// How many cell-level differences were recorded.
    pub fn num_line_problems(&self) -> (count: usize)
        ensures
            count == self@.lines.len(),
    {
        self.line_problems.len()
    }

    /// How many row-count problems are present: none, one or two.
    pub fn num_file_problems(&self) -> (count: usize)
        ensures
            count == self@.row_count_problems(),
    {
        let extra: usize = if self.extra_lines_problem.is_some() {
            1
        } else {
            0
        };
        let missing: usize = if self.missing_lines_problem.is_some() {
            1
        } else {
            0
        };
        extra + missing
    }

    /// The true number of problems, whatever the cap.
    pub fn len(&self) -> (total: usize)
        requires
            self@.total() <= usize::MAX,
        ensures
            total == self@.total(),
    {
        self.line_problems.len() + self.num_file_problems()
    }

    /// Records that the actual file has a row at `line` and the expected file
    /// has none.
    pub fn insert_extra_lines_problem(&mut self, line: usize)
        requires
            old(self)@.wf(),
            old(self)@.room_for(1),
        ensures
            final(self)@ == old(self)@.with_extra_line(line as nat),
            final(self)@.wf(),
    {
        let run = match &self.extra_lines_problem {
            None => ExtraLinesProblem::first(line),
            Some(run) => run.grown(),
        };
        self.extra_lines_problem = Some(run);
    }

    /// Records that the expected file has a row at `line` and the actual file
    /// has none.
    pub fn insert_missing_lines_problem(&mut self, line: usize)
        requires
            old(self)@.wf(),
            old(self)@.room_for(1),
        ensures
            final(self)@ == old(self)@.with_missing_line(line as nat),
            final(self)@.wf(),
    {
        let run = match &self.missing_lines_problem {
            None => MissingLinesProblem::first(line),
            Some(run) => run.grown(),
        };
        self.missing_lines_problem = Some(run);
    }

    /// Records one cell-level difference, after those recorded before.
    pub fn insert_line_problem(&mut self, problem: LineProblem)
        requires
            old(self)@.wf(),
        ensures
            final(self)@ == old(self)@.with_line_problem(problem@),
            final(self)@.wf(),
    {
        self.line_problems.push(problem);
        assert(line_views(self.line_problems@) =~= line_views(old(self).line_problems@).push(
            problem@,
        ));
    }
}

/// The problems to show, handed out one at a time: first the cell-level
/// differences that have room, then the row-count problems.
pub struct DisplayableProblems<'a> {
    line_problems_to_display: usize,
    extra_lines_problem: Option<ExtraLinesProblem>,
    missing_lines_problem: Option<MissingLinesProblem>,
    line_problems: &'a Vec<LineProblem>,
    position: usize,
}

impl<'a> DisplayableProblems<'a> {
    /// The cell-level differences still to come all exist.
    pub closed spec fn wf(&self) -> bool {
        self.position + self.line_problems_to_display <= self.line_problems@.len()
    }

    /// The row-count problems still to come.
    closed spec fn remaining_runs(&self) -> Seq<Discrepancy> {
        (match self.extra_lines_problem {
            Some(run) => seq![Discrepancy::File(RowCountDiscrepancy::ExtraLines(run@))],
            None => Seq::empty(),
        }) + (match self.missing_lines_problem {
            Some(run) => seq![Discrepancy::File(RowCountDiscrepancy::MissingLines(run@))],
            None => Seq::empty(),
        })
    }

    /// What is still to be handed out, in order.
    pub closed spec fn remaining(&self) -> Seq<Discrepancy> {
        line_views(self.line_problems@).subrange(
            self.position as int,
            self.position + self.line_problems_to_display,
        ).map_values(|d: FieldDiscrepancy| Discrepancy::Line(d)) + self.remaining_runs()
    }

    /// Hands out the next problem to show, or `None` once all were handed out.
    pub fn next(&mut self) -> (problem: Option<Problem>)
        requires
            old(self).wf(),
        ensures
            final(self).wf(),
            old(self).remaining().len() == 0 ==> problem is None && final(self).remaining()
                == old(self).remaining(),
            old(self).remaining().len() > 0 ==> problem is Some && problem.unwrap()@ == old(
                self,
            ).remaining()[0] && final(self).remaining() == old(self).remaining().drop_first(),
    {
        if self.line_problems_to_display > 0 {
            let position = self.position;
            assert(position < self.line_problems.len());
            let line_problem = self.line_problems[position].clone();
            self.line_problems_to_display -= 1;
            self.position = position + 1;
            assert(self.remaining() =~= old(self).remaining().drop_first());
            Some(Problem::Line(line_problem))
        } else if self.extra_lines_problem.is_some() {
            let run = self.extra_lines_problem.take().unwrap();
            assert(self.remaining() =~= old(self).remaining().drop_first());
            Some(Problem::File(FileProblem::ExtraLines(run)))
        } else if self.missing_lines_problem.is_some() {
            let run = self.missing_lines_problem.take().unwrap();
            assert(self.remaining() =~= old(self).remaining().drop_first());
            Some(Problem::File(FileProblem::MissingLines(run)))
        } else {
            assert(self.remaining() =~= Seq::empty());
            None
        }
    }
}

impl Problems {
    /// The problems to show, ready to be handed out in display order.
    pub fn displayable_problems(&self) -> (shown: DisplayableProblems<'_>)
        ensures
            shown.wf(),
            shown.remaining() == self@.displayed(),
    {
        let file_problems = self.num_file_problems();
        let room = if self.max_problems_to_display >= file_problems {
            self.max_problems_to_display - file_problems
        } else {
            0
        };
        let line_problems_to_display = if self.line_problems.len() <= room {
            self.line_problems.len()
        } else {
            room
        };
        let shown = DisplayableProblems {
            line_problems_to_display,
            extra_lines_problem: self.extra_lines_problem.clone(),
            missing_lines_problem: self.missing_lines_problem.clone(),
            line_problems: &self.line_problems,
            position: 0,
        };
        assert(shown.remaining() =~= self@.displayed());
        shown
    }
}

/// Whether `item` occurs in `items`.
fn holds(items: &Vec<u8>, item: u8) -> (found: bool)
    ensures
        found == items@.contains(item),
{
    let mut i: usize = 0;
    while i < items.len()
        invariant
            i <= items.len(),
            forall|j: int| 0 <= j < i ==> items@[j] != item,
        decreases items.len() - i,
    {
        if items[i] == item {
            return true;
        }
        i += 1;
    }
    false
}

/// Whether one of the first `count` of `lines` falls under the category of
/// rank `rank`.
pub open spec fn ranked_before(lines: Seq<FieldDiscrepancy>, count: int, rank: u8) -> bool {
    exists|j: int| 0 <= j < count && (#[trigger] lines[j]).category().rank_of() == rank
}

impl ProblemSet {
    /// No category of a rank from `low` up to, but not including, `high` is
    /// present.
    pub open spec fn none_between(self, low: nat, high: nat) -> bool {
        forall|rank: nat|
            low <= rank < high ==> !self.has_category(#[trigger] ProblemCategory::at_rank(rank))
    }

    /// Ranks without a present category add nothing to the listing.
    pub proof fn lemma_categories_gap(self, low: nat, high: nat)
        requires
            low <= high,
            self.none_between(low, high),
        ensures
            self.categories_below(high) == self.categories_below(low),
        decreases high,
    {
        if low < high {
            let rank = (high - 1) as nat;
            assert(!self.has_category(ProblemCategory::at_rank(rank)));
            self.lemma_categories_gap(low, rank);
        }
    }
}

impl Problems {
    /// The ranks of the categories of all recorded problems, each once.
    fn category_ranks(&self) -> (ranks: Vec<u8>)
        ensures
            ranks@.no_duplicates(),
            forall|rank: u8|
                ranks@.contains(rank) <==> (rank < 5 && self@.has_category(
                    #[trigger] ProblemCategory::at_rank(rank as nat),
                )),
    {
        let ghost lines = self@.lines;
        let mut ranks: Vec<u8> = Vec::new();
        let mut i: usize = 0;
        while i < self.line_problems.len()
            invariant
                i <= self.line_problems.len(),
                lines == line_views(self.line_problems@),
                ranks@.no_duplicates(),
                forall|rank: u8| ranks@.contains(rank) <==> ranked_before(lines, i as int, rank),
            decreases self.line_problems.len() - i,
        {
            let rank = self.line_problems[i].category().rank();
            let ghost before = ranks@;
            if !holds(&ranks, rank) {
                ranks.push(rank);
            }
            proof {
                assert(lines[i as int].category().rank_of() == rank);
                assert forall|other: u8|
                    ranks@.contains(other) <==> ranked_before(lines, i + 1, other) by {
                    if ranks@.contains(other) {
                        if before.contains(other) {
                            let j = choose|j: int|
                                0 <= j < i && (#[trigger] lines[j]).category().rank_of() == other;
                            assert(0 <= j < i + 1);
                        } else {
                            assert(other == rank);
                        }
                        assert(ranked_before(lines, i + 1, other));
                    }
                    if ranked_before(lines, i + 1, other) {
                        let j = choose|j: int|
                            0 <= j < i + 1 && (#[trigger] lines[j]).category().rank_of() == other;
                        if j < i {
                            assert(ranked_before(lines, i as int, other));
                            assert(before.contains(other));
                            let at = choose|at: int| 0 <= at < before.len() && before[at] == other;
                            assert(ranks@[at] == other);
                        } else {
                            assert(other == rank);
                            if before.contains(rank) {
                                let at = choose|at: int|
                                    0 <= at < before.len() && before[at] == rank;
                                assert(ranks@[at] == rank);
                            } else {
                                assert(ranks@[ranks@.len() - 1] == rank);
                            }
                        }
                        assert(ranks@.contains(other));
                    }
                }
            }
            i += 1;
        }
        let ghost from_lines = ranks@;
        if self.extra_lines_problem.is_some() {
            ranks.push(ProblemCategory::ExtraLines.rank());
        }
        let ghost with_extra = ranks@;
        if self.missing_lines_problem.is_some() {
            ranks.push(ProblemCategory::MissingLines.rank());
        }
        proof {
            assert forall|rank: u8| from_lines.contains(rank) implies rank < 3 by {
                assert(ranked_before(lines, i as int, rank));
            }
            assert forall|a: int, b: int|
                0 <= a < ranks@.len() && 0 <= b < ranks@.len() && a != b implies ranks@[a]
                != ranks@[b] by {
                if a < from_lines.len() {
                    assert(from_lines.contains(from_lines[a]));
                }
                if b < from_lines.len() {
                    assert(from_lines.contains(from_lines[b]));
                }
            }
            assert forall|rank: u8|
                ranks@.contains(rank) <==> (rank < 5 && self@.has_category(
                    #[trigger] ProblemCategory::at_rank(rank as nat),
                )) by {
                let category = ProblemCategory::at_rank(rank as nat);
                if ranks@.contains(rank) {
                    let at = choose|at: int| 0 <= at < ranks@.len() && ranks@[at] == rank;
                    if at < from_lines.len() {
                        assert(from_lines[at] == rank);
                        assert(from_lines.contains(rank));
                        assert(ranked_before(lines, i as int, rank));
                        let j = choose|j: int|
                            0 <= j < i && (#[trigger] lines[j]).category().rank_of() == rank;
                        assert(lines[j].category() == category);
                    }
                    assert(rank < 5 && self@.has_category(category));
                }
                if rank < 5 && self@.has_category(category) {
                    if rank < 3 {
                        let j = choose|j: int|
                            0 <= j < lines.len() && (#[trigger] lines[j]).category() == category;
                        assert(ranked_before(lines, i as int, rank));
                        assert(from_lines.contains(rank));
                        let at = choose|at: int|
                            0 <= at < from_lines.len() && from_lines[at] == rank;
                        assert(ranks@[at] == rank);
                    } else if rank == 3 {
                        assert(ranks@[from_lines.len() as int] == rank);
                    } else {
                        assert(ranks@[ranks@.len() - 1] == rank);
                    }
                    assert(ranks@.contains(rank));
                }
            }
        }
        ranks
    }
}

/// The rank at place `k` of `ordered`, or the number of categories where the
/// sequence has ended.
pub open spec fn rank_bound(ordered: Seq<u8>, k: int) -> nat {
    if 0 <= k < ordered.len() {
        ordered[k] as nat
    } else {
        5
    }
}

impl Problems {
    /// The categories of all recorded problems, each once, in listing order.
    pub fn categories(&self) -> (categories: Vec<ProblemCategory>)
        ensures
            categories@ == self@.categories(),
    {
        let ranks = self.category_ranks();
        let ordered = sorted(&ranks);
        proof {
            ranks@.lemma_multiset_has_no_duplicates();
            ordered@.lemma_multiset_has_no_duplicates_conv();
            ranks@.to_multiset_ensures();
            ordered@.to_multiset_ensures();
            assert forall|rank: u8| ordered@.contains(rank) <==> ranks@.contains(rank) by {
                assert(ordered@.to_multiset().count(rank) == ranks@.to_multiset().count(rank));
            }
            assert(rank_bound(ordered@, 0) <= 5) by {
                if 0 < ordered@.len() {
                    assert(ordered@.contains(ordered@[0]));
                    assert(self@.has_category(ProblemCategory::at_rank(ordered@[0] as nat)));
                }
            }
            assert forall|rank: nat| 0 <= rank < rank_bound(ordered@, 0) implies !self@.has_category(
                #[trigger] ProblemCategory::at_rank(rank),
            ) by {
                if self@.has_category(ProblemCategory::at_rank(rank)) {
                    assert(ProblemCategory::at_rank((rank as u8) as nat) == ProblemCategory::at_rank(
                        rank,
                    ));
                    assert(ordered@.contains(rank as u8));
                    let at = choose|at: int| 0 <= at < ordered@.len() && ordered@[at] == rank as u8;
                    assert(ordered@[0] <= ordered@[at]);
                }
            }
            self@.lemma_categories_gap(0, rank_bound(ordered@, 0));
        }
        let mut categories: Vec<ProblemCategory> = Vec::new();
        let mut k: usize = 0;
        while k < ordered.len()
            invariant
                k <= ordered.len(),
                ascending(ordered@),
                ordered@.no_duplicates(),
                forall|rank: u8|
                    ordered@.contains(rank) <==> (rank < 5 && self@.has_category(
                        #[trigger] ProblemCategory::at_rank(rank as nat),
                    )),
                categories@ == self@.categories_below(rank_bound(ordered@, k as int)),
            decreases ordered.len() - k,
        {
            let rank = ordered[k];
            proof {
                let next = rank_bound(ordered@, k + 1);
                assert(ordered@.contains(rank));
                assert(next <= 5) by {
                    if k + 1 < ordered@.len() {
                        assert(ordered@.contains(ordered@[k + 1]));
                        assert(self@.has_category(
                            ProblemCategory::at_rank(ordered@[k + 1] as nat),
                        ));
                    }
                }
                assert(rank < next) by {
                    if k + 1 < ordered@.len() {
                        assert(ordered@[k as int] <= ordered@[k + 1]);
                        assert(ordered@[k as int] != ordered@[k + 1]);
                    }
                }
                assert forall|other: nat| rank + 1 <= other < next implies !self@.has_category(
                    #[trigger] ProblemCategory::at_rank(other),
                ) by {
                    if self@.has_category(ProblemCategory::at_rank(other)) {
                        assert(ProblemCategory::at_rank((other as u8) as nat)
                            == ProblemCategory::at_rank(other));
                        assert(ordered@.contains(other as u8));
                        let at = choose|at: int|
                            0 <= at < ordered@.len() && ordered@[at] == other as u8;
                        if at <= k {
                            assert(ordered@[at] <= ordered@[k as int]);
                        } else {
                            assert(ordered@[k + 1] <= ordered@[at]);
                        }
                    }
                }
                self@.lemma_categories_gap((rank + 1) as nat, next);
                assert(self@.categories_below((rank + 1) as nat) == self@.categories_below(
                    rank as nat,
                ).push(ProblemCategory::at_rank(rank as nat)));
            }
            categories.push(ProblemCategory::from_rank(rank));
            k += 1;
        }
        categories
    }
}

/// What a [`DisplayProblems`] value says.
pub struct DisplaySummary {
    pub actual_filename: Seq<char>,
    pub num_problems: nat,
    pub found_max_problems: bool,
    pub problem_categories: Seq<ProblemCategory>,
    pub problems: Seq<Discrepancy>,
}

impl ProblemSet {
    /// The summary of the collection for the file named `actual_filename`:
    /// the true number of problems, whether it has reached the cap, the
    /// categories of all recorded problems, and the problems that are shown.
    pub open spec fn summary(self, actual_filename: Seq<char>) -> DisplaySummary {
        DisplaySummary {
            actual_filename,
            num_problems: self.total(),
            found_max_problems: self.truncated(),
            problem_categories: self.categories(),
            problems: self.displayed(),
        }
    }
}

/// The summary of one comparison, as a renderer receives it.
#[derive(Debug)]
pub struct DisplayProblems {
    actual_filename: String,
    num_problems: usize,
    found_max_problems: bool,
    problem_categories: Vec<ProblemCategory>,
    problems: Vec<Problem>,
}

impl View for DisplayProblems {
    type V = DisplaySummary;

    closed spec fn view(&self) -> DisplaySummary {
        DisplaySummary {
            actual_filename: self.actual_filename@,
            num_problems: self.num_problems as nat,
            found_max_problems: self.found_max_problems,
            problem_categories: self.problem_categories@,
            problems: problem_views(self.problems@),
        }
    }
}

impl DisplayProblems {
    /// The name of the file that was held against the expected one.
    pub fn actual_filename(&self) -> (name: &str)
        ensures
            name@ == self@.actual_filename,
    {
        self.actual_filename.as_str()
    }

    /// The true number of problems.
    pub fn num_problems(&self) -> (count: usize)
        ensures
            count == self@.num_problems,
    {
        self.num_problems
    }

    /// Whether the number of problems has reached the cap.
    pub fn found_max_problems(&self) -> (reached: bool)
        ensures
            reached == self@.found_max_problems,
    {
        self.found_max_problems
    }

    /// The categories of all recorded problems, each once, in listing order.
    pub fn problem_categories(&self) -> (categories: &Vec<ProblemCategory>)
        ensures
            categories@ == self@.problem_categories,
    {
        &self.problem_categories
    }

    /// The problems that are shown, in display order.
    pub fn problems(&self) -> (problems: &Vec<Problem>)
        ensures
            problem_views(problems@) == self@.problems,
    {
        &self.problems
    }
}

impl Problems {
    /// The summary of the collection for the file named `actual_filename`.
    pub fn display_data(&self, actual_filename: &str) -> (data: DisplayProblems)
        requires
            self@.total() <= usize::MAX,
        ensures
            data@ == self@.summary(actual_filename@),
    {
        let mut shown = self.displayable_problems();
        let mut problems: Vec<Problem> = Vec::new();
        assert(problem_views(problems@) + shown.remaining() =~= self@.displayed());
        loop
            invariant
                shown.wf(),
                problem_views(problems@) + shown.remaining() == self@.displayed(),
            ensures
                problem_views(problems@) == self@.displayed(),
            decreases shown.remaining().len(),
        {
            let ghost before = shown.remaining();
            let ghost gathered = problems@;
            match shown.next() {
                Some(problem) => {
                    problems.push(problem);
                    assert(problem_views(problems@) + shown.remaining() =~= problem_views(gathered)
                        + before);
                },
                None => {
                    assert(problem_views(problems@) =~= problem_views(problems@) + before);
                    break ;
                },
            }
        }
        let num_problems = self.len();
        DisplayProblems {
            actual_filename: String::from_str(actual_filename),
            num_problems,
            found_max_problems: num_problems >= self.max_problems_to_display,
            problem_categories: self.categories(),
            problems,
        }
    }
}

} // verus!
