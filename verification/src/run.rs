//! Whole runs: what a run prints and returns, stated from its arguments and
//! from what came of each source, and proved of the driver.

use vstd::prelude::*;
use crate::args::Metrics;
use crate::driver::{
    lemma_step_well_formed, source_line, total_label, DriverState, Line, RequestView,
    ResponseView, Stage,
};
use crate::errors::Failure;
use crate::process::{count_text, file_result, Outcome};
use crate::record::{total_of, Counts};
use crate::utils::error_text;

verus! {

/// The state of a driver after it took `responses` one after the other, and
/// the lines that it gave on the way, in their order.
pub open spec fn run(state: DriverState, responses: Seq<ResponseView>) -> (DriverState, Seq<Line>)
    decreases responses.len(),
{
    if responses.len() == 0 {
        (state, Seq::empty())
    } else {
        let (next, lines) = state.step(responses[0]);
        let (last, more) = run(next, responses.drop_first());
        (last, lines + more)
    }
}

/// What a host answers for one file, by what came of it: that the path is
/// not valid, or that it is and what reading gave.
pub open spec fn responses_for(outcome: Outcome) -> Seq<ResponseView> {
    match outcome {
        Outcome::NotFound => seq![ResponseView::PathChecked(false)],
        Outcome::ReadFailed(description) => seq![
            ResponseView::PathChecked(true),
            ResponseView::FileFailed(description),
        ],
        Outcome::Content(content) => seq![
            ResponseView::PathChecked(true),
            ResponseView::FileRead(content),
        ],
    }
}

/// What a host answers for a list of files, one file after the other.
pub open spec fn responses_for_all(outcomes: Seq<Outcome>) -> Seq<ResponseView>
    decreases outcomes.len(),
{
    if outcomes.len() == 0 {
        Seq::empty()
    } else {
        responses_for(outcomes[0]) + responses_for_all(outcomes.drop_first())
    }
}

/// The inputs of a run over files: the flags, the paths, and what came of
/// reading each path.
pub struct FileRun {
    pub metrics: Metrics,
    pub paths: Seq<Seq<char>>,
    pub outcomes: Seq<Outcome>,
}

impl FileRun {
    /// Whether there is a path, and an outcome for each path.
    pub open spec fn well_formed(self) -> bool {
        0 < self.paths.len() == self.outcomes.len()
    }

    /// What processing the file of index `i` gives.
    pub open spec fn result(self, i: int) -> Result<Counts, Failure> {
        file_result(self.paths[i], self.outcomes[i], self.metrics.or_default())
    }

    /// The records of the files among the first `k` that were read, in the
    /// order of the paths.
    pub open spec fn records(self, k: int) -> Seq<Counts>
        decreases k,
    {
        if k <= 0 {
            Seq::empty()
        } else {
            match self.result(k - 1) {
                Ok(record) => self.records(k - 1).push(record),
                Err(_) => self.records(k - 1),
            }
        }
    }

    /// Whether one of the first `k` files was not read.
    pub open spec fn failed(self, k: int) -> bool {
        exists|i: int| 0 <= i < k && !(#[trigger] self.outcomes[i] is Content)
    }

    /// The total of the first `k` files: the sum of the records of those
    /// that were read.
    pub open spec fn total(self, k: int) -> Counts {
        total_of(total_label(), self.records(k))
    }

    /// The lines of the run: for each path in its order the line of its
    /// record or of its error, and after them the line of the total if there
    /// are two paths or more.
    pub open spec fn lines(self) -> Seq<Line> {
        let sources = Seq::new(self.paths.len(), |i: int| source_line(self.result(i)));
        if self.paths.len() >= 2 {
            sources.push(Line::Stdout(self.total(self.paths.len() as int).line()))
        } else {
            sources
        }
    }

    /// The exit status of the run: 1 if a file was not read, else 0.
    pub open spec fn exit_code(self) -> int {
        if self.failed(self.paths.len() as int) {
            1
        } else {
            0
        }
    }

    /// The state of the driver when `k` files are dealt with.
    pub open spec fn state(self, k: int) -> DriverState {
        DriverState {
            metrics: self.metrics.or_default(),
            paths: self.paths,
            position: k,
            stage: if k < self.paths.len() {
                Stage::Checking
            } else {
                Stage::Done
            },
            total: self.total(k),
            failed: self.failed(k),
        }
    }

    /// The lines from the file of index `k` on. The line of the total comes
    /// with the last file.
    pub open spec fn lines_from(self, k: int) -> Seq<Line> {
        if k < self.paths.len() {
            self.lines().skip(k)
        } else {
            Seq::empty()
        }
    }

    /// The lines that the file of index `k` gives: its own, and after the
    /// last file the line of the total if there are two paths or more.
    pub open spec fn lines_of(self, k: int) -> Seq<Line> {
        if k + 1 == self.paths.len() && self.paths.len() >= 2 {
            seq![
                source_line(self.result(k)),
                Line::Stdout(self.total(self.paths.len() as int).line()),
            ]
        } else {
            seq![source_line(self.result(k))]
        }
    }
}

/// Whatever the responses, the state stays well-formed.
pub proof fn lemma_run_well_formed(state: DriverState, responses: Seq<ResponseView>)
    requires
        state.well_formed(),
    ensures
        run(state, responses).0.well_formed(),
    decreases responses.len(),
{
    if responses.len() > 0 {
        lemma_step_well_formed(state, responses[0]);
        lemma_run_well_formed(state.step(responses[0]).0, responses.drop_first());
    }
}

/// Taking responses one list after another is taking them all in one list.
pub proof fn lemma_run_concat(
    state: DriverState,
    first: Seq<ResponseView>,
    second: Seq<ResponseView>,
)
    ensures
        run(state, first + second) == ({
            let (middle, lines) = run(state, first);
            let (last, more) = run(middle, second);
            (last, lines + more)
        }),
    decreases first.len(),
{
    if first.len() == 0 {
        assert(first + second =~= second);
        assert(run(state, first).1 + run(state, second).1 =~= run(state, second).1);
    } else {
        let (next, lines) = state.step(first[0]);
        assert((first + second).drop_first() =~= first.drop_first() + second);
        assert((first + second)[0] == first[0]);
        lemma_run_concat(next, first.drop_first(), second);
        let (middle, some) = run(next, first.drop_first());
        let (last, more) = run(middle, second);
        assert(lines + (some + more) =~= (lines + some) + more);
    }
}

/// The responses for one file take the driver through that file: from the
/// check of its path to the state and the lines that its outcome gives.
pub proof fn lemma_run_one_file(state: DriverState, outcome: Outcome)
    requires
        state.stage is Checking,
    ensures
        run(state, responses_for(outcome)) == state.finish_source(outcome),
{
    let responses = responses_for(outcome);
    match outcome {
        Outcome::NotFound => {
            assert(responses.drop_first() =~= Seq::<ResponseView>::empty());
            let (next, lines) = state.step(responses[0]);
            assert(run(next, responses.drop_first()) == (next, Seq::<Line>::empty()));
            assert(lines + Seq::<Line>::empty() =~= lines);
        },
        _ => {
            let reading = state.step(responses[0]).0;
            let rest = responses.drop_first();
            assert(rest.drop_first() =~= Seq::<ResponseView>::empty());
            let (next, lines) = reading.step(rest[0]);
            assert(run(next, rest.drop_first()) == (next, Seq::<Line>::empty()));
            assert(run(reading, rest) == (next, lines + Seq::<Line>::empty()));
            assert(Seq::<Line>::empty() + (lines + Seq::<Line>::empty()) =~= lines);
        },
    }
}

/// One more file was not read among the first `k + 1` exactly if one was
/// among the first `k`, or the file of index `k` was not.
pub proof fn lemma_failed_next(files: FileRun, k: int)
    requires
        0 <= k,
    ensures
        files.failed(k + 1) == (files.failed(k) || !(files.outcomes[k] is Content)),
{
    if files.failed(k) {
        let i = choose|i: int| 0 <= i < k && !(#[trigger] files.outcomes[i] is Content);
        assert(0 <= i < k + 1 && !(files.outcomes[i] is Content));
    }
}

/// The file of index `k` takes the driver from the state in which `k` files
/// are dealt with to the state in which `k + 1` are, and gives its line, and
/// after the last file the line of the total if there are two paths or more.
pub proof fn lemma_finish_file(files: FileRun, k: int)
    requires
        files.well_formed(),
        0 <= k < files.paths.len(),
    ensures
        files.state(k).finish_source(files.outcomes[k]) == (
            files.state(k + 1),
            files.lines_of(k),
        ),
{
    lemma_failed_next(files, k);
    let (next, lines) = files.state(k).finish_source(files.outcomes[k]);
    match files.result(k) {
        Ok(record) => {
            assert(files.records(k + 1).drop_last() =~= files.records(k));
        },
        Err(_) => {},
    }
    assert(next.total == files.total(k + 1));
    assert(lines =~= files.lines_of(k));
}

/// The lines from the file of index `k` on are the lines that this file
/// gives and then the lines from the next file on.
pub proof fn lemma_lines_from(files: FileRun, k: int)
    requires
        files.well_formed(),
        0 <= k < files.paths.len(),
    ensures
        files.lines_from(k) == files.lines_of(k) + files.lines_from(k + 1),
{
    let n = files.paths.len() as int;
    let all = files.lines();
    let here = files.lines_of(k);
    let after = files.lines_from(k + 1);
    assert(all.len() == if n >= 2 {
        n + 1
    } else {
        n
    });
    assert(all[k] == source_line(files.result(k)));
    assert(here.len() + after.len() == all.len() - k);
    assert forall|j: int| 0 <= j < all.len() - k implies #[trigger] all.skip(k)[j] == (here
        + after)[j] by {
        if j >= here.len() {
            assert(after[j - here.len()] == all[j - here.len() + k + 1]);
        }
    }
    assert(files.lines_from(k) =~= here + after);
}

/// From the state in which `k` files are dealt with, the answers for the
/// other files take the driver to the state in which all are, and give the
/// lines from the file of index `k` on.
pub proof fn lemma_run_from(files: FileRun, k: int)
    requires
        files.well_formed(),
        0 <= k <= files.paths.len(),
    ensures
        run(files.state(k), responses_for_all(files.outcomes.skip(k))) == (
            files.state(files.paths.len() as int),
            files.lines_from(k),
        ),
    decreases files.paths.len() - k,
{
    let rest = files.outcomes.skip(k);
    if k == files.paths.len() {
        assert(rest =~= Seq::<Outcome>::empty());
    } else {
        let state = files.state(k);
        let outcome = files.outcomes[k];
        assert(rest[0] == outcome);
        assert(rest.drop_first() =~= files.outcomes.skip(k + 1));
        lemma_run_concat(state, responses_for(outcome), responses_for_all(rest.drop_first()));
        lemma_run_one_file(state, outcome);
        lemma_finish_file(files, k);
        lemma_run_from(files, k + 1);
        lemma_lines_from(files, k);
    }
}

/// A run over files prints the lines of its files in the order of the paths,
/// each as its source gave a record or an error, and then the total if two
/// paths or more were given, however many of them failed. It ends with the
/// request to exit, with status 1 if a file failed and with 0 otherwise.
pub proof fn lemma_run_over_files(files: FileRun)
    requires
        files.well_formed(),
    ensures
        ({
            let start = DriverState::initial(files.metrics, files.paths);
            let (end, lines) = run(start, responses_for_all(files.outcomes));
            &&& lines == files.lines()
            &&& end.pending() == RequestView::Exit(files.exit_code())
        }),
{
    assert(files.outcomes.skip(0) =~= files.outcomes);
    assert(files.lines_from(0) =~= files.lines());
    assert(files.records(0) =~= Seq::<Counts>::empty());
    assert(DriverState::initial(files.metrics, files.paths) == files.state(0));
    lemma_run_from(files, 0);
}

/// A run without paths reads the standard input once. It prints the record
/// of the content under the empty label and exits with 0, or reports the
/// failure and exits with 1. Neither prints a total.
pub proof fn lemma_run_over_stdin(metrics: Metrics, input: Result<Seq<char>, Seq<char>>)
    ensures
        ({
            let start = DriverState::initial(metrics, Seq::empty());
            let response = match input {
                Ok(content) => ResponseView::StdinRead(content),
                Err(description) => ResponseView::StdinFailed(description),
            };
            let (end, lines) = start.step(response);
            &&& start.pending() == RequestView::ReadStdin
            &&& match input {
                Ok(content) => {
                    &&& lines == seq![
                        Line::Stdout(
                            count_text(Seq::empty(), content, metrics.or_default()).line(),
                        ),
                    ]
                    &&& end.pending() == RequestView::Exit(0)
                },
                Err(description) => {
                    &&& lines == seq![
                        Line::Stderr(error_text("Error reading from stdin: "@ + description)),
                    ]
                    &&& end.pending() == RequestView::Exit(1)
                },
            }
        }),
{
}

} // verus!
