//! The command driver: what a run reads, prints and returns, as a state
//! machine. The driver decides; its host does the reading and the printing.
//!
//! A run starts from the arguments. The host then asks the driver what to do
//! next, does it, and hands back what came of it; the driver answers with the
//! lines to print and moves on, until it asks the host to exit.

use vstd::prelude::*;
use crate::args::{Args, Metrics};
use crate::errors::Failure;
use crate::process::{
    count_text, file_result, process_content, process_file, result_view, FileOutcome, Outcome,
};
use crate::record::{Counts, WcResult};
use crate::utils::{error_line, error_text};

verus! {

/// Where a run stands.
#[derive(Clone, Copy, Debug)]
pub enum Stage {
    /// The standard input is to be read: no path was given.
    Stdin,
    /// The current path is to be checked.
    Checking,
    /// The current path names a file, which is to be read.
    Reading,
    /// Every source was dealt with.
    Done,
}

/// What the driver asks its host to do next.
#[derive(Debug)]
pub enum Request {
    /// Read the standard input to its end.
    ReadStdin,
    /// Say whether this path names a regular file.
    CheckPath(String),
    /// Read the file at this path.
    ReadFile(String),
    /// Exit with this status.
    Exit(i32),
}

/// The mathematical value of a `Request`.
pub enum RequestView {
    ReadStdin,
    CheckPath(Seq<char>),
    ReadFile(Seq<char>),
    Exit(int),
}

impl View for Request {
    type V = RequestView;

    open spec fn view(&self) -> RequestView {
        match self {
            Request::ReadStdin => RequestView::ReadStdin,
            Request::CheckPath(path) => RequestView::CheckPath(path@),
            Request::ReadFile(path) => RequestView::ReadFile(path@),
            Request::Exit(code) => RequestView::Exit(*code as int),
        }
    }
}

/// What the host hands back: what came of the request.
#[derive(Debug)]
pub enum Response {
    /// The standard input was read; holds its content.
    StdinRead(String),
    /// The standard input could not be read or decoded; holds the
    /// description of the failure.
    StdinFailed(String),
    /// The path was checked; holds whether it names a regular file.
    PathChecked(bool),
    /// The file was read; holds its content.
    FileRead(String),
    /// The file could not be read or decoded; holds the description of the
    /// failure.
    FileFailed(String),
}

/// The mathematical value of a `Response`.
pub enum ResponseView {
    StdinRead(Seq<char>),
    StdinFailed(Seq<char>),
    PathChecked(bool),
    FileRead(Seq<char>),
    FileFailed(Seq<char>),
}

impl View for Response {
    type V = ResponseView;

    open spec fn view(&self) -> ResponseView {
        match self {
            Response::StdinRead(content) => ResponseView::StdinRead(content@),
            Response::StdinFailed(description) => ResponseView::StdinFailed(description@),
            Response::PathChecked(valid) => ResponseView::PathChecked(*valid),
            Response::FileRead(content) => ResponseView::FileRead(content@),
            Response::FileFailed(description) => ResponseView::FileFailed(description@),
        }
    }
}

/// A line for the host to print, and the stream to print it on.
#[derive(Debug)]
pub enum OutputLine {
    Stdout(String),
    Stderr(String),
}

/// The mathematical value of an `OutputLine`.
pub enum Line {
    Stdout(Seq<char>),
    Stderr(Seq<char>),
}

impl View for OutputLine {
    type V = Line;

    open spec fn view(&self) -> Line {
        match self {
            OutputLine::Stdout(text) => Line::Stdout(text@),
            OutputLine::Stderr(text) => Line::Stderr(text@),
        }
    }
}

impl DeepView for OutputLine {
    type V = Line;

    open spec fn deep_view(&self) -> Line {
        self@
    }
}

/// The line that a source gives: its record on the output stream, or the
/// report of its error on the error stream.
pub open spec fn source_line(result: Result<Counts, Failure>) -> Line {
    match result {
        Ok(record) => Line::Stdout(record.line()),
        Err(failure) => Line::Stderr(error_text(failure.report())),
    }
}

/// The label of the total.
pub open spec fn total_label() -> Seq<char> {
    "total"@
}

/// The mathematical value of a driver: the state of a run.
pub struct DriverState {
    /// The metrics that the run counts.
    pub metrics: Metrics,
    /// The paths of the run, in their order.
    pub paths: Seq<Seq<char>>,
    /// How many paths were dealt with.
    pub position: int,
    /// What is to be done next.
    pub stage: Stage,
    /// The sum of the records of the files counted so far.
    pub total: Counts,
    /// Whether a source failed.
    pub failed: bool,
}

impl DriverState {
    /// The state in which a run with these flags and paths starts. Where no
    /// metric is selected, the run counts bytes, lines and words.
    pub open spec fn initial(metrics: Metrics, paths: Seq<Seq<char>>) -> DriverState {
        DriverState {
            metrics: metrics.or_default(),
            paths,
            position: 0,
            stage: if paths.len() == 0 {
                Stage::Stdin
            } else {
                Stage::Checking
            },
            total: Counts::empty(total_label()),
            failed: false,
        }
    }

    /// What holds of every state of a run: a metric is selected, the
    /// standard input is read only where no path was given, a path that is
    /// checked or read is one of the paths, and the total is labelled so.
    pub open spec fn well_formed(self) -> bool {
        &&& !self.metrics.is_empty()
        &&& 0 <= self.position <= self.paths.len()
        &&& self.stage is Stdin ==> self.paths.len() == 0
        &&& (self.stage is Checking || self.stage is Reading) ==> self.position < self.paths.len()
        &&& self.total.label == total_label()
    }

    /// The exit status of the run: 1 if a source failed, else 0.
    pub open spec fn exit_code(self) -> int {
        if self.failed {
            1
        } else {
            0
        }
    }

    /// What the host is asked to do in this state.
    pub open spec fn pending(self) -> RequestView {
        match self.stage {
            Stage::Stdin => RequestView::ReadStdin,
            Stage::Checking => RequestView::CheckPath(self.paths[self.position]),
            Stage::Reading => RequestView::ReadFile(self.paths[self.position]),
            Stage::Done => RequestView::Exit(self.exit_code()),
        }
    }

    /// The state and the lines after the standard input gave `result`. The
    /// record has the empty label; there is no total.
    pub open spec fn finish_stdin(self, result: Result<Seq<char>, Seq<char>>) -> (
        DriverState,
        Seq<Line>,
    ) {
        match result {
            Ok(content) => (
                DriverState { stage: Stage::Done, ..self },
                seq![Line::Stdout(count_text(Seq::empty(), content, self.metrics).line())],
            ),
            Err(description) => (
                DriverState { stage: Stage::Done, failed: true, ..self },
                seq![Line::Stderr(error_text("Error reading from stdin: "@ + description))],
            ),
        }
    }

    /// The state and the lines after the current path gave `outcome`. The
    /// source's line is printed at once. A record is added to the total, an
    /// error marks the run as failed, and neither stops the run. After the
    /// last path the total is printed if two or more paths were given,
    /// however many of them failed.
    pub open spec fn finish_source(self, outcome: Outcome) -> (DriverState, Seq<Line>) {
        let result = file_result(self.paths[self.position], outcome, self.metrics);
        let total = match result {
            Ok(record) => self.total.plus(record),
            Err(_) => self.total,
        };
        let failed = self.failed || result is Err;
        let position = self.position + 1;
        if position < self.paths.len() {
            (
                DriverState { position, stage: Stage::Checking, total, failed, ..self },
                seq![source_line(result)],
            )
        } else if self.paths.len() >= 2 {
            (
                DriverState { position, stage: Stage::Done, total, failed, ..self },
                seq![source_line(result), Line::Stdout(total.line())],
            )
        } else {
            (
                DriverState { position, stage: Stage::Done, total, failed, ..self },
                seq![source_line(result)],
            )
        }
    }

    /// The state after `response`, and the lines to print. A response that
    /// does not answer the pending request changes nothing and prints
    /// nothing.
    pub open spec fn step(self, response: ResponseView) -> (DriverState, Seq<Line>) {
        match (self.stage, response) {
            (Stage::Stdin, ResponseView::StdinRead(content)) => self.finish_stdin(Ok(content)),
            (Stage::Stdin, ResponseView::StdinFailed(description)) => self.finish_stdin(
                Err(description),
            ),
            (Stage::Checking, ResponseView::PathChecked(true)) => (
                DriverState { stage: Stage::Reading, ..self },
                Seq::empty(),
            ),
            (Stage::Checking, ResponseView::PathChecked(false)) => self.finish_source(
                Outcome::NotFound,
            ),
            (Stage::Reading, ResponseView::FileRead(content)) => self.finish_source(
                Outcome::Content(content),
            ),
            (Stage::Reading, ResponseView::FileFailed(description)) => self.finish_source(
                Outcome::ReadFailed(description),
            ),
            _ => (self, Seq::empty()),
        }
    }
}

/// A run starts in a well-formed state. It first asks for the standard input
/// if no path was given, and for the check of the first path otherwise.
pub proof fn lemma_initial_well_formed(metrics: Metrics, paths: Seq<Seq<char>>)
    ensures
        DriverState::initial(metrics, paths).well_formed(),
        paths.len() == 0 ==> DriverState::initial(metrics, paths).pending()
            == RequestView::ReadStdin,
        paths.len() > 0 ==> DriverState::initial(metrics, paths).pending() == RequestView::CheckPath(
            paths[0],
        ),
{
}

/// Every step keeps the state well-formed.
pub proof fn lemma_step_well_formed(state: DriverState, response: ResponseView)
    requires
        state.well_formed(),
    ensures
        state.step(response).0.well_formed(),
{
}

/// A step never goes back. It keeps the metrics and the paths, it does not
/// return to a path that was dealt with, and a failure stays: once a source
/// has failed, the exit status is 1. A run that is done stays done, and
/// prints nothing more.
pub proof fn lemma_step_progress(state: DriverState, response: ResponseView)
    ensures
        state.step(response).0.metrics == state.metrics,
        state.step(response).0.paths == state.paths,
        state.step(response).0.position >= state.position,
        state.failed ==> state.step(response).0.failed,
        state.stage is Done ==> state.step(response) == (state, Seq::<Line>::empty()),
{
}

/// The state of a run: the arguments, how far the run has come, and the
/// running total.
pub struct Driver {
    args: Args,
    position: usize,
    stage: Stage,
    total: WcResult,
    failed: bool,
}

impl View for Driver {
    type V = DriverState;

    closed spec fn view(&self) -> DriverState {
        DriverState {
            metrics: self.args.metrics(),
            paths: self.args.paths(),
            position: self.position as int,
            stage: self.stage,
            total: self.total@,
            failed: self.failed,
        }
    }
}

impl Driver {
    #[verifier::type_invariant]
    spec fn holds(self) -> bool {
        self@.well_formed()
    }

    /// Starts a run with these arguments.
    pub fn start(args: Args) -> (driver: Driver)
        ensures
            driver@ == DriverState::initial(args.metrics(), args.paths()),
    {
        let mut args = args;
        args.apply_defaults();
        let stage = if args.file_paths.len() == 0 {
            Stage::Stdin
        } else {
            Stage::Checking
        };
        Driver { args, position: 0, stage, total: WcResult::new("total".to_owned()), failed: false }
    }

    /// The exit status that the run has earned so far: 1 if a source failed,
    /// else 0.
    pub fn exit_code(&self) -> (code: i32)
        ensures
            code == self@.exit_code(),
    {
        if self.failed {
            1
        } else {
            0
        }
    }

    fn finish_source(self, outcome: FileOutcome) -> (next: Option<(Driver, Vec<OutputLine>)>)
        requires
            self@.stage is Checking || self@.stage is Reading,
        ensures
            next is Some <==> self@.finish_source(outcome@).0.total.fits(),
            next matches Some((driver, lines)) ==> {
                &&& driver@ == self@.finish_source(outcome@).0
                &&& lines.deep_view() == self@.finish_source(outcome@).1
            },
    {
        proof {
            use_type_invariant(&self);
        }
        let ghost before = self@;
        let Driver { args, position, stage: _, total, failed } = self;
        let mut total = total;
        let mut failed = failed;
        let mut lines: Vec<OutputLine> = Vec::new();
        assert(position < args.file_paths.len());
        let result = process_file(args.file_paths[position].as_str(), outcome, &args);
        match result {
            Ok(record) => {
                if !total.can_add(&record) {
                    return None;
                }
                lines.push(OutputLine::Stdout(record.format()));
                total.add(&record);
            },
            Err(error) => {
                let report = error.report();
                lines.push(OutputLine::Stderr(error_line(report.as_str())));
                failed = true;
            },
        }
        let position: usize = position + 1;
        let stage = if position < args.file_paths.len() {
            Stage::Checking
        } else {
            if args.file_paths.len() >= 2 {
                lines.push(OutputLine::Stdout(total.format()));
            }
            Stage::Done
        };
        let driver = Driver { args, position, stage, total, failed };
        assert(driver@ == before.finish_source(outcome@).0);
        assert(lines.deep_view() =~= before.finish_source(outcome@).1);
        Some((driver, lines))
    }

    /// Takes what came of the pending request, and gives the state that
    /// follows and the lines to print, in their order. Gives `None` where a
    /// count of the total would not fit in `usize`: the run then cannot go
    /// on.
    pub fn advance(self, response: Response) -> (next: Option<(Driver, Vec<OutputLine>)>)
        ensures
            next is Some <==> self@.step(response@).0.total.fits(),
            next matches Some((driver, lines)) ==> {
                &&& driver@ == self@.step(response@).0
                &&& lines.deep_view() == self@.step(response@).1
            },
    {
        proof {
            use_type_invariant(&self);
        }
        let ghost before = self@;
        match (self.stage, response) {
            (Stage::Stdin, Response::StdinRead(content)) => {
                let Driver { args, position, stage: _, total, failed } = self;
                proof {
                    reveal_strlit("");
                    assert(""@ =~= Seq::<char>::empty());
                }
                let record = process_content("", content.as_str(), &args);
                let lines: Vec<OutputLine> = vec![OutputLine::Stdout(record.format())];
                let driver = Driver { args, position, stage: Stage::Done, total, failed };
                assert(lines.deep_view() =~= before.step(response@).1);
                Some((driver, lines))
            },
            (Stage::Stdin, Response::StdinFailed(description)) => {
                let Driver { args, position, stage: _, total, failed: _ } = self;
                let error = "Error reading from stdin: ".to_owned().concat(description.as_str());
                let lines: Vec<OutputLine> = vec![OutputLine::Stderr(error_line(error.as_str()))];
                let driver = Driver { args, position, stage: Stage::Done, total, failed: true };
                assert(lines.deep_view() =~= before.step(response@).1);
                Some((driver, lines))
            },
            (Stage::Checking, Response::PathChecked(true)) => {
                let Driver { args, position, stage: _, total, failed } = self;
                let lines: Vec<OutputLine> = Vec::new();
                let driver = Driver { args, position, stage: Stage::Reading, total, failed };
                assert(lines.deep_view() =~= before.step(response@).1);
                Some((driver, lines))
            },
            (Stage::Checking, Response::PathChecked(false)) => self.finish_source(
                FileOutcome::NotFound,
            ),
            (Stage::Reading, Response::FileRead(content)) => self.finish_source(
                FileOutcome::Content(content),
            ),
            (Stage::Reading, Response::FileFailed(description)) => self.finish_source(
                FileOutcome::ReadFailed(description),
            ),
            _ => {
                let lines: Vec<OutputLine> = Vec::new();
                assert(lines.deep_view() =~= before.step(response@).1);
                Some((self, lines))
            },
        }
    }

    /// What the host is to do next. The state of a driver is always
    /// well-formed.
    pub fn pending(&self) -> (request: Request)
        ensures
            request@ == self@.pending(),
            self@.well_formed(),
    {
        proof {
            use_type_invariant(self);
        }
        match self.stage {
            Stage::Stdin => Request::ReadStdin,
            Stage::Checking => Request::CheckPath(self.args.file_paths[self.position].clone()),
            Stage::Reading => Request::ReadFile(self.args.file_paths[self.position].clone()),
            Stage::Done => Request::Exit(self.exit_code()),
        }
    }
}

} // verus!
