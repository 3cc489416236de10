//! The run as a whole: read the command line, list the log directory, and ship
//! its files one after the other.
//!
//! A run is a state machine over the pipeline of the file at hand. Before a
//! file is worked on its path is printed; after it, `ok`, or `fail` with the
//! error on a line of its own. Whatever happens to one file, the next is taken
//! up. Only a command line that cannot be read or a directory that cannot be
//! listed ends the run early, and then before any file is touched.

use crate::args::{
    parameters, read_parameters, usage_banner, usage_text, Parameters, ParametersView,
};
use crate::pipeline::{advance, advance_model, begin, Progress, ProgressView, Stage, StageView};
use crate::protocol::{
    unexpected_event, Action, ActionView, Event, EventView, SourceFile, SourceFileView,
};
use vstd::prelude::*;
use vstd::string::*;

verus! {

/// What a run is waiting for.
#[derive(Debug, PartialEq, Eq)]
pub enum Phase {
    /// The entries of the log directory.
    Listing,
    /// The current file's path to be printed.
    Announcing,
    /// The current file's pipeline, which stands at `stage`.
    Running { stage: Stage },
    /// The current file's result to be printed.
    Reporting,
}

/// A phase as plain text.
pub enum PhaseView {
    Listing,
    Announcing,
    Running { stage: StageView },
    Reporting,
}

impl View for Phase {
    type V = PhaseView;

    open spec fn view(&self) -> PhaseView {
        match *self {
            Phase::Listing => PhaseView::Listing,
            Phase::Announcing => PhaseView::Announcing,
            Phase::Running { stage } => PhaseView::Running { stage: stage@ },
            Phase::Reporting => PhaseView::Reporting,
        }
    }
}

/// A run that has not ended: its configuration, the files of the directory in
/// the order in which they were listed, and the one it is working on.
#[derive(Debug)]
pub struct Run {
    params: Parameters,
    files: Vec<SourceFile>,
    index: usize,
    phase: Phase,
}

/// A run as plain values.
pub struct RunView {
    pub params: ParametersView,
    pub files: Seq<SourceFileView>,
    pub index: int,
    pub phase: PhaseView,
}

impl RunView {
    /// Until the directory is listed a run knows no file; from then on it
    /// always has a current one.
    pub open spec fn well_formed(self) -> bool {
        if self.phase is Listing {
            self.files.len() == 0 && self.index == 0
        } else {
            0 <= self.index < self.files.len()
        }
    }
}

impl View for Run {
    type V = RunView;

    closed spec fn view(&self) -> RunView {
        RunView {
            params: self.params@,
            files: self.files.deep_view(),
            index: self.index as int,
            phase: self.phase@,
        }
    }
}

/// A run that may have ended, as plain values.
pub open spec fn run_view(run: Option<Run>) -> Option<RunView> {
    match run {
        Some(run) => Some(run@),
        None => None,
    }
}

/// What is printed before a file is worked on.
pub open spec fn progress_text(path: Seq<char>) -> Seq<char> {
    "- "@ + path + ": "@
}

/// What is printed after a file has been worked on.
pub open spec fn report_text(outcome: Result<(), Seq<char>>) -> Seq<char> {
    match outcome {
        Ok(_) => "ok\n"@,
        Err(detail) => "fail\n"@ + detail + "\n"@,
    }
}

/// The name the program was called by: the first argument, if there is one.
pub open spec fn program_name(tokens: Seq<Seq<char>>) -> Seq<char> {
    if tokens.len() > 0 {
        tokens[0]
    } else {
        Seq::empty()
    }
}

/// How a run begins. With a command line that gives all four parameters the
/// log directory is listed. With any other the usage banner is shown and there
/// is no run.
pub open spec fn start_model(tokens: Seq<Seq<char>>) -> (Option<RunView>, ActionView) {
    match parameters(tokens) {
        Ok(params) => (
            Some(RunView { params, files: Seq::empty(), index: 0, phase: PhaseView::Listing }),
            ActionView::ListDirectory { path: params.log_dir },
        ),
        Err(message) => (
            None,
            ActionView::ShowUsage { text: usage_text(program_name(tokens), message) },
        ),
    }
}

/// Takes up the file at `index`, or stops when there is none.
pub open spec fn enter(params: ParametersView, files: Seq<SourceFileView>, index: int) -> (
    Option<RunView>,
    ActionView,
) {
    if 0 <= index < files.len() {
        (
            Some(RunView { params, files, index, phase: PhaseView::Announcing }),
            ActionView::Print { text: progress_text(files[index].path) },
        )
    } else {
        (None, ActionView::Stop)
    }
}

/// What a run does when its last action is answered `event`.
///
/// A listing that failed, or an answer to anything but the listing, is fatal.
/// Once a file's path is printed its pipeline begins, and goes on from event to
/// event until it has an outcome, which is printed. Then the next file is taken
/// up, whatever the outcome was, and after the last file the run stops.
pub open spec fn step_model(run: RunView, event: EventView) -> (Option<RunView>, ActionView) {
    match run.phase {
        PhaseView::Listing => match event {
            EventView::Listed(Ok(files)) => enter(run.params, files, 0),
            EventView::Listed(Err(detail)) => (None, ActionView::Fail { detail }),
            _ => (None, ActionView::Fail { detail: unexpected_event() }),
        },
        PhaseView::Announcing => (
            Some(RunView { phase: PhaseView::Running { stage: StageView::Acquiring }, ..run }),
            ActionView::AcquireTempDir,
        ),
        PhaseView::Running { stage } => match advance_model(
            run.params,
            run.files[run.index],
            stage,
            event,
        ) {
            ProgressView::Next { stage, action } => (
                Some(RunView { phase: PhaseView::Running { stage }, ..run }),
                action,
            ),
            ProgressView::Done { outcome } => (
                Some(RunView { phase: PhaseView::Reporting, ..run }),
                ActionView::Print { text: report_text(outcome) },
            ),
        },
        PhaseView::Reporting => enter(run.params, run.files, run.index + 1),
    }
}

/// Builds what is printed before a file is worked on.
pub fn make_progress_text(path: &str) -> (text: String)
    ensures
        text@ == progress_text(path@),
{
    String::from_str("- ").concat(path).concat(": ")
}

/// Builds what is printed after a file has been worked on.
pub fn make_report_text(outcome: &Result<(), String>) -> (text: String)
    ensures
        text@ == report_text(crate::protocol::outcome_view(*outcome)),
{
    match outcome {
        Ok(_) => String::from_str("ok\n"),
        Err(detail) => String::from_str("fail\n").concat(detail.as_str()).concat("\n"),
    }
}

impl Run {
    #[verifier::type_invariant]
    spec fn inv(self) -> bool {
        if self.phase is Listing {
            self.files.len() == 0 && self.index == 0
        } else {
            self.index < self.files.len()
        }
    }

    /// Takes up the file at `index`, or stops when there is none.
    fn enter(params: Parameters, files: Vec<SourceFile>, index: usize) -> (next: (
        Option<Run>,
        Action,
    ))
        ensures
            (run_view(next.0), next.1@) == enter(params@, files.deep_view(), index as int),
    {
        if index < files.len() {
            let text = make_progress_text(files[index].path.as_str());
            (Some(Run { params, files, index, phase: Phase::Announcing }), Action::Print { text })
        } else {
            (None, Action::Stop)
        }
    }

    /// Begins a run on the arguments the program was called with.
    pub fn start(args: &Vec<String>) -> (first: (Option<Run>, Action))
        ensures
            (run_view(first.0), first.1@) == start_model(args.deep_view()),
            run_view(first.0) matches Some(run) ==> run.well_formed(),
    {
        match read_parameters(args) {
            Ok(params) => {
                let path = params.log_dir.clone();
                let files: Vec<SourceFile> = Vec::new();
                assert(files.deep_view() =~= Seq::<SourceFileView>::empty());
                (
                    Some(Run { params, files, index: 0, phase: Phase::Listing }),
                    Action::ListDirectory { path },
                )
            },
            Err(message) => {
                let text = if args.len() > 0 {
                    usage_banner(args[0].as_str(), message.as_str())
                } else {
                    usage_banner("", message.as_str())
                };
                proof {
                    reveal_strlit("");
                    assert(""@ =~= Seq::<char>::empty());
                }
                (None, Action::ShowUsage { text })
            },
        }
    }

    /// Takes the run one step further: from the driver's answer to its last
    /// action to the next action. With `ShowUsage`, `Fail` and `Stop` the run
    /// has ended and no run is handed back.
    pub fn step(self, event: Event) -> (next: (Option<Run>, Action))
        ensures
            self@.well_formed(),
            (run_view(next.0), next.1@) == step_model(self@, event@),
            run_view(next.0) matches Some(run) ==> run.well_formed(),
    {
        proof {
            use_type_invariant(&self);
        }
        let Run { params, files, index, phase } = self;
        match phase {
            Phase::Listing => match event {
                Event::Listed(Ok(listed)) => Run::enter(params, listed, 0),
                Event::Listed(Err(detail)) => (None, Action::Fail { detail }),
                _ => (None, Action::Fail { detail: String::from_str("unexpected event") }),
            },
            Phase::Announcing => {
                let (stage, action) = begin();
                (Some(Run { params, files, index, phase: Phase::Running { stage } }), action)
            },
            Phase::Running { stage } => match advance(&params, &files[index], stage, event) {
                Progress::Next { stage, action } => (
                    Some(Run { params, files, index, phase: Phase::Running { stage } }),
                    action,
                ),
                Progress::Done { outcome } => {
                    let text = make_report_text(&outcome);
                    (
                        Some(Run { params, files, index, phase: Phase::Reporting }),
                        Action::Print { text },
                    )
                },
            },
            Phase::Reporting => Run::enter(params, files, index + 1),
        }
    }
}

} // verus!
