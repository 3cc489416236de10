//! What the library and its driver say to each other.
//!
//! The library decides and the driver acts. The library hands the driver one
//! [`Action`] at a time; the driver performs it and answers with the [`Event`]
//! that says how it went. `ShowUsage`, `Fail` and `Stop` end the run and are
//! not answered.

use vstd::prelude::*;

verus! {

/// One file of the log directory.
#[derive(Clone, Debug, PartialEq, Eq)]
pub struct SourceFile {
    /// Where the file is.
    pub path: String,
    /// The last component of `path`.
    pub name: String,
}

/// A source file as plain text.
pub struct SourceFileView {
    pub path: Seq<char>,
    pub name: Seq<char>,
}

impl View for SourceFile {
    type V = SourceFileView;

    open spec fn view(&self) -> SourceFileView {
        SourceFileView { path: self.path@, name: self.name@ }
    }
}

impl DeepView for SourceFile {
    type V = SourceFileView;

    open spec fn deep_view(&self) -> SourceFileView {
        self@
    }
}

/// How a child process ended.
#[derive(Clone, Debug, PartialEq, Eq)]
pub struct ExitReport {
    /// The exit code, or `None` when the process was ended by a signal.
    pub code: Option<i32>,
    /// The exit code or signal in words.
    pub detail: String,
}

/// An exit report as plain text.
pub struct ExitReportView {
    pub code: Option<i32>,
    pub detail: Seq<char>,
}

impl View for ExitReport {
    type V = ExitReportView;

    open spec fn view(&self) -> ExitReportView {
        ExitReportView { code: self.code, detail: self.detail@ }
    }
}

impl ExitReportView {
    /// A process has succeeded when it exited with code zero.
    pub open spec fn success(self) -> bool {
        self.code == Some(0i32)
    }
}

/// What the driver is asked to do.
#[derive(Clone, Debug, PartialEq, Eq)]
pub enum Action {
    /// Write `text` to standard error. Ends the run.
    ShowUsage { text: String },
    /// List the entries of the directory `path`, one level deep.
    ListDirectory { path: String },
    /// Write `text` to standard output and flush it.
    Print { text: String },
    /// Create a fresh temporary directory for the current file alone.
    AcquireTempDir,
    /// Run `program` with `arguments` as a child process and wait for it.
    Encrypt { program: String, arguments: Vec<String> },
    /// Store the bytes of the local file `path` in `bucket` under `key`, with no
    /// metadata.
    Upload { bucket: String, key: String, path: String },
    /// Delete the source file `path`.
    DeleteSource { path: String },
    /// Remove the current file's temporary directory with everything in it.
    ReleaseTempDir,
    /// Write `detail` to standard error. Ends the run.
    Fail { detail: String },
    /// Nothing is left to do. Ends the run.
    Stop,
}

/// An action as plain text.
pub enum ActionView {
    ShowUsage { text: Seq<char> },
    ListDirectory { path: Seq<char> },
    Print { text: Seq<char> },
    AcquireTempDir,
    Encrypt { program: Seq<char>, arguments: Seq<Seq<char>> },
    Upload { bucket: Seq<char>, key: Seq<char>, path: Seq<char> },
    DeleteSource { path: Seq<char> },
    ReleaseTempDir,
    Fail { detail: Seq<char> },
    Stop,
}

impl View for Action {
    type V = ActionView;

    open spec fn view(&self) -> ActionView {
        match *self {
            Action::ShowUsage { text } => ActionView::ShowUsage { text: text@ },
            Action::ListDirectory { path } => ActionView::ListDirectory { path: path@ },
            Action::Print { text } => ActionView::Print { text: text@ },
            Action::AcquireTempDir => ActionView::AcquireTempDir,
            Action::Encrypt { program, arguments } => ActionView::Encrypt {
                program: program@,
                arguments: arguments.deep_view(),
            },
            Action::Upload { bucket, key, path } => ActionView::Upload {
                bucket: bucket@,
                key: key@,
                path: path@,
            },
            Action::DeleteSource { path } => ActionView::DeleteSource { path: path@ },
            Action::ReleaseTempDir => ActionView::ReleaseTempDir,
            Action::Fail { detail } => ActionView::Fail { detail: detail@ },
            Action::Stop => ActionView::Stop,
        }
    }
}

/// How the driver answers an action. An error carries its description.
#[derive(Debug, PartialEq, Eq)]
pub enum Event {
    /// Answers `ListDirectory` with the directory's entries.
    Listed(Result<Vec<SourceFile>, String>),
    /// Answers `AcquireTempDir` with the path of the new directory.
    TempDir(Result<String, String>),
    /// Answers `Encrypt` with how the child process ended, or with the reason
    /// it could not be run.
    Exited(Result<ExitReport, String>),
    /// Answers `Print`, `Upload`, `DeleteSource` and `ReleaseTempDir`.
    Finished(Result<(), String>),
}

/// An event as plain text.
pub enum EventView {
    Listed(Result<Seq<SourceFileView>, Seq<char>>),
    TempDir(Result<Seq<char>, Seq<char>>),
    Exited(Result<ExitReportView, Seq<char>>),
    Finished(Result<(), Seq<char>>),
}

/// The outcome of a step, or of the work on a file, as plain text.
pub open spec fn outcome_view(outcome: Result<(), String>) -> Result<(), Seq<char>> {
    match outcome {
        Ok(_) => Ok(()),
        Err(detail) => Err(detail@),
    }
}

impl View for Event {
    type V = EventView;

    open spec fn view(&self) -> EventView {
        match *self {
            Event::Listed(Ok(files)) => EventView::Listed(Ok(files.deep_view())),
            Event::Listed(Err(detail)) => EventView::Listed(Err(detail@)),
            Event::TempDir(Ok(path)) => EventView::TempDir(Ok(path@)),
            Event::TempDir(Err(detail)) => EventView::TempDir(Err(detail@)),
            Event::Exited(Ok(report)) => EventView::Exited(Ok(report@)),
            Event::Exited(Err(detail)) => EventView::Exited(Err(detail@)),
            Event::Finished(outcome) => EventView::Finished(outcome_view(outcome)),
        }
    }
}

/// The error of a step whose answer belongs to some other action.
pub open spec fn unexpected_event() -> Seq<char> {
    "unexpected event"@
}

} // verus!
