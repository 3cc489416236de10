//! The pipeline that ships one file: encrypt and sign it into a temporary
//! directory, upload the result, and delete the source once the upload is
//! confirmed.
//!
//! The pipeline is a state machine. Each step takes the stage it stands at and
//! the driver's answer to its last action, and gives the next stage and action,
//! or the outcome. A failure at any step ends the pipeline at once, after the
//! temporary directory, if there is one, has been released. Nothing is tried
//! twice.

use crate::args::{Parameters, ParametersView};
use crate::protocol::{
    outcome_view, unexpected_event, Action, ActionView, Event, EventView, SourceFile,
    SourceFileView,
};
use vstd::prelude::*;
use vstd::string::*;

verus! {

/// Where the pipeline stands: which answer it is waiting for.
#[derive(Debug, PartialEq, Eq)]
pub enum Stage {
    /// Waiting for the temporary directory.
    Acquiring,
    /// Waiting for the encryption that writes `artifact`.
    Encrypting { artifact: String },
    /// Waiting for the upload.
    Uploading,
    /// Waiting for the deletion of the source.
    Deleting,
    /// Waiting for the temporary directory to be gone; `outcome` is settled.
    Releasing { outcome: Result<(), String> },
}

/// A stage as plain text.
pub enum StageView {
    Acquiring,
    Encrypting { artifact: Seq<char> },
    Uploading,
    Deleting,
    Releasing { outcome: Result<(), Seq<char>> },
}

impl View for Stage {
    type V = StageView;

    open spec fn view(&self) -> StageView {
        match *self {
            Stage::Acquiring => StageView::Acquiring,
            Stage::Encrypting { artifact } => StageView::Encrypting { artifact: artifact@ },
            Stage::Uploading => StageView::Uploading,
            Stage::Deleting => StageView::Deleting,
            Stage::Releasing { outcome } => StageView::Releasing { outcome: outcome_view(outcome) },
        }
    }
}

/// What an event leads to: the next action, or the end of the pipeline.
#[derive(Debug, PartialEq, Eq)]
pub enum Progress {
    Next { stage: Stage, action: Action },
    Done { outcome: Result<(), String> },
}

/// Progress as plain text.
pub enum ProgressView {
    Next { stage: StageView, action: ActionView },
    Done { outcome: Result<(), Seq<char>> },
}

impl View for Progress {
    type V = ProgressView;

    open spec fn view(&self) -> ProgressView {
        match *self {
            Progress::Next { stage, action } => ProgressView::Next {
                stage: stage@,
                action: action@,
            },
            Progress::Done { outcome } => ProgressView::Done { outcome: outcome_view(outcome) },
        }
    }
}

/// The program that encrypts and signs.
pub open spec fn encrypt_program() -> Seq<char> {
    "gpg"@
}

/// The arguments of the encrypting program: encrypt for `recipient`, sign as
/// `signer`, write to `output`, never prompt, record no file name in the
/// container, read `input`.
pub open spec fn encrypt_arguments(
    recipient: Seq<char>,
    signer: Seq<char>,
    output: Seq<char>,
    input: Seq<char>,
) -> Seq<Seq<char>> {
    seq![
        "--recipient"@,
        recipient,
        "--local-user"@,
        signer,
        "--encrypt"@,
        "--sign"@,
        "-o"@,
        output,
        "--batch"@,
        "--set-filename"@,
        ""@,
        input,
    ]
}

/// Where the encrypted file goes: into the temporary directory, under the
/// source file's own name.
pub open spec fn artifact_path(temp_dir: Seq<char>, name: Seq<char>) -> Seq<char> {
    temp_dir + "/"@ + name
}

/// The key under which a file is stored: the prefix and the file's name, with
/// nothing between them.
pub open spec fn remote_key(prefix: Seq<char>, name: Seq<char>) -> Seq<char> {
    prefix + name
}

/// The step that releases the temporary directory once `outcome` is settled.
pub open spec fn release(outcome: Result<(), Seq<char>>) -> ProgressView {
    ProgressView::Next {
        stage: StageView::Releasing { outcome },
        action: ActionView::ReleaseTempDir,
    }
}

/// What the pipeline for `file` does at `stage` when it is answered `event`.
///
/// Each stage goes on only on the one event that reports the success of its
/// action. Any other event settles the outcome as an error: with the event's
/// own description where it reports a failure, with that of the exit report
/// where the child process ran and did not exit with zero, and with
/// `unexpected_event` where it answers another action. The source is deleted
/// only on a successful upload, and the result of the deletion is the outcome
/// of the pipeline.
pub open spec fn advance_model(
    p: ParametersView,
    file: SourceFileView,
    stage: StageView,
    event: EventView,
) -> ProgressView {
    match stage {
        StageView::Acquiring => match event {
            EventView::TempDir(Ok(temp_dir)) => ProgressView::Next {
                stage: StageView::Encrypting { artifact: artifact_path(temp_dir, file.name) },
                action: ActionView::Encrypt {
                    program: encrypt_program(),
                    arguments: encrypt_arguments(
                        p.encrypt_key,
                        p.signing_key,
                        artifact_path(temp_dir, file.name),
                        file.path,
                    ),
                },
            },
            EventView::TempDir(Err(detail)) => ProgressView::Done { outcome: Err(detail) },
            _ => ProgressView::Done { outcome: Err(unexpected_event()) },
        },
        StageView::Encrypting { artifact } => match event {
            EventView::Exited(Ok(report)) => if report.success() {
                ProgressView::Next {
                    stage: StageView::Uploading,
                    action: ActionView::Upload {
                        bucket: p.s3_bucket,
                        key: remote_key(p.s3_path, file.name),
                        path: artifact,
                    },
                }
            } else {
                release(Err(report.detail))
            },
            EventView::Exited(Err(detail)) => release(Err(detail)),
            _ => release(Err(unexpected_event())),
        },
        StageView::Uploading => match event {
            EventView::Finished(Ok(_)) => ProgressView::Next {
                stage: StageView::Deleting,
                action: ActionView::DeleteSource { path: file.path },
            },
            EventView::Finished(Err(detail)) => release(Err(detail)),
            _ => release(Err(unexpected_event())),
        },
        StageView::Deleting => match event {
            EventView::Finished(outcome) => release(outcome),
            _ => release(Err(unexpected_event())),
        },
        StageView::Releasing { outcome } => ProgressView::Done { outcome },
    }
}

/// The pipeline's first stage and action.
pub fn begin() -> (first: (Stage, Action))
    ensures
        first.0@ == StageView::Acquiring,
        first.1@ == ActionView::AcquireTempDir,
{
    (Stage::Acquiring, Action::AcquireTempDir)
}

/// Builds the path of the encrypted file.
pub fn make_artifact_path(temp_dir: &str, name: &str) -> (path: String)
    ensures
        path@ == artifact_path(temp_dir@, name@),
{
    String::from_str(temp_dir).concat("/").concat(name)
}

/// Builds the key under which a file is stored.
pub fn make_remote_key(prefix: &str, name: &str) -> (key: String)
    ensures
        key@ == remote_key(prefix@, name@),
{
    String::from_str(prefix).concat(name)
}

/// Builds the arguments of the encrypting program.
pub fn make_encrypt_arguments(
    recipient: &str,
    signer: &str,
    output: &str,
    input: &str,
) -> (arguments: Vec<String>)
    ensures
        arguments.deep_view() == encrypt_arguments(recipient@, signer@, output@, input@),
{
    let mut arguments: Vec<String> = Vec::new();
    arguments.push(String::from_str("--recipient"));
    arguments.push(String::from_str(recipient));
    arguments.push(String::from_str("--local-user"));
    arguments.push(String::from_str(signer));
    arguments.push(String::from_str("--encrypt"));
    arguments.push(String::from_str("--sign"));
    arguments.push(String::from_str("-o"));
    arguments.push(String::from_str(output));
    arguments.push(String::from_str("--batch"));
    arguments.push(String::from_str("--set-filename"));
    arguments.push(String::from_str(""));
    arguments.push(String::from_str(input));
    assert(arguments.deep_view() =~= encrypt_arguments(recipient@, signer@, output@, input@));
    arguments
}

/// Settles the outcome as an error and asks for the temporary directory to be
/// released.
fn fail(detail: String) -> (progress: Progress)
    ensures
        progress@ == release(Err(detail@)),
{
    Progress::Next {
        stage: Stage::Releasing { outcome: Err(detail) },
        action: Action::ReleaseTempDir,
    }
}

/// Takes the pipeline for `file` one step further: from the stage it stands at
/// and the driver's answer to the next stage and action, or to the outcome.
pub fn advance(p: &Parameters, file: &SourceFile, stage: Stage, event: Event) -> (progress:
    Progress)
    ensures
        progress@ == advance_model(p@, file@, stage@, event@),
{
    match stage {
        Stage::Acquiring => match event {
            Event::TempDir(Ok(temp_dir)) => {
                let artifact = make_artifact_path(temp_dir.as_str(), file.name.as_str());
                let arguments = make_encrypt_arguments(
                    p.encrypt_key.as_str(),
                    p.signing_key.as_str(),
                    artifact.as_str(),
                    file.path.as_str(),
                );
                Progress::Next {
                    stage: Stage::Encrypting { artifact },
                    action: Action::Encrypt { program: String::from_str("gpg"), arguments },
                }
            },
            Event::TempDir(Err(detail)) => Progress::Done { outcome: Err(detail) },
            _ => Progress::Done { outcome: Err(String::from_str("unexpected event")) },
        },
        Stage::Encrypting { artifact } => match event {
            Event::Exited(Ok(report)) => {
                if report.code == Some(0i32) {
                    Progress::Next {
                        stage: Stage::Uploading,
                        action: Action::Upload {
                            bucket: p.s3_bucket.clone(),
                            key: make_remote_key(p.s3_path.as_str(), file.name.as_str()),
                            path: artifact,
                        },
                    }
                } else {
                    fail(report.detail)
                }
            },
            Event::Exited(Err(detail)) => fail(detail),
            _ => fail(String::from_str("unexpected event")),
        },
        Stage::Uploading => match event {
            Event::Finished(Ok(_)) => Progress::Next {
                stage: Stage::Deleting,
                action: Action::DeleteSource { path: file.path.clone() },
            },
            Event::Finished(Err(detail)) => fail(detail),
            _ => fail(String::from_str("unexpected event")),
        },
        Stage::Deleting => match event {
            Event::Finished(outcome) => Progress::Next {
                stage: Stage::Releasing { outcome },
                action: Action::ReleaseTempDir,
            },
            _ => fail(String::from_str("unexpected event")),
        },
        Stage::Releasing { outcome } => Progress::Done { outcome },
    }
}

} // verus!
