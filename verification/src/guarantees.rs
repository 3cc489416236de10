//! What a run guarantees, stated over its course against every world.
//!
//! `before` is the outside as the program finds it, and what is said of the
//! outside afterwards is said of `before.after_all(..)` of the program's
//! course. That no temporary directory exists when the program starts is all
//! that is asked of `before`, but where a statement is about the files of the
//! log directory.

use crate::args::{
    first_position, flag_of, lemma_bucket_has_no_separator, lemma_first_position_bounds,
    lemma_split_loses_nothing, lemma_split_without_separator, parameter, parameters,
    required_message, usage_text, ParametersView,
};
use crate::course::{
    acquired, console, encrypted, files_course, lemma_after_files,
    lemma_files_leave, lemma_pipeline, lemma_pipeline_leaves, lemma_program, listed, pipeline,
    program, released, shipped, stored_for, uploaded,
};
use crate::outside::{Exchange, Fate, Outside, World};
use crate::pipeline::{remote_key, StageView};
use crate::protocol::{ActionView, EventView, SourceFileView};
use crate::walker::{program_name, progress_text, report_text, step_model, PhaseView, RunView};
use vstd::prelude::*;

verus! {

/// The names of the four parameters.
pub open spec fn is_parameter_name(name: Seq<char>) -> bool {
    name == "s3-path"@ || name == "log-dir"@ || name == "encrypt-key"@ || name == "signing-key"@
}

/// In every configuration that a command line gives, bucket and prefix are
/// the storage path split at its first separator. A path without a separator
/// is the bucket, and the prefix is empty. A path with one is the bucket, the
/// separator and the prefix, and the bucket holds no separator, however many
/// the prefix holds.
pub proof fn lemma_storage_path_is_split(tokens: Seq<Seq<char>>)
    requires
        parameters(tokens) is Ok,
    ensures
        parameter(tokens, "s3-path"@) is Ok,
        parameters(tokens)->Ok_0.well_formed(),
        !parameter(tokens, "s3-path"@)->Ok_0.contains('/') ==> parameters(tokens)->Ok_0.s3_bucket
            == parameter(tokens, "s3-path"@)->Ok_0 && parameters(tokens)->Ok_0.s3_path
            == Seq::<char>::empty(),
        parameter(tokens, "s3-path"@)->Ok_0.contains('/') ==> parameters(
            tokens,
        )->Ok_0.storage_path() == parameter(tokens, "s3-path"@)->Ok_0,
{
    let path = parameter(tokens, "s3-path"@)->Ok_0;
    lemma_bucket_has_no_separator(path);
    lemma_split_loses_nothing(path);
    if !path.contains('/') {
        lemma_split_without_separator(path);
    }
}

/// A parameter whose flag is nowhere in the argument list is reported as
/// required.
pub proof fn lemma_absent_flag_is_required(tokens: Seq<Seq<char>>, name: Seq<char>)
    requires
        !tokens.contains(flag_of(name)),
    ensures
        parameter(tokens, name) == Err::<Seq<char>, Seq<char>>(required_message(name)),
{
    let flag = flag_of(name);
    lemma_first_position_bounds(tokens, flag);
    let at = first_position(tokens, flag);
    if at < tokens.len() {
        assert(tokens.contains(tokens[at]));
    }
}

/// With the flag of any of the four parameters absent there is no
/// configuration: the program shows the usage banner, with the command name
/// and the message of the first parameter that could not be read, and ends. It
/// does nothing before that, so the outside is as it was.
pub proof fn lemma_absent_flag_ends_in_usage(
    world: World,
    tokens: Seq<Seq<char>>,
    name: Seq<char>,
    before: Outside,
)
    requires
        is_parameter_name(name),
        !tokens.contains(flag_of(name)),
    ensures
        parameters(tokens) is Err,
        program(world, tokens) == (
            Seq::<Exchange>::empty(),
            ActionView::ShowUsage {
                text: usage_text(program_name(tokens), parameters(tokens)->Err_0),
            },
        ),
        before.after_all(program(world, tokens).0) == before,
{
    lemma_absent_flag_is_required(tokens, name);
    lemma_program(world, tokens);
}

/// When the log directory cannot be listed the program ends with that error.
/// The listing is all it has asked for: nothing is uploaded, nothing deleted,
/// nothing printed.
pub proof fn lemma_unlistable_directory_is_fatal(
    world: World,
    tokens: Seq<Seq<char>>,
    before: Outside,
)
    requires
        parameters(tokens) is Ok,
        world.listing is Err,
    ensures
        program(world, tokens) == (
            seq![listed(parameters(tokens)->Ok_0, world)],
            ActionView::Fail { detail: world.listing->Err_0 },
        ),
        before.after_all(program(world, tokens).0) == before,
{
    lemma_program(world, tokens);
    before.lemma_after_one(listed(parameters(tokens)->Ok_0, world));
}

/// What a run over a listed directory leaves behind, whatever the fates of the
/// files: the program stops after the last file; a source is gone exactly when
/// a listed file of that path was shipped; an object is stored for each upload
/// that succeeded; each file's path and result are printed, the result being
/// that of the file's own fate; and no temporary directory is left.
pub proof fn lemma_every_file_is_worked_on(world: World, tokens: Seq<Seq<char>>, before: Outside)
    requires
        parameters(tokens) is Ok,
        world.listing is Ok,
        before.temp_dir is None,
    ensures
        program(world, tokens).1 == ActionView::Stop,
        before.after_all(program(world, tokens).0) == (Outside {
            sources: before.sources.difference(shipped(world.listing->Ok_0, world.fates, 0)),
            temp_dir: None,
            stored: before.stored + stored_for(
                parameters(tokens)->Ok_0,
                world.listing->Ok_0,
                world.fates,
                0,
            ),
            output: before.output + console(world.listing->Ok_0, world.fates),
        }),
{
    let p = parameters(tokens)->Ok_0;
    let files = world.listing->Ok_0;
    let rest = files_course(p, files, world.fates, 0);
    lemma_program(world, tokens);
    before.lemma_after_all_in_turn(seq![listed(p, world)], rest);
    before.lemma_after_one(listed(p, world));
    lemma_files_leave(before, p, files, world.fates, 0);
    lemma_after_files(before, p, files, world.fates, 0);
    assert(console(files, world.fates).skip(0) =~= console(files, world.fates));
}

/// When the log directory holds just the listed files and every step succeeds
/// for every one of them, the directory ends empty, each file is stored under
/// the prefix and its own name, and for each file its path and `ok` are
/// printed.
pub proof fn lemma_all_files_are_shipped(world: World, tokens: Seq<Seq<char>>, before: Outside)
    requires
        parameters(tokens) is Ok,
        world.listing is Ok,
        world.well_formed(),
        before.temp_dir is None,
        forall|path: Seq<char>|
            before.sources.contains(path) ==> exists|i: int|
                #![trigger world.listing->Ok_0[i]]
                0 <= i < world.listing->Ok_0.len() && world.listing->Ok_0[i].path == path,
        forall|i: int|
            0 <= i < world.listing->Ok_0.len() ==> (#[trigger] world.fates[i]).ships(),
    ensures
        program(world, tokens).1 == ActionView::Stop,
        before.after_all(program(world, tokens).0) == (Outside {
            sources: Set::empty(),
            temp_dir: None,
            stored: before.stored + Seq::new(
                world.listing->Ok_0.len(),
                |i: int|
                    (
                        parameters(tokens)->Ok_0.s3_bucket,
                        remote_key(parameters(tokens)->Ok_0.s3_path, world.listing->Ok_0[i].name),
                    ),
            ),
            output: before.output + Seq::new(
                (2 * world.listing->Ok_0.len()) as nat,
                |k: int|
                    if k % 2 == 0 {
                        progress_text(world.listing->Ok_0[k / 2].path)
                    } else {
                        "ok\n"@
                    },
            ),
        }),
{
    let p = parameters(tokens)->Ok_0;
    let files = world.listing->Ok_0;
    let fates = world.fates;
    lemma_every_file_is_worked_on(world, tokens, before);
    let end = before.after_all(program(world, tokens).0);
    assert forall|path: Seq<char>| !end.sources.contains(path) by {
        if before.sources.contains(path) {
            let i = choose|i: int|
                #![trigger files[i]]
                0 <= i < files.len() && files[i].path == path;
            assert(fates[i].ships());
            assert(shipped(files, fates, 0).contains(path));
        }
    }
    assert(end.sources =~= Set::<Seq<char>>::empty());
    lemma_stored_for_all(p, files, fates, 0);
    assert(stored_for(p, files, fates, 0) =~= Seq::new(
        files.len(),
        |i: int| (p.s3_bucket, remote_key(p.s3_path, files[i].name)),
    ));
    assert forall|k: int| 0 <= k < 2 * files.len() implies console(files, fates)[k] == (if k % 2
        == 0 {
        progress_text(files[k / 2].path)
    } else {
        "ok\n"@
    }) by {
        assert(fates[k / 2].ships());
    }
    assert(console(files, fates) =~= Seq::new(
        (2 * files.len()) as nat,
        |k: int|
            if k % 2 == 0 {
                progress_text(files[k / 2].path)
            } else {
                "ok\n"@
            },
    ));
}

/// A file whose upload fails is not deleted and is reported with `fail` and the
/// upload's error, and the run goes on all the same: every file's path and
/// result are printed, each result that of the file's own fate, and every file
/// that can be shipped is shipped. The entries of a directory differ in their
/// paths, which is asked here of the file in question.
pub proof fn lemma_failed_upload_is_isolated(
    world: World,
    tokens: Seq<Seq<char>>,
    before: Outside,
    at: int,
)
    requires
        parameters(tokens) is Ok,
        world.listing is Ok,
        world.well_formed(),
        before.temp_dir is None,
        0 <= at < world.listing->Ok_0.len(),
        world.fates[at].encrypts(),
        world.fates[at].upload is Err,
        forall|j: int|
            0 <= j < world.listing->Ok_0.len() && j != at ==> (
            #[trigger] world.listing->Ok_0[j]).path != world.listing->Ok_0[at].path,
    ensures
        program(world, tokens).1 == ActionView::Stop,
        before.after_all(program(world, tokens).0).sources.contains(world.listing->Ok_0[at].path)
            == before.sources.contains(world.listing->Ok_0[at].path),
        before.after_all(program(world, tokens).0).output == before.output + console(
            world.listing->Ok_0,
            world.fates,
        ),
        console(world.listing->Ok_0, world.fates).len() == 2 * world.listing->Ok_0.len(),
        console(world.listing->Ok_0, world.fates)[2 * at + 1] == "fail\n"@
            + world.fates[at].upload->Err_0 + "\n"@,
        forall|j: int|
            0 <= j < world.listing->Ok_0.len() ==> console(world.listing->Ok_0, world.fates)[2 * j]
                == progress_text((#[trigger] world.listing->Ok_0[j]).path) && console(
                world.listing->Ok_0,
                world.fates,
            )[2 * j + 1] == report_text(world.fates[j].outcome()),
        forall|j: int|
            0 <= j < world.listing->Ok_0.len() && world.fates[j].ships() ==> !before.after_all(
                program(world, tokens).0,
            ).sources.contains((#[trigger] world.listing->Ok_0[j]).path),
{
    let files = world.listing->Ok_0;
    let fates = world.fates;
    lemma_every_file_is_worked_on(world, tokens, before);
    if shipped(files, fates, 0).contains(files[at].path) {
        let i = choose|i: int|
            #![trigger files[i]]
            0 <= i < files.len() && files[i].path == files[at].path && fates[i].ships();
        assert(i == at);
    }
    assert forall|j: int| 0 <= j < files.len() && fates[j].ships() implies shipped(
        files,
        fates,
        0,
    ).contains((#[trigger] files[j]).path) by {}
}

/// The pipeline of a file whose upload fails asks for the temporary directory,
/// the encryption, the upload and the release of the directory, and for
/// nothing else. Its outcome is the upload's error, and the source is where it
/// was.
pub proof fn lemma_failed_upload_keeps_source(
    before: Outside,
    p: ParametersView,
    file: SourceFileView,
    fate: Fate,
)
    requires
        before.temp_dir is None,
        fate.encrypts(),
        fate.upload is Err,
    ensures
        pipeline(p, file, fate) == (
            seq![
                acquired(fate),
                encrypted(p, file, fate),
                uploaded(p, file, fate),
                released(fate),
            ],
            Err::<(), Seq<char>>(fate.upload->Err_0),
        ),
        before.after_all(pipeline(p, file, fate).0).sources == before.sources,
{
    lemma_pipeline(p, file, fate);
    lemma_pipeline_leaves(before, p, file, fate);
}

/// The pipeline of a file that is not encrypted, because the program cannot be
/// run or does not exit with zero, asks for the temporary directory, the
/// encryption and the release of the directory, and for nothing else: there is
/// no upload and no deletion. Its outcome is the error of the encryption.
pub proof fn lemma_failed_encryption_ends_pipeline(
    before: Outside,
    p: ParametersView,
    file: SourceFileView,
    fate: Fate,
)
    requires
        before.temp_dir is None,
        fate.temp_dir is Ok,
        !fate.encrypts(),
    ensures
        pipeline(p, file, fate).0 == seq![
            acquired(fate),
            encrypted(p, file, fate),
            released(fate),
        ],
        pipeline(p, file, fate).1 == (match fate.encrypt {
            Ok(report) => Err::<(), Seq<char>>(report.detail),
            Err(detail) => Err::<(), Seq<char>>(detail),
        }),
        before.after_all(pipeline(p, file, fate).0).sources == before.sources,
        before.after_all(pipeline(p, file, fate).0).stored == before.stored,
{
    lemma_pipeline(p, file, fate);
    lemma_pipeline_leaves(before, p, file, fate);
}

/// Whatever the fate of a file, no temporary directory is left when its
/// pipeline has ended; and where one was created, its release is the last thing
/// the pipeline asks for.
pub proof fn lemma_temp_dir_is_released(
    before: Outside,
    p: ParametersView,
    file: SourceFileView,
    fate: Fate,
)
    requires
        before.temp_dir is None,
    ensures
        before.after_all(pipeline(p, file, fate).0).temp_dir is None,
        fate.temp_dir is Ok ==> pipeline(p, file, fate).0.last() == released(fate),
        fate.temp_dir is Err ==> pipeline(p, file, fate).0 == seq![acquired(fate)],
{
    lemma_pipeline(p, file, fate);
    lemma_pipeline_leaves(before, p, file, fate);
}

/// Whatever state a run is in and whatever it is told, it asks for the
/// deletion of a file only when it is waiting for that file's upload and the
/// upload is reported to have succeeded; and the file is the current one.
pub proof fn lemma_deletion_needs_confirmed_upload(run: RunView, event: EventView)
    ensures
        step_model(run, event).1 is DeleteSource ==> {
            &&& run.phase == PhaseView::Running { stage: StageView::Uploading }
            &&& event matches EventView::Finished(Ok(_))
            &&& step_model(run, event).1 == ActionView::DeleteSource {
                path: run.files[run.index].path,
            }
        },
{
}

/// Whatever state a run is in and whatever it is told, it asks for an upload
/// only when it is waiting for the encryption of the current file and the
/// program is reported to have exited with zero; and what it uploads is the
/// file that the encryption wrote, to the configured bucket, under the prefix
/// and the file's name.
pub proof fn lemma_upload_needs_encryption(run: RunView, event: EventView)
    ensures
        step_model(run, event).1 is Upload ==> {
            &&& run.phase matches PhaseView::Running { stage: StageView::Encrypting { artifact } }
            &&& event matches EventView::Exited(Ok(report))
            &&& report.success()
            &&& step_model(run, event).1 == ActionView::Upload {
                bucket: run.params.s3_bucket,
                key: remote_key(run.params.s3_path, run.files[run.index].name),
                path: artifact,
            }
        },
{
}

/// When every upload from `from` on succeeds, one object is stored for each of
/// those files.
proof fn lemma_stored_for_all(
    p: ParametersView,
    files: Seq<SourceFileView>,
    fates: Seq<Fate>,
    from: int,
)
    requires
        0 <= from <= files.len() == fates.len(),
        forall|i: int| from <= i < files.len() ==> (#[trigger] fates[i]).uploads(),
    ensures
        stored_for(p, files, fates, from) == Seq::new(
            (files.len() - from) as nat,
            |k: int| (p.s3_bucket, remote_key(p.s3_path, files[from + k].name)),
        ),
    decreases files.len() - from,
{
    if from < files.len() {
        lemma_stored_for_all(p, files, fates, from + 1);
        assert(fates[from].uploads());
    }
    assert(stored_for(p, files, fates, from) =~= Seq::new(
        (files.len() - from) as nat,
        |k: int| (p.s3_bucket, remote_key(p.s3_path, files[from + k].name)),
    ));
}

} // verus!
