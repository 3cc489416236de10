//! The course that a pipeline and a run take against a given world, and what
//! holds of every such course.
//!
//! A course is what the state machines of [`crate::pipeline`] and
//! [`crate::walker`] do when each of their actions is answered as the world
//! has it: the actions in order, each with its answer. The proofs below are
//! about these courses, and so about the machines themselves.

use crate::args::{parameters, usage_text, ParametersView};
use crate::outside::{Exchange, Fate, Outside, World};
use crate::pipeline::{
    advance_model, artifact_path, encrypt_arguments, encrypt_program, remote_key, ProgressView,
    StageView,
};
use crate::protocol::{ActionView, EventView, SourceFileView};
use crate::walker::{
    program_name, progress_text, report_text, start_model, step_model, PhaseView, RunView,
};
use vstd::prelude::*;

verus! {

/// How many answers a pipeline at `stage` can still ask for at most, after the
/// one it is waiting for.
pub open spec fn steps_left(stage: StageView) -> nat {
    match stage {
        StageView::Acquiring => 4,
        StageView::Encrypting { .. } => 3,
        StageView::Uploading => 2,
        StageView::Deleting => 1,
        StageView::Releasing { .. } => 0,
    }
}

/// The course of the pipeline for `file` from the point where it stands at
/// `stage` and has asked for `action`: every action with its answer, and the
/// outcome.
pub open spec fn pipeline_from(
    p: ParametersView,
    file: SourceFileView,
    fate: Fate,
    stage: StageView,
    action: ActionView,
) -> (Seq<Exchange>, Result<(), Seq<char>>)
    decreases steps_left(stage),
{
    let event = fate.answer(action);
    let exchange = Exchange { action, event };
    match advance_model(p, file, stage, event) {
        ProgressView::Done { outcome } => (seq![exchange], outcome),
        ProgressView::Next { stage: next, action: then } => {
            let rest = pipeline_from(p, file, fate, next, then);
            (seq![exchange] + rest.0, rest.1)
        },
    }
}

/// The whole course of the pipeline for `file`.
pub open spec fn pipeline(p: ParametersView, file: SourceFileView, fate: Fate) -> (
    Seq<Exchange>,
    Result<(), Seq<char>>,
) {
    pipeline_from(p, file, fate, StageView::Acquiring, ActionView::AcquireTempDir)
}

/// The temporary directory is asked for.
pub open spec fn acquired(fate: Fate) -> Exchange {
    Exchange { action: ActionView::AcquireTempDir, event: EventView::TempDir(fate.temp_dir) }
}

/// The file is encrypted and signed into the temporary directory.
pub open spec fn encrypted(p: ParametersView, file: SourceFileView, fate: Fate) -> Exchange {
    Exchange {
        action: ActionView::Encrypt {
            program: encrypt_program(),
            arguments: encrypt_arguments(
                p.encrypt_key,
                p.signing_key,
                artifact_path(fate.temp_dir->Ok_0, file.name),
                file.path,
            ),
        },
        event: EventView::Exited(fate.encrypt),
    }
}

/// The encrypted file is uploaded.
pub open spec fn uploaded(p: ParametersView, file: SourceFileView, fate: Fate) -> Exchange {
    Exchange {
        action: ActionView::Upload {
            bucket: p.s3_bucket,
            key: remote_key(p.s3_path, file.name),
            path: artifact_path(fate.temp_dir->Ok_0, file.name),
        },
        event: EventView::Finished(fate.upload),
    }
}

/// The source file is deleted.
pub open spec fn deleted(file: SourceFileView, fate: Fate) -> Exchange {
    Exchange {
        action: ActionView::DeleteSource { path: file.path },
        event: EventView::Finished(fate.delete),
    }
}

/// The temporary directory is released.
pub open spec fn released(fate: Fate) -> Exchange {
    Exchange { action: ActionView::ReleaseTempDir, event: EventView::Finished(fate.release) }
}

/// The course of a pipeline, case by case. Its steps come in one order, each
/// after the success of the one before; the first failure is the outcome; and
/// the temporary directory, once there is one, is released as the last step
/// whatever happened.
pub proof fn lemma_pipeline(p: ParametersView, file: SourceFileView, fate: Fate)
    ensures
        pipeline(p, file, fate).1 == fate.outcome(),
        pipeline(p, file, fate).0 == (if fate.temp_dir is Err {
            seq![acquired(fate)]
        } else if !fate.encrypts() {
            seq![acquired(fate), encrypted(p, file, fate), released(fate)]
        } else if fate.upload is Err {
            seq![
                acquired(fate),
                encrypted(p, file, fate),
                uploaded(p, file, fate),
                released(fate),
            ]
        } else {
            seq![
                acquired(fate),
                encrypted(p, file, fate),
                uploaded(p, file, fate),
                deleted(file, fate),
                released(fate),
            ]
        }),
{
    reveal_with_fuel(pipeline_from, 6);
    let course = pipeline(p, file, fate);
    if fate.temp_dir is Err {
        assert(course.0 =~= seq![acquired(fate)]);
    } else if !fate.encrypts() {
        assert(course.0 =~= seq![acquired(fate), encrypted(p, file, fate), released(fate)]);
    } else if fate.upload is Err {
        assert(course.0 =~= seq![
            acquired(fate),
            encrypted(p, file, fate),
            uploaded(p, file, fate),
            released(fate),
        ]);
    } else {
        assert(course.0 =~= seq![
            acquired(fate),
            encrypted(p, file, fate),
            uploaded(p, file, fate),
            deleted(file, fate),
            released(fate),
        ]);
    }
}

/// What the pipeline of one file leaves behind. The source is gone only when
/// every step succeeded, the object is stored only when the upload succeeded,
/// and no temporary directory is left.
pub open spec fn after_pipeline(
    before: Outside,
    p: ParametersView,
    file: SourceFileView,
    fate: Fate,
) -> Outside {
    Outside {
        sources: if fate.ships() {
            before.sources.remove(file.path)
        } else {
            before.sources
        },
        temp_dir: None,
        stored: if fate.uploads() {
            before.stored.push((p.s3_bucket, remote_key(p.s3_path, file.name)))
        } else {
            before.stored
        },
        output: before.output,
    }
}

/// A pipeline that starts without a temporary directory leaves
/// `after_pipeline` behind, whatever the file's fate.
pub proof fn lemma_pipeline_leaves(
    before: Outside,
    p: ParametersView,
    file: SourceFileView,
    fate: Fate,
)
    requires
        before.temp_dir is None,
    ensures
        before.after_all(pipeline(p, file, fate).0) == after_pipeline(before, p, file, fate),
{
    lemma_pipeline(p, file, fate);
    let a = acquired(fate);
    let e = encrypted(p, file, fate);
    let u = uploaded(p, file, fate);
    let d = deleted(file, fate);
    let r = released(fate);
    let o1 = before.after(a);
    let o2 = o1.after(e);
    before.lemma_after_one(a);
    if fate.temp_dir is Err {
    } else if !fate.encrypts() {
        assert(seq![a, e, r] =~= seq![a] + seq![e] + seq![r]);
        before.lemma_after_all_in_turn(seq![a] + seq![e], seq![r]);
        before.lemma_after_all_in_turn(seq![a], seq![e]);
        o1.lemma_after_one(e);
        o2.lemma_after_one(r);
    } else if fate.upload is Err {
        let o3 = o2.after(u);
        assert(seq![a, e, u, r] =~= seq![a] + seq![e] + seq![u] + seq![r]);
        before.lemma_after_all_in_turn(seq![a] + seq![e] + seq![u], seq![r]);
        before.lemma_after_all_in_turn(seq![a] + seq![e], seq![u]);
        before.lemma_after_all_in_turn(seq![a], seq![e]);
        o1.lemma_after_one(e);
        o2.lemma_after_one(u);
        o3.lemma_after_one(r);
    } else {
        let o3 = o2.after(u);
        let o4 = o3.after(d);
        assert(seq![a, e, u, d, r] =~= seq![a] + seq![e] + seq![u] + seq![d] + seq![r]);
        before.lemma_after_all_in_turn(seq![a] + seq![e] + seq![u] + seq![d], seq![r]);
        before.lemma_after_all_in_turn(seq![a] + seq![e] + seq![u], seq![d]);
        before.lemma_after_all_in_turn(seq![a] + seq![e], seq![u]);
        before.lemma_after_all_in_turn(seq![a], seq![e]);
        o1.lemma_after_one(e);
        o2.lemma_after_one(u);
        o3.lemma_after_one(d);
        o4.lemma_after_one(r);
    }
}

/// How far a run in `phase` is from the end of its current file.
pub open spec fn phase_rank(phase: PhaseView) -> nat {
    match phase {
        PhaseView::Listing => 0,
        PhaseView::Announcing => 6,
        PhaseView::Running { stage } => 1 + steps_left(stage),
        PhaseView::Reporting => 0,
    }
}

/// The course of `run` from the point where it has asked for `action`: every
/// action with its answer, and the action that ends the run.
pub open spec fn run_from(world: World, run: RunView, action: ActionView) -> (
    Seq<Exchange>,
    ActionView,
)
    decreases
        (if run.phase is Listing {
            1int
        } else {
            0int
        }),
        run.files.len() - run.index,
        phase_rank(run.phase),
{
    let event = world.answer(run.index, action);
    let exchange = Exchange { action, event };
    match step_model(run, event) {
        (None, last) => (seq![exchange], last),
        (Some(next), then) => {
            let rest = run_from(world, next, then);
            (seq![exchange] + rest.0, rest.1)
        },
    }
}

/// The course of the program called with `tokens`: every action with its
/// answer, and the action that ends it.
pub open spec fn program(world: World, tokens: Seq<Seq<char>>) -> (Seq<Exchange>, ActionView) {
    match start_model(tokens) {
        (None, only) => (Seq::empty(), only),
        (Some(run), first) => run_from(world, run, first),
    }
}

/// `text` is printed.
pub open spec fn printed(fate: Fate, text: Seq<char>) -> Exchange {
    Exchange { action: ActionView::Print { text }, event: EventView::Finished(fate.print) }
}

/// What a run does for one file: it prints the path, runs the pipeline, and
/// prints the outcome.
pub open spec fn file_course(p: ParametersView, file: SourceFileView, fate: Fate) -> Seq<
    Exchange,
> {
    seq![printed(fate, progress_text(file.path))] + pipeline(p, file, fate).0 + seq![
        printed(fate, report_text(pipeline(p, file, fate).1)),
    ]
}

/// What a run does for the files from `from` on, one after the other.
pub open spec fn files_course(
    p: ParametersView,
    files: Seq<SourceFileView>,
    fates: Seq<Fate>,
    from: int,
) -> Seq<Exchange>
    decreases files.len() - from,
{
    if 0 <= from < files.len() {
        file_course(p, files[from], fates[from]) + files_course(p, files, fates, from + 1)
    } else {
        Seq::empty()
    }
}

/// What is left of the current file's course for a run that has asked for
/// `action`.
pub open spec fn file_rest(world: World, run: RunView, action: ActionView) -> Seq<Exchange> {
    let file = run.files[run.index];
    let fate = world.fates[run.index];
    match run.phase {
        PhaseView::Listing => Seq::empty(),
        PhaseView::Announcing => file_course(run.params, file, fate),
        PhaseView::Running { stage } => {
            let rest = pipeline_from(run.params, file, fate, stage, action);
            rest.0 + seq![printed(fate, report_text(rest.1))]
        },
        PhaseView::Reporting => seq![Exchange { action, event: fate.answer(action) }],
    }
}

/// A run that has listed the directory finishes the current file and then
/// takes the files after it one by one, to the last, and stops.
pub proof fn lemma_run_goes_through_every_file(world: World, run: RunView, action: ActionView)
    requires
        run.well_formed(),
        run.phase !is Listing,
        action !is ListDirectory,
        run.phase is Announcing ==> action == (ActionView::Print {
            text: progress_text(run.files[run.index].path),
        }),
    ensures
        run_from(world, run, action) == (
            file_rest(world, run, action) + files_course(
                run.params,
                run.files,
                world.fates,
                run.index + 1,
            ),
            ActionView::Stop,
        ),
    decreases run.files.len() - run.index, phase_rank(run.phase),
{
    let p = run.params;
    let file = run.files[run.index];
    let fate = world.fates[run.index];
    let event = world.answer(run.index, action);
    let exchange = Exchange { action, event };
    let after = files_course(p, run.files, world.fates, run.index + 1);
    match step_model(run, event) {
        (None, last) => {
            assert(run.phase is Reporting);
            assert(after =~= Seq::<Exchange>::empty());
            assert(file_rest(world, run, action) + after =~= seq![exchange]);
        },
        (Some(next), then) => {
            let rest = run_from(world, next, then);
            match run.phase {
                PhaseView::Listing => {},
                PhaseView::Announcing => {
                    lemma_run_goes_through_every_file(world, next, then);
                    assert(seq![exchange] + rest.0 =~= file_rest(world, run, action) + after);
                },
                PhaseView::Running { stage } => {
                    lemma_run_goes_through_every_file(world, next, then);
                    assert(seq![exchange] + rest.0 =~= file_rest(world, run, action) + after);
                },
                PhaseView::Reporting => {
                    lemma_run_goes_through_every_file(world, next, then);
                    let later = files_course(p, run.files, world.fates, run.index + 2);
                    assert(rest.0 == file_course(p, next.files[next.index], world.fates[next.index])
                        + later);
                    assert(seq![exchange] + rest.0 =~= file_rest(world, run, action) + after);
                },
            }
        },
    }
}

/// What a run's work on one file leaves behind: what its pipeline leaves, and
/// two pieces of output, the file's path and its result.
pub open spec fn after_file(
    before: Outside,
    p: ParametersView,
    file: SourceFileView,
    fate: Fate,
) -> Outside {
    Outside {
        output: before.output.push(progress_text(file.path)).push(report_text(fate.outcome())),
        ..after_pipeline(before, p, file, fate)
    }
}

/// What a run's work on the files from `from` on leaves behind.
pub open spec fn after_files(
    before: Outside,
    p: ParametersView,
    files: Seq<SourceFileView>,
    fates: Seq<Fate>,
    from: int,
) -> Outside
    decreases files.len() - from,
{
    if 0 <= from < files.len() {
        after_files(after_file(before, p, files[from], fates[from]), p, files, fates, from + 1)
    } else {
        before
    }
}

/// The work on one file leaves `after_file` behind, whatever the file's fate.
pub proof fn lemma_file_leaves(
    before: Outside,
    p: ParametersView,
    file: SourceFileView,
    fate: Fate,
)
    requires
        before.temp_dir is None,
    ensures
        before.after_all(file_course(p, file, fate)) == after_file(before, p, file, fate),
{
    let announce = printed(fate, progress_text(file.path));
    let course = pipeline(p, file, fate);
    let report = printed(fate, report_text(course.1));
    let announced = before.after(announce);
    lemma_pipeline(p, file, fate);
    before.lemma_after_all_in_turn(seq![announce] + course.0, seq![report]);
    before.lemma_after_all_in_turn(seq![announce], course.0);
    before.lemma_after_one(announce);
    lemma_pipeline_leaves(announced, p, file, fate);
    after_pipeline(announced, p, file, fate).lemma_after_one(report);
}

/// The work on the files from `from` on leaves `after_files` behind.
pub proof fn lemma_files_leave(
    before: Outside,
    p: ParametersView,
    files: Seq<SourceFileView>,
    fates: Seq<Fate>,
    from: int,
)
    requires
        before.temp_dir is None,
    ensures
        before.after_all(files_course(p, files, fates, from)) == after_files(
            before,
            p,
            files,
            fates,
            from,
        ),
    decreases files.len() - from,
{
    if 0 <= from < files.len() {
        let next = after_file(before, p, files[from], fates[from]);
        lemma_file_leaves(before, p, files[from], fates[from]);
        lemma_files_leave(next, p, files, fates, from + 1);
        before.lemma_after_all_in_turn(
            file_course(p, files[from], fates[from]),
            files_course(p, files, fates, from + 1),
        );
    }
}

/// The paths of the files from `from` on for which every step succeeds.
pub open spec fn shipped(files: Seq<SourceFileView>, fates: Seq<Fate>, from: int) -> Set<
    Seq<char>,
> {
    Set::new(
        |path: Seq<char>|
            exists|i: int|
                #![trigger files[i]]
                from <= i < files.len() && files[i].path == path && fates[i].ships(),
    )
}

/// The objects that are stored for the files from `from` on, in their order:
/// one for each file whose upload succeeds.
pub open spec fn stored_for(
    p: ParametersView,
    files: Seq<SourceFileView>,
    fates: Seq<Fate>,
    from: int,
) -> Seq<(Seq<char>, Seq<char>)>
    decreases files.len() - from,
{
    if 0 <= from < files.len() {
        (if fates[from].uploads() {
            seq![(p.s3_bucket, remote_key(p.s3_path, files[from].name))]
        } else {
            Seq::empty()
        }) + stored_for(p, files, fates, from + 1)
    } else {
        Seq::empty()
    }
}

/// What a run prints for `files`: for each file in turn its path and then its
/// result, which is that of its own pipeline.
pub open spec fn console(files: Seq<SourceFileView>, fates: Seq<Fate>) -> Seq<Seq<char>> {
    Seq::new(
        (2 * files.len()) as nat,
        |k: int|
            if k % 2 == 0 {
                progress_text(files[k / 2].path)
            } else {
                report_text(fates[k / 2].outcome())
            },
    )
}

/// What the work on the files from `from` on leaves behind, item by item: no
/// temporary directory; of the sources all but those that were shipped; in the
/// store one more object for each upload that succeeded; and on standard
/// output two more pieces for each file.
pub proof fn lemma_after_files(
    before: Outside,
    p: ParametersView,
    files: Seq<SourceFileView>,
    fates: Seq<Fate>,
    from: int,
)
    requires
        0 <= from <= files.len(),
        before.temp_dir is None,
    ensures
        after_files(before, p, files, fates, from).temp_dir is None,
        after_files(before, p, files, fates, from).sources == before.sources.difference(
            shipped(files, fates, from),
        ),
        after_files(before, p, files, fates, from).stored == before.stored + stored_for(
            p,
            files,
            fates,
            from,
        ),
        after_files(before, p, files, fates, from).output == before.output + console(
            files,
            fates,
        ).skip(2 * from),
    decreases files.len() - from,
{
    let end = after_files(before, p, files, fates, from);
    if from < files.len() {
        let file = files[from];
        let fate = fates[from];
        let next = after_file(before, p, file, fate);
        lemma_after_files(next, p, files, fates, from + 1);
        assert forall|path: Seq<char>|
            shipped(files, fates, from).contains(path) <==> (file.path == path && fate.ships())
                || shipped(files, fates, from + 1).contains(path) by {
            if shipped(files, fates, from + 1).contains(path) {
                let i = choose|i: int|
                    #![trigger files[i]]
                    from + 1 <= i < files.len() && files[i].path == path && fates[i].ships();
                assert(from <= i < files.len() && files[i].path == path && fates[i].ships());
            }
        }
        assert(end.sources =~= before.sources.difference(shipped(files, fates, from)));
        assert(end.stored =~= before.stored + stored_for(p, files, fates, from));
        assert(end.output =~= before.output + console(files, fates).skip(2 * from));
    } else {
        assert(end.sources =~= before.sources.difference(shipped(files, fates, from)));
        assert(end.stored =~= before.stored + stored_for(p, files, fates, from));
        assert(end.output =~= before.output + console(files, fates).skip(2 * from));
    }
}

/// The log directory is listed.
pub open spec fn listed(p: ParametersView, world: World) -> Exchange {
    Exchange {
        action: ActionView::ListDirectory { path: p.log_dir },
        event: EventView::Listed(world.listing),
    }
}

/// The course of the program, case by case. A command line that cannot be read
/// ends it with the usage banner before anything is done. A directory that
/// cannot be listed ends it with that error, the listing being all that was
/// done. Otherwise every listed file is worked on, in the order of the listing
/// and whatever became of the files before it, and the program stops.
pub proof fn lemma_program(world: World, tokens: Seq<Seq<char>>)
    ensures
        program(world, tokens) == (match parameters(tokens) {
            Err(message) => (
                Seq::<Exchange>::empty(),
                ActionView::ShowUsage { text: usage_text(program_name(tokens), message) },
            ),
            Ok(p) => match world.listing {
                Err(detail) => (seq![listed(p, world)], ActionView::Fail { detail }),
                Ok(files) => (
                    seq![listed(p, world)] + files_course(p, files, world.fates, 0),
                    ActionView::Stop,
                ),
            },
        }),
{
    match start_model(tokens) {
        (None, only) => {},
        (Some(run), first) => {
            let p = run.params;
            let event = world.answer(run.index, first);
            match step_model(run, event) {
                (None, last) => {
                    if world.listing is Ok {
                        let files = world.listing->Ok_0;
                        assert(files_course(p, files, world.fates, 0) =~= Seq::<Exchange>::empty());
                        assert(seq![listed(p, world)] + files_course(p, files, world.fates, 0)
                            =~= seq![listed(p, world)]);
                    }
                },
                (Some(next), then) => {
                    lemma_run_goes_through_every_file(world, next, then);
                },
            }
        },
    }
}

} // verus!
