//! A pass against a file system, in specification.
//!
//! The file system is taken to behave as follows. An action that fails
//! changes nothing. An action that succeeds changes at most the file that it
//! names: a removal leaves no file there, a creation leaves an empty file, a
//! write leaves a file with the bytes written, and a lock leaves the file
//! read-only and otherwise as it was. A file that is created or written is
//! stamped with a time that is not before the time of any file that exists.
//!
//! Of every pass against such a file system that ends clean it is proved
//! that each input has an output that is not older than the input, and that
//! is read-only unless the pass left it as it found it.

use vstd::prelude::*;
use crate::path::{
    law_output_has_output_extension, law_output_path_one_to_one, spec_extension, spec_file_name,
    spec_output_extension, spec_output_path,
};
use crate::run::{ActionView, PhaseView, ReplyView, RunView};

verus! {

/// A file as far as a pass is concerned.
pub ghost struct FileState {
    /// The bytes of the file.
    pub content: Seq<u8>,
    /// The time of its last modification.
    pub modified: u128,
    /// Whether it is locked against writing.
    pub read_only: bool,
}

/// The two file systems agree on every path but `path`.
pub open spec fn same_but_at(
    before: Map<Seq<u8>, FileState>,
    after: Map<Seq<u8>, FileState>,
    path: Seq<u8>,
) -> bool {
    forall|other: Seq<u8>|
        other != path ==> (#[trigger] after.contains_key(other) == before.contains_key(other))
            && after[other] == before[other]
}

/// No file is stamped later than `time`.
pub open spec fn latest(files: Map<Seq<u8>, FileState>, time: u128) -> bool {
    forall|path: Seq<u8>| #[trigger] files.contains_key(path) ==> files[path].modified <= time
}

/// Tells whether `after` can be the file system once `action`, carried out on
/// `before`, has been answered by `reply`.
pub open spec fn effect(
    before: Map<Seq<u8>, FileState>,
    action: ActionView,
    reply: ReplyView,
    after: Map<Seq<u8>, FileState>,
) -> bool {
    match (action, reply) {
        (ActionView::ModifiedTime(path), ReplyView::Modified(time)) => {
            &&& after == before
            &&& before.contains_key(path)
            &&& before[path].modified == time
        },
        (ActionView::Remove(path), ReplyView::Done) => {
            &&& !after.contains_key(path)
            &&& same_but_at(before, after, path)
        },
        (ActionView::Load(path), ReplyView::Content(bytes)) => {
            &&& after == before
            &&& before.contains_key(path)
            &&& before[path].content == bytes
        },
        (ActionView::Create(path), ReplyView::Done) => {
            &&& after.contains_key(path)
            &&& after[path].content == Seq::<u8>::empty()
            &&& latest(before, after[path].modified)
            &&& same_but_at(before, after, path)
        },
        (ActionView::Write(path, bytes), ReplyView::Done) => {
            &&& after.contains_key(path)
            &&& after[path].content == bytes
            &&& latest(before, after[path].modified)
            &&& same_but_at(before, after, path)
        },
        (ActionView::MakeReadOnly(path), ReplyView::Done) => {
            &&& before.contains_key(path)
            &&& after.contains_key(path)
            &&& after[path] == FileState { read_only: true, ..before[path] }
            &&& same_but_at(before, after, path)
        },
        _ => after == before,
    }
}

/// A moment of a pass: the run, the action that it has asked for, and the
/// file system.
pub ghost struct Stage {
    pub run: RunView,
    pub action: ActionView,
    pub files: Map<Seq<u8>, FileState>,
}

impl Stage {
    /// The moment after the action has been answered by `reply` and has left
    /// the file system as `files`.
    pub open spec fn next(self, reply: ReplyView, files: Map<Seq<u8>, FileState>) -> Stage {
        Stage { run: self.run.step(reply).0, action: self.run.step(reply).1, files }
    }

    /// Tells whether the replies, and the file systems that they left, can
    /// follow this moment one after the other.
    pub open spec fn allows(
        self,
        replies: Seq<ReplyView>,
        worlds: Seq<Map<Seq<u8>, FileState>>,
    ) -> bool
        decreases replies.len(),
    {
        &&& worlds.len() == replies.len()
        &&& replies.len() > 0 ==> {
            &&& effect(self.files, self.action, replies[0], worlds[0])
            &&& self.next(replies[0], worlds[0]).allows(
                replies.drop_first(),
                worlds.drop_first(),
            )
        }
    }

    /// The moment after all the replies.
    pub open spec fn after(
        self,
        replies: Seq<ReplyView>,
        worlds: Seq<Map<Seq<u8>, FileState>>,
    ) -> Stage
        decreases replies.len(),
    {
        if replies.len() == 0 || worlds.len() == 0 {
            self
        } else {
            self.next(replies[0], worlds[0]).after(replies.drop_first(), worlds.drop_first())
        }
    }
}

/// No output takes the place of an input, and no two inputs share an output.
pub open spec fn separate(inputs: Seq<Seq<u8>>) -> bool {
    &&& forall|i: int, j: int|
        0 <= i < inputs.len() && 0 <= j < inputs.len() ==> spec_output_path(#[trigger] inputs[i])
            != #[trigger] inputs[j]
    &&& forall|i: int, j: int|
        0 <= i < inputs.len() && 0 <= j < inputs.len() && i != j ==> spec_output_path(
            #[trigger] inputs[i],
        ) != spec_output_path(#[trigger] inputs[j])
}

/// Inputs that differ from one another and whose file names all have one
/// extension are separate, unless that extension is the one of generated
/// files.
pub proof fn law_distinct_inputs_are_separate(inputs: Seq<Seq<u8>>, extension: Seq<u8>)
    requires
        extension != spec_output_extension(),
        forall|i: int|
            0 <= i < inputs.len() ==> spec_extension(spec_file_name(#[trigger] inputs[i])) == Some(
                extension,
            ),
        forall|i: int, j: int|
            0 <= i < inputs.len() && 0 <= j < inputs.len() && i != j ==> inputs[i] != inputs[j],
    ensures
        separate(inputs),
{
    assert forall|i: int, j: int| 0 <= i < inputs.len() && 0 <= j < inputs.len() implies
        spec_output_path(#[trigger] inputs[i]) != #[trigger] inputs[j] by {
        law_output_has_output_extension(inputs[i]);
    }
    assert forall|i: int, j: int|
        0 <= i < inputs.len() && 0 <= j < inputs.len() && i != j implies spec_output_path(
        #[trigger] inputs[i],
    ) != spec_output_path(#[trigger] inputs[j]) by {
        if spec_output_path(inputs[i]) == spec_output_path(inputs[j]) {
            law_output_path_one_to_one(inputs[i], inputs[j]);
        }
    }
}

/// The input is there with an output that is not older, and the output is
/// read-only or is as it was in `first`.
pub open spec fn settled(
    files: Map<Seq<u8>, FileState>,
    first: Map<Seq<u8>, FileState>,
    input: Seq<u8>,
) -> bool {
    let output = spec_output_path(input);
    &&& files.contains_key(input)
    &&& files.contains_key(output)
    &&& files[output].modified >= files[input].modified
    &&& files[output].read_only || (first.contains_key(output) && files[output] == first[output])
}

/// The file at `path` is as it was in `first`, or as absent.
pub open spec fn untouched(
    files: Map<Seq<u8>, FileState>,
    first: Map<Seq<u8>, FileState>,
    path: Seq<u8>,
) -> bool {
    files.contains_key(path) == first.contains_key(path) && files[path] == first[path]
}

/// Tells whether `path` is the output of one of the inputs.
pub open spec fn is_output(inputs: Seq<Seq<u8>>, path: Seq<u8>) -> bool {
    exists|j: int| 0 <= j < inputs.len() && path == spec_output_path(#[trigger] inputs[j])
}

/// What a pass has kept and done when it has settled the first `done` of
/// its inputs: what is not an output is as it was, the inputs before
/// position `done` are settled, and the outputs of the inputs behind that
/// position are as they were.
pub open spec fn kept(
    files: Map<Seq<u8>, FileState>,
    first: Map<Seq<u8>, FileState>,
    inputs: Seq<Seq<u8>>,
    done: int,
) -> bool {
    &&& forall|path: Seq<u8>|
        !is_output(inputs, path) ==> #[trigger] untouched(files, first, path)
    &&& forall|i: int| 0 <= i < done ==> settled(files, first, #[trigger] inputs[i])
    &&& forall|j: int|
        done < j < inputs.len() ==> untouched(
            files,
            first,
            spec_output_path(#[trigger] inputs[j]),
        )
}

/// What holds while a pass works on its inputs: it has kept and done what it
/// should up to the current input, and the action asked for is the one that
/// the phase awaits, on the current input or its output.
pub open spec fn at_work(stage: Stage, first: Map<Seq<u8>, FileState>) -> bool {
    let run = stage.run;
    let files = stage.files;
    let inputs = run.inputs();
    let input = run.source();
    let output = run.output();
    &&& kept(files, first, inputs, run.current as int)
    &&& match run.phase {
        PhaseView::SourceTime => {
            &&& stage.action == ActionView::ModifiedTime(input)
            &&& untouched(files, first, output)
        },
        PhaseView::OutputTime(time) => {
            &&& stage.action == ActionView::ModifiedTime(output)
            &&& untouched(files, first, output)
            &&& files.contains_key(input)
            &&& files[input].modified == time
        },
        PhaseView::Removing => stage.action == ActionView::Remove(output),
        PhaseView::Loading => stage.action == ActionView::Load(input),
        PhaseView::Creating(_) => {
            &&& stage.action == ActionView::Create(output)
            &&& files.contains_key(input)
        },
        PhaseView::Transforming => {
            &&& stage.action is Transform
            &&& files.contains_key(input)
            &&& files.contains_key(output)
            &&& files[output].modified >= files[input].modified
        },
        PhaseView::Writing => {
            &&& stage.action is Write
            &&& stage.action->Write_0 == output
            &&& files.contains_key(input)
        },
        PhaseView::Locking => {
            &&& stage.action == ActionView::MakeReadOnly(output)
            &&& files.contains_key(input)
            &&& files.contains_key(output)
            &&& files[output].modified >= files[input].modified
        },
        _ => true,
    }
}

/// What a clean pass leaves: every input settled, and everything that is not
/// an output as it was.
pub open spec fn clean(
    files: Map<Seq<u8>, FileState>,
    first: Map<Seq<u8>, FileState>,
    inputs: Seq<Seq<u8>>,
) -> bool {
    kept(files, first, inputs, inputs.len() as int)
}

/// What holds at every moment of a pass that began on the file system
/// `first`.
pub open spec fn sound(stage: Stage, first: Map<Seq<u8>, FileState>) -> bool {
    &&& stage.run.wf()
    &&& match stage.run.phase {
        PhaseView::Scanning => stage.files == first && stage.action is ListDirectory,
        PhaseView::Finished => stage.action is Finish && (stage.action == ActionView::Finish(
            Ok(()),
        ) ==> clean(stage.files, first, stage.run.inputs())),
        _ => at_work(stage, first),
    }
}

/// A change to the output of the current input leaves alone what the pass
/// has kept and done.
pub proof fn lemma_change_keeps(
    before: Map<Seq<u8>, FileState>,
    after: Map<Seq<u8>, FileState>,
    first: Map<Seq<u8>, FileState>,
    inputs: Seq<Seq<u8>>,
    current: int,
)
    requires
        0 <= current < inputs.len(),
        separate(inputs),
        kept(before, first, inputs, current),
        same_but_at(before, after, spec_output_path(inputs[current])),
    ensures
        kept(after, first, inputs, current),
        forall|j: int|
            0 <= j < inputs.len() ==> after.contains_key(#[trigger] inputs[j])
                == before.contains_key(inputs[j]) && after[inputs[j]] == before[inputs[j]],
{
    let output = spec_output_path(inputs[current]);
    assert(is_output(inputs, output));
    assert forall|path: Seq<u8>| !is_output(inputs, path) implies #[trigger] untouched(
        after,
        first,
        path,
    ) by {
        assert(untouched(before, first, path));
        assert(after.contains_key(path) == before.contains_key(path));
    }
    assert forall|i: int| 0 <= i < current implies settled(after, first, #[trigger] inputs[i]) by {
        assert(settled(before, first, inputs[i]));
        assert(inputs[i] != output);
        assert(spec_output_path(inputs[i]) != output);
        assert(after.contains_key(inputs[i]) == before.contains_key(inputs[i]));
        assert(after.contains_key(spec_output_path(inputs[i])) == before.contains_key(
            spec_output_path(inputs[i]),
        ));
    }
    assert forall|j: int| current < j < inputs.len() implies untouched(
        after,
        first,
        spec_output_path(#[trigger] inputs[j]),
    ) by {
        assert(untouched(before, first, spec_output_path(inputs[j])));
        assert(spec_output_path(inputs[j]) != output);
        assert(after.contains_key(spec_output_path(inputs[j])) == before.contains_key(
            spec_output_path(inputs[j]),
        ));
    }
    assert forall|j: int| 0 <= j < inputs.len() implies after.contains_key(#[trigger] inputs[j])
        == before.contains_key(inputs[j]) && after[inputs[j]] == before[inputs[j]] by {
        assert(inputs[j] != output);
        assert(after.contains_key(inputs[j]) == before.contains_key(inputs[j]));
    }
}

/// One answered action keeps a pass sound.
pub proof fn lemma_step_keeps_sound(
    stage: Stage,
    first: Map<Seq<u8>, FileState>,
    reply: ReplyView,
    files: Map<Seq<u8>, FileState>,
)
    requires
        sound(stage, first),
        effect(stage.files, stage.action, reply, files),
        !(stage.next(reply, files).run.phase is Scanning) ==> separate(
            stage.next(reply, files).run.inputs(),
        ),
    ensures
        sound(stage.next(reply, files), first),
{
    let next = stage.next(reply, files);
    let inputs = next.run.inputs();
    if stage.run.phase is Scanning || stage.run.phase is Finished {
        assert(files == stage.files);
    } else {
        assert(inputs == stage.run.inputs());
        let k = stage.run.current as int;
        assert(inputs[k] == stage.run.source());
        if files != stage.files {
            lemma_change_keeps(stage.files, files, first, inputs, k);
        }
    }
}

/// Once the scan is over, the inputs of a pass stay as they are.
pub proof fn lemma_inputs_stay(
    stage: Stage,
    replies: Seq<ReplyView>,
    worlds: Seq<Map<Seq<u8>, FileState>>,
)
    requires
        stage.run.wf(),
        !(stage.run.phase is Scanning),
    ensures
        stage.after(replies, worlds).run.wf(),
        !(stage.after(replies, worlds).run.phase is Scanning),
        stage.after(replies, worlds).run.inputs() == stage.run.inputs(),
    decreases replies.len(),
{
    if replies.len() > 0 && worlds.len() > 0 {
        lemma_inputs_stay(
            stage.next(replies[0], worlds[0]),
            replies.drop_first(),
            worlds.drop_first(),
        );
    }
}

/// Answered actions, however many, keep a pass sound.
pub proof fn lemma_pass_stays_sound(
    stage: Stage,
    first: Map<Seq<u8>, FileState>,
    replies: Seq<ReplyView>,
    worlds: Seq<Map<Seq<u8>, FileState>>,
)
    requires
        sound(stage, first),
        stage.allows(replies, worlds),
        !(stage.after(replies, worlds).run.phase is Scanning) ==> separate(
            stage.after(replies, worlds).run.inputs(),
        ),
    ensures
        sound(stage.after(replies, worlds), first),
    decreases replies.len(),
{
    if replies.len() > 0 {
        let next = stage.next(replies[0], worlds[0]);
        assert(next.run.wf());
        if !(next.run.phase is Scanning) {
            lemma_inputs_stay(next, replies.drop_first(), worlds.drop_first());
        }
        lemma_step_keeps_sound(stage, first, replies[0], worlds[0]);
        lemma_pass_stays_sound(next, first, replies.drop_first(), worlds.drop_first());
    }
}

/// A pass that ends clean leaves every input with an output that is not
/// older than the input and that is read-only, unless the pass found the
/// output newer than the input and left it as it was. Whatever is not the
/// output of an input is left as it was.
///
/// This holds of every pass over `root`, forced or not, against a file
/// system that behaves as `effect` says, whatever the listings and whatever
/// the transformation returns, as long as no output takes the place of an
/// input and no two inputs share an output.
pub proof fn law_clean_pass_settles_inputs(
    root: Seq<u8>,
    extension: Seq<u8>,
    force_rebuild: bool,
    first: Map<Seq<u8>, FileState>,
    replies: Seq<ReplyView>,
    worlds: Seq<Map<Seq<u8>, FileState>>,
) -> (end: Stage)
    requires
        (Stage {
            run: RunView::start(root, extension, force_rebuild),
            action: ActionView::ListDirectory(root),
            files: first,
        }).allows(replies, worlds),
        (Stage {
            run: RunView::start(root, extension, force_rebuild),
            action: ActionView::ListDirectory(root),
            files: first,
        }).after(replies, worlds).action == ActionView::Finish(Ok(())),
        separate(
            (Stage {
                run: RunView::start(root, extension, force_rebuild),
                action: ActionView::ListDirectory(root),
                files: first,
            }).after(replies, worlds).run.inputs(),
        ),
    ensures
        end == (Stage {
            run: RunView::start(root, extension, force_rebuild),
            action: ActionView::ListDirectory(root),
            files: first,
        }).after(replies, worlds),
        forall|i: int|
            0 <= i < end.run.inputs().len() ==> settled(
                end.files,
                first,
                #[trigger] end.run.inputs()[i],
            ),
        forall|path: Seq<u8>|
            !is_output(end.run.inputs(), path) ==> #[trigger] untouched(end.files, first, path),
{
    let start = Stage {
        run: RunView::start(root, extension, force_rebuild),
        action: ActionView::ListDirectory(root),
        files: first,
    };
    lemma_pass_stays_sound(start, first, replies, worlds);
    start.after(replies, worlds)
}

} // verus!
