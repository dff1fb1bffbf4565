//! One pass over a directory: find the inputs, decide for each whether its
//! output is stale, and regenerate the stale ones.
//!
//! A pass is a conversation. The run asks for one piece of file-system work
//! at a time, as an `Action`; the caller carries it out and answers with a
//! `Reply`; the run then decides what comes next. A pass ends with the
//! action `Finish`, which carries the outcome.

use vstd::prelude::*;
use crate::bytes::copy;
use crate::error::{Error, ErrorView, IoError, IoErrorKind, IoErrorView, outcome_view};
use crate::file_text::{FileText, FileTextView};
use crate::path::{output_path, spec_output_path};
use crate::scanner::{Entry, EntryView, Scanner, ScannerView, listing_view};
use crate::staleness::{decide, spec_decide, RebuildDecision};

verus! {

/// A transformation from the content of an input to the content of its
/// output.
pub trait Processor {
    /// Produces the bytes of the output for one input, or fails. A failure
    /// that the content of the input is to blame for is an `Error::Source`
    /// with a message and the span of the input that the message is about.
    fn process(&self, input: FileText) -> Result<Vec<u8>, Error>;
}

/// What an `Action` stands for.
pub ghost enum ActionView {
    ListDirectory(Seq<u8>),
    ModifiedTime(Seq<u8>),
    Remove(Seq<u8>),
    Load(Seq<u8>),
    Create(Seq<u8>),
    Transform(FileTextView),
    Write(Seq<u8>, Seq<u8>),
    MakeReadOnly(Seq<u8>),
    Finish(Result<(), ErrorView>),
}

/// A piece of work that a run asks of its caller.
#[derive(Debug, PartialEq, Eq)]
pub enum Action {
    /// List the entries of the directory at this path. Answered by
    /// `Reply::Entries`.
    ListDirectory(Vec<u8>),
    /// Tell when the file at this path was last modified. Answered by
    /// `Reply::Modified`.
    ModifiedTime(Vec<u8>),
    /// Remove the file at this path. Answered by `Reply::Done`.
    Remove(Vec<u8>),
    /// Read the file at this path. Answered by `Reply::Content`.
    Load(Vec<u8>),
    /// Create an empty file at this path, emptying a file that is already
    /// there. Answered by `Reply::Done`.
    Create(Vec<u8>),
    /// Hand this input to the transformation. Answered by
    /// `Reply::Transformed`.
    Transform(FileText),
    /// Write these bytes to the file at this path. Answered by `Reply::Done`.
    Write(Vec<u8>, Vec<u8>),
    /// Mark the file at this path read-only. Answered by `Reply::Done`.
    MakeReadOnly(Vec<u8>),
    /// Stop: the pass is over, with this outcome.
    Finish(Result<(), Error>),
}

impl View for Action {
    type V = ActionView;

    open spec fn view(&self) -> ActionView {
        match self {
            Action::ListDirectory(path) => ActionView::ListDirectory(path@),
            Action::ModifiedTime(path) => ActionView::ModifiedTime(path@),
            Action::Remove(path) => ActionView::Remove(path@),
            Action::Load(path) => ActionView::Load(path@),
            Action::Create(path) => ActionView::Create(path@),
            Action::Transform(input) => ActionView::Transform(input@),
            Action::Write(path, bytes) => ActionView::Write(path@, bytes@),
            Action::MakeReadOnly(path) => ActionView::MakeReadOnly(path@),
            Action::Finish(outcome) => ActionView::Finish(outcome_view(*outcome)),
        }
    }
}

/// What the result of a transformation stands for.
pub open spec fn transformed_view(result: Result<Vec<u8>, Error>) -> Result<Seq<u8>, ErrorView> {
    match result {
        Ok(bytes) => Ok(bytes@),
        Err(error) => Err(error@),
    }
}

/// What a `Reply` stands for.
pub ghost enum ReplyView {
    Entries(Seq<EntryView>),
    Modified(u128),
    Content(Seq<u8>),
    Transformed(Result<Seq<u8>, ErrorView>),
    Done,
    Failed(IoErrorView),
}

/// The answer to an action.
#[derive(Debug, PartialEq, Eq)]
pub enum Reply {
    /// The entries of the directory.
    Entries(Vec<Entry>),
    /// The time of the last modification of the file.
    Modified(u128),
    /// The bytes of the file.
    Content(Vec<u8>),
    /// What the transformation returned.
    Transformed(Result<Vec<u8>, Error>),
    /// The work was done and there is nothing to tell.
    Done,
    /// The work failed.
    Failed(IoError),
}

impl View for Reply {
    type V = ReplyView;

    open spec fn view(&self) -> ReplyView {
        match self {
            Reply::Entries(entries) => ReplyView::Entries(listing_view(entries@)),
            Reply::Modified(time) => ReplyView::Modified(*time),
            Reply::Content(bytes) => ReplyView::Content(bytes@),
            Reply::Transformed(result) => ReplyView::Transformed(transformed_view(*result)),
            Reply::Done => ReplyView::Done,
            Reply::Failed(error) => ReplyView::Failed(error@),
        }
    }
}

/// What a `Phase` stands for.
pub ghost enum PhaseView {
    Scanning,
    SourceTime,
    OutputTime(u128),
    Removing,
    Loading,
    Creating(FileTextView),
    Transforming,
    Writing,
    Locking,
    Finished,
}

/// Where a run stands: the action that it waits to have answered.
#[derive(Clone, Debug, PartialEq, Eq)]
pub enum Phase {
    /// The listing of a directory is awaited.
    Scanning,
    /// The modification time of the current input is awaited.
    SourceTime,
    /// The modification time of the current output is awaited; that of the
    /// input is kept.
    OutputTime(u128),
    /// The removal of the current output is awaited.
    Removing,
    /// The content of the current input is awaited.
    Loading,
    /// The creation of the current output is awaited; the input is kept.
    Creating(FileText),
    /// The result of the transformation is awaited.
    Transforming,
    /// The writing of the current output is awaited.
    Writing,
    /// The locking of the current output is awaited.
    Locking,
    /// The pass is over.
    Finished,
}

impl View for Phase {
    type V = PhaseView;

    open spec fn view(&self) -> PhaseView {
        match self {
            Phase::Scanning => PhaseView::Scanning,
            Phase::SourceTime => PhaseView::SourceTime,
            Phase::OutputTime(time) => PhaseView::OutputTime(*time),
            Phase::Removing => PhaseView::Removing,
            Phase::Loading => PhaseView::Loading,
            Phase::Creating(input) => PhaseView::Creating(input@),
            Phase::Transforming => PhaseView::Transforming,
            Phase::Writing => PhaseView::Writing,
            Phase::Locking => PhaseView::Locking,
            Phase::Finished => PhaseView::Finished,
        }
    }
}

/// The description of the failure that a reply causes when it does not
/// answer the action that the run asked for.
pub open spec fn unexpected_reply() -> IoErrorView {
    IoErrorView { kind: IoErrorKind::Other, message: "reply does not answer the request"@ }
}

/// Tells whether a failed removal leaves nothing to clean up. A missing file
/// is reported as not found on some platforms and as blocked on others, where
/// it was read-only before; both mean that the output is out of the way.
pub open spec fn spec_removal_is_void(kind: IoErrorKind) -> bool {
    kind == IoErrorKind::NotFound || kind == IoErrorKind::PermissionDenied
}

/// What a `Run` stands for.
pub ghost struct RunView {
    /// Whether every output is regenerated, whatever its age.
    pub force_rebuild: bool,
    /// The scan for inputs.
    pub scanner: ScannerView,
    /// Position among the found inputs of the one that is being worked on.
    pub current: nat,
    /// The action that waits to be answered.
    pub phase: PhaseView,
}

impl RunView {
    /// The run that has just asked for the listing of `root`.
    pub open spec fn start(root: Seq<u8>, extension: Seq<u8>, force_rebuild: bool) -> RunView {
        RunView {
            force_rebuild,
            scanner: ScannerView::start(root, extension),
            current: 0,
            phase: PhaseView::Scanning,
        }
    }

    /// The inputs, in the order in which they are worked on.
    pub open spec fn inputs(self) -> Seq<Seq<u8>> {
        self.scanner.found
    }

    /// The path of the current input.
    pub open spec fn source(self) -> Seq<u8> {
        self.inputs()[self.current as int]
    }

    /// The path of the output of the current input.
    pub open spec fn output(self) -> Seq<u8> {
        spec_output_path(self.source())
    }

    /// The run in another phase.
    pub open spec fn at(self, phase: PhaseView) -> RunView {
        RunView { phase, ..self }
    }

    /// The end of the pass with the given outcome.
    pub open spec fn finish(self, outcome: Result<(), ErrorView>) -> (RunView, ActionView) {
        (self.at(PhaseView::Finished), ActionView::Finish(outcome))
    }

    /// The end of the pass with a failure of the environment.
    pub open spec fn fail(self, error: IoErrorView) -> (RunView, ActionView) {
        self.finish(Err(ErrorView::Io(error)))
    }

    /// The beginning of the regeneration of the current output: the stale
    /// output is removed first.
    pub open spec fn rebuild(self) -> (RunView, ActionView) {
        (self.at(PhaseView::Removing), ActionView::Remove(self.output()))
    }

    /// Turns to the input at position `index`. Behind the last input the pass
    /// ends clean. A forced run regenerates the output without looking at any
    /// time; another run asks for the time of the input first.
    pub open spec fn turn_to(self, index: nat) -> (RunView, ActionView) {
        let run = RunView { current: index, ..self };
        if index >= self.inputs().len() {
            run.finish(Ok(()))
        } else if self.force_rebuild {
            run.rebuild()
        } else {
            (run.at(PhaseView::SourceTime), ActionView::ModifiedTime(run.source()))
        }
    }

    /// The step that takes in a listing.
    pub open spec fn listed(self, entries: Seq<EntryView>) -> (RunView, ActionView) {
        let scanner = self.scanner.fed(entries);
        let run = RunView { scanner, ..self };
        if scanner.is_done() {
            run.turn_to(0)
        } else {
            (run, ActionView::ListDirectory(scanner.pending.last()))
        }
    }

    /// The step that follows the decision on the current input.
    pub open spec fn decided(self, decision: RebuildDecision) -> (RunView, ActionView) {
        match decision {
            RebuildDecision::Skip => self.turn_to(self.current + 1),
            RebuildDecision::Rebuild => self.rebuild(),
        }
    }

    /// The state and the action that follow a reply.
    pub open spec fn step(self, reply: ReplyView) -> (RunView, ActionView) {
        match (self.phase, reply) {
            (PhaseView::Scanning, ReplyView::Entries(entries)) => self.listed(entries),
            (PhaseView::SourceTime, ReplyView::Modified(time)) => (
                self.at(PhaseView::OutputTime(time)),
                ActionView::ModifiedTime(self.output()),
            ),
            (PhaseView::OutputTime(source), ReplyView::Modified(output)) => self.decided(
                spec_decide(self.force_rebuild, source, Some(output)),
            ),
            (PhaseView::OutputTime(source), ReplyView::Failed(error)) => if error.kind
                == IoErrorKind::NotFound {
                self.decided(spec_decide(self.force_rebuild, source, None))
            } else {
                self.fail(error)
            },
            (PhaseView::Removing, ReplyView::Done) => (
                self.at(PhaseView::Loading),
                ActionView::Load(self.source()),
            ),
            (PhaseView::Removing, ReplyView::Failed(error)) => if spec_removal_is_void(
                error.kind,
            ) {
                (self.at(PhaseView::Loading), ActionView::Load(self.source()))
            } else {
                self.fail(error)
            },
            (PhaseView::Loading, ReplyView::Content(bytes)) => {
                let input = FileTextView { path: self.source(), text: bytes };
                (self.at(PhaseView::Creating(input)), ActionView::Create(self.output()))
            },
            (PhaseView::Creating(input), ReplyView::Done) => (
                self.at(PhaseView::Transforming),
                ActionView::Transform(input),
            ),
            (PhaseView::Transforming, ReplyView::Transformed(Ok(bytes))) => (
                self.at(PhaseView::Writing),
                ActionView::Write(self.output(), bytes),
            ),
            (PhaseView::Transforming, ReplyView::Transformed(Err(error))) => self.finish(
                Err(error),
            ),
            (PhaseView::Writing, ReplyView::Done) => (
                self.at(PhaseView::Locking),
                ActionView::MakeReadOnly(self.output()),
            ),
            (PhaseView::Locking, ReplyView::Done) => self.turn_to(self.current + 1),
            (PhaseView::Finished, _) => self.fail(unexpected_reply()),
            (_, ReplyView::Failed(error)) => self.fail(error),
            (_, _) => self.fail(unexpected_reply()),
        }
    }

    /// In every phase but the first and the last there is a current input.
    pub open spec fn wf(self) -> bool {
        match self.phase {
            PhaseView::Scanning => !self.scanner.is_done() && self.current == 0,
            PhaseView::Finished => true,
            _ => self.scanner.is_done() && self.current < self.inputs().len(),
        }
    }
}

/// Tells whether a failed removal leaves nothing to clean up.
pub fn removal_is_void(kind: IoErrorKind) -> (void: bool)
    ensures
        void == spec_removal_is_void(kind),
{
    match kind {
        IoErrorKind::NotFound => true,
        IoErrorKind::PermissionDenied => true,
        IoErrorKind::Other => false,
    }
}

/// Judges the result of removing a stale output. A removal that failed
/// because the file was not found, or because the removal was blocked, counts
/// as done: in both cases there is nothing to clean up. Any other failure
/// stands.
pub fn remove_old_file(removal: Result<(), IoError>) -> (judged: Result<(), IoError>)
    ensures
        judged == match removal {
            Ok(()) => Ok::<(), IoError>(()),
            Err(error) => if spec_removal_is_void(error.kind) {
                Ok(())
            } else {
                Err(error)
            },
        },
{
    match removal {
        Ok(()) => Ok(()),
        Err(error) => if removal_is_void(error.kind) {
            Ok(())
        } else {
            Err(error)
        },
    }
}

/// The failure that a reply causes when it does not answer the action that
/// the run asked for.
fn unexpected() -> (error: IoError)
    ensures
        error@ == unexpected_reply(),
{
    IoError::new(IoErrorKind::Other, "reply does not answer the request".to_owned())
}

/// A pass over a directory, between two actions.
#[derive(Debug)]
pub struct Run {
    force_rebuild: bool,
    scanner: Scanner,
    current: usize,
    phase: Phase,
}

impl View for Run {
    type V = RunView;

    closed spec fn view(&self) -> RunView {
        RunView {
            force_rebuild: self.force_rebuild,
            scanner: self.scanner@,
            current: self.current as nat,
            phase: self.phase@,
        }
    }
}

impl Run {
    #[verifier::type_invariant]
    spec fn valid(self) -> bool {
        self@.wf()
    }

    /// Where the run stands.
    pub fn phase(&self) -> (phase: &Phase)
        ensures
            phase@ == self@.phase,
    {
        &self.phase
    }

    /// Whether the run regenerates every output, whatever its age.
    pub fn force_rebuild(&self) -> (force: bool)
        ensures
            force == self@.force_rebuild,
    {
        self.force_rebuild
    }

    /// Position among the inputs of the one that is being worked on.
    pub fn current(&self) -> (current: usize)
        ensures
            current == self@.current,
    {
        self.current
    }

    /// Tells whether the pass is over.
    pub fn is_finished(&self) -> (finished: bool)
        ensures
            finished == (self@.phase == PhaseView::Finished),
    {
        match self.phase {
            Phase::Finished => true,
            _ => false,
        }
    }

    /// The inputs found so far, in the order in which they are worked on.
    pub fn inputs(&self) -> (inputs: &Vec<Vec<u8>>)
        ensures
            crate::bytes::views(inputs@) == self@.inputs(),
    {
        self.scanner.found()
    }

    fn finish(force_rebuild: bool, scanner: Scanner, current: usize, outcome: Result<
        (),
        Error,
    >) -> (next: (Run, Action))
        ensures
            next.0@ == (RunView {
                force_rebuild,
                scanner: scanner@,
                current: current as nat,
                phase: PhaseView::Finished,
            }),
            next.1@ == ActionView::Finish(outcome_view(outcome)),
    {
        (Run { force_rebuild, scanner, current, phase: Phase::Finished }, Action::Finish(outcome))
    }

    fn rebuild(force_rebuild: bool, scanner: Scanner, current: usize) -> (next: (Run, Action))
        requires
            scanner@.is_done(),
            current < scanner@.found.len(),
        ensures
            (next.0@, next.1@) == (RunView {
                force_rebuild,
                scanner: scanner@,
                current: current as nat,
                phase: PhaseView::Finished,
            }).rebuild(),
    {
        let output = output_path(scanner.found()[current].as_slice());
        (Run { force_rebuild, scanner, current, phase: Phase::Removing }, Action::Remove(output))
    }

    fn turn_to(force_rebuild: bool, scanner: Scanner, index: usize) -> (next: (Run, Action))
        requires
            scanner@.is_done(),
        ensures
            (next.0@, next.1@) == (RunView {
                force_rebuild,
                scanner: scanner@,
                current: 0,
                phase: PhaseView::Finished,
            }).turn_to(index as nat),
    {
        if index >= scanner.found().len() {
            Run::finish(force_rebuild, scanner, index, Ok(()))
        } else if force_rebuild {
            Run::rebuild(force_rebuild, scanner, index)
        } else {
            let source = copy(scanner.found()[index].as_slice());
            (
                Run { force_rebuild, scanner, current: index, phase: Phase::SourceTime },
                Action::ModifiedTime(source),
            )
        }
    }

    fn decided(
        force_rebuild: bool,
        scanner: Scanner,
        current: usize,
        phase: Ghost<PhaseView>,
        decision: RebuildDecision,
    ) -> (next: (Run, Action))
        requires
            scanner@.is_done(),
            current < scanner@.found.len(),
        ensures
            (next.0@, next.1@) == (RunView {
                force_rebuild,
                scanner: scanner@,
                current: current as nat,
                phase: phase@,
            }).decided(decision),
    {
        proof {
            scanner.lemma_found_bounded();
        }
        match decision {
            RebuildDecision::Skip => Run::turn_to(force_rebuild, scanner, current + 1),
            RebuildDecision::Rebuild => Run::rebuild(force_rebuild, scanner, current),
        }
    }

    fn load(force_rebuild: bool, scanner: Scanner, current: usize) -> (next: (Run, Action))
        requires
            scanner@.is_done(),
            current < scanner@.found.len(),
        ensures
            next.0@ == (RunView {
                force_rebuild,
                scanner: scanner@,
                current: current as nat,
                phase: PhaseView::Loading,
            }),
            next.1@ == ActionView::Load(next.0@.source()),
    {
        let source = copy(scanner.found()[current].as_slice());
        (Run { force_rebuild, scanner, current, phase: Phase::Loading }, Action::Load(source))
    }

    /// Takes in the reply to the action that the run asked for last, and
    /// tells what to do next.
    ///
    /// A reply that reports a failure ends the pass with that failure, but
    /// for two: an output that is not there when its time is asked for is
    /// stale, and an output that cannot be removed because it is not there,
    /// or because the removal is blocked, counts as removed. A reply of a
    /// kind that does not answer the action ends the pass with a failure as
    /// well.
    pub fn step(self, reply: Reply) -> (next: (Run, Action))
        ensures
            (next.0@, next.1@) == self@.step(reply@),
            next.0@.wf(),
    {
        proof {
            use_type_invariant(&self);
        }
        let ghost before = self@;
        let Run { force_rebuild, scanner, current, phase } = self;
        let next = match phase {
            Phase::Scanning => match reply {
                Reply::Entries(entries) => {
                    let mut scanner = scanner;
                    scanner.feed(&entries);
                    let pending = match scanner.next_directory() {
                        Some(dir) => Some(copy(dir.as_slice())),
                        None => None,
                    };
                    match pending {
                        Some(dir) => (
                            Run { force_rebuild, scanner, current, phase: Phase::Scanning },
                            Action::ListDirectory(dir),
                        ),
                        None => Run::turn_to(force_rebuild, scanner, 0),
                    }
                },
                Reply::Failed(error) => Run::finish(
                    force_rebuild,
                    scanner,
                    current,
                    Err(Error::Io(error)),
                ),
                _ => Run::finish(force_rebuild, scanner, current, Err(Error::Io(unexpected()))),
            },
            Phase::SourceTime => match reply {
                Reply::Modified(time) => {
                    let output = output_path(scanner.found()[current].as_slice());
                    (
                        Run { force_rebuild, scanner, current, phase: Phase::OutputTime(time) },
                        Action::ModifiedTime(output),
                    )
                },
                Reply::Failed(error) => Run::finish(
                    force_rebuild,
                    scanner,
                    current,
                    Err(Error::Io(error)),
                ),
                _ => Run::finish(force_rebuild, scanner, current, Err(Error::Io(unexpected()))),
            },
            Phase::OutputTime(source) => match reply {
                Reply::Modified(output) => {
                    let decision = decide(force_rebuild, source, Some(output));
                    Run::decided(force_rebuild, scanner, current, Ghost(before.phase), decision)
                },
                Reply::Failed(error) => match error.kind {
                    IoErrorKind::NotFound => {
                        let decision = decide(force_rebuild, source, None);
                        Run::decided(
                            force_rebuild,
                            scanner,
                            current,
                            Ghost(before.phase),
                            decision,
                        )
                    },
                    _ => Run::finish(force_rebuild, scanner, current, Err(Error::Io(error))),
                },
                _ => Run::finish(force_rebuild, scanner, current, Err(Error::Io(unexpected()))),
            },
            Phase::Removing => match reply {
                Reply::Done => Run::load(force_rebuild, scanner, current),
                Reply::Failed(error) => match remove_old_file(Err(error)) {
                    Ok(()) => Run::load(force_rebuild, scanner, current),
                    Err(error) => Run::finish(
                        force_rebuild,
                        scanner,
                        current,
                        Err(Error::Io(error)),
                    ),
                },
                _ => Run::finish(force_rebuild, scanner, current, Err(Error::Io(unexpected()))),
            },
            Phase::Loading => match reply {
                Reply::Content(bytes) => {
                    let source = copy(scanner.found()[current].as_slice());
                    let output = output_path(source.as_slice());
                    let input = FileText::new(source, bytes);
                    (
                        Run { force_rebuild, scanner, current, phase: Phase::Creating(input) },
                        Action::Create(output),
                    )
                },
                Reply::Failed(error) => Run::finish(
                    force_rebuild,
                    scanner,
                    current,
                    Err(Error::Io(error)),
                ),
                _ => Run::finish(force_rebuild, scanner, current, Err(Error::Io(unexpected()))),
            },
            Phase::Creating(input) => match reply {
                Reply::Done => (
                    Run { force_rebuild, scanner, current, phase: Phase::Transforming },
                    Action::Transform(input),
                ),
                Reply::Failed(error) => Run::finish(
                    force_rebuild,
                    scanner,
                    current,
                    Err(Error::Io(error)),
                ),
                _ => Run::finish(force_rebuild, scanner, current, Err(Error::Io(unexpected()))),
            },
            Phase::Transforming => match reply {
                Reply::Transformed(Ok(bytes)) => {
                    let output = output_path(scanner.found()[current].as_slice());
                    (
                        Run { force_rebuild, scanner, current, phase: Phase::Writing },
                        Action::Write(output, bytes),
                    )
                },
                Reply::Transformed(Err(error)) => Run::finish(
                    force_rebuild,
                    scanner,
                    current,
                    Err(error),
                ),
                Reply::Failed(error) => Run::finish(
                    force_rebuild,
                    scanner,
                    current,
                    Err(Error::Io(error)),
                ),
                _ => Run::finish(force_rebuild, scanner, current, Err(Error::Io(unexpected()))),
            },
            Phase::Writing => match reply {
                Reply::Done => {
                    let output = output_path(scanner.found()[current].as_slice());
                    (
                        Run { force_rebuild, scanner, current, phase: Phase::Locking },
                        Action::MakeReadOnly(output),
                    )
                },
                Reply::Failed(error) => Run::finish(
                    force_rebuild,
                    scanner,
                    current,
                    Err(Error::Io(error)),
                ),
                _ => Run::finish(force_rebuild, scanner, current, Err(Error::Io(unexpected()))),
            },
            Phase::Locking => match reply {
                Reply::Done => {
                    proof {
                        scanner.lemma_found_bounded();
                    }
                    Run::turn_to(force_rebuild, scanner, current + 1)
                },
                Reply::Failed(error) => Run::finish(
                    force_rebuild,
                    scanner,
                    current,
                    Err(Error::Io(error)),
                ),
                _ => Run::finish(force_rebuild, scanner, current, Err(Error::Io(unexpected()))),
            },
            Phase::Finished => Run::finish(
                force_rebuild,
                scanner,
                current,
                Err(Error::Io(unexpected())),
            ),
        };
        proof {
            use_type_invariant(&next.0);
        }
        next
    }

    /// Takes in a reply as `step` does and, where the next thing to do is
    /// to transform an input, has `processor` do so at once and takes in
    /// what it returned.
    pub fn advance<T: Processor>(self, processor: &T, reply: Reply) -> (next: (Run, Action))
        ensures
            match self@.step(reply@) {
                (run, ActionView::Transform(input)) => exists|result: Result<Seq<u8>, ErrorView>|
                    (next.0@, next.1@) == #[trigger] run.step(ReplyView::Transformed(result)),
                other => (next.0@, next.1@) == other,
            },
            next.0@.wf(),
    {
        let (run, action) = self.step(reply);
        match action {
            Action::Transform(input) => {
                let result = processor.process(input);
                let ghost transformed = transformed_view(result);
                let next = run.step(Reply::Transformed(result));
                assert((next.0@, next.1@) == run@.step(ReplyView::Transformed(transformed)));
                next
            },
            action => (run, action),
        }
    }
}

/// Begins a pass over the directory at `path` for inputs with the given
/// extension. With `force_rebuild` every output is regenerated; without it
/// only those that are absent or not newer than their input.
///
/// The first thing to do is to list the directory.
pub fn process_dir(path: &[u8], extension: &[u8], force_rebuild: bool) -> (start: (Run, Action))
    ensures
        start.0@ == RunView::start(path@, extension@, force_rebuild),
        start.1@ == ActionView::ListDirectory(path@),
        start.0@.wf(),
{
    let scanner = Scanner::new(copy(path), copy(extension));
    (
        Run { force_rebuild, scanner, current: 0, phase: Phase::Scanning },
        Action::ListDirectory(copy(path)),
    )
}

} // verus!
