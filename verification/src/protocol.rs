//! What holds of every pass, proved from the steps of a run.

use vstd::prelude::*;
use crate::error::{ErrorView, IoErrorKind, IoErrorView};
use crate::path::spec_output_path;
use crate::run::{ActionView, PhaseView, ReplyView, RunView, spec_removal_is_void};

verus! {

/// Tells whether a run is regenerating the output of its current input:
/// whether it stands between the removal of the stale output and the locking
/// of the new one.
pub open spec fn regenerating(phase: PhaseView) -> bool {
    phase is Removing || phase is Loading || phase is Creating || phase is Transforming
        || phase is Writing || phase is Locking
}

/// While a run scans, a listing goes to its scanner, and the run asks for the
/// listing of the directory that the scanner names next. Nothing else is
/// asked for before the scan is done.
pub proof fn law_listing_feeds_scanner(run: RunView, entries: Seq<crate::scanner::EntryView>)
    requires
        run.phase is Scanning,
    ensures
        run.step(ReplyView::Entries(entries)).0.scanner == run.scanner.fed(entries),
        !run.scanner.fed(entries).is_done() ==> run.step(ReplyView::Entries(entries)).1
            == ActionView::ListDirectory(run.scanner.fed(entries).pending.last())
            && run.step(ReplyView::Entries(entries)).0.phase is Scanning,
{
}

/// An input whose output does not exist is regenerated: when the time of
/// the output is asked for and the answer is that there is no such file, the
/// run goes on to remove and rebuild the output.
pub proof fn law_missing_output_is_rebuilt(run: RunView, source: u128, error: IoErrorView)
    requires
        run.phase == PhaseView::OutputTime(source),
        error.kind == IoErrorKind::NotFound,
    ensures
        run.step(ReplyView::Failed(error)) == run.rebuild(),
        run.step(ReplyView::Failed(error)).1 == ActionView::Remove(run.output()),
{
}

/// An input that is older than its output is skipped; one that is as old or
/// newer is regenerated.
pub proof fn law_times_decide(run: RunView, source: u128, output: u128)
    requires
        !run.force_rebuild,
        run.phase == PhaseView::OutputTime(source),
    ensures
        source < output ==> run.step(ReplyView::Modified(output)) == run.turn_to(run.current + 1),
        source >= output ==> run.step(ReplyView::Modified(output)) == run.rebuild(),
{
}

/// A forced run regenerates every output, whatever the times: it turns to
/// an input by removing its output, without asking for any time, and were it
/// told the times it would rebuild all the same.
pub proof fn law_forced_run_rebuilds(run: RunView, index: nat, source: u128, output: u128)
    requires
        run.force_rebuild,
        index < run.inputs().len(),
    ensures
        run.turn_to(index).1 == ActionView::Remove(spec_output_path(run.inputs()[index as int])),
        run.at(PhaseView::OutputTime(source)).step(ReplyView::Modified(output)).1
            == ActionView::Remove(run.output()),
{
}

/// A removal that is reported as blocked, or the file as not found, does not
/// end the pass: the run goes on to load the input, as after a removal that
/// succeeded.
pub proof fn law_blocked_removal_is_tolerated(run: RunView, error: IoErrorView)
    requires
        run.phase == PhaseView::Removing,
        error.kind == IoErrorKind::PermissionDenied || error.kind == IoErrorKind::NotFound,
    ensures
        spec_removal_is_void(error.kind),
        run.step(ReplyView::Failed(error)) == run.step(ReplyView::Done),
        run.step(ReplyView::Failed(error)).1 == ActionView::Load(run.source()),
{
}

/// The steps of a regeneration come in one order, each after the one before
/// it has succeeded, and all on the same input and output: remove the output,
/// load the input, create the output, transform, write, lock.
pub proof fn law_regeneration_order(run: RunView, content: Seq<u8>, produced: Seq<u8>)
    ensures
        run.rebuild().1 == ActionView::Remove(run.output()),
        run.at(PhaseView::Removing).step(ReplyView::Done).1 == ActionView::Load(run.source()),
        run.at(PhaseView::Loading).step(ReplyView::Content(content)).1 == ActionView::Create(
            run.output(),
        ),
        run.at(PhaseView::Loading).step(ReplyView::Content(content)).0.step(ReplyView::Done).1
            == ActionView::Transform(
            crate::file_text::FileTextView { path: run.source(), text: content },
        ),
        run.at(PhaseView::Transforming).step(ReplyView::Transformed(Ok(produced))).1
            == ActionView::Write(run.output(), produced),
        run.at(PhaseView::Writing).step(ReplyView::Done).1 == ActionView::MakeReadOnly(
            run.output(),
        ),
{
}

/// An output is locked only after it has been written in full, and an input
/// counts as dealt with only after its output has been locked: a run that is
/// regenerating leaves its current input, or ends clean, on no other step
/// than the one that takes in the success of the locking.
pub proof fn law_regenerated_output_is_locked(run: RunView, reply: ReplyView)
    requires
        regenerating(run.phase),
    ensures
        run.step(reply).1 is MakeReadOnly ==> run.phase is Writing && reply is Done,
        run.step(reply).0.current != run.current || run.step(reply).1 == ActionView::Finish(
            Ok(()),
        ) ==> run.phase is Locking && reply is Done,
{
}

/// A failure of the transformation ends the pass with that failure: nothing
/// is written and nothing is locked.
pub proof fn law_source_error_ends_pass(run: RunView, error: ErrorView)
    requires
        run.phase == PhaseView::Transforming,
    ensures
        run.step(ReplyView::Transformed(Err(error))) == run.finish(Err(error)),
        run.step(ReplyView::Transformed(Err(error))).0.phase == PhaseView::Finished,
{
}

/// A pass ends once. The step that ends it leaves the run finished, and a
/// finished run asks for no further work: whatever it is told, it answers
/// that the pass is over.
pub proof fn law_finished_pass_stays_finished(run: RunView, reply: ReplyView)
    ensures
        run.step(reply).1 is Finish ==> run.step(reply).0.phase == PhaseView::Finished,
        run.phase == PhaseView::Finished ==> run.step(reply).1 is Finish,
{
}

/// Every step keeps a run well formed.
pub proof fn law_step_keeps_well_formed(run: RunView, reply: ReplyView)
    requires
        run.wf(),
    ensures
        run.step(reply).0.wf(),
{
}

/// The first failure ends the pass: a reply that reports a failure is
/// followed by the end of the pass with that failure, unless it is one of the
/// two that are tolerated, an output that is not there when its time is asked
/// for, or a removal with nothing to clean up.
pub proof fn law_first_failure_ends_pass(run: RunView, error: IoErrorView)
    requires
        !(run.phase is Finished),
        !(run.phase is OutputTime && error.kind == IoErrorKind::NotFound),
        !(run.phase is Removing && spec_removal_is_void(error.kind)),
    ensures
        run.step(ReplyView::Failed(error)) == run.fail(error),
{
}

/// The inputs are settled when the scan is done, and they are taken in
/// order, one at a time: a step leaves the list of inputs as it is, and it
/// stays with the current input or moves on to the very next one. It moves on
/// only from an input that needs no work, its output being newer, or from
/// one whose new output has been locked.
pub proof fn law_inputs_in_order(run: RunView, reply: ReplyView)
    requires
        run.wf(),
        !(run.phase is Scanning),
    ensures
        run.step(reply).0.inputs() == run.inputs(),
        run.step(reply).0.current == run.current || run.step(reply).0.current == run.current
            + 1,
        run.step(reply).0.current == run.current + 1 ==> (run.phase is Locking && reply is Done)
            || (run.phase is OutputTime && reply is Modified && !run.force_rebuild
            && run.phase->OutputTime_0 < reply->Modified_0),
{
}

/// A pass ends clean only behind the last input: when every input has been
/// skipped or has had its output locked.
pub proof fn law_clean_end_covers_inputs(run: RunView, reply: ReplyView)
    requires
        run.wf(),
    ensures
        run.step(reply).1 == ActionView::Finish(Ok(())) ==> run.step(reply).0.scanner.is_done()
            && run.step(reply).0.current == run.step(reply).0.inputs().len(),
{
}

} // verus!
