//! Deciding whether an output has to be regenerated.

use vstd::prelude::*;

verus! {

/// What to do with one input and its derived output.
#[derive(Clone, Copy, Debug, PartialEq, Eq, Structural)]
pub enum RebuildDecision {
    /// The output is newer than the input and is left alone.
    Skip,
    /// The output is absent or possibly older than the input.
    Rebuild,
}

/// The decision as a function of the force flag, the input's modification
/// time, and the output's modification time (`None` when there is no output).
///
/// Equal times count as stale: file-system timestamps are coarse, so an equal
/// time means "possibly newer" and it is safer to rebuild once too often.
pub open spec fn spec_decide(
    force_rebuild: bool,
    source_modified: u128,
    output_modified: Option<u128>,
) -> RebuildDecision {
    if force_rebuild {
        RebuildDecision::Rebuild
    } else {
        match output_modified {
            None => RebuildDecision::Rebuild,
            Some(out) => if source_modified >= out {
                RebuildDecision::Rebuild
            } else {
                RebuildDecision::Skip
            },
        }
    }
}

/// Decides whether the output of one input is stale.
///
/// Times are counted in any unit from any fixed instant, as long as both use
/// the same one.
pub fn decide(force_rebuild: bool, source_modified: u128, output_modified: Option<u128>) -> (d:
    RebuildDecision)
    ensures
        d == spec_decide(force_rebuild, source_modified, output_modified),
        force_rebuild ==> d == RebuildDecision::Rebuild,
        output_modified is None ==> d == RebuildDecision::Rebuild,
        !force_rebuild && output_modified is Some ==> (d == RebuildDecision::Skip
            <==> source_modified < output_modified->Some_0),
{
    if force_rebuild {
        return RebuildDecision::Rebuild;
    }
    match output_modified {
        None => RebuildDecision::Rebuild,
        Some(out) => if source_modified >= out {
            RebuildDecision::Rebuild
        } else {
            RebuildDecision::Skip
        },
    }
}

} // verus!
