//! Counting the callers that are in a given phase.
use crate::protocol::Phase;
use vstd::prelude::*;

verus! {

/// Number of callers whose phase satisfies `pred`.
pub open spec fn count(phases: Seq<Phase>, pred: spec_fn(Phase) -> bool) -> nat
    decreases phases.len(),
{
    if phases.len() == 0 {
        0
    } else {
        count(phases.drop_last(), pred) + if pred(phases.last()) {
            1nat
        } else {
            0nat
        }
    }
}

/// Changing one caller's phase changes a count by what that caller
/// contributed before and contributes after.
pub proof fn lemma_count_update(
    phases: Seq<Phase>,
    c: int,
    phase: Phase,
    pred: spec_fn(Phase) -> bool,
)
    requires
        0 <= c < phases.len(),
    ensures
        count(phases.update(c, phase), pred) + (if pred(phases[c]) {
            1nat
        } else {
            0nat
        }) == count(phases, pred) + (if pred(phase) {
            1nat
        } else {
            0nat
        }),
    decreases phases.len(),
{
    let updated = phases.update(c, phase);
    if c == phases.len() - 1 {
        assert(updated.drop_last() =~= phases.drop_last());
    } else {
        assert(updated.drop_last() =~= phases.drop_last().update(c, phase));
        lemma_count_update(phases.drop_last(), c, phase, pred);
    }
}

/// A predicate that implies another counts no more callers.
pub proof fn lemma_count_le(
    phases: Seq<Phase>,
    narrow: spec_fn(Phase) -> bool,
    wide: spec_fn(Phase) -> bool,
)
    requires
        forall|phase: Phase| #[trigger] narrow(phase) ==> wide(phase),
    ensures
        count(phases, narrow) <= count(phases, wide),
    decreases phases.len(),
{
    if phases.len() > 0 {
        lemma_count_le(phases.drop_last(), narrow, wide);
    }
}

/// A predicate that implies another counts fewer callers if some caller
/// satisfies only the wider one.
pub proof fn lemma_count_lt(
    phases: Seq<Phase>,
    narrow: spec_fn(Phase) -> bool,
    wide: spec_fn(Phase) -> bool,
    c: int,
)
    requires
        forall|phase: Phase| #[trigger] narrow(phase) ==> wide(phase),
        0 <= c < phases.len(),
        wide(phases[c]),
        !narrow(phases[c]),
    ensures
        count(phases, narrow) < count(phases, wide),
    decreases phases.len(),
{
    if c == phases.len() - 1 {
        lemma_count_le(phases.drop_last(), narrow, wide);
    } else {
        lemma_count_lt(phases.drop_last(), narrow, wide, c);
    }
}

/// A caller that satisfies a predicate is counted.
pub proof fn lemma_count_positive(phases: Seq<Phase>, pred: spec_fn(Phase) -> bool, c: int)
    requires
        0 <= c < phases.len(),
        pred(phases[c]),
    ensures
        count(phases, pred) > 0,
    decreases phases.len(),
{
    if c < phases.len() - 1 {
        lemma_count_positive(phases.drop_last(), pred, c);
    }
}

/// Where no caller satisfies a predicate, the count is zero.
pub proof fn lemma_count_none(phases: Seq<Phase>, pred: spec_fn(Phase) -> bool)
    requires
        forall|c: int| 0 <= c < phases.len() ==> !pred(#[trigger] phases[c]),
    ensures
        count(phases, pred) == 0,
    decreases phases.len(),
{
    if phases.len() > 0 {
        assert(!pred(phases[phases.len() - 1]));
        lemma_count_none(phases.drop_last(), pred);
    }
}

} // verus!
