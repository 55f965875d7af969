//! Scanning the slots for the first one that can be claimed.
use vstd::prelude::*;

verus! {

/// Probes the positions `0, 1, ..` below `slots` in that order and stops at
/// the first probe that yields something: the result is that position with
/// what the probe yielded. Positions behind it are not probed. `None` comes
/// back only after every position was probed and none yielded anything.
///
/// The contract speaks through the probe's own contract: whatever is
/// returned, the probe was allowed to answer as the scan says it did.
pub fn first_claim<T, F: Fn(usize) -> Option<T>>(slots: usize, probe: F) -> (claim: Option<
    (usize, T),
>)
    requires
        forall|i: usize| i < slots ==> call_requires(probe, (i,)),
    ensures
        match claim {
            Some((slot, claimed)) => {
                &&& slot < slots
                &&& call_ensures(probe, (slot,), Some(claimed))
                &&& forall|i: usize| i < slot ==> call_ensures(probe, (i,), None::<T>)
            },
            None => forall|i: usize| i < slots ==> call_ensures(probe, (i,), None::<T>),
        },
{
    let mut slot: usize = 0;
    while slot < slots
        invariant
            slot <= slots,
            forall|i: usize| i < slots ==> call_requires(probe, (i,)),
            forall|i: usize| i < slot ==> call_ensures(probe, (i,), None::<T>),
        decreases slots - slot,
    {
        match probe(slot) {
            Some(claimed) => {
                return Some((slot, claimed));
            },
            None => {},
        }
        slot += 1;
    }
    None
}

} // verus!
