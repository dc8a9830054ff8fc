//! The report pipeline: every collected registry entry reduced to its
//! publish fact, and the facts sorted by timestamp.

use vstd::prelude::*;

use crate::reduce::{is_reduction, reduce, reduce_err, reducible, PublishFact, ReduceError,
    RegistryEntry};
use crate::sort::{lemma_sort_len, sort_facts, sort_spec};

verus! {

/// Position `i` holds the first entry on which reduction fails.
pub open spec fn first_failure(entries: Seq<RegistryEntry>, i: int) -> bool {
    &&& 0 <= i < entries.len()
    &&& !reducible(entries[i].times@)
    &&& forall|j: int| 0 <= j < i ==> reducible(#[trigger] entries[j].times@)
}

/// Reduces every entry, in order, failing fast on the first entry that
/// cannot be reduced.
pub fn reduce_all(entries: &Vec<RegistryEntry>) -> (r: Result<Vec<PublishFact>, ReduceError>)
    ensures
        match r {
            Ok(facts) => {
                &&& facts@.len() == entries@.len()
                &&& forall|i: int| 0 <= i < entries@.len() ==> reducible(
                    (#[trigger] entries@[i]).times@,
                )
                &&& forall|i: int| 0 <= i < entries@.len() ==> is_reduction(
                    entries@[i].name@,
                    entries@[i].times@,
                    #[trigger] facts@[i],
                )
            },
            Err(e) => exists|i: int| #[trigger] first_failure(entries@, i) && e == reduce_err(
                entries@[i].times@,
            ),
        },
{
    let mut facts: Vec<PublishFact> = Vec::new();
    let mut i: usize = 0;
    while i < entries.len()
        invariant
            i <= entries@.len(),
            facts@.len() == i,
            forall|j: int| 0 <= j < i ==> reducible((#[trigger] entries@[j]).times@),
            forall|j: int| 0 <= j < i ==> is_reduction(
                entries@[j].name@,
                entries@[j].times@,
                #[trigger] facts@[j],
            ),
        decreases entries@.len() - i,
    {
        match reduce(&entries[i]) {
            Ok(f) => {
                facts.push(f);
            },
            Err(e) => {
                proof {
                    assert(first_failure(entries@, i as int));
                }
                return Err(e);
            },
        }
        i += 1;
    }
    Ok(facts)
}

/// The whole reducer stage as the original exposes it: each entry reduced to
/// its publish fact, and the facts sorted stably by timestamp — ascending,
/// or descending when `reverse` is set. Fails fast with the first entry's
/// error.
pub fn parse_packages(entries: &Vec<RegistryEntry>, reverse: bool) -> (r: Result<
    Vec<PublishFact>,
    ReduceError,
>)
    ensures
        match r {
            Ok(sorted) => sorted@.len() == entries@.len() && exists|mid: Seq<PublishFact>|
                {
                    &&& (#[trigger] mid.len()) == entries@.len()
                    &&& forall|i: int| 0 <= i < entries@.len() ==> reducible(
                        (#[trigger] entries@[i]).times@,
                    )
                    &&& forall|i: int| 0 <= i < entries@.len() ==> is_reduction(
                        entries@[i].name@,
                        entries@[i].times@,
                        #[trigger] mid[i],
                    )
                    &&& sorted@ == sort_spec(mid, reverse)
                },
            Err(e) => exists|i: int| #[trigger] first_failure(entries@, i) && e == reduce_err(
                entries@[i].times@,
            ),
        },
{
    match reduce_all(entries) {
        Err(e) => Err(e),
        Ok(facts) => {
            let ghost mid = facts@;
            let sorted = sort_facts(facts, reverse);
            proof {
                lemma_sort_len(mid, reverse);
                assert((mid.len()) == entries@.len());
            }
            Ok(sorted)
        },
    }
}

} // verus!
