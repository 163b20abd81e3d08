//! What holds of the delta window over whole sequences.

use vstd::prelude::*;
use crate::aggregate::AggregateModel;
use crate::error::PipelineError;
use crate::names::name_of;
use crate::record::{delta_model, DeltaModel};
use crate::window::{pair_outcome, window_fault, window_records};

verus! {

/// The number of adjacent pairs in a sequence of `n` items: `max(0, n - 1)`.
pub open spec fn pair_count(n: nat) -> nat {
    if n == 0 {
        0
    } else {
        (n - 1) as nat
    }
}

/// What is due for the `i`-th adjacent pair of `aggregates`.
pub open spec fn pair_at(aggregates: Seq<AggregateModel>, names: Seq<Seq<u8>>, i: int) -> Result<
    Option<DeltaModel>,
    PipelineError,
> {
    pair_outcome(aggregates[i], aggregates[i + 1], names)
}

/// Whether the `i`-th adjacent pair is the first that is refused, and is
/// refused with `e`.
pub open spec fn first_refused(
    aggregates: Seq<AggregateModel>,
    names: Seq<Seq<u8>>,
    i: int,
    e: PipelineError,
) -> bool {
    &&& 0 <= i < aggregates.len() - 1
    &&& pair_at(aggregates, names, i) == Err::<Option<DeltaModel>, PipelineError>(e)
    &&& forall|j: int| 0 <= j < i ==> #[trigger] pair_at(aggregates, names, j) is Ok
}

/// How many adjacent pairs of `aggregates` lie across two references.
pub open spec fn reference_changes(aggregates: Seq<AggregateModel>) -> nat
    decreases aggregates.len(),
{
    if aggregates.len() <= 1 {
        0
    } else {
        reference_changes(aggregates.drop_last()) + if aggregates[aggregates.len() - 2].reference_id
            != aggregates.last().reference_id {
            1nat
        } else {
            0nat
        }
    }
}

/// Whether all of `aggregates` lie on one reference.
pub open spec fn single_reference(aggregates: Seq<AggregateModel>) -> bool {
    forall|i: int, j: int|
        0 <= i < aggregates.len() && 0 <= j < aggregates.len() ==> (
        #[trigger] aggregates[i]).reference_id == (#[trigger] aggregates[j]).reference_id
}

/// A sequence is accepted if and only if none of its adjacent pairs is
/// refused.
pub proof fn lemma_accepted_iff_no_pair_refused(
    aggregates: Seq<AggregateModel>,
    names: Seq<Seq<u8>>,
)
    ensures
        window_fault(aggregates, names) is None <==> forall|i: int|
            0 <= i < aggregates.len() - 1 ==> #[trigger] pair_at(aggregates, names, i) is Ok,
    decreases aggregates.len(),
{
    if aggregates.len() > 1 {
        let shorter = aggregates.drop_last();
        let last = aggregates.len() - 2;
        lemma_accepted_iff_no_pair_refused(shorter, names);
        assert forall|i: int| 0 <= i < last implies pair_at(shorter, names, i) == pair_at(
            aggregates,
            names,
            i,
        ) by {}
        if window_fault(aggregates, names) is None {
            assert forall|i: int| 0 <= i < aggregates.len() - 1 implies #[trigger] pair_at(
                aggregates,
                names,
                i,
            ) is Ok by {
                if i < last {
                    assert(pair_at(shorter, names, i) is Ok);
                }
            }
        } else if window_fault(shorter, names) is None {
            assert(pair_at(aggregates, names, last) is Err);
        } else {
            let i = choose|i: int| 0 <= i < shorter.len() - 1 && !(#[trigger] pair_at(
                shorter,
                names,
                i,
            ) is Ok);
            assert(pair_at(aggregates, names, i) is Err);
        }
    }
}

/// A sequence is refused with `e` if and only if `e` is the refusal of the
/// first adjacent pair that is refused.
pub proof fn lemma_refused_iff_first_refused(
    aggregates: Seq<AggregateModel>,
    names: Seq<Seq<u8>>,
    e: PipelineError,
)
    ensures
        window_fault(aggregates, names) == Some(e) <==> exists|i: int|
            first_refused(aggregates, names, i, e),
    decreases aggregates.len(),
{
    if aggregates.len() > 1 {
        let shorter = aggregates.drop_last();
        let last = aggregates.len() - 2;
        lemma_refused_iff_first_refused(shorter, names, e);
        lemma_accepted_iff_no_pair_refused(shorter, names);
        assert forall|i: int| 0 <= i < last implies pair_at(shorter, names, i) == pair_at(
            aggregates,
            names,
            i,
        ) by {}
        if window_fault(aggregates, names) == Some(e) {
            if window_fault(shorter, names) == Some(e) {
                let i = choose|i: int| first_refused(shorter, names, i, e);
                assert(first_refused(aggregates, names, i, e));
            } else {
                assert(first_refused(aggregates, names, last, e));
            }
        }
        if exists|i: int| first_refused(aggregates, names, i, e) {
            let i = choose|i: int| first_refused(aggregates, names, i, e);
            if i < last {
                assert(first_refused(shorter, names, i, e));
            } else {
                assert forall|j: int| 0 <= j < shorter.len() - 1 implies #[trigger] pair_at(
                    shorter,
                    names,
                    j,
                ) is Ok by {
                    assert(pair_at(aggregates, names, j) is Ok);
                }
            }
        }
    } else {
        assert forall|i: int| !first_refused(aggregates, names, i, e) by {}
    }
}

/// Every aggregate gets a record but the last of each run on one reference:
/// the records and the changes of reference together are as many as the
/// adjacent pairs.
pub proof fn lemma_record_count(aggregates: Seq<AggregateModel>, names: Seq<Seq<u8>>)
    requires
        window_fault(aggregates, names) is None,
    ensures
        window_records(aggregates, names).len() + reference_changes(aggregates) == pair_count(
            aggregates.len(),
        ),
    decreases aggregates.len(),
{
    if aggregates.len() > 1 {
        lemma_record_count(aggregates.drop_last(), names);
    }
}

/// On one reference an accepted sequence of `N` aggregates yields
/// `max(0, N - 1)` records, and the `i`-th of them is the record of the
/// `i`-th adjacent pair.
pub proof fn lemma_single_reference_records(aggregates: Seq<AggregateModel>, names: Seq<Seq<u8>>)
    requires
        single_reference(aggregates),
        window_fault(aggregates, names) is None,
    ensures
        window_records(aggregates, names).len() == pair_count(aggregates.len()),
        forall|i: int|
            0 <= i < aggregates.len() - 1 ==> #[trigger] pair_at(aggregates, names, i) == Ok::<
                Option<DeltaModel>,
                PipelineError,
            >(Some(window_records(aggregates, names)[i])),
    decreases aggregates.len(),
{
    if aggregates.len() > 1 {
        let shorter = aggregates.drop_last();
        let last = aggregates.len() - 2;
        assert(single_reference(shorter)) by {
            assert forall|i: int, j: int|
                0 <= i < shorter.len() && 0 <= j < shorter.len() implies (
            #[trigger] shorter[i]).reference_id == (#[trigger] shorter[j]).reference_id by {
                assert(shorter[i] == aggregates[i]);
                assert(shorter[j] == aggregates[j]);
            }
        }
        lemma_single_reference_records(shorter, names);
        assert(aggregates[last].reference_id == aggregates[last + 1].reference_id);
        assert forall|i: int| 0 <= i < aggregates.len() - 1 implies #[trigger] pair_at(
            aggregates,
            names,
            i,
        ) == Ok::<Option<DeltaModel>, PipelineError>(
            Some(window_records(aggregates, names)[i]),
        ) by {
            if i < last {
                assert(pair_at(shorter, names, i) == pair_at(aggregates, names, i));
            }
        }
    }
}

/// Whether `record` is the record of the `i`-th adjacent pair: the pair lies
/// on one reference that has a name, and the record holds the counts of the
/// earlier aggregate and the differences to the later one.
pub open spec fn record_of_pair(
    aggregates: Seq<AggregateModel>,
    names: Seq<Seq<u8>>,
    i: int,
    record: DeltaModel,
) -> bool {
    &&& 0 <= i < aggregates.len() - 1
    &&& aggregates[i].reference_id == aggregates[i + 1].reference_id
    &&& name_of(names, aggregates[i].reference_id) is Some
    &&& record == delta_model(
        aggregates[i],
        aggregates[i + 1],
        name_of(names, aggregates[i].reference_id)->0,
    )
}

/// Every record of a sequence is the record of one of its adjacent pairs. So
/// its skip delta is the skip count of the earlier aggregate minus that of
/// the later one, and its strand deltas add up to it.
pub proof fn lemma_record_origin(aggregates: Seq<AggregateModel>, names: Seq<Seq<u8>>, k: int)
    requires
        0 <= k < window_records(aggregates, names).len(),
    ensures
        exists|i: int|
            #[trigger] record_of_pair(aggregates, names, i, window_records(aggregates, names)[k])
                && window_records(aggregates, names)[k].delta_skip == aggregates[i].skip_count()
                - aggregates[i + 1].skip_count(),
        window_records(aggregates, names)[k].delta_skip_fwd + window_records(
            aggregates,
            names,
        )[k].delta_skip_rev == window_records(aggregates, names)[k].delta_skip,
    decreases aggregates.len(),
{
    let shorter = aggregates.drop_last();
    let last = aggregates.len() - 2;
    let record = window_records(aggregates, names)[k];
    if k < window_records(shorter, names).len() {
        lemma_record_origin(shorter, names, k);
        let i = choose|i: int| #[trigger] record_of_pair(shorter, names, i, record);
        assert(record_of_pair(aggregates, names, i, record));
    } else {
        assert(record_of_pair(aggregates, names, last, record));
    }
}

} // verus!
