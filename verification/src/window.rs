//! The windowed delta computer: a lookback of one aggregate over a stream.

use vstd::prelude::*;
use crate::aggregate::{AggregateModel, PositionAggregate};
use crate::error::PipelineError;
use crate::names::{name_of, ReferenceNames};
use crate::record::{delta_model, DeltaModel, DeltaRecord};

verus! {

/// What is due when `later` arrives while `earlier` is held.
///
/// Two aggregates on different references belong to different sequences:
/// `earlier` was the last of its own and gets no record. On one reference a
/// smaller coordinate after a larger one is refused, and so is a reference
/// without a name. Otherwise the pair gets its record.
pub open spec fn pair_outcome(
    earlier: AggregateModel,
    later: AggregateModel,
    names: Seq<Seq<u8>>,
) -> Result<Option<DeltaModel>, PipelineError> {
    if earlier.reference_id != later.reference_id {
        Ok(None)
    } else if later.coordinate < earlier.coordinate {
        Err(PipelineError::OrderingViolation)
    } else {
        match name_of(names, earlier.reference_id) {
            None => Err(PipelineError::UnknownReference),
            Some(name) => Ok(Some(delta_model(earlier, later, name))),
        }
    }
}

/// One transition of the window: the state after `next` has arrived, and
/// what the arrival yields. A refused aggregate leaves the state as it was.
pub open spec fn window_step(
    held: Option<AggregateModel>,
    next: AggregateModel,
    names: Seq<Seq<u8>>,
) -> (Option<AggregateModel>, Result<Option<DeltaModel>, PipelineError>) {
    match held {
        None => (Some(next), Ok(None)),
        Some(earlier) => match pair_outcome(earlier, next, names) {
            Err(e) => (Some(earlier), Err(e)),
            Ok(due) => (Some(next), Ok(due)),
        },
    }
}

/// The first refusal among the adjacent pairs of `aggregates`, if any pair
/// is refused.
pub open spec fn window_fault(aggregates: Seq<AggregateModel>, names: Seq<Seq<u8>>) -> Option<
    PipelineError,
>
    decreases aggregates.len(),
{
    if aggregates.len() <= 1 {
        None
    } else {
        match window_fault(aggregates.drop_last(), names) {
            Some(e) => Some(e),
            None => match pair_outcome(
                aggregates[aggregates.len() - 2],
                aggregates.last(),
                names,
            ) {
                Err(e) => Some(e),
                Ok(_) => None,
            },
        }
    }
}

/// The records of the adjacent pairs of `aggregates` that get one, in the
/// order of the pairs.
pub open spec fn window_records(aggregates: Seq<AggregateModel>, names: Seq<Seq<u8>>) -> Seq<
    DeltaModel,
>
    decreases aggregates.len(),
{
    if aggregates.len() <= 1 {
        Seq::empty()
    } else {
        let before = window_records(aggregates.drop_last(), names);
        match pair_outcome(aggregates[aggregates.len() - 2], aggregates.last(), names) {
            Ok(Some(record)) => before.push(record),
            _ => before,
        }
    }
}

/// What the window makes of a whole sequence: the first refusal, or else all
/// records.
pub open spec fn window_outcome(aggregates: Seq<AggregateModel>, names: Seq<Seq<u8>>) -> Result<
    Seq<DeltaModel>,
    PipelineError,
> {
    match window_fault(aggregates, names) {
        Some(e) => Err(e),
        None => Ok(window_records(aggregates, names)),
    }
}

/// The contents of a list of aggregates.
pub open spec fn aggregate_models(aggregates: Seq<PositionAggregate>) -> Seq<AggregateModel> {
    aggregates.map_values(|a: PositionAggregate| a@)
}

/// The contents of a list of records.
pub open spec fn record_models(records: Seq<DeltaRecord>) -> Seq<DeltaModel> {
    records.map_values(|r: DeltaRecord| r@)
}

/// The contents of what one arrival yields.
pub open spec fn yield_model(yielded: Result<Option<DeltaRecord>, PipelineError>) -> Result<
    Option<DeltaModel>,
    PipelineError,
> {
    match yielded {
        Ok(Some(record)) => Ok(Some(record@)),
        Ok(None) => Ok(None),
        Err(e) => Err(e),
    }
}

/// The contents of what a whole sequence yields.
pub open spec fn outcome_model(outcome: Result<Vec<DeltaRecord>, PipelineError>) -> Result<
    Seq<DeltaModel>,
    PipelineError,
> {
    match outcome {
        Ok(records) => Ok(record_models(records@)),
        Err(e) => Err(e),
    }
}

/// The lookback of the delta computer: nothing, or the aggregate that waits
/// for its successor.
#[derive(Clone, Copy, Debug)]
pub enum DeltaWindow {
    Empty,
    Holding(PositionAggregate),
}

impl View for DeltaWindow {
    type V = Option<AggregateModel>;

    open spec fn view(&self) -> Option<AggregateModel> {
        match *self {
            DeltaWindow::Empty => None,
            DeltaWindow::Holding(held) => Some(held@),
        }
    }
}

impl DeltaWindow {
    /// The window before the first aggregate.
    pub fn new() -> (window: DeltaWindow)
        ensures
            window@ is None,
    {
        DeltaWindow::Empty
    }

    /// Takes the next aggregate of the stream. Where an aggregate of the same
    /// reference is held, the pair yields its record and `next` is held in
    /// its place; a first aggregate, and the first of another reference, is
    /// held and yields nothing.
    pub fn on_next(&mut self, next: PositionAggregate, names: &ReferenceNames) -> (yielded: Result<
        Option<DeltaRecord>,
        PipelineError,
    >)
        ensures
            (final(self)@, yield_model(yielded)) == window_step(old(self)@, next@, names@),
    {
        match *self {
            DeltaWindow::Empty => {
                *self = DeltaWindow::Holding(next);
                Ok(None)
            },
            DeltaWindow::Holding(earlier) => {
                if earlier.reference_id() != next.reference_id() {
                    *self = DeltaWindow::Holding(next);
                    Ok(None)
                } else if next.coordinate() < earlier.coordinate() {
                    Err(PipelineError::OrderingViolation)
                } else {
                    match names.resolve(earlier.reference_id()) {
                        None => Err(PipelineError::UnknownReference),
                        Some(name) => {
                            let record = DeltaRecord::between(&earlier, &next, name.as_slice());
                            *self = DeltaWindow::Holding(next);
                            Ok(Some(record))
                        },
                    }
                }
            },
        }
    }

    /// Ends the stream: an aggregate that still waits has no successor and is
    /// dropped without a record.
    pub fn on_end(&mut self)
        ensures
            final(self)@ is None,
    {
        *self = DeltaWindow::Empty;
    }
}

/// A refusal among the first `k` aggregates is the refusal of the whole
/// sequence: what comes later cannot undo it.
pub proof fn lemma_fault_persists(aggregates: Seq<AggregateModel>, names: Seq<Seq<u8>>, k: int)
    requires
        0 <= k <= aggregates.len(),
        window_fault(aggregates.take(k), names) is Some,
    ensures
        window_fault(aggregates, names) == window_fault(aggregates.take(k), names),
    decreases aggregates.len(),
{
    if k == aggregates.len() {
        assert(aggregates.take(k) == aggregates);
    } else {
        assert(aggregates.drop_last().take(k) == aggregates.take(k));
        lemma_fault_persists(aggregates.drop_last(), names, k);
    }
}

/// Runs the window over a whole sequence of aggregates: the records of its
/// adjacent pairs, or the first refusal.
pub fn compute_deltas(aggregates: &[PositionAggregate], names: &ReferenceNames) -> (outcome: Result<
    Vec<DeltaRecord>,
    PipelineError,
>)
    ensures
        outcome_model(outcome) == window_outcome(aggregate_models(aggregates@), names@),
{
    let ghost models = aggregate_models(aggregates@);
    let mut window = DeltaWindow::new();
    let mut records: Vec<DeltaRecord> = Vec::new();
    let mut i: usize = 0;
    assert(record_models(records@) == window_records(models.take(0), names@));
    while i < aggregates.len()
        invariant
            i <= aggregates.len(),
            models == aggregate_models(aggregates@),
            window@ == if i == 0 {
                None
            } else {
                Some(models[i - 1])
            },
            window_fault(models.take(i as int), names@) is None,
            record_models(records@) == window_records(models.take(i as int), names@),
        decreases aggregates.len() - i,
    {
        let ghost before = models.take(i as int);
        let ghost after = models.take(i + 1);
        let ghost emitted = record_models(records@);
        proof {
            assert(after.drop_last() == before);
            assert(after.last() == models[i as int]);
            assert(models[i as int] == aggregates@[i as int]@);
        }
        match window.on_next(aggregates[i], names) {
            Err(e) => {
                proof {
                    lemma_fault_persists(models, names@, i + 1);
                }
                return Err(e);
            },
            Ok(None) => {},
            Ok(Some(record)) => {
                records.push(record);
                assert(record_models(records@) == emitted.push(record@));
            },
        }
        i = i + 1;
    }
    assert(models.take(i as int) == models);
    Ok(records)
}

} // verus!
