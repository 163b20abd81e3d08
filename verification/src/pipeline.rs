//! The pipeline: region filter, aggregator and delta window in a chain.

use vstd::prelude::*;
use crate::aggregate::{aggregate, aggregate_model, AggregateModel};
use crate::config::{PipelineConfig, Region};
use crate::emit::{format_record, record_line};
use crate::error::PipelineError;
use crate::names::{byte_rows, ReferenceNames};
use crate::observation::AlignmentObservation;
use crate::record::{DeltaModel, DeltaRecord};
use crate::window::{
    lemma_fault_persists,
    outcome_model,
    record_models,
    window_fault,
    window_outcome,
    window_step,
    yield_model,
    DeltaWindow,
};

verus! {

/// The mathematical content of a [`PileupColumn`].
pub struct ColumnModel {
    pub reference_id: nat,
    pub coordinate: nat,
    pub observations: Seq<AlignmentObservation>,
}

/// What the alignment source yields for one coordinate: where it lies and
/// which reads overlap it.
#[derive(Debug)]
pub struct PileupColumn {
    pub reference_id: u32,
    pub coordinate: u32,
    pub observations: Vec<AlignmentObservation>,
}

impl View for PileupColumn {
    type V = ColumnModel;

    open spec fn view(&self) -> ColumnModel {
        ColumnModel {
            reference_id: self.reference_id as nat,
            coordinate: self.coordinate as nat,
            observations: self.observations@,
        }
    }
}

/// The contents of a list of columns.
pub open spec fn column_models(columns: Seq<PileupColumn>) -> Seq<ColumnModel> {
    columns.map_values(|c: PileupColumn| c@)
}

/// The region filter: the columns whose coordinate the configuration admits,
/// in their order.
pub open spec fn admitted(columns: Seq<ColumnModel>, config: PipelineConfig) -> Seq<ColumnModel> {
    columns.filter(|c: ColumnModel| config.admits_spec(c.coordinate))
}

/// The aggregate of one column under a depth cap.
pub open spec fn column_aggregate(column: ColumnModel, max_depth: nat) -> AggregateModel {
    aggregate_model(column.reference_id, column.coordinate, column.observations, max_depth)
}

/// The aggregates of a list of columns, one for each.
pub open spec fn aggregates_of(columns: Seq<ColumnModel>, max_depth: nat) -> Seq<AggregateModel> {
    columns.map_values(|c: ColumnModel| column_aggregate(c, max_depth))
}

/// The aggregates that reach the delta window: those of the admitted columns.
pub open spec fn windowed(columns: Seq<ColumnModel>, config: PipelineConfig) -> Seq<
    AggregateModel,
> {
    aggregates_of(admitted(columns, config), config.max_depth as nat)
}

/// What the pipeline makes of a list of columns: the records of the adjacent
/// pairs among the admitted columns, or the first refusal.
pub open spec fn pipeline_records(
    columns: Seq<ColumnModel>,
    names: Seq<Seq<u8>>,
    config: PipelineConfig,
) -> Result<Seq<DeltaModel>, PipelineError> {
    window_outcome(windowed(columns, config), names)
}

/// The rows of a list of records in the given mode.
pub open spec fn record_lines(records: Seq<DeltaModel>, strand_aware: bool) -> Seq<Seq<u8>> {
    records.map_values(|r: DeltaModel| record_line(r, strand_aware))
}

/// The output of the pipeline: one row per record, or the first refusal.
pub open spec fn pipeline_rows(
    columns: Seq<ColumnModel>,
    names: Seq<Seq<u8>>,
    config: PipelineConfig,
) -> Result<Seq<Seq<u8>>, PipelineError> {
    match pipeline_records(columns, names, config) {
        Ok(records) => Ok(record_lines(records, config.strand_aware)),
        Err(e) => Err(e),
    }
}

/// One transition of the pipeline: a column that the configuration does not
/// admit changes nothing and yields nothing; an admitted column is aggregated
/// and handed to the window.
pub open spec fn pipeline_step(
    config: PipelineConfig,
    held: Option<AggregateModel>,
    column: ColumnModel,
    names: Seq<Seq<u8>>,
) -> (Option<AggregateModel>, Result<Option<DeltaModel>, PipelineError>) {
    if config.admits_spec(column.coordinate) {
        window_step(held, column_aggregate(column, config.max_depth as nat), names)
    } else {
        (held, Ok(None))
    }
}

/// The contents of the rows that a run returns.
pub open spec fn rows_model(rows: Result<Vec<Vec<u8>>, PipelineError>) -> Result<
    Seq<Seq<u8>>,
    PipelineError,
> {
    match rows {
        Ok(lines) => Ok(byte_rows(lines@)),
        Err(e) => Err(e),
    }
}

/// The pipeline as a state machine over a stream of columns. The caller
/// fetches each column, hands it to [`Pipeline::on_column`] and writes out
/// what comes back.
#[derive(Clone, Copy, Debug)]
pub struct Pipeline {
    config: PipelineConfig,
    window: DeltaWindow,
}

impl Pipeline {
    /// The configuration that the pipeline was made with.
    pub closed spec fn config(&self) -> PipelineConfig {
        self.config
    }

    /// The aggregate that waits for its successor, if one does.
    pub closed spec fn held(&self) -> Option<AggregateModel> {
        self.window@
    }

    /// A pipeline before its first column.
    pub fn new(config: PipelineConfig) -> (pipeline: Pipeline)
        ensures
            pipeline.config() == config,
            pipeline.held() is None,
    {
        Pipeline { config, window: DeltaWindow::new() }
    }

    /// Takes the next column of the stream and returns the record that
    /// becomes due with it, if one does.
    pub fn on_column(&mut self, column: &PileupColumn, names: &ReferenceNames) -> (yielded: Result<
        Option<DeltaRecord>,
        PipelineError,
    >)
        ensures
            final(self).config() == old(self).config(),
            (final(self).held(), yield_model(yielded)) == pipeline_step(
                old(self).config(),
                old(self).held(),
                column@,
                names@,
            ),
    {
        if self.config.admits(column.coordinate) {
            let next = aggregate(
                column.reference_id,
                column.coordinate,
                column.observations.as_slice(),
                self.config.max_depth,
            );
            self.window.on_next(next, names)
        } else {
            Ok(None)
        }
    }

    /// Ends the stream: an aggregate that still waits is dropped without a
    /// record. Whatever went before, a refusal too, the pipeline is then as
    /// it was when it was made, and ready for another stream.
    pub fn on_end(&mut self)
        ensures
            final(self).config() == old(self).config(),
            final(self).held() is None,
    {
        self.window.on_end();
    }
}

/// The columns admitted among the first `k` are the first of those admitted
/// among all.
proof fn lemma_admitted_prefix(columns: Seq<ColumnModel>, config: PipelineConfig, k: int)
    requires
        0 <= k <= columns.len(),
    ensures
        admitted(columns.take(k), config).len() <= admitted(columns, config).len(),
        admitted(columns, config).take(admitted(columns.take(k), config).len() as int) == admitted(
            columns.take(k),
            config,
        ),
    decreases columns.len(),
{
    reveal(Seq::filter);
    if k == columns.len() {
        assert(columns.take(k) == columns);
    } else {
        assert(columns.drop_last().take(k) == columns.take(k));
        lemma_admitted_prefix(columns.drop_last(), config, k);
    }
}

/// The aggregate that waits once `columns` have passed: that of the last
/// admitted column, if any was admitted.
pub open spec fn held_after(columns: Seq<ColumnModel>, config: PipelineConfig) -> Option<
    AggregateModel,
> {
    let reached = windowed(columns, config);
    if reached.len() == 0 {
        None
    } else {
        Some(reached.last())
    }
}

/// The records with what one more column yields added.
pub open spec fn with_yield(records: Seq<DeltaModel>, due: Option<DeltaModel>) -> Seq<DeltaModel> {
    match due {
        Some(record) => records.push(record),
        None => records,
    }
}

/// The stream and the list agree. Where the first `k` columns were accepted,
/// one transition on the next column yields what the list of `k + 1` columns
/// has more than the list of `k`, and holds what waits after `k + 1`
/// columns; and where the transition refuses the column, the list of
/// `k + 1` columns and every longer list are refused for the same reason.
pub proof fn lemma_stream_step(
    columns: Seq<ColumnModel>,
    names: Seq<Seq<u8>>,
    config: PipelineConfig,
    k: int,
)
    requires
        0 <= k < columns.len(),
        pipeline_records(columns.take(k), names, config) is Ok,
    ensures
        ({
            let (held, yielded) = pipeline_step(
                config,
                held_after(columns.take(k), config),
                columns[k],
                names,
            );
            match yielded {
                Err(e) => {
                    &&& pipeline_records(columns.take(k + 1), names, config) == Err::<
                        Seq<DeltaModel>,
                        PipelineError,
                    >(e)
                    &&& pipeline_records(columns, names, config) == Err::<
                        Seq<DeltaModel>,
                        PipelineError,
                    >(e)
                },
                Ok(due) => {
                    &&& held == held_after(columns.take(k + 1), config)
                    &&& pipeline_records(columns.take(k + 1), names, config) == Ok::<
                        Seq<DeltaModel>,
                        PipelineError,
                    >(with_yield(pipeline_records(columns.take(k), names, config)->Ok_0, due))
                },
            }
        }),
{
    reveal(Seq::filter);
    let column = columns[k];
    let before = windowed(columns.take(k), config);
    let after = windowed(columns.take(k + 1), config);
    assert(columns.take(k + 1).drop_last() == columns.take(k));
    assert(columns.take(k + 1).last() == column);
    if config.admits_spec(column.coordinate) {
        let kept = admitted(columns.take(k), config);
        assert(admitted(columns.take(k + 1), config) == kept.push(column));
        assert(after == before.push(column_aggregate(column, config.max_depth as nat)));
        assert(after.drop_last() == before);
        if window_fault(after, names) is Some {
            let full = windowed(columns, config);
            lemma_admitted_prefix(columns, config, k + 1);
            assert(full.take(after.len() as int) == after);
            lemma_fault_persists(full, names, after.len() as int);
        }
    } else {
        assert(after == before);
    }
}

/// Runs the pipeline over a whole list of columns and returns the records.
pub fn collect_records(
    columns: &[PileupColumn],
    names: &ReferenceNames,
    config: &PipelineConfig,
) -> (outcome: Result<Vec<DeltaRecord>, PipelineError>)
    ensures
        outcome_model(outcome) == pipeline_records(column_models(columns@), names@, *config),
{
    let ghost models = column_models(columns@);
    let mut pipeline = Pipeline::new(*config);
    let mut records: Vec<DeltaRecord> = Vec::new();
    let mut i: usize = 0;
    proof {
        reveal(Seq::filter);
        assert(windowed(models.take(0), *config) == Seq::<AggregateModel>::empty());
        assert(record_models(records@) == Seq::<DeltaModel>::empty());
    }
    while i < columns.len()
        invariant
            i <= columns.len(),
            models == column_models(columns@),
            pipeline.config() == *config,
            pipeline.held() == held_after(models.take(i as int), *config),
            pipeline_records(models.take(i as int), names@, *config) == Ok::<
                Seq<DeltaModel>,
                PipelineError,
            >(record_models(records@)),
        decreases columns.len() - i,
    {
        let ghost emitted = record_models(records@);
        proof {
            assert(models[i as int] == columns@[i as int]@);
            lemma_stream_step(models, names@, *config, i as int);
        }
        match pipeline.on_column(&columns[i], names) {
            Err(e) => {
                return Err(e);
            },
            Ok(None) => {},
            Ok(Some(record)) => {
                records.push(record);
                assert(record_models(records@) == emitted.push(record@));
            },
        }
        i = i + 1;
    }
    assert(models.take(i as int) == models);
    Ok(records)
}

/// Renders each record as a row in the given mode.
pub fn format_records(records: &[DeltaRecord], strand_aware: bool) -> (lines: Vec<Vec<u8>>)
    ensures
        byte_rows(lines@) == record_lines(record_models(records@), strand_aware),
{
    let mut lines: Vec<Vec<u8>> = Vec::new();
    let mut i: usize = 0;
    while i < records.len()
        invariant
            i <= records.len(),
            byte_rows(lines@) == record_lines(record_models(records@.take(i as int)), strand_aware),
        decreases records.len() - i,
    {
        let ghost done = byte_rows(lines@);
        let line = format_record(&records[i], strand_aware);
        lines.push(line);
        proof {
            assert(records@.take(i + 1) == records@.take(i as int).push(records@[i as int]));
            assert(byte_rows(lines@) == done.push(line@));
            assert(record_lines(record_models(records@.take(i + 1)), strand_aware) == done.push(
                record_line(records@[i as int]@, strand_aware),
            ));
        }
        i = i + 1;
    }
    assert(records@.take(i as int) == records@);
    lines
}

/// Runs the pipeline over a whole list of columns and returns its rows.
pub fn run_pipeline(
    columns: &[PileupColumn],
    names: &ReferenceNames,
    config: &PipelineConfig,
) -> (rows: Result<Vec<Vec<u8>>, PipelineError>)
    ensures
        rows_model(rows) == pipeline_rows(column_models(columns@), names@, *config),
{
    match collect_records(columns, names, config) {
        Ok(records) => Ok(format_records(records.as_slice(), config.strand_aware)),
        Err(e) => Err(e),
    }
}

/// The plain rows of all columns: every coordinate takes part.
pub fn pileup(columns: &[PileupColumn], names: &ReferenceNames, max_depth: u32) -> (rows: Result<
    Vec<Vec<u8>>,
    PipelineError,
>)
    ensures
        rows_model(rows) == pipeline_rows(
            column_models(columns@),
            names@,
            PipelineConfig { max_depth, strand_aware: false, region: None },
        ),
{
    run_pipeline(columns, names, &PipelineConfig::whole_reference(max_depth))
}

/// The plain rows of the columns in `[start, end)`: a column outside the
/// interval takes no part, not even as the successor of one inside.
pub fn pileup_region(
    columns: &[PileupColumn],
    names: &ReferenceNames,
    start: u32,
    end: u32,
    max_depth: u32,
) -> (rows: Result<Vec<Vec<u8>>, PipelineError>)
    ensures
        rows_model(rows) == pipeline_rows(
            column_models(columns@),
            names@,
            PipelineConfig {
                max_depth,
                strand_aware: false,
                region: Some(Region { start, end }),
            },
        ),
{
    run_pipeline(columns, names, &PipelineConfig::bounded(max_depth, start, end))
}

} // verus!
