//! What holds of the pipeline over whole lists of columns.

use vstd::prelude::*;
use crate::config::PipelineConfig;
use crate::error::PipelineError;
use crate::names::{byte_rows, ReferenceNames};
use crate::pipeline::{
    admitted,
    column_models,
    pipeline_records,
    pipeline_rows,
    rows_model,
    windowed,
    ColumnModel,
    PileupColumn,
};
use crate::window::window_records;
use crate::window_laws::{
    lemma_record_origin,
    lemma_single_reference_records,
    pair_count,
    record_of_pair,
    single_reference,
};

verus! {

/// Without a region every column is admitted.
pub proof fn lemma_whole_reference_admits_all(columns: Seq<ColumnModel>, config: PipelineConfig)
    requires
        config.region is None,
    ensures
        admitted(columns, config) == columns,
    decreases columns.len(),
{
    reveal(Seq::filter);
    if columns.len() > 0 {
        lemma_whole_reference_admits_all(columns.drop_last(), config);
        assert(columns.drop_last().push(columns.last()) == columns);
    }
}

/// The region filter lets through nothing from outside the region and drops
/// nothing from inside it: every admitted column has a coordinate that the
/// configuration admits, and every column with such a coordinate is among
/// the admitted.
pub proof fn lemma_region_filter(columns: Seq<ColumnModel>, config: PipelineConfig)
    ensures
        forall|i: int|
            0 <= i < admitted(columns, config).len() ==> config.admits_spec(
                (#[trigger] admitted(columns, config)[i]).coordinate,
            ),
        forall|j: int|
            0 <= j < columns.len() && config.admits_spec((#[trigger] columns[j]).coordinate)
                ==> admitted(columns, config).contains(columns[j]),
{
    let inside = |c: ColumnModel| config.admits_spec(c.coordinate);
    assert forall|i: int| 0 <= i < admitted(columns, config).len() implies config.admits_spec(
        (#[trigger] admitted(columns, config)[i]).coordinate,
    ) by {
        columns.lemma_filter_pred(inside, i);
    }
    assert forall|j: int|
        0 <= j < columns.len() && config.admits_spec(
            (#[trigger] columns[j]).coordinate,
        ) implies admitted(columns, config).contains(columns[j]) by {
        columns.lemma_filter_contains(inside, j);
    }
}

/// Every record that the pipeline emits is keyed on a coordinate that the
/// configuration admits: under a region `[start, end)` each emitted
/// coordinate satisfies `start <= coordinate < end`.
pub proof fn lemma_records_in_region(
    columns: Seq<ColumnModel>,
    names: Seq<Seq<u8>>,
    config: PipelineConfig,
    k: int,
)
    requires
        pipeline_records(columns, names, config) is Ok,
        0 <= k < pipeline_records(columns, names, config)->Ok_0.len(),
    ensures
        config.admits_spec(pipeline_records(columns, names, config)->Ok_0[k].coordinate as nat),
{
    let reached = windowed(columns, config);
    let record = window_records(reached, names)[k];
    lemma_record_origin(reached, names, k);
    let i = choose|i: int| #[trigger] record_of_pair(reached, names, i, record);
    lemma_region_filter(columns, config);
    assert(reached[i].coordinate == admitted(columns, config)[i].coordinate);
}

/// Every record that the pipeline emits belongs to two neighbours among the
/// aggregates of the admitted columns: its skip delta is the skip count of
/// the earlier one minus that of the later one, without clamping, and its
/// forward and reverse skip deltas add up to the skip delta.
pub proof fn lemma_emitted_deltas(
    columns: Seq<ColumnModel>,
    names: Seq<Seq<u8>>,
    config: PipelineConfig,
    k: int,
)
    requires
        pipeline_records(columns, names, config) is Ok,
        0 <= k < pipeline_records(columns, names, config)->Ok_0.len(),
    ensures
        ({
            let record = pipeline_records(columns, names, config)->Ok_0[k];
            let reached = windowed(columns, config);
            &&& record.delta_skip_fwd + record.delta_skip_rev == record.delta_skip
            &&& exists|i: int|
                #[trigger] record_of_pair(reached, names, i, record) && record.delta_skip
                    == reached[i].skip_count() - reached[i + 1].skip_count()
        }),
{
    lemma_record_origin(windowed(columns, config), names, k);
}

/// Where the admitted columns lie on one reference and are accepted, the
/// pipeline emits `max(0, N - 1)` records for `N` admitted columns.
pub proof fn lemma_pipeline_record_count(
    columns: Seq<ColumnModel>,
    names: Seq<Seq<u8>>,
    config: PipelineConfig,
)
    requires
        single_reference(windowed(columns, config)),
        pipeline_records(columns, names, config) is Ok,
    ensures
        pipeline_records(columns, names, config)->Ok_0.len() == pair_count(
            admitted(columns, config).len(),
        ),
{
    lemma_single_reference_records(windowed(columns, config), names);
}

/// Two runs on the same columns, names and configuration give the same
/// output, byte for byte: both end in the same refusal, or both return the
/// same number of rows with the same bytes in each.
pub proof fn lemma_rerun_identical(
    columns: Seq<PileupColumn>,
    names: ReferenceNames,
    config: PipelineConfig,
    first: Result<Vec<Vec<u8>>, PipelineError>,
    second: Result<Vec<Vec<u8>>, PipelineError>,
)
    requires
        rows_model(first) == pipeline_rows(column_models(columns), names@, config),
        rows_model(second) == pipeline_rows(column_models(columns), names@, config),
    ensures
        rows_model(first) == rows_model(second),
        first is Err ==> second == first,
        first matches Ok(rows) ==> second is Ok && second->Ok_0@.len() == rows@.len()
            && forall|i: int| 0 <= i < rows@.len() ==> (#[trigger] second->Ok_0@[i])@ == rows@[i]@,
{
    if first is Ok {
        let a = first->Ok_0;
        let b = second->Ok_0;
        assert(byte_rows(a@) == byte_rows(b@));
        assert forall|i: int| 0 <= i < a@.len() implies (#[trigger] b@[i])@ == a@[i]@ by {
            assert(byte_rows(a@)[i] == a@[i]@);
            assert(byte_rows(b@)[i] == b@[i]@);
        }
    }
}

} // verus!
