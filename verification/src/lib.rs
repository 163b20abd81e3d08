//! Per-position coverage and skip statistics over aligned sequencing reads,
//! together with the change in skip count from each position to the next.
//!
//! The crate takes the pileup columns of an alignment source as plain values
//! and turns them into tab-separated rows. Every step is stated over a
//! mathematical model and proved against it:
//!
//! * [`aggregate`](aggregate::aggregate) reduces the observations at one
//!   coordinate to a [`PositionAggregate`];
//! * [`Region`] and [`PipelineConfig`] decide which coordinates take part;
//! * [`DeltaWindow`] pairs each aggregate with its successor and yields one
//!   [`DeltaRecord`] per pair;
//! * [`format_record`](emit::format_record) renders a record as one row.
//!
//! [`Pipeline`] chains these steps for a stream of columns, and
//! [`pileup`](pipeline::pileup) and [`pileup_region`](pipeline::pileup_region)
//! do the same for a whole list at once.
//! [`parse_interval_line`](interval::parse_interval_line) reads the lines of
//! an interval list.
//!
//! Reading alignment files and writing rows is left to the caller. Reference
//! names, interval lines and rows are bytes throughout.
//!
//! The modules [`window_laws`], [`pipeline_laws`] and [`interval_laws`] hold
//! what is proved of whole sequences: how many records a sequence yields,
//! which pair each record belongs to, what the region filter lets through,
//! and that the result is a function of the input.

pub mod observation;
pub mod aggregate;
pub mod error;
pub mod names;
pub mod config;
pub mod record;
pub mod decimal;
pub mod emit;
pub mod interval;
pub mod interval_laws;
pub mod window;
pub mod window_laws;
pub mod pipeline;
pub mod pipeline_laws;

pub use observation::{AlignmentObservation, ObservationKind, Strand};
pub use aggregate::{aggregate, AggregateModel, PositionAggregate};
pub use config::{PipelineConfig, Region, DEFAULT_MAX_DEPTH};
pub use error::PipelineError;
pub use names::ReferenceNames;
pub use record::{DeltaModel, DeltaRecord};
pub use window::{compute_deltas, DeltaWindow};
pub use emit::format_record;
pub use interval::{parse_interval_line, parse_number, IntervalModel, IntervalRequest};
pub use pipeline::{
    collect_records, format_records, pileup, pileup_region, run_pipeline, ColumnModel, Pipeline,
    PileupColumn,
};
