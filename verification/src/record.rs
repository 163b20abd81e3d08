//! Delta records: one position's counts and the change in skips to the next.

use vstd::prelude::*;
use vstd::slice::slice_to_vec;
use crate::aggregate::{AggregateModel, PositionAggregate};

verus! {

/// The mathematical content of a [`DeltaRecord`].
pub struct DeltaModel {
    pub reference_name: Seq<u8>,
    pub coordinate: int,
    pub coverage_count: int,
    pub coverage_count_fwd: int,
    pub coverage_count_rev: int,
    pub skip_count: int,
    pub skip_count_fwd: int,
    pub skip_count_rev: int,
    pub delta_skip: int,
    pub delta_skip_fwd: int,
    pub delta_skip_rev: int,
}

/// The record of the adjacent pair `(earlier, later)`: the counts of
/// `earlier`, and for the skips, in total and on each strand, the count of
/// `earlier` minus the count of `later`.
pub open spec fn delta_model(
    earlier: AggregateModel,
    later: AggregateModel,
    reference_name: Seq<u8>,
) -> DeltaModel {
    DeltaModel {
        reference_name,
        coordinate: earlier.coordinate as int,
        coverage_count: earlier.coverage_count() as int,
        coverage_count_fwd: earlier.coverage_count_fwd as int,
        coverage_count_rev: earlier.coverage_count_rev as int,
        skip_count: earlier.skip_count() as int,
        skip_count_fwd: earlier.skip_count_fwd as int,
        skip_count_rev: earlier.skip_count_rev as int,
        delta_skip: earlier.skip_count() - later.skip_count(),
        delta_skip_fwd: earlier.skip_count_fwd - later.skip_count_fwd,
        delta_skip_rev: earlier.skip_count_rev - later.skip_count_rev,
    }
}

/// In every record of a pair the forward and the reverse skip delta add up to
/// the skip delta, and the strand counts add up to the counts.
pub proof fn lemma_strands_add_up(
    earlier: AggregateModel,
    later: AggregateModel,
    reference_name: Seq<u8>,
)
    ensures
        ({
            let record = delta_model(earlier, later, reference_name);
            &&& record.delta_skip_fwd + record.delta_skip_rev == record.delta_skip
            &&& record.skip_count_fwd + record.skip_count_rev == record.skip_count
            &&& record.coverage_count_fwd + record.coverage_count_rev == record.coverage_count
        }),
{
}

/// One output record: the statistics of a position and the change in skip
/// count towards the position after it. The strand fields are always filled;
/// the plain row shows only some of them.
#[derive(Debug, PartialEq, Eq)]
pub struct DeltaRecord {
    pub reference_name: Vec<u8>,
    pub coordinate: u32,
    pub coverage_count: u32,
    pub coverage_count_fwd: u32,
    pub coverage_count_rev: u32,
    pub skip_count: u32,
    pub skip_count_fwd: u32,
    pub skip_count_rev: u32,
    pub delta_skip: i64,
    pub delta_skip_fwd: i64,
    pub delta_skip_rev: i64,
}

impl View for DeltaRecord {
    type V = DeltaModel;

    open spec fn view(&self) -> DeltaModel {
        DeltaModel {
            reference_name: self.reference_name@,
            coordinate: self.coordinate as int,
            coverage_count: self.coverage_count as int,
            coverage_count_fwd: self.coverage_count_fwd as int,
            coverage_count_rev: self.coverage_count_rev as int,
            skip_count: self.skip_count as int,
            skip_count_fwd: self.skip_count_fwd as int,
            skip_count_rev: self.skip_count_rev as int,
            delta_skip: self.delta_skip as int,
            delta_skip_fwd: self.delta_skip_fwd as int,
            delta_skip_rev: self.delta_skip_rev as int,
        }
    }
}

impl Clone for DeltaRecord {
    /// A record with the same contents.
    fn clone(&self) -> (copy: DeltaRecord)
        ensures
            copy@ == self@,
    {
        DeltaRecord {
            reference_name: slice_to_vec(self.reference_name.as_slice()),
            coordinate: self.coordinate,
            coverage_count: self.coverage_count,
            coverage_count_fwd: self.coverage_count_fwd,
            coverage_count_rev: self.coverage_count_rev,
            skip_count: self.skip_count,
            skip_count_fwd: self.skip_count_fwd,
            skip_count_rev: self.skip_count_rev,
            delta_skip: self.delta_skip,
            delta_skip_fwd: self.delta_skip_fwd,
            delta_skip_rev: self.delta_skip_rev,
        }
    }
}

impl DeltaRecord {
    /// The record of the adjacent pair `(earlier, later)` under the given
    /// reference name. The differences are signed and never clamped.
    pub fn between(
        earlier: &PositionAggregate,
        later: &PositionAggregate,
        reference_name: &[u8],
    ) -> (record: DeltaRecord)
        ensures
            record@ == delta_model(earlier@, later@, reference_name@),
            record.delta_skip == earlier@.skip_count() - later@.skip_count(),
            record.delta_skip_fwd + record.delta_skip_rev == record.delta_skip,
    {
        DeltaRecord {
            reference_name: slice_to_vec(reference_name),
            coordinate: earlier.coordinate(),
            coverage_count: earlier.coverage_count(),
            coverage_count_fwd: earlier.coverage_count_fwd(),
            coverage_count_rev: earlier.coverage_count_rev(),
            skip_count: earlier.skip_count(),
            skip_count_fwd: earlier.skip_count_fwd(),
            skip_count_rev: earlier.skip_count_rev(),
            delta_skip: earlier.skip_count() as i64 - later.skip_count() as i64,
            delta_skip_fwd: earlier.skip_count_fwd() as i64 - later.skip_count_fwd() as i64,
            delta_skip_rev: earlier.skip_count_rev() as i64 - later.skip_count_rev() as i64,
        }
    }
}

} // verus!
