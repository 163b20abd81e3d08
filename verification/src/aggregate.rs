//! The position aggregator: the counts of one reference coordinate.

use vstd::prelude::*;
use crate::observation::{
    lemma_tallies_cover,
    tally,
    AlignmentObservation,
    ObservationKind,
    Strand,
};

verus! {

/// The mathematical content of a [`PositionAggregate`].
pub struct AggregateModel {
    pub reference_id: nat,
    pub coordinate: nat,
    pub total_depth: nat,
    pub coverage_count_fwd: nat,
    pub coverage_count_rev: nat,
    pub skip_count_fwd: nat,
    pub skip_count_rev: nat,
}

impl AggregateModel {
    /// Observations that are neither skip nor deletion, both strands.
    pub open spec fn coverage_count(self) -> nat {
        self.coverage_count_fwd + self.coverage_count_rev
    }

    /// Observations that are spliced over the coordinate, both strands.
    pub open spec fn skip_count(self) -> nat {
        self.skip_count_fwd + self.skip_count_rev
    }

    /// Every field fits the 32-bit counters, and coverage and skips together
    /// do not exceed the depth. Deletions make up the difference.
    pub open spec fn wf(self) -> bool {
        &&& self.reference_id <= u32::MAX
        &&& self.coordinate <= u32::MAX
        &&& self.total_depth <= u32::MAX
        &&& self.coverage_count() + self.skip_count() <= self.total_depth
    }
}

/// The observations that are counted under a depth cap: the first
/// `max_depth` of them.
pub open spec fn counted(observations: Seq<AlignmentObservation>, max_depth: nat) -> Seq<
    AlignmentObservation,
> {
    if observations.len() <= max_depth {
        observations
    } else {
        observations.take(max_depth as int)
    }
}

/// What the aggregator makes of the observations at one coordinate.
pub open spec fn aggregate_model(
    reference_id: nat,
    coordinate: nat,
    observations: Seq<AlignmentObservation>,
    max_depth: nat,
) -> AggregateModel {
    let seen = counted(observations, max_depth);
    AggregateModel {
        reference_id,
        coordinate,
        total_depth: seen.len(),
        coverage_count_fwd: tally(seen, ObservationKind::Coverage, Strand::Forward),
        coverage_count_rev: tally(seen, ObservationKind::Coverage, Strand::Reverse),
        skip_count_fwd: tally(seen, ObservationKind::Skip, Strand::Forward),
        skip_count_rev: tally(seen, ObservationKind::Skip, Strand::Reverse),
    }
}

/// The counts of one reference coordinate. A value is fixed once it is made:
/// the fields are read through the methods below.
#[derive(Clone, Copy, Debug, PartialEq, Eq)]
pub struct PositionAggregate {
    reference_id: u32,
    coordinate: u32,
    total_depth: u32,
    coverage_count_fwd: u32,
    coverage_count_rev: u32,
    skip_count_fwd: u32,
    skip_count_rev: u32,
}

impl View for PositionAggregate {
    type V = AggregateModel;

    closed spec fn view(&self) -> AggregateModel {
        AggregateModel {
            reference_id: self.reference_id as nat,
            coordinate: self.coordinate as nat,
            total_depth: self.total_depth as nat,
            coverage_count_fwd: self.coverage_count_fwd as nat,
            coverage_count_rev: self.coverage_count_rev as nat,
            skip_count_fwd: self.skip_count_fwd as nat,
            skip_count_rev: self.skip_count_rev as nat,
        }
    }
}

impl PositionAggregate {
    /// What holds of every aggregate: its counts are consistent.
    #[verifier::type_invariant]
    pub open spec fn well_formed(self) -> bool {
        self@.wf()
    }

    /// An aggregate with the given counts, where they are consistent:
    /// coverage and skips of both strands together fit in `total_depth`.
    pub fn from_counts(
        reference_id: u32,
        coordinate: u32,
        total_depth: u32,
        coverage_count_fwd: u32,
        coverage_count_rev: u32,
        skip_count_fwd: u32,
        skip_count_rev: u32,
    ) -> (made: Option<PositionAggregate>)
        ensures
            made is Some <==> coverage_count_fwd + coverage_count_rev + skip_count_fwd
                + skip_count_rev <= total_depth,
            made matches Some(agg) ==> agg@ == (AggregateModel {
                reference_id: reference_id as nat,
                coordinate: coordinate as nat,
                total_depth: total_depth as nat,
                coverage_count_fwd: coverage_count_fwd as nat,
                coverage_count_rev: coverage_count_rev as nat,
                skip_count_fwd: skip_count_fwd as nat,
                skip_count_rev: skip_count_rev as nat,
            }),
    {
        let counted: u64 = coverage_count_fwd as u64 + coverage_count_rev as u64
            + skip_count_fwd as u64 + skip_count_rev as u64;
        if counted <= total_depth as u64 {
            Some(
                PositionAggregate {
                    reference_id,
                    coordinate,
                    total_depth,
                    coverage_count_fwd,
                    coverage_count_rev,
                    skip_count_fwd,
                    skip_count_rev,
                },
            )
        } else {
            None
        }
    }

    /// Which reference sequence the coordinate lies on.
    pub fn reference_id(&self) -> (id: u32)
        ensures
            id == self@.reference_id,
    {
        self.reference_id
    }

    /// The 0-based offset along the reference.
    pub fn coordinate(&self) -> (coordinate: u32)
        ensures
            coordinate == self@.coordinate,
    {
        self.coordinate
    }

    /// The number of observations counted, deletions included.
    pub fn total_depth(&self) -> (depth: u32)
        ensures
            depth == self@.total_depth,
    {
        self.total_depth
    }

    /// Observations that are neither skip nor deletion.
    pub fn coverage_count(&self) -> (count: u32)
        ensures
            count == self@.coverage_count(),
    {
        proof {
            use_type_invariant(self);
        }
        self.coverage_count_fwd + self.coverage_count_rev
    }

    /// Coverage on the forward strand.
    pub fn coverage_count_fwd(&self) -> (count: u32)
        ensures
            count == self@.coverage_count_fwd,
    {
        self.coverage_count_fwd
    }

    /// Coverage on the reverse strand.
    pub fn coverage_count_rev(&self) -> (count: u32)
        ensures
            count == self@.coverage_count_rev,
    {
        self.coverage_count_rev
    }

    /// Observations that are spliced over the coordinate.
    pub fn skip_count(&self) -> (count: u32)
        ensures
            count == self@.skip_count(),
    {
        proof {
            use_type_invariant(self);
        }
        self.skip_count_fwd + self.skip_count_rev
    }

    /// Skips on the forward strand.
    pub fn skip_count_fwd(&self) -> (count: u32)
        ensures
            count == self@.skip_count_fwd,
    {
        self.skip_count_fwd
    }

    /// Skips on the reverse strand.
    pub fn skip_count_rev(&self) -> (count: u32)
        ensures
            count == self@.skip_count_rev,
    {
        self.skip_count_rev
    }
}

/// Reduces the observations at one coordinate to their counts.
///
/// At most `max_depth` observations are counted; what lies beyond the cap is
/// left out of every count, the depth included.
pub fn aggregate(
    reference_id: u32,
    coordinate: u32,
    observations: &[AlignmentObservation],
    max_depth: u32,
) -> (agg: PositionAggregate)
    ensures
        agg@ == aggregate_model(
            reference_id as nat,
            coordinate as nat,
            observations@,
            max_depth as nat,
        ),
        agg@.wf(),
{
    let limit: usize = if observations.len() <= max_depth as usize {
        observations.len()
    } else {
        max_depth as usize
    };
    let ghost seen = counted(observations@, max_depth as nat);
    let mut coverage_count_fwd: u32 = 0;
    let mut coverage_count_rev: u32 = 0;
    let mut skip_count_fwd: u32 = 0;
    let mut skip_count_rev: u32 = 0;
    let mut i: usize = 0;
    while i < limit
        invariant
            i <= limit <= observations@.len(),
            limit <= max_depth,
            seen == counted(observations@, max_depth as nat),
            seen.len() == limit,
            coverage_count_fwd == tally(
                seen.take(i as int),
                ObservationKind::Coverage,
                Strand::Forward,
            ),
            coverage_count_rev == tally(
                seen.take(i as int),
                ObservationKind::Coverage,
                Strand::Reverse,
            ),
            skip_count_fwd == tally(seen.take(i as int), ObservationKind::Skip, Strand::Forward),
            skip_count_rev == tally(seen.take(i as int), ObservationKind::Skip, Strand::Reverse),
        decreases limit - i,
    {
        let observation = observations[i];
        proof {
            let next = seen.take(i + 1);
            assert(next.drop_last() == seen.take(i as int));
            assert(next.last() == observation);
            lemma_tallies_cover(next);
        }
        match (observation.kind(), observation.strand) {
            (ObservationKind::Coverage, Strand::Forward) => {
                coverage_count_fwd = coverage_count_fwd + 1;
            },
            (ObservationKind::Coverage, Strand::Reverse) => {
                coverage_count_rev = coverage_count_rev + 1;
            },
            (ObservationKind::Skip, Strand::Forward) => {
                skip_count_fwd = skip_count_fwd + 1;
            },
            (ObservationKind::Skip, Strand::Reverse) => {
                skip_count_rev = skip_count_rev + 1;
            },
            (ObservationKind::Deletion, _) => {},
        }
        i = i + 1;
    }
    proof {
        assert(seen.take(limit as int) == seen);
        lemma_tallies_cover(seen);
    }
    PositionAggregate {
        reference_id,
        coordinate,
        total_depth: limit as u32,
        coverage_count_fwd,
        coverage_count_rev,
        skip_count_fwd,
        skip_count_rev,
    }
}

} // verus!
