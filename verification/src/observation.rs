//! Alignment observations: what one read contributes at one coordinate.

use vstd::prelude::*;

verus! {

/// Orientation of an aligned read relative to the reference.
#[derive(Clone, Copy, Debug, PartialEq, Eq, Structural)]
pub enum Strand {
    Forward,
    Reverse,
}

/// The class an observation falls into when it is counted.
#[derive(Clone, Copy, Debug, PartialEq, Eq, Structural)]
pub enum ObservationKind {
    /// The read is spliced over the coordinate.
    Skip,
    /// The read has a deletion at the coordinate.
    Deletion,
    /// The read matches or mismatches the reference at the coordinate.
    Coverage,
}

/// One overlap of a single aligned read with a reference coordinate.
#[derive(Clone, Copy, Debug, PartialEq, Eq, Structural)]
pub struct AlignmentObservation {
    pub is_skip: bool,
    pub is_deletion: bool,
    pub strand: Strand,
}

impl AlignmentObservation {
    /// The class of this observation. A skip wins over a deletion, so that a
    /// source which flags every skipped base as deleted too is still counted
    /// as a skip.
    pub open spec fn kind_spec(self) -> ObservationKind {
        if self.is_skip {
            ObservationKind::Skip
        } else if self.is_deletion {
            ObservationKind::Deletion
        } else {
            ObservationKind::Coverage
        }
    }

    /// Classifies the observation as skip, deletion or coverage.
    pub fn kind(&self) -> (k: ObservationKind)
        ensures
            k == self.kind_spec(),
    {
        if self.is_skip {
            ObservationKind::Skip
        } else if self.is_deletion {
            ObservationKind::Deletion
        } else {
            ObservationKind::Coverage
        }
    }

    /// Whether the observation is of class `kind` on strand `strand`.
    pub open spec fn counts_as(self, kind: ObservationKind, strand: Strand) -> bool {
        self.kind_spec() == kind && self.strand == strand
    }
}

/// How many of `observations` are of class `kind` on strand `strand`.
pub open spec fn tally(
    observations: Seq<AlignmentObservation>,
    kind: ObservationKind,
    strand: Strand,
) -> nat
    decreases observations.len(),
{
    if observations.len() == 0 {
        0
    } else {
        tally(observations.drop_last(), kind, strand) + if observations.last().counts_as(
            kind,
            strand,
        ) {
            1nat
        } else {
            0nat
        }
    }
}

/// Every observation falls under exactly one class and strand: the six
/// tallies of a sequence add up to its length.
pub proof fn lemma_tallies_cover(observations: Seq<AlignmentObservation>)
    ensures
        tally(observations, ObservationKind::Coverage, Strand::Forward) + tally(
            observations,
            ObservationKind::Coverage,
            Strand::Reverse,
        ) + tally(observations, ObservationKind::Skip, Strand::Forward) + tally(
            observations,
            ObservationKind::Skip,
            Strand::Reverse,
        ) + tally(observations, ObservationKind::Deletion, Strand::Forward) + tally(
            observations,
            ObservationKind::Deletion,
            Strand::Reverse,
        ) == observations.len(),
    decreases observations.len(),
{
    if observations.len() > 0 {
        lemma_tallies_cover(observations.drop_last());
    }
}

} // verus!
