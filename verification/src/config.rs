//! What the pipeline is configured with: depth cap, row mode and region.

use vstd::prelude::*;

verus! {

/// The depth cap that applies where none is chosen.
pub const DEFAULT_MAX_DEPTH: u32 = 10_000_000;

/// A half-open interval `[start, end)` of 0-based coordinates.
#[derive(Clone, Copy, Debug, PartialEq, Eq, Structural)]
pub struct Region {
    pub start: u32,
    pub end: u32,
}

impl Region {
    /// Whether `coordinate` lies in the interval.
    pub open spec fn admits_spec(self, coordinate: nat) -> bool {
        self.start <= coordinate < self.end
    }

    /// The interval `[start, end)`. It is empty where `end <= start`.
    pub fn new(start: u32, end: u32) -> (region: Region)
        ensures
            region == (Region { start, end }),
    {
        Region { start, end }
    }

    /// Decides whether a coordinate takes part: it does if and only if
    /// `start <= coordinate < end`.
    pub fn admits(&self, coordinate: u32) -> (admitted: bool)
        ensures
            admitted == self.admits_spec(coordinate as nat),
    {
        self.start <= coordinate && coordinate < self.end
    }
}

/// The configuration of one pipeline run.
#[derive(Clone, Copy, Debug, PartialEq, Eq)]
pub struct PipelineConfig {
    /// How many observations are counted at one coordinate, at most.
    pub max_depth: u32,
    /// Whether rows carry the strand columns.
    pub strand_aware: bool,
    /// The interval to which coordinates are restricted; `None` admits all.
    pub region: Option<Region>,
}

impl PipelineConfig {
    /// Whether `coordinate` takes part under this configuration.
    pub open spec fn admits_spec(self, coordinate: nat) -> bool {
        match self.region {
            None => true,
            Some(region) => region.admits_spec(coordinate),
        }
    }

    /// Plain rows over the whole reference, under the given depth cap.
    pub fn whole_reference(max_depth: u32) -> (config: PipelineConfig)
        ensures
            config == (PipelineConfig { max_depth, strand_aware: false, region: None }),
    {
        PipelineConfig { max_depth, strand_aware: false, region: None }
    }

    /// Plain rows over `[start, end)`, under the given depth cap.
    pub fn bounded(max_depth: u32, start: u32, end: u32) -> (config: PipelineConfig)
        ensures
            config == (PipelineConfig {
                max_depth,
                strand_aware: false,
                region: Some(Region { start, end }),
            }),
    {
        PipelineConfig { max_depth, strand_aware: false, region: Some(Region { start, end }) }
    }

    /// The same configuration with the strand columns switched on or off.
    pub fn with_strands(self, strand_aware: bool) -> (config: PipelineConfig)
        ensures
            config == (PipelineConfig { strand_aware, ..self }),
    {
        PipelineConfig { max_depth: self.max_depth, strand_aware, region: self.region }
    }

    /// Decides whether a coordinate takes part: all do without a region, and
    /// with one those that it admits.
    pub fn admits(&self, coordinate: u32) -> (admitted: bool)
        ensures
            admitted == self.admits_spec(coordinate as nat),
    {
        match self.region {
            None => true,
            Some(region) => region.admits(coordinate),
        }
    }
}

impl Default for PipelineConfig {
    /// Plain rows over the whole reference under the default depth cap.
    fn default() -> (config: PipelineConfig)
        ensures
            config == (PipelineConfig {
                max_depth: DEFAULT_MAX_DEPTH,
                strand_aware: false,
                region: None,
            }),
    {
        PipelineConfig { max_depth: DEFAULT_MAX_DEPTH, strand_aware: false, region: None }
    }
}

} // verus!
