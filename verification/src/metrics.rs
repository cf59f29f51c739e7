//! The figures that one sampling of the system yields.
use vstd::prelude::*;

verus! {

/// How tight memory is. Worse bands come later.
#[derive(Clone, Copy, Debug, PartialEq, Eq, Structural)]
pub enum PressureBand {
    Normal,
    Warn,
    Critical,
}

/// One reading of system memory.
///
/// The share in use is a ratio of two byte counts and is taken in floating point where memory is
/// read; what is kept here of it is the rounded percentage.
#[derive(Clone, Copy, Debug, PartialEq, Eq, Structural)]
pub struct MemorySample {
    /// Physical memory; zero before the first reading, and where it cannot be read.
    pub total_bytes: u64,
    /// Memory in use.
    pub used_bytes: u64,
    /// Share of memory in use, in percent, rounded to the nearest whole number.
    pub used_percent: u32,
    /// The pressure that this reading amounts to.
    pub band: PressureBand,
}

/// How many agents run, and how many processes they have between them.
#[derive(Clone, Copy, Debug, PartialEq, Eq, Structural)]
pub struct AgentCounts {
    pub agents: usize,
    pub procs: usize,
}

/// No agents, no processes.
pub open spec fn no_counts() -> AgentCounts {
    AgentCounts { agents: 0, procs: 0 }
}

impl Default for AgentCounts {
    fn default() -> (counts: Self)
        ensures
            counts == no_counts(),
            counts.agents == 0,
            counts.procs == 0,
    {
        AgentCounts { agents: 0, procs: 0 }
    }
}

/// Everything that the diagnostics strip shows.
#[derive(Clone, Copy, Debug, PartialEq, Eq, Structural)]
pub struct MetricsSnapshot {
    pub memory: MemorySample,
    pub counts: AgentCounts,
}

} // verus!
