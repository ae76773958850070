//! Core of a multi-robot Gaussian belief propagation planner.
//!
//! Each robot plans its path on a factor graph of its own and exchanges
//! messages with the robots in reach of its radio. This crate holds what of
//! that is counted and decided rather than measured: the schedule that
//! interleaves internal and external iterations, the factor graph with its
//! nodes and their inboxes, the order of the messages of an iteration, the
//! state of the radio links, the GraphViz description of the graphs and its
//! reader, and the utilities around them. The arithmetic on the messages
//! themselves is left to the caller.
use vstd::prelude::*;

pub mod cli;
pub mod factorgraph;
pub mod input;
pub mod min_len_vec;
pub mod pretty_print;
pub mod radio;
pub mod schedule;
pub mod text;
pub mod theme;
pub mod tracer;

verus! {

/// Set of distinct states the application can be in.
#[derive(Debug, PartialEq, Eq, Hash, Clone, Copy, Structural)]
pub enum AppState {
    /// Start of the application, where the simulation data is being loaded
    /// into memory.
    LoadingSimulationData,
    /// A simulation is running in the application.
    Running,
}

impl Default for AppState {
    fn default() -> (state: Self)
        ensures
            state == AppState::LoadingSimulationData,
    {
        AppState::LoadingSimulationData
    }
}

impl AppState {
    /// The name of the state as it is shown.
    pub open spec fn spec_name(self) -> Seq<char> {
        match self {
            AppState::LoadingSimulationData => "Loading"@,
            AppState::Running => "Running"@,
        }
    }

    /// The name of the state as it is shown.
    pub fn to_string(&self) -> (name: String)
        ensures
            name@ == self.spec_name(),
    {
        match self {
            AppState::LoadingSimulationData => "Loading".to_owned(),
            AppState::Running => "Running".to_owned(),
        }
    }
}

} // verus!
