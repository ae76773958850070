//! The factor graph: handles, nodes and the GraphViz description of a graph.
use vstd::prelude::*;

use crate::text::decimal;

pub mod export;
pub mod factor;
pub mod graph;
pub mod graphviz;
pub mod inbox;
pub mod iteration;
pub mod node;
pub mod parse;
pub mod read;
pub mod variable;

verus! {

/// Handle of a robot's factor graph. A handle stays valid while the graph is
/// changed; `generation` tells a handle from an earlier one with the same
/// `index`.
#[derive(Debug, Clone, Copy, PartialEq, Eq, Hash, Structural)]
pub struct FactorGraphId {
    pub index: u32,
    pub generation: u32,
}

impl FactorGraphId {
    /// The text that names the graph: `index`, the letter `v`, `generation`.
    pub open spec fn label(self) -> Seq<char> {
        decimal(self.index as nat) + "v"@ + decimal(self.generation as nat)
    }
}

/// Handle of a variable in another robot's factor graph.
#[derive(Debug, Clone, Copy, PartialEq, Eq, Hash, Structural)]
pub struct ExternalVariableId {
    /// The graph that the variable belongs to.
    pub factorgraph_id: FactorGraphId,
    /// The index of the variable in that graph.
    pub variable_index: usize,
}

/// Handle of a variable of a factor graph.
#[derive(Debug, Clone, Copy, PartialEq, Eq, Hash, Structural)]
pub struct VariableId {
    /// The graph that the variable belongs to.
    pub factorgraph_id: FactorGraphId,
    /// The index of the variable in that graph.
    pub variable_index: usize,
}

/// Handle of a factor of a factor graph.
#[derive(Debug, Clone, Copy, PartialEq, Eq, Hash, Structural)]
pub struct FactorId {
    /// The graph that the factor belongs to.
    pub factorgraph_id: FactorGraphId,
    /// The index of the factor in that graph.
    pub factor_index: usize,
}

/// How many messages a node has sent: inside its own graph, and to other
/// graphs.
#[derive(Debug, Clone, Copy, PartialEq, Eq, Structural)]
pub struct MessagesSent {
    pub internal: usize,
    pub external: usize,
}

/// How many messages a node has received: from its own graph, and from
/// other graphs.
#[derive(Debug, Clone, Copy, PartialEq, Eq, Structural)]
pub struct MessagesReceived {
    pub internal: usize,
    pub external: usize,
}

/// `count` and one more, as far as the machine can count.
pub open spec fn one_more(count: usize) -> usize {
    if count < usize::MAX {
        (count + 1) as usize
    } else {
        count
    }
}

/// Counts one more, as far as the machine can count.
pub fn count_one_more(count: usize) -> (next: usize)
    ensures
        next == one_more(count),
{
    if count < usize::MAX {
        count + 1
    } else {
        count
    }
}

} // verus!
