//! A factor graph as GraphViz sees it: nodes with a look, and edges.
use vstd::prelude::*;

use crate::factorgraph::ExternalVariableId;

verus! {

/// A factor graph node in the GraphViz output.
#[derive(Debug, Clone, Copy, PartialEq, Eq, Structural)]
pub struct Node {
    /// The index of the node
    pub index: usize,
    /// The kind of the node
    pub kind: NodeKind,
}

/// What a node of the GraphViz output stands for.
#[derive(Debug, Clone, Copy, PartialEq, Eq, Structural)]
pub enum NodeKind {
    Variable,
    InterRobotFactor {
        /// Whether the factor is in use.
        active: bool,
        /// The variable of the other robot that the factor is connected to.
        external_variable_id: ExternalVariableId,
    },
    DynamicFactor,
    ObstacleFactor,
    TrackingFactor,
}

/// What a node of the GraphViz output stands for, without what it carries.
#[derive(Debug, Clone, Copy, PartialEq, Eq, Hash, Structural)]
pub enum NodeKindTag {
    Variable,
    InterRobotFactor,
    DynamicFactor,
    ObstacleFactor,
    TrackingFactor,
}

/// An edge between two nodes of one graph.
#[derive(Debug, Clone, Copy, PartialEq, Eq, Structural)]
pub struct Edge {
    pub from: usize,
    pub to: usize,
}

/// A graph that can describe itself as nodes and edges.
pub trait ExportGraph {
    /// The nodes and the edges of the graph.
    fn export_graph(&self) -> (Vec<Node>, Vec<Edge>);
}

impl NodeKind {
    /// The fill colour of each kind of node.
    pub open spec fn spec_color(self) -> Seq<char> {
        match self {
            NodeKind::Variable => "#eff1f5"@,
            NodeKind::InterRobotFactor { .. } => "#a6da95"@,
            NodeKind::DynamicFactor => "#8aadf4"@,
            NodeKind::ObstacleFactor => "#ee99a0"@,
            NodeKind::TrackingFactor => "#f4a15a"@,
        }
    }

    /// The shape of each kind of node: variables are circles, factors squares.
    pub open spec fn spec_shape(self) -> Seq<char> {
        match self {
            NodeKind::Variable => "circle"@,
            _ => "square"@,
        }
    }

    /// The width of each kind of node, as a decimal number of inches.
    pub open spec fn spec_width(self) -> Seq<char> {
        match self {
            NodeKind::Variable => "0.8"@,
            _ => "0.2"@,
        }
    }

    /// The short name that a node of this kind and index is labelled with.
    pub open spec fn spec_label(self, index: usize) -> Seq<char> {
        match self {
            NodeKind::Variable => "v"@ + crate::text::decimal(index as nat),
            NodeKind::InterRobotFactor { .. } => "fr"@,
            NodeKind::DynamicFactor => "fd"@,
            NodeKind::ObstacleFactor => "fo"@,
            NodeKind::TrackingFactor => "ft"@,
        }
    }

    /// The kind without what it carries.
    pub open spec fn spec_tag(self) -> NodeKindTag {
        match self {
            NodeKind::Variable => NodeKindTag::Variable,
            NodeKind::InterRobotFactor { .. } => NodeKindTag::InterRobotFactor,
            NodeKind::DynamicFactor => NodeKindTag::DynamicFactor,
            NodeKind::ObstacleFactor => NodeKindTag::ObstacleFactor,
            NodeKind::TrackingFactor => NodeKindTag::TrackingFactor,
        }
    }

    /// The kind without what it carries.
    pub fn tag(&self) -> (tag: NodeKindTag)
        ensures
            tag == self.spec_tag(),
    {
        match self {
            NodeKind::Variable => NodeKindTag::Variable,
            NodeKind::InterRobotFactor { .. } => NodeKindTag::InterRobotFactor,
            NodeKind::DynamicFactor => NodeKindTag::DynamicFactor,
            NodeKind::ObstacleFactor => NodeKindTag::ObstacleFactor,
            NodeKind::TrackingFactor => NodeKindTag::TrackingFactor,
        }
    }

    /// The fill colour of the node.
    pub fn color(&self) -> (color: &'static str)
        ensures
            color@ == self.spec_color(),
    {
        match self {
            Self::Variable => "#eff1f5",  // white
            Self::InterRobotFactor { .. } => "#a6da95",  // green
            Self::DynamicFactor => "#8aadf4",  // blue
            Self::ObstacleFactor => "#ee99a0",  // mauve
            Self::TrackingFactor => "#f4a15a",  // orange
        }
    }

    /// The shape of the node.
    pub fn shape(&self) -> (shape: &'static str)
        ensures
            shape@ == self.spec_shape(),
    {
        match self {
            Self::Variable => "circle",
            _ => "square",
        }
    }

    /// The width of the node.
    pub fn width(&self) -> (width: &'static str)
        ensures
            width@ == self.spec_width(),
    {
        match self {
            Self::Variable => "0.8",
            _ => "0.2",
        }
    }
}

impl Node {
    /// Returns the color of the node
    pub fn color(&self) -> (color: &'static str)
        ensures
            color@ == self.kind.spec_color(),
    {
        self.kind.color()
    }

    /// Returns the shape of the node
    pub fn shape(&self) -> (shape: &'static str)
        ensures
            shape@ == self.kind.spec_shape(),
    {
        self.kind.shape()
    }

    /// Returns the width of the node
    pub fn width(&self) -> (width: &'static str)
        ensures
            width@ == self.kind.spec_width(),
    {
        self.kind.width()
    }
}

} // verus!
