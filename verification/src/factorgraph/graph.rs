//! The factor graph of one robot: its variables and factors, and which
//! factor is connected to which variable.
use vstd::prelude::*;

use crate::factorgraph::export::RobotGraph;
use crate::factorgraph::factor::{FactorKind, FactorNode};
use crate::factorgraph::graphviz::{Edge, ExportGraph, Node as GraphvizNode, NodeKind as Look};
use crate::factorgraph::node::{FactorGraphNode, Node, NodeKind};
use crate::factorgraph::variable::VariableNode;
use crate::factorgraph::{FactorGraphId, FactorId, VariableId};

verus! {

/// A factor graph. It owns its nodes. A node is known by its index, which
/// stays the same while the graph grows.
#[derive(Debug)]
pub struct FactorGraph<M> {
    id: FactorGraphId,
    nodes: Vec<Node<M>>,
    edges: Vec<Edge>,
}

/// How a node is drawn.
pub open spec fn look_of<M>(node: Node<M>) -> Look {
    match node.kind {
        NodeKind::Variable(_) => Look::Variable,
        NodeKind::Factor(factor) => match factor.spec_kind() {
            FactorKind::Dynamics => Look::DynamicFactor,
            FactorKind::Obstacle => Look::ObstacleFactor,
            FactorKind::Tracking => Look::TrackingFactor,
            FactorKind::InterRobot { active, external_variable_id } => Look::InterRobotFactor {
                active,
                external_variable_id,
            },
        },
    }
}

/// Whether `variables` are variables of graph `graph` whose indices are
/// those of variable nodes among `nodes`.
pub open spec fn live_variables<M>(
    graph: FactorGraphId,
    nodes: Seq<Node<M>>,
    variables: Seq<VariableId>,
) -> bool {
    forall|i: int|
        0 <= i < variables.len() ==> (#[trigger] variables[i]).factorgraph_id == graph
            && variables[i].variable_index < nodes.len()
            && nodes[variables[i].variable_index as int].kind is Variable
}

impl<M> FactorGraph<M> {
    /// The handle of the graph.
    pub closed spec fn spec_id(&self) -> FactorGraphId {
        self.id
    }

    /// The nodes of the graph, by index.
    pub closed spec fn nodes(&self) -> Seq<Node<M>> {
        self.nodes@
    }

    /// The edges of the graph, in the order in which they were made. An
    /// edge leads from a factor to a variable that the factor is connected
    /// to.
    pub closed spec fn edges(&self) -> Seq<Edge> {
        self.edges@
    }

    /// Whether the graph is in order: every node is, and belongs to this
    /// graph; every factor is connected to live variables of this graph; and
    /// every edge leads from a factor of the graph to a variable of the
    /// graph.
    pub open spec fn wf(&self) -> bool {
        &&& forall|i: int|
            0 <= i < self.nodes().len() ==> (#[trigger] self.nodes()[i]).wf()
                && self.nodes()[i].factorgraph_id == self.spec_id()
        &&& forall|i: int|
            0 <= i < self.nodes().len() && (#[trigger] self.nodes()[i]).kind is Factor
                ==> live_variables(
                self.spec_id(),
                self.nodes(),
                self.nodes()[i].kind->Factor_0.spec_adjacent(),
            )
        &&& forall|i: int|
            0 <= i < self.edges().len() ==> (#[trigger] self.edges()[i]).from < self.nodes().len()
                && self.edges()[i].to < self.nodes().len()
                && self.nodes()[self.edges()[i].from as int].kind is Factor
                && self.nodes()[self.edges()[i].to as int].kind is Variable
    }

    /// A graph without nodes.
    pub fn new(id: FactorGraphId) -> (graph: Self)
        ensures
            graph.wf(),
            graph.spec_id() == id,
            graph.nodes().len() == 0,
            graph.edges().len() == 0,
    {
        FactorGraph { id, nodes: Vec::new(), edges: Vec::new() }
    }

    /// The handle of the graph.
    pub fn id(&self) -> (id: FactorGraphId)
        ensures
            id == self.spec_id(),
    {
        self.id
    }

    /// Number of nodes.
    pub fn len(&self) -> (len: usize)
        ensures
            len == self.nodes().len(),
    {
        self.nodes.len()
    }

    /// The node with index `index`.
    pub fn node(&self, index: usize) -> (node: Option<&Node<M>>)
        ensures
            index < self.nodes().len() ==> node == Some(&self.nodes()[index as int]),
            index >= self.nodes().len() ==> node.is_none(),
    {
        if index < self.nodes.len() {
            Some(&self.nodes[index])
        } else {
            None
        }
    }

    /// Number of edges.
    pub fn edge_count(&self) -> (count: usize)
        ensures
            count == self.edges().len(),
    {
        self.edges.len()
    }

    /// The edge that was made as number `index`.
    pub fn edge(&self, index: usize) -> (edge: Edge)
        requires
            index < self.edges().len(),
        ensures
            edge == self.edges()[index as int],
    {
        self.edges[index]
    }

    /// Whether `index` is the index of a variable of the graph.
    pub fn is_variable(&self, index: usize) -> (is: bool)
        ensures
            is == (index < self.nodes().len() && self.nodes()[index as int].kind is Variable),
    {
        index < self.nodes.len() && self.nodes[index].is_variable()
    }

    /// Adds a variable with the given prior and returns its handle. The
    /// nodes and edges that were there stay as they are.
    pub fn add_variable(&mut self, prior: M) -> (id: VariableId)
        requires
            old(self).wf(),
        ensures
            final(self).wf(),
            final(self).spec_id() == old(self).spec_id(),
            id.factorgraph_id == old(self).spec_id(),
            id.variable_index == old(self).nodes().len(),
            final(self).nodes().len() == old(self).nodes().len() + 1,
            final(self).nodes().take(old(self).nodes().len() as int) == old(self).nodes(),
            final(self).nodes().last().kind is Variable,
            final(self).nodes().last().kind->Variable_0.spec_prior() == prior,
            final(self).nodes().last().kind->Variable_0.inbox().len() == 0,
            final(self).edges() == old(self).edges(),
    {
        let index = self.nodes.len();
        let variable = VariableNode::new(self.id, prior);
        self.nodes.push(Node::new(self.id, NodeKind::Variable(variable)));
        proof {
            let before = old(self).nodes();
            let after = self.nodes();
            assert(after.take(before.len() as int) =~= before);
            assert forall|i: int|
                0 <= i < after.len() && (#[trigger] after[i]).kind is Factor implies live_variables(
                self.spec_id(),
                after,
                after[i].kind->Factor_0.spec_adjacent(),
            ) by {
                assert(after[i] == before[i]);
                let variables = before[i].kind->Factor_0.spec_adjacent();
                assert(live_variables(old(self).spec_id(), before, variables));
                assert forall|k: int| 0 <= k < variables.len() implies
                    (#[trigger] variables[k]).factorgraph_id
                    == self.spec_id() && variables[k].variable_index < after.len()
                    && after[variables[k].variable_index as int].kind is Variable by {
                    assert(after[variables[k].variable_index as int]
                        == before[variables[k].variable_index as int]);
                }
            }
            assert forall|i: int| 0 <= i < after.len() implies (#[trigger] after[i]).wf()
                && after[i].factorgraph_id == self.spec_id() by {
                if i < before.len() {
                    assert(after[i] == before[i]);
                }
            }
            assert forall|i: int| 0 <= i < self.edges().len() implies
                (#[trigger] self.edges()[i]).from
                < after.len() && self.edges()[i].to < after.len()
                && after[self.edges()[i].from as int].kind is Factor
                && after[self.edges()[i].to as int].kind is Variable by {
                let edge = old(self).edges()[i];
                assert(after[edge.from as int] == before[edge.from as int]);
                assert(after[edge.to as int] == before[edge.to as int]);
            }
        }
        VariableId { factorgraph_id: self.id, variable_index: index }
    }

    /// Adds a factor of kind `kind` over the variables with the indices
    /// `variables`, with an edge to each of them, and returns its handle; or
    /// changes nothing and returns `None` if one of the indices is not that
    /// of a variable of the graph.
    pub fn add_factor(&mut self, kind: FactorKind, variables: &Vec<usize>) -> (id: Option<FactorId>)
        requires
            old(self).wf(),
        ensures
            final(self).wf(),
            final(self).spec_id() == old(self).spec_id(),
            id.is_some() <==> (forall|k: int|
                0 <= k < variables@.len() ==> (#[trigger] variables@[k]) < old(self).nodes().len()
                    && old(self).nodes()[variables@[k] as int].kind is Variable),
            id.is_none() ==> final(self).nodes() == old(self).nodes() && final(self).edges()
                == old(self).edges(),
            id.is_some() ==> {
                &&& id.unwrap().factorgraph_id == old(self).spec_id()
                &&& id.unwrap().factor_index == old(self).nodes().len()
                &&& final(self).nodes().len() == old(self).nodes().len() + 1
                &&& final(self).nodes().take(old(self).nodes().len() as int) == old(self).nodes()
                &&& final(self).nodes().last().kind is Factor
                &&& final(self).nodes().last().kind->Factor_0.spec_kind() == kind
                &&& final(self).nodes().last().kind->Factor_0.spec_adjacent() == Seq::new(
                    variables@.len(),
                    |k: int|
                        (VariableId {
                            factorgraph_id: old(self).spec_id(),
                            variable_index: variables@[k],
                        }),
                )
                &&& final(self).edges() == old(self).edges() + Seq::new(
                    variables@.len(),
                    |k: int| (Edge { from: old(self).nodes().len() as usize, to: variables@[k] }),
                )
            },
    {
        let index = self.nodes.len();
        let mut adjacent: Vec<VariableId> = Vec::new();
        let mut next: usize = 0;
        while next < variables.len()
            invariant
                next <= variables@.len(),
                index == self.nodes@.len(),
                *self == *old(self),
                old(self).wf(),
                adjacent@ == Seq::new(
                    next as nat,
                    |k: int|
                        (VariableId { factorgraph_id: self.id, variable_index: variables@[k] }),
                ),
                forall|k: int|
                    0 <= k < next ==> (#[trigger] variables@[k]) < self.nodes@.len()
                        && self.nodes@[variables@[k] as int].kind is Variable,
            decreases variables@.len() - next,
        {
            let variable = variables[next];
            if !self.is_variable(variable) {
                return None;
            }
            adjacent.push(VariableId { factorgraph_id: self.id, variable_index: variable });
            assert(adjacent@ =~= Seq::new(
                (next + 1) as nat,
                |k: int| (VariableId { factorgraph_id: self.id, variable_index: variables@[k] }),
            ));
            next += 1;
        }
        let factor = FactorNode::new(self.id, kind, adjacent);
        self.nodes.push(Node::new(self.id, NodeKind::Factor(factor)));
        let ghost before = old(self).nodes();
        let ghost new_edges = Seq::new(
            variables@.len(),
            |k: int| (Edge { from: index, to: variables@[k] }),
        );
        let mut next: usize = 0;
        assert(self.edges@ =~= old(self).edges() + new_edges.take(0));
        while next < variables.len()
            invariant
                next <= variables@.len(),
                new_edges == Seq::new(
                    variables@.len(),
                    |k: int| (Edge { from: index, to: variables@[k] }),
                ),
                self.id == old(self).id,
                self.nodes@.len() == index + 1,
                self.nodes@.take(index as int) == before,
                self.nodes@[index as int] == factor_node(self.id, factor),
                self.edges@ == old(self).edges@ + new_edges.take(next as int),
            decreases variables@.len() - next,
        {
            self.edges.push(Edge { from: index, to: variables[next] });
            assert(self.edges@ =~= old(self).edges@ + new_edges.take(next + 1));
            next += 1;
        }
        proof {
            assert(new_edges.take(variables@.len() as int) =~= new_edges);
            let after = self.nodes();
            assert forall|i: int| 0 <= i < after.len() implies (#[trigger] after[i]).wf()
                && after[i].factorgraph_id == self.spec_id() by {
                if i < before.len() {
                    assert(after[i] == after.take(index as int)[i]);
                }
            }
            assert forall|i: int|
                0 <= i < after.len() && (#[trigger] after[i]).kind is Factor implies live_variables(
                self.spec_id(),
                after,
                after[i].kind->Factor_0.spec_adjacent(),
            ) by {
                let listed = after[i].kind->Factor_0.spec_adjacent();
                if i < before.len() {
                    assert(after[i] == after.take(index as int)[i]);
                    assert(live_variables(old(self).spec_id(), before, listed));
                }
                assert forall|k: int| 0 <= k < listed.len() implies
                    (#[trigger] listed[k]).factorgraph_id
                    == self.spec_id() && listed[k].variable_index < after.len()
                    && after[listed[k].variable_index as int].kind is Variable by {
                    assert(after[listed[k].variable_index as int] == after.take(
                        index as int,
                    )[listed[k].variable_index as int]);
                    if i == before.len() {
                        assert(listed[k].variable_index == variables@[k]);
                    }
                }
            }
            assert forall|i: int| 0 <= i < self.edges().len() implies
                (#[trigger] self.edges()[i]).from
                < after.len() && self.edges()[i].to < after.len()
                && after[self.edges()[i].from as int].kind is Factor
                && after[self.edges()[i].to as int].kind is Variable by {
                let edge = self.edges()[i];
                if i < old(self).edges().len() {
                    assert(edge == old(self).edges()[i]);
                    assert(after[edge.from as int] == after.take(index as int)[edge.from as int]);
                    assert(after[edge.to as int] == after.take(index as int)[edge.to as int]);
                } else {
                    assert(edge == new_edges[i - old(self).edges().len()]);
                    assert(after[edge.to as int] == after.take(index as int)[edge.to as int]);
                }
            }
        }
        Some(FactorId { factorgraph_id: self.id, factor_index: index })
    }
}

/// Returned when a message is meant for a node that the graph does not hold.
#[derive(Debug, Clone, Copy, PartialEq, Eq, Structural)]
pub struct GraphInvariant {
    /// The index that is not that of a node.
    pub index: usize,
}

/// What a node is once it has received `message` from node `from_index` of
/// graph `from_graph`: the message is the sender's last one, and nothing
/// else of the node has changed but its count of received messages.
pub open spec fn received<M>(
    before: Node<M>,
    after: Node<M>,
    from_graph: FactorGraphId,
    from_index: usize,
    message: M,
) -> bool {
    &&& after.factorgraph_id == before.factorgraph_id
    &&& after.spec_messages_sent() == before.spec_messages_sent()
    &&& match (before.kind, after.kind) {
        (NodeKind::Variable(was), NodeKind::Variable(is)) => {
            let sender = FactorId { factorgraph_id: from_graph, factor_index: from_index };
            &&& is.has_message_from(sender)
            &&& is.message_from(sender) == message
            &&& is.spec_prior() == was.spec_prior()
            &&& is.graph() == was.graph()
        },
        (NodeKind::Factor(was), NodeKind::Factor(is)) => {
            let sender = VariableId { factorgraph_id: from_graph, variable_index: from_index };
            &&& is.has_message_from(sender)
            &&& is.message_from(sender) == message
            &&& is.spec_kind() == was.spec_kind()
            &&& is.spec_adjacent() == was.spec_adjacent()
            &&& is.spec_enabled() == was.spec_enabled()
            &&& is.graph() == was.graph()
        },
        _ => false,
    }
}

impl<M> FactorGraph<M> {
    /// Hands `message` of node `from_index` of graph `from_graph` to node
    /// `to` of this graph, which keeps it as the last message of that
    /// sender. All other nodes and the edges stay as they are. Fails
    /// without a change if the graph has no node `to`.
    pub fn deliver(
        &mut self,
        to: usize,
        from_graph: FactorGraphId,
        from_index: usize,
        message: M,
    ) -> (delivered: Result<(), GraphInvariant>)
        requires
            old(self).wf(),
        ensures
            final(self).wf(),
            final(self).spec_id() == old(self).spec_id(),
            final(self).edges() == old(self).edges(),
            final(self).nodes().len() == old(self).nodes().len(),
            to >= old(self).nodes().len() ==> delivered == Err::<(), GraphInvariant>(
                GraphInvariant { index: to },
            ) && final(self).nodes() == old(self).nodes(),
            to < old(self).nodes().len() ==> delivered.is_ok() && received(
                old(self).nodes()[to as int],
                final(self).nodes()[to as int],
                from_graph,
                from_index,
                message,
            ),
            forall|i: int|
                0 <= i < old(self).nodes().len() && i != to ==> #[trigger] final(self).nodes()[i]
                    == old(self).nodes()[i],
    {
        if to >= self.nodes.len() {
            return Err(GraphInvariant { index: to });
        }
        let ghost before = self.nodes@;
        let node = &mut self.nodes[to];
        match &mut node.kind {
            NodeKind::Variable(variable) => {
                variable.receive(
                    FactorId { factorgraph_id: from_graph, factor_index: from_index },
                    message,
                );
            },
            NodeKind::Factor(factor) => {
                factor.receive(
                    VariableId { factorgraph_id: from_graph, variable_index: from_index },
                    message,
                );
            },
        }
        proof {
            let after = self.nodes@;
            assert forall|i: int|
                0 <= i < after.len() && (#[trigger] after[i]).kind is Factor implies live_variables(
                self.spec_id(),
                after,
                after[i].kind->Factor_0.spec_adjacent(),
            ) by {
                let listed = after[i].kind->Factor_0.spec_adjacent();
                assert(before[i].kind is Factor);
                assert(listed == before[i].kind->Factor_0.spec_adjacent());
                assert(live_variables(old(self).spec_id(), before, listed));
                assert forall|k: int| 0 <= k < listed.len() implies
                    (#[trigger] listed[k]).factorgraph_id
                    == self.spec_id() && listed[k].variable_index < after.len()
                    && after[listed[k].variable_index as int].kind is Variable by {
                    assert(before[listed[k].variable_index as int].kind is Variable);
                }
            }
            assert forall|i: int| 0 <= i < self.edges().len() implies
                (#[trigger] self.edges()[i]).from
                < after.len() && self.edges()[i].to < after.len()
                && after[self.edges()[i].from as int].kind is Factor
                && after[self.edges()[i].to as int].kind is Variable by {
                let edge = old(self).edges()[i];
                assert(before[edge.from as int].kind is Factor);
                assert(before[edge.to as int].kind is Variable);
            }
        }
        Ok(())
    }
}

impl<M> FactorGraph<M> {
    /// The graph as it is exported: its handle, its nodes as GraphViz draws
    /// them, its edges, and whether the robot's antenna is switched on.
    pub fn robot_graph(&self, antenna_active: bool) -> (robot: RobotGraph)
        ensures
            robot.robot_id == self.spec_id(),
            robot.antenna_active == antenna_active,
            robot.nodes@.len() == self.nodes().len(),
            forall|i: int|
                0 <= i < robot.nodes@.len() ==> (#[trigger] robot.nodes@[i]).index == i
                    && robot.nodes@[i].kind == look_of(self.nodes()[i]),
            robot.edges@ == self.edges(),
    {
        let (nodes, edges) = self.export_graph();
        RobotGraph { robot_id: self.id, nodes, edges, antenna_active }
    }
}

/// The node of graph `graph` that holds `factor`.
pub open spec fn factor_node<M>(graph: FactorGraphId, factor: FactorNode<M>) -> Node<M> {
    Node { factorgraph_id: graph, kind: NodeKind::Factor(factor) }
}

impl<M> ExportGraph for FactorGraph<M> {
    /// The nodes of the graph as GraphViz draws them, each with its index,
    /// and the edges of the graph.
    fn export_graph(&self) -> (exported: (Vec<GraphvizNode>, Vec<Edge>))
        ensures
            exported.0@.len() == self.nodes().len(),
            forall|i: int|
                0 <= i < exported.0@.len() ==> (#[trigger] exported.0@[i]).index == i
                    && exported.0@[i].kind == look_of(self.nodes()[i]),
            exported.1@ == self.edges(),
    {
        let mut nodes: Vec<GraphvizNode> = Vec::new();
        let mut next: usize = 0;
        while next < self.nodes.len()
            invariant
                next <= self.nodes@.len(),
                nodes@.len() == next,
                forall|i: int|
                    0 <= i < next ==> (#[trigger] nodes@[i]).index == i && nodes@[i].kind
                        == look_of(self.nodes@[i]),
            decreases self.nodes@.len() - next,
        {
            let kind = match &self.nodes[next].kind {
                NodeKind::Variable(_) => Look::Variable,
                NodeKind::Factor(factor) => match factor.kind() {
                    FactorKind::Dynamics => Look::DynamicFactor,
                    FactorKind::Obstacle => Look::ObstacleFactor,
                    FactorKind::Tracking => Look::TrackingFactor,
                    FactorKind::InterRobot { active, external_variable_id } => {
                        Look::InterRobotFactor { active, external_variable_id }
                    },
                },
            };
            nodes.push(GraphvizNode { index: next, kind });
            next += 1;
        }
        let mut edges: Vec<Edge> = Vec::new();
        let mut next: usize = 0;
        while next < self.edges.len()
            invariant
                next <= self.edges@.len(),
                edges@ == self.edges@.take(next as int),
            decreases self.edges@.len() - next,
        {
            edges.push(Edge { from: self.edges[next].from, to: self.edges[next].to });
            assert(edges@ =~= self.edges@.take(next + 1));
            next += 1;
        }
        assert(self.edges@.take(next as int) =~= self.edges@);
        (nodes, edges)
    }
}

} // verus!
