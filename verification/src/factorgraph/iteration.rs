//! The order of the messages of one iteration.
//!
//! An iteration is one sweep over a graph: every variable sends a message to
//! each of its factors, then every factor sends a message to each of its
//! variables. An internal iteration takes in the factors inside the robot's
//! own graph, an external iteration the factors between robots. What the
//! messages hold is left to the caller; here it is decided which messages
//! are sent, and in which order.
use vstd::prelude::*;

use crate::factorgraph::factor::FactorKind;
use crate::factorgraph::graph::{live_variables, FactorGraph};
use crate::factorgraph::graphviz::Edge;
use crate::factorgraph::node::{Node, NodeKind};
use crate::factorgraph::{ExternalVariableId, VariableId};
use crate::schedule::Iteration;

verus! {

/// One message inside a graph: from the node with index `from` to the node
/// with index `to`.
#[derive(Debug, Clone, Copy, PartialEq, Eq, Structural)]
pub struct Delivery {
    pub from: usize,
    pub to: usize,
}

/// One message to another robot: from the inter-robot factor with index
/// `from` to the variable `to` of the other robot's graph.
#[derive(Debug, Clone, Copy, PartialEq, Eq, Structural)]
pub struct Outbound {
    pub from: usize,
    pub to: ExternalVariableId,
}

/// Whether `node` is a factor that an iteration of kind `iteration` takes
/// in: a factor between robots for an external iteration, any other factor
/// for an internal one.
pub open spec fn takes_part<M>(node: Node<M>, iteration: Iteration) -> bool {
    match node.kind {
        NodeKind::Factor(factor) => factor.spec_kind().spec_is_external() == (iteration
            == Iteration::External),
        NodeKind::Variable(_) => false,
    }
}

/// The messages of the variable with index `variable` to its factors that
/// take part: one along each of its edges, in the order in which the edges
/// were made.
pub open spec fn from_variable<M>(
    nodes: Seq<Node<M>>,
    edges: Seq<Edge>,
    variable: usize,
    iteration: Iteration,
) -> Seq<Delivery>
    decreases edges.len(),
{
    if edges.len() == 0 {
        Seq::empty()
    } else {
        let before = from_variable(nodes, edges.drop_last(), variable, iteration);
        let edge = edges.last();
        if edge.to == variable && edge.from < nodes.len() && takes_part(
            nodes[edge.from as int],
            iteration,
        ) {
            before.push(Delivery { from: variable, to: edge.from })
        } else {
            before
        }
    }
}

/// The messages of the variables among the first `count` nodes to their
/// factors, variable by variable in the order of their indices.
pub open spec fn to_factors<M>(
    nodes: Seq<Node<M>>,
    edges: Seq<Edge>,
    count: nat,
    iteration: Iteration,
) -> Seq<Delivery>
    decreases count,
{
    if count == 0 {
        Seq::empty()
    } else {
        let index = (count - 1) as usize;
        to_factors(nodes, edges, (count - 1) as nat, iteration) + if nodes[index as int].kind
            is Variable {
            from_variable(nodes, edges, index, iteration)
        } else {
            Seq::empty()
        }
    }
}

/// The messages of the factor with index `factor` to the variables
/// `adjacent` that it is connected to, in their order.
pub open spec fn from_factor(factor: usize, adjacent: Seq<VariableId>) -> Seq<Delivery> {
    Seq::new(adjacent.len(), |k: int| (Delivery { from: factor, to: adjacent[k].variable_index }))
}

/// The messages of the factors among the first `count` nodes that take part
/// to their variables, factor by factor in the order in which the factors
/// were added.
pub open spec fn to_variables<M>(nodes: Seq<Node<M>>, count: nat, iteration: Iteration) -> Seq<
    Delivery,
>
    decreases count,
{
    if count == 0 {
        Seq::empty()
    } else {
        let index = (count - 1) as usize;
        to_variables(nodes, (count - 1) as nat, iteration) + if takes_part(
            nodes[index as int],
            iteration,
        ) {
            from_factor(index, nodes[index as int].kind->Factor_0.spec_adjacent())
        } else {
            Seq::empty()
        }
    }
}

/// The messages of the inter-robot factors among the first `count` nodes to
/// the variables of other robots, in the order in which the factors were
/// added.
pub open spec fn to_peers<M>(nodes: Seq<Node<M>>, count: nat) -> Seq<Outbound>
    decreases count,
{
    if count == 0 {
        Seq::empty()
    } else {
        let index = (count - 1) as usize;
        let before = to_peers(nodes, (count - 1) as nat);
        match nodes[index as int].kind {
            NodeKind::Factor(factor) => match factor.spec_kind() {
                FactorKind::InterRobot { external_variable_id, .. } => before.push(
                    Outbound { from: index, to: external_variable_id },
                ),
                _ => before,
            },
            NodeKind::Variable(_) => before,
        }
    }
}

/// Whether every message of `deliveries` leads from a variable among `nodes`
/// to a factor among them.
pub open spec fn variable_to_factor<M>(nodes: Seq<Node<M>>, deliveries: Seq<Delivery>) -> bool {
    forall|i: int|
        0 <= i < deliveries.len() ==> (#[trigger] deliveries[i]).from < nodes.len()
            && deliveries[i].to < nodes.len() && nodes[deliveries[i].from as int].kind is Variable
            && nodes[deliveries[i].to as int].kind is Factor
}

/// Whether every message of `deliveries` leads from a factor among `nodes`
/// to a variable among them.
pub open spec fn factor_to_variable<M>(nodes: Seq<Node<M>>, deliveries: Seq<Delivery>) -> bool {
    forall|i: int|
        0 <= i < deliveries.len() ==> (#[trigger] deliveries[i]).from < nodes.len()
            && deliveries[i].to < nodes.len() && nodes[deliveries[i].from as int].kind is Factor
            && nodes[deliveries[i].to as int].kind is Variable
}

/// The messages of one variable lead from that variable to factors.
pub proof fn lemma_from_variable_inside<M>(
    nodes: Seq<Node<M>>,
    edges: Seq<Edge>,
    variable: usize,
    iteration: Iteration,
)
    requires
        variable < nodes.len(),
        nodes[variable as int].kind is Variable,
    ensures
        variable_to_factor(nodes, from_variable(nodes, edges, variable, iteration)),
    decreases edges.len(),
{
    if edges.len() > 0 {
        lemma_from_variable_inside(nodes, edges.drop_last(), variable, iteration);
    }
}

/// In a graph that is in order every message of an iteration stays inside
/// the graph: the messages of the variables lead to factors of the graph,
/// those of the factors to variables of the graph. So each of them can be
/// delivered.
pub proof fn lemma_messages_inside<M>(graph: &FactorGraph<M>, count: nat, iteration: Iteration)
    requires
        graph.wf(),
        count <= graph.nodes().len(),
    ensures
        variable_to_factor(
            graph.nodes(),
            to_factors(graph.nodes(), graph.edges(), count, iteration),
        ),
        factor_to_variable(graph.nodes(), to_variables(graph.nodes(), count, iteration)),
    decreases count,
{
    if count > 0 {
        let nodes = graph.nodes();
        let index = (count - 1) as usize;
        lemma_messages_inside(graph, (count - 1) as nat, iteration);
        let earlier = to_factors(nodes, graph.edges(), (count - 1) as nat, iteration);
        let all = to_factors(nodes, graph.edges(), count, iteration);
        if nodes[index as int].kind is Variable {
            lemma_from_variable_inside(nodes, graph.edges(), index, iteration);
        }
        assert forall|i: int| 0 <= i < all.len() implies (#[trigger] all[i]).from < nodes.len()
            && all[i].to < nodes.len() && nodes[all[i].from as int].kind is Variable
            && nodes[all[i].to as int].kind is Factor by {
            if i < earlier.len() {
                assert(all[i] == earlier[i]);
            } else {
                let own = from_variable(nodes, graph.edges(), index, iteration);
                assert(all[i] == own[i - earlier.len()]);
            }
        }
        let earlier = to_variables(nodes, (count - 1) as nat, iteration);
        let all = to_variables(nodes, count, iteration);
        assert forall|i: int| 0 <= i < all.len() implies (#[trigger] all[i]).from < nodes.len()
            && all[i].to < nodes.len() && nodes[all[i].from as int].kind is Factor
            && nodes[all[i].to as int].kind is Variable by {
            if i < earlier.len() {
                assert(all[i] == earlier[i]);
            } else {
                let adjacent = nodes[index as int].kind->Factor_0.spec_adjacent();
                assert(live_variables(graph.spec_id(), nodes, adjacent));
                let own = from_factor(index, adjacent);
                assert(all[i] == own[i - earlier.len()]);
                assert(own[i - earlier.len()].to == adjacent[i - earlier.len()].variable_index);
            }
        }
    }
}

/// Whether the factor `node` takes part in an iteration of kind `iteration`.
fn factor_takes_part<M>(node: &Node<M>, iteration: Iteration) -> (takes: bool)
    ensures
        takes == takes_part(*node, iteration),
{
    match &node.kind {
        NodeKind::Factor(factor) => {
            let external = factor.kind().is_external();
            match iteration {
                Iteration::External => external,
                Iteration::Internal => !external,
            }
        },
        NodeKind::Variable(_) => false,
    }
}

/// The messages that the variables of `graph` send to their factors in one
/// iteration, in order: variable by variable in the order of their indices,
/// and for each variable along its edges in the order in which these were
/// made.
pub fn messages_to_factors<M>(graph: &FactorGraph<M>, iteration: Iteration) -> (deliveries: Vec<
    Delivery,
>)
    ensures
        deliveries@ == to_factors(graph.nodes(), graph.edges(), graph.nodes().len(), iteration),
{
    let mut deliveries: Vec<Delivery> = Vec::new();
    let count = graph.len();
    let mut index: usize = 0;
    while index < count
        invariant
            index <= count,
            count == graph.nodes().len(),
            deliveries@ == to_factors(graph.nodes(), graph.edges(), index as nat, iteration),
        decreases count - index,
    {
        if graph.is_variable(index) {
            let ghost before = deliveries@;
            let edges = graph.edge_count();
            let mut next: usize = 0;
            assert(graph.edges().take(0) =~= Seq::<Edge>::empty());
            assert(deliveries@ =~= before + from_variable(
                graph.nodes(),
                graph.edges().take(0),
                index,
                iteration,
            ));
            while next < edges
                invariant
                    next <= edges,
                    index < count,
                    count == graph.nodes().len(),
                    edges == graph.edges().len(),
                    deliveries@ == before + from_variable(
                        graph.nodes(),
                        graph.edges().take(next as int),
                        index,
                        iteration,
                    ),
                decreases edges - next,
            {
                let edge = graph.edge(next);
                proof {
                    assert(graph.edges().take(next + 1).drop_last() =~= graph.edges().take(
                        next as int,
                    ));
                }
                if edge.to == index {
                    match graph.node(edge.from) {
                        Some(node) => {
                            if factor_takes_part(node, iteration) {
                                deliveries.push(Delivery { from: index, to: edge.from });
                            }
                        },
                        None => {},
                    }
                }
                proof {
                    assert(deliveries@ =~= before + from_variable(
                        graph.nodes(),
                        graph.edges().take(next + 1),
                        index,
                        iteration,
                    ));
                }
                next += 1;
            }
            assert(graph.edges().take(next as int) =~= graph.edges());
        } else {
            assert(deliveries@ + Seq::<Delivery>::empty() =~= deliveries@);
        }
        index += 1;
    }
    deliveries
}

/// The messages that the factors of `graph` send to their variables in one
/// iteration, in order: factor by factor in the order in which the factors
/// were added, and for each factor to its variables in their order.
pub fn messages_to_variables<M>(graph: &FactorGraph<M>, iteration: Iteration) -> (deliveries: Vec<
    Delivery,
>)
    ensures
        deliveries@ == to_variables(graph.nodes(), graph.nodes().len(), iteration),
{
    let mut deliveries: Vec<Delivery> = Vec::new();
    let count = graph.len();
    let mut index: usize = 0;
    while index < count
        invariant
            index <= count,
            count == graph.nodes().len(),
            deliveries@ == to_variables(graph.nodes(), index as nat, iteration),
        decreases count - index,
    {
        let ghost before = deliveries@;
        match graph.node(index) {
            Some(node) => {
                if factor_takes_part(node, iteration) {
                    let adjacent = node.factor().adjacent();
                    let mut next: usize = 0;
                    assert(deliveries@ =~= before + from_factor(index, adjacent@).take(0));
                    while next < adjacent.len()
                        invariant
                            next <= adjacent@.len(),
                            deliveries@ == before + from_factor(index, adjacent@).take(
                                next as int,
                            ),
                        decreases adjacent@.len() - next,
                    {
                        deliveries.push(
                            Delivery { from: index, to: adjacent[next].variable_index },
                        );
                        assert(deliveries@ =~= before + from_factor(index, adjacent@).take(
                            next + 1,
                        ));
                        next += 1;
                    }
                    assert(from_factor(index, adjacent@).take(next as int) =~= from_factor(
                        index,
                        adjacent@,
                    ));
                } else {
                    assert(deliveries@ + Seq::<Delivery>::empty() =~= deliveries@);
                }
            },
            None => {},
        }
        index += 1;
    }
    deliveries
}

/// The messages that the inter-robot factors of `graph` send to the
/// variables of other robots in an external iteration, in the order in
/// which the factors were added.
pub fn messages_to_peers<M>(graph: &FactorGraph<M>) -> (outbound: Vec<Outbound>)
    ensures
        outbound@ == to_peers(graph.nodes(), graph.nodes().len()),
{
    let mut outbound: Vec<Outbound> = Vec::new();
    let count = graph.len();
    let mut index: usize = 0;
    while index < count
        invariant
            index <= count,
            count == graph.nodes().len(),
            outbound@ == to_peers(graph.nodes(), index as nat),
        decreases count - index,
    {
        match graph.node(index) {
            Some(node) => match &node.kind {
                NodeKind::Factor(factor) => match factor.kind() {
                    FactorKind::InterRobot { external_variable_id, .. } => {
                        outbound.push(Outbound { from: index, to: external_variable_id });
                    },
                    _ => {},
                },
                NodeKind::Variable(_) => {},
            },
            None => {},
        }
        index += 1;
    }
    outbound
}

} // verus!
