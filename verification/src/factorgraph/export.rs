//! The GraphViz description of the factor graphs of all robots.
//!
//! The description is a sequence of lines. It opens an undirected graph, then
//! holds for each robot a subgraph with one line per node, followed by one
//! line per edge of that robot's graph, then one line for each connection of
//! an inter-robot factor to the variable of another robot, and the closing
//! brace.
use vstd::prelude::*;
use vstd::string::StringExecFns;

use crate::factorgraph::graphviz::{Edge, Node, NodeKind};
use crate::factorgraph::{ExternalVariableId, FactorGraphId};
use crate::text::{decimal, push_decimal};

verus! {

/// One robot's factor graph, as it is exported.
pub struct RobotGraph {
    /// The handle of the robot's graph.
    pub robot_id: FactorGraphId,
    /// The nodes of the graph.
    pub nodes: Vec<Node>,
    /// The edges between nodes of the graph.
    pub edges: Vec<Edge>,
    /// Whether the robot's antenna is switched on.
    pub antenna_active: bool,
}

/// How the connection of an inter-robot factor to another robot's variable
/// is drawn.
pub struct EdgeStyle {
    /// The preferred length of the edge, as GraphViz reads it.
    pub len: String,
    /// The line style of the edge.
    pub style: String,
    /// The colour of the edge.
    pub color: String,
}

/// The styles of connections between robots.
pub struct InterRobotEdgeStyles {
    /// For a robot whose antenna is switched on.
    pub active: EdgeStyle,
    /// For a robot whose antenna is switched off.
    pub inactive: EdgeStyle,
}

impl InterRobotEdgeStyles {
    /// The style for a robot whose antenna is on (`active`) or off.
    pub open spec fn for_antenna(self, active: bool) -> EdgeStyle {
        if active {
            self.active
        } else {
            self.inactive
        }
    }
}

/// The lines, each followed by a line feed.
pub open spec fn joined(lines: Seq<Seq<char>>) -> Seq<char>
    decreases lines.len(),
{
    if lines.len() == 0 {
        Seq::empty()
    } else {
        joined(lines.drop_last()) + lines.last() + "\n"@
    }
}

/// The quoted name of node `index` of graph `graph`.
pub open spec fn node_name(graph: FactorGraphId, index: usize) -> Seq<char> {
    "\""@ + graph.label() + "_"@ + decimal(index as nat) + "\""@
}

/// The line that declares `node` of graph `graph`.
pub open spec fn node_line(graph: FactorGraphId, node: Node) -> Seq<char> {
    node_name(graph, node.index) + " [label=\""@ + node.kind.spec_label(node.index)
        + "\", fillcolor=\""@ + node.kind.spec_color() + "\", shape="@ + node.kind.spec_shape()
        + ", width=\""@ + node.kind.spec_width() + "\"]"@
}

/// The line for `edge` of graph `graph`.
pub open spec fn edge_line(graph: FactorGraphId, edge: Edge) -> Seq<char> {
    node_name(graph, edge.from) + " -- "@ + node_name(graph, edge.to)
}

/// The line for the connection of the inter-robot factor `factor` of graph
/// `graph` to the variable `variable` of another robot, drawn in `style`.
pub open spec fn external_edge_line(
    graph: FactorGraphId,
    factor: usize,
    variable: ExternalVariableId,
    style: EdgeStyle,
) -> Seq<char> {
    " "@ + node_name(graph, factor) + " -- "@ + node_name(
        variable.factorgraph_id,
        variable.variable_index,
    ) + " [len="@ + style.len@ + ", style="@ + style.style@ + ", color=\""@ + style.color@
        + "\", penwidth=3.0]"@
}

/// The lines that open the description.
pub open spec fn header_lines() -> Seq<Seq<char>> {
    seq![
        "graph {"@,
        "  dpi=96;"@,
        "  label=\"factorgraph\""@,
        "  node [style=filled];"@,
        "  layout=neato;"@,
    ]
}

/// One line for each of `nodes`, in order.
pub open spec fn node_lines(graph: FactorGraphId, nodes: Seq<Node>) -> Seq<Seq<char>> {
    Seq::new(nodes.len(), |i: int| node_line(graph, nodes[i]))
}

/// One line for each of `edges`, in order.
pub open spec fn edge_lines(graph: FactorGraphId, edges: Seq<Edge>) -> Seq<Seq<char>> {
    Seq::new(edges.len(), |i: int| edge_line(graph, edges[i]))
}

/// The lines that open the subgraph of graph `graph`.
pub open spec fn subgraph_header_lines(graph: FactorGraphId) -> Seq<Seq<char>> {
    seq![
        "  subgraph \""@ + graph.label() + "\" {"@,
        "  margin=16"@,
        "  label=\""@ + graph.label() + "\""@,
    ]
}

/// The lines of one robot: its subgraph with the nodes, an empty line, and
/// the edges.
pub open spec fn robot_lines(robot: RobotGraph) -> Seq<Seq<char>> {
    subgraph_header_lines(robot.robot_id) + node_lines(robot.robot_id, robot.nodes@) + seq![
        "}"@,
        ""@,
    ] + edge_lines(robot.robot_id, robot.edges@)
}

/// The lines of the robots, in order.
pub open spec fn all_robot_lines(robots: Seq<RobotGraph>) -> Seq<Seq<char>>
    decreases robots.len(),
{
    if robots.len() == 0 {
        Seq::empty()
    } else {
        all_robot_lines(robots.drop_last()) + robot_lines(robots.last())
    }
}

/// One line for each inter-robot factor among `nodes`, in order.
pub open spec fn external_lines(
    graph: FactorGraphId,
    nodes: Seq<Node>,
    style: EdgeStyle,
) -> Seq<Seq<char>>
    decreases nodes.len(),
{
    if nodes.len() == 0 {
        Seq::empty()
    } else {
        let before = external_lines(graph, nodes.drop_last(), style);
        match nodes.last().kind {
            NodeKind::InterRobotFactor { external_variable_id, .. } => before.push(
                external_edge_line(graph, nodes.last().index, external_variable_id, style),
            ),
            _ => before,
        }
    }
}

/// The lines for the connections between robots: robot by robot, and for
/// each robot in the order of its nodes.
pub open spec fn all_external_lines(
    robots: Seq<RobotGraph>,
    styles: InterRobotEdgeStyles,
) -> Seq<Seq<char>>
    decreases robots.len(),
{
    if robots.len() == 0 {
        Seq::empty()
    } else {
        all_external_lines(robots.drop_last(), styles) + external_lines(
            robots.last().robot_id,
            robots.last().nodes@,
            styles.for_antenna(robots.last().antenna_active),
        )
    }
}

/// All lines of the description of `robots`.
pub open spec fn graphviz_lines(robots: Seq<RobotGraph>, styles: InterRobotEdgeStyles) -> Seq<
    Seq<char>,
> {
    header_lines() + all_robot_lines(robots) + all_external_lines(robots, styles) + seq!["}"@]
}

/// The description of `robots` as one text.
pub open spec fn graphviz_text(robots: Seq<RobotGraph>, styles: InterRobotEdgeStyles) -> Seq<
    char,
> {
    joined(graphviz_lines(robots, styles))
}

/// Joining lines one after another is joining them all.
pub proof fn lemma_joined_concat(first: Seq<Seq<char>>, second: Seq<Seq<char>>)
    ensures
        joined(first + second) == joined(first) + joined(second),
    decreases second.len(),
{
    if second.len() == 0 {
        assert(first + second =~= first);
        assert(joined(first) + joined(second) =~= joined(first));
    } else {
        lemma_joined_concat(first, second.drop_last());
        assert((first + second).drop_last() =~= first + second.drop_last());
        assert((first + second).last() == second.last());
        assert(joined(first + second) =~= joined(first) + joined(second));
    }
}

/// A single line joined is the line and a line feed.
pub proof fn lemma_joined_one(line: Seq<char>)
    ensures
        joined(seq![line]) == line + "\n"@,
{
    reveal_with_fuel(joined, 2);
    assert(joined(seq![line]) =~= line + "\n"@);
}

/// A line put behind joined lines follows them, with its line feed.
pub proof fn lemma_joined_push(lines: Seq<Seq<char>>, line: Seq<char>)
    ensures
        joined(lines.push(line)) == joined(lines) + line + "\n"@,
{
    assert(lines.push(line).drop_last() =~= lines);
}

/// Appends `line` and a line feed to `buffer`.
fn push_line(buffer: &mut String, line: &str)
    ensures
        final(buffer)@ == old(buffer)@ + line@ + "\n"@,
{
    buffer.append(line);
    buffer.append("\n");
}

/// Appends the name of graph `graph` to `buffer`.
fn push_label(buffer: &mut String, graph: FactorGraphId)
    ensures
        final(buffer)@ == old(buffer)@ + graph.label(),
{
    push_decimal(buffer, graph.index as u64);
    buffer.append("v");
    push_decimal(buffer, graph.generation as u64);
    assert(buffer@ =~= old(buffer)@ + graph.label());
}

/// Appends the quoted name of node `index` of graph `graph` to `buffer`.
fn push_node_name(buffer: &mut String, graph: FactorGraphId, index: usize)
    ensures
        final(buffer)@ == old(buffer)@ + node_name(graph, index),
{
    buffer.append("\"");
    push_label(buffer, graph);
    buffer.append("_");
    push_decimal(buffer, index as u64);
    buffer.append("\"");
    assert(buffer@ =~= old(buffer)@ + node_name(graph, index));
}

/// Appends the short name of `node` to `buffer`.
fn push_node_label(buffer: &mut String, node: &Node)
    ensures
        final(buffer)@ == old(buffer)@ + node.kind.spec_label(node.index),
{
    match node.kind {
        NodeKind::Variable => {
            buffer.append("v");
            push_decimal(buffer, node.index as u64);
            assert(buffer@ =~= old(buffer)@ + node.kind.spec_label(node.index));
        },
        NodeKind::InterRobotFactor { .. } => buffer.append("fr"),
        NodeKind::DynamicFactor => buffer.append("fd"),
        NodeKind::ObstacleFactor => buffer.append("fo"),
        NodeKind::TrackingFactor => buffer.append("ft"),
    }
}

/// Appends the line that declares `node` of graph `graph` to `buffer`.
fn push_node_line(buffer: &mut String, graph: FactorGraphId, node: &Node)
    ensures
        final(buffer)@ == old(buffer)@ + node_line(graph, *node) + "\n"@,
{
    push_node_name(buffer, graph, node.index);
    buffer.append(" [label=\"");
    push_node_label(buffer, node);
    buffer.append("\", fillcolor=\"");
    buffer.append(node.color());
    buffer.append("\", shape=");
    buffer.append(node.shape());
    buffer.append(", width=\"");
    buffer.append(node.width());
    buffer.append("\"]");
    buffer.append("\n");
    assert(buffer@ =~= old(buffer)@ + node_line(graph, *node) + "\n"@);
}

/// Appends the line for `edge` of graph `graph` to `buffer`.
fn push_edge_line(buffer: &mut String, graph: FactorGraphId, edge: &Edge)
    ensures
        final(buffer)@ == old(buffer)@ + edge_line(graph, *edge) + "\n"@,
{
    push_node_name(buffer, graph, edge.from);
    buffer.append(" -- ");
    push_node_name(buffer, graph, edge.to);
    buffer.append("\n");
    assert(buffer@ =~= old(buffer)@ + edge_line(graph, *edge) + "\n"@);
}

/// Appends the line for the connection of the inter-robot factor `factor` of
/// graph `graph` to `variable` to `buffer`.
fn push_external_edge_line(
    buffer: &mut String,
    graph: FactorGraphId,
    factor: usize,
    variable: ExternalVariableId,
    style: &EdgeStyle,
)
    ensures
        final(buffer)@ == old(buffer)@ + external_edge_line(graph, factor, variable, *style)
            + "\n"@,
{
    buffer.append(" ");
    push_node_name(buffer, graph, factor);
    buffer.append(" -- ");
    push_node_name(buffer, variable.factorgraph_id, variable.variable_index);
    buffer.append(" [len=");
    buffer.append(style.len.as_str());
    buffer.append(", style=");
    buffer.append(style.style.as_str());
    buffer.append(", color=\"");
    buffer.append(style.color.as_str());
    buffer.append("\", penwidth=3.0]");
    buffer.append("\n");
    assert(buffer@ =~= old(buffer)@ + external_edge_line(graph, factor, variable, *style)
        + "\n"@);
}

/// Appends the lines of one robot to `buffer`.
fn push_robot(buffer: &mut String, robot: &RobotGraph)
    ensures
        final(buffer)@ == old(buffer)@ + joined(robot_lines(*robot)),
{
    let graph = robot.robot_id;
    let ghost mut lines: Seq<Seq<char>> = Seq::empty();
    assert(buffer@ =~= old(buffer)@ + joined(lines));

    buffer.append("  subgraph \"");
    push_label(buffer, graph);
    buffer.append("\" {");
    buffer.append("\n");
    proof {
        lemma_joined_push(lines, "  subgraph \""@ + graph.label() + "\" {"@);
        lines = lines.push("  subgraph \""@ + graph.label() + "\" {"@);
        assert(buffer@ =~= old(buffer)@ + joined(lines));
    }
    push_line(buffer, "  margin=16");
    proof {
        lemma_joined_push(lines, "  margin=16"@);
        lines = lines.push("  margin=16"@);
        assert(buffer@ =~= old(buffer)@ + joined(lines));
    }
    buffer.append("  label=\"");
    push_label(buffer, graph);
    buffer.append("\"");
    buffer.append("\n");
    proof {
        lemma_joined_push(lines, "  label=\""@ + graph.label() + "\""@);
        lines = lines.push("  label=\""@ + graph.label() + "\""@);
        assert(buffer@ =~= old(buffer)@ + joined(lines));
        assert(lines =~= subgraph_header_lines(graph));
    }

    let mut next: usize = 0;
    assert(lines =~= subgraph_header_lines(graph) + node_lines(graph, robot.nodes@.take(0)));
    while next < robot.nodes.len()
        invariant
            next <= robot.nodes.len(),
            graph == robot.robot_id,
            lines == subgraph_header_lines(graph) + node_lines(
                graph,
                robot.nodes@.take(next as int),
            ),
            buffer@ == old(buffer)@ + joined(lines),
        decreases robot.nodes.len() - next,
    {
        push_node_line(buffer, graph, &robot.nodes[next]);
        proof {
            let line = node_line(graph, robot.nodes@[next as int]);
            lemma_joined_push(lines, line);
            assert(lines.push(line) =~= subgraph_header_lines(graph) + node_lines(
                graph,
                robot.nodes@.take(next + 1),
            ));
            lines = lines.push(line);
            assert(buffer@ =~= old(buffer)@ + joined(lines));
        }
        next += 1;
    }
    assert(robot.nodes@.take(next as int) =~= robot.nodes@);

    push_line(buffer, "}");
    proof {
        lemma_joined_push(lines, "}"@);
        lines = lines.push("}"@);
        assert(buffer@ =~= old(buffer)@ + joined(lines));
    }
    push_line(buffer, "");
    proof {
        lemma_joined_push(lines, ""@);
        lines = lines.push(""@);
        assert(buffer@ =~= old(buffer)@ + joined(lines));
    }

    let ghost before_edges = subgraph_header_lines(graph) + node_lines(graph, robot.nodes@)
        + seq!["}"@, ""@];
    assert(lines =~= before_edges + edge_lines(graph, robot.edges@.take(0)));
    let mut next: usize = 0;
    while next < robot.edges.len()
        invariant
            next <= robot.edges.len(),
            graph == robot.robot_id,
            before_edges == subgraph_header_lines(graph) + node_lines(graph, robot.nodes@)
                + seq!["}"@, ""@],
            lines == before_edges + edge_lines(graph, robot.edges@.take(next as int)),
            buffer@ == old(buffer)@ + joined(lines),
        decreases robot.edges.len() - next,
    {
        push_edge_line(buffer, graph, &robot.edges[next]);
        proof {
            let line = edge_line(graph, robot.edges@[next as int]);
            lemma_joined_push(lines, line);
            assert(lines.push(line) =~= before_edges + edge_lines(
                graph,
                robot.edges@.take(next + 1),
            ));
            lines = lines.push(line);
            assert(buffer@ =~= old(buffer)@ + joined(lines));
        }
        next += 1;
    }
    assert(robot.edges@.take(next as int) =~= robot.edges@);
}

/// Appends the lines for the connections of one robot's inter-robot factors
/// to `buffer`.
fn push_external_edges(buffer: &mut String, robot: &RobotGraph, styles: &InterRobotEdgeStyles)
    ensures
        final(buffer)@ == old(buffer)@ + joined(
            external_lines(
                robot.robot_id,
                robot.nodes@,
                styles.for_antenna(robot.antenna_active),
            ),
        ),
{
    let graph = robot.robot_id;
    let style = if robot.antenna_active {
        &styles.active
    } else {
        &styles.inactive
    };
    let mut next: usize = 0;
    assert(buffer@ =~= old(buffer)@ + joined(
        external_lines(graph, robot.nodes@.take(0), *style),
    ));
    while next < robot.nodes.len()
        invariant
            next <= robot.nodes.len(),
            graph == robot.robot_id,
            *style == styles.for_antenna(robot.antenna_active),
            buffer@ == old(buffer)@ + joined(
                external_lines(graph, robot.nodes@.take(next as int), *style),
            ),
        decreases robot.nodes.len() - next,
    {
        let node = &robot.nodes[next];
        let ghost before = external_lines(graph, robot.nodes@.take(next as int), *style);
        proof {
            assert(robot.nodes@.take(next + 1).drop_last() =~= robot.nodes@.take(next as int));
        }
        match node.kind {
            NodeKind::InterRobotFactor { external_variable_id, .. } => {
                push_external_edge_line(buffer, graph, node.index, external_variable_id, style);
                proof {
                    let line = external_edge_line(
                        graph,
                        node.index,
                        external_variable_id,
                        *style,
                    );
                    lemma_joined_push(before, line);
                    assert(buffer@ =~= old(buffer)@ + joined(before.push(line)));
                }
            },
            _ => {},
        }
        next += 1;
    }
    assert(robot.nodes@.take(next as int) =~= robot.nodes@);
}

/// Describes the factor graphs of `robots` for GraphViz, or returns `None`
/// where there is no robot.
pub fn export_factorgraphs_as_graphviz(
    robots: &Vec<RobotGraph>,
    styles: &InterRobotEdgeStyles,
) -> (output: Option<String>)
    ensures
        robots@.len() == 0 ==> output.is_none(),
        robots@.len() > 0 ==> output.is_some() && output.unwrap()@ == graphviz_text(
            robots@,
            *styles,
        ),
{
    if robots.len() == 0 {
        return None;
    }
    let mut buffer = String::new();
    let ghost mut lines: Seq<Seq<char>> = Seq::empty();
    assert(buffer@ =~= joined(lines));
    push_line(&mut buffer, "graph {");
    proof {
        lemma_joined_push(lines, "graph {"@);
        lines = lines.push("graph {"@);
    }
    push_line(&mut buffer, "  dpi=96;");
    proof {
        lemma_joined_push(lines, "  dpi=96;"@);
        lines = lines.push("  dpi=96;"@);
    }
    push_line(&mut buffer, "  label=\"factorgraph\"");
    proof {
        lemma_joined_push(lines, "  label=\"factorgraph\""@);
        lines = lines.push("  label=\"factorgraph\""@);
    }
    push_line(&mut buffer, "  node [style=filled];");
    proof {
        lemma_joined_push(lines, "  node [style=filled];"@);
        lines = lines.push("  node [style=filled];"@);
    }
    push_line(&mut buffer, "  layout=neato;");
    proof {
        lemma_joined_push(lines, "  layout=neato;"@);
        lines = lines.push("  layout=neato;"@);
        assert(lines =~= header_lines());
    }

    let mut next: usize = 0;
    assert(robots@.take(0) =~= Seq::<RobotGraph>::empty());
    assert(lines =~= header_lines() + all_robot_lines(robots@.take(0)));
    while next < robots.len()
        invariant
            next <= robots.len(),
            lines == header_lines() + all_robot_lines(robots@.take(next as int)),
            buffer@ == joined(lines),
        decreases robots.len() - next,
    {
        push_robot(&mut buffer, &robots[next]);
        proof {
            let more = robot_lines(robots@[next as int]);
            lemma_joined_concat(lines, more);
            assert(robots@.take(next + 1).drop_last() =~= robots@.take(next as int));
            assert(lines + more =~= header_lines() + all_robot_lines(robots@.take(next + 1)));
            lines = lines + more;
        }
        next += 1;
    }
    assert(robots@.take(next as int) =~= robots@);

    let ghost before_external = header_lines() + all_robot_lines(robots@);
    let mut next: usize = 0;
    assert(lines =~= before_external + all_external_lines(robots@.take(0), *styles));
    while next < robots.len()
        invariant
            next <= robots.len(),
            before_external == header_lines() + all_robot_lines(robots@),
            lines == before_external + all_external_lines(robots@.take(next as int), *styles),
            buffer@ == joined(lines),
        decreases robots.len() - next,
    {
        push_external_edges(&mut buffer, &robots[next], styles);
        proof {
            let robot = robots@[next as int];
            let more = external_lines(
                robot.robot_id,
                robot.nodes@,
                styles.for_antenna(robot.antenna_active),
            );
            lemma_joined_concat(lines, more);
            assert(robots@.take(next + 1).drop_last() =~= robots@.take(next as int));
            assert(lines + more =~= before_external + all_external_lines(
                robots@.take(next + 1),
                *styles,
            ));
            lines = lines + more;
        }
        next += 1;
    }
    assert(robots@.take(next as int) =~= robots@);

    push_line(&mut buffer, "}");
    proof {
        lemma_joined_push(lines, "}"@);
        assert(lines.push("}"@) =~= graphviz_lines(robots@, *styles));
    }
    Some(buffer)
}

} // verus!
