//! Reading a GraphViz description of factor graphs back: which nodes of
//! which kind it declares, and which nodes its edges connect.
use vstd::prelude::*;

use crate::factorgraph::export::{
    all_external_lines, all_robot_lines, edge_line, edge_lines, external_edge_line,
    external_lines, graphviz_lines, graphviz_text, header_lines, joined, lemma_joined_concat,
    lemma_joined_one, node_line, node_lines, node_name, robot_lines, subgraph_header_lines,
    EdgeStyle, InterRobotEdgeStyles, RobotGraph,
};
use crate::factorgraph::graphviz::{Edge, Node, NodeKind, NodeKindTag};
use crate::factorgraph::{ExternalVariableId, FactorGraphId};
use crate::text::{decimal, digit_char};

verus! {

/// Whether `c` is a decimal digit.
pub open spec fn is_digit(c: char) -> bool {
    48 <= c as u32 <= 57
}

/// The value of the decimal digit `c`.
pub open spec fn digit_value(c: char) -> nat {
    (c as u32 - 48) as nat
}

/// The number that the decimal digits `digits` write.
pub open spec fn number_of(digits: Seq<char>) -> nat
    decreases digits.len(),
{
    if digits.len() == 0 {
        0
    } else {
        number_of(digits.drop_last()) * 10 + digit_value(digits.last())
    }
}

/// How many digits `text` starts with.
pub open spec fn leading_digits(text: Seq<char>) -> nat
    decreases text.len(),
{
    if text.len() > 0 && is_digit(text[0]) {
        1 + leading_digits(text.drop_first())
    } else {
        0
    }
}

/// Whether every character of `text` is a decimal digit.
pub open spec fn all_digits(text: Seq<char>) -> bool {
    forall|i: int| 0 <= i < text.len() ==> is_digit(#[trigger] text[i])
}

/// The characters of a number are digits, and they write the number.
pub proof fn lemma_decimal_reads_back(n: nat)
    ensures
        all_digits(decimal(n)),
        number_of(decimal(n)) == n,
        decimal(n).len() > 0,
    decreases n,
{
    if n < 10 {
        assert(decimal(n).drop_last() =~= Seq::<char>::empty());
        assert(number_of(decimal(n).drop_last()) == 0);
        assert(digit_value(digit_char(n)) == n);
    } else {
        lemma_decimal_reads_back(n / 10);
        assert(decimal(n).drop_last() =~= decimal(n / 10));
        assert(digit_value(digit_char(n % 10)) == n % 10);
    }
}

/// Digits in front of what does not start with a digit are all the leading
/// digits.
pub proof fn lemma_leading_digits(digits: Seq<char>, rest: Seq<char>)
    requires
        all_digits(digits),
        rest.len() == 0 || !is_digit(rest[0]),
    ensures
        leading_digits(digits + rest) == digits.len(),
    decreases digits.len(),
{
    if digits.len() == 0 {
        assert(digits + rest =~= rest);
    } else {
        assert((digits + rest)[0] == digits[0]);
        assert((digits + rest).drop_first() =~= digits.drop_first() + rest);
        assert forall|i: int| 0 <= i < digits.drop_first().len() implies is_digit(
            #[trigger] digits.drop_first()[i],
        ) by {
            assert(digits.drop_first()[i] == digits[i + 1]);
        }
        lemma_leading_digits(digits.drop_first(), rest);
    }
}

/// The number that `text` starts with and what follows it, or `None` if
/// `text` does not start with a digit.
pub open spec fn read_number(text: Seq<char>) -> Option<(nat, Seq<char>)> {
    let count = leading_digits(text) as int;
    if count == 0 {
        None
    } else {
        Some((number_of(text.take(count)), text.skip(count)))
    }
}

/// What follows the character `c` at the start of `text`, or `None` if
/// `text` does not start with `c`.
pub open spec fn read_char(text: Seq<char>, c: char) -> Option<Seq<char>> {
    if text.len() > 0 && text[0] == c {
        Some(text.drop_first())
    } else {
        None
    }
}

/// Whether `text` starts with `prefix`.
pub open spec fn starts_with(text: Seq<char>, prefix: Seq<char>) -> bool {
    text.len() >= prefix.len() && text.take(prefix.len() as int) == prefix
}

/// The node that the quoted name at the start of `text` names, and what
/// follows the name: the graph's index, the letter `v`, the graph's
/// generation, an underscore and the node's index, all between double
/// quotes. `None` if `text` does not start with such a name, or if one of
/// the numbers is too large for the machine.
pub open spec fn read_name(text: Seq<char>) -> Option<(FactorGraphId, usize, Seq<char>)> {
    match read_char(text, '"') {
        None => None,
        Some(text) => match read_number(text) {
            None => None,
            Some((index, text)) => match read_char(text, 'v') {
                None => None,
                Some(text) => match read_number(text) {
                    None => None,
                    Some((generation, text)) => match read_char(text, '_') {
                        None => None,
                        Some(text) => match read_number(text) {
                            None => None,
                            Some((node, text)) => match read_char(text, '"') {
                                None => None,
                                Some(text) => if index <= u32::MAX && generation <= u32::MAX
                                    && node <= usize::MAX {
                                    Some(
                                        (
                                            FactorGraphId {
                                                index: index as u32,
                                                generation: generation as u32,
                                            },
                                            node as usize,
                                            text,
                                        ),
                                    )
                                } else {
                                    None
                                },
                            },
                        },
                    },
                },
            },
        },
    }
}

/// A number in front of what does not start with a digit is read back, and
/// what follows it is left.
pub proof fn lemma_read_number(n: nat, rest: Seq<char>)
    requires
        rest.len() == 0 || !is_digit(rest[0]),
    ensures
        read_number(decimal(n) + rest) == Some((n, rest)),
{
    lemma_decimal_reads_back(n);
    lemma_leading_digits(decimal(n), rest);
    assert((decimal(n) + rest).take(decimal(n).len() as int) =~= decimal(n));
    assert((decimal(n) + rest).skip(decimal(n).len() as int) =~= rest);
}

/// The name of a node is read back, and what follows it is left.
pub proof fn lemma_read_name(graph: FactorGraphId, index: usize, rest: Seq<char>)
    ensures
        read_name(node_name(graph, index) + rest) == Some((graph, index, rest)),
{
    reveal_strlit("\"");
    reveal_strlit("v");
    reveal_strlit("_");
    let quote = "\""@;
    let after_node = quote + rest;
    let after_underscore = decimal(index as nat) + after_node;
    let after_generation = "_"@ + after_underscore;
    let after_v = decimal(graph.generation as nat) + after_generation;
    let after_index = "v"@ + after_v;
    let after_quote = decimal(graph.index as nat) + after_index;
    assert(node_name(graph, index) + rest =~= quote + after_quote);
    assert((quote + after_quote).drop_first() =~= after_quote);
    assert(after_index[0] == 'v');
    lemma_read_number(graph.index as nat, after_index);
    assert(after_index.drop_first() =~= after_v);
    assert(after_generation[0] == '_');
    lemma_read_number(graph.generation as nat, after_generation);
    assert(after_generation.drop_first() =~= after_underscore);
    assert(after_node[0] == '"');
    lemma_read_number(index as nat, after_node);
    assert(after_node.drop_first() =~= rest);
}

/// A node as a description declares it.
#[derive(Debug, Clone, Copy, PartialEq, Eq, Structural)]
pub struct DeclaredNode {
    /// The graph that the node belongs to.
    pub graph: FactorGraphId,
    /// The index of the node in its graph.
    pub index: usize,
    /// What the node stands for.
    pub kind: NodeKindTag,
}

/// An edge as a description declares it.
#[derive(Debug, Clone, Copy, PartialEq, Eq, Structural)]
pub struct DeclaredEdge {
    /// The graph of the node that the edge starts at.
    pub from_graph: FactorGraphId,
    /// The index of that node in its graph.
    pub from: usize,
    /// The graph of the node that the edge ends at.
    pub to_graph: FactorGraphId,
    /// The index of that node in its graph.
    pub to: usize,
}

/// What one line of a description says.
#[derive(Debug, Clone, Copy, PartialEq, Eq, Structural)]
pub enum Line {
    /// The line declares a node.
    Node(DeclaredNode),
    /// The line declares an edge.
    Edge(DeclaredEdge),
    /// The line declares neither.
    Other,
}

/// The kind of node that the label at the start of `text` stands for: a
/// label that starts with `v` is that of a variable, the labels of the
/// factors are `fr`, `fd`, `fo` and `ft`.
pub open spec fn read_label(text: Seq<char>) -> Option<NodeKindTag> {
    if text.len() > 0 && text[0] == 'v' {
        Some(NodeKindTag::Variable)
    } else if text.len() > 1 && text[0] == 'f' {
        if text[1] == 'r' {
            Some(NodeKindTag::InterRobotFactor)
        } else if text[1] == 'd' {
            Some(NodeKindTag::DynamicFactor)
        } else if text[1] == 'o' {
            Some(NodeKindTag::ObstacleFactor)
        } else if text[1] == 't' {
            Some(NodeKindTag::TrackingFactor)
        } else {
            None
        }
    } else {
        None
    }
}

/// What a line says that starts with the name of a node: an edge if two
/// dashes and a second name follow, a node if a label follows.
pub open spec fn read_statement(line: Seq<char>) -> Line {
    match read_name(line) {
        None => Line::Other,
        Some((graph, index, rest)) => {
            if starts_with(rest, " -- "@) {
                match read_name(rest.skip(4)) {
                    None => Line::Other,
                    Some((to_graph, to, _)) => Line::Edge(
                        DeclaredEdge { from_graph: graph, from: index, to_graph, to },
                    ),
                }
            } else if starts_with(rest, " [label=\""@) {
                match read_label(rest.skip(9)) {
                    None => Line::Other,
                    Some(kind) => Line::Node(DeclaredNode { graph, index, kind }),
                }
            } else {
                Line::Other
            }
        },
    }
}

/// What the line `line` says. A statement starts with a double quote, or
/// with one blank and a double quote; all other lines say nothing of nodes
/// and edges.
pub open spec fn read_line(line: Seq<char>) -> Line {
    if line.len() > 0 && line[0] == '"' {
        read_statement(line)
    } else if line.len() > 1 && line[0] == ' ' && line[1] == '"' {
        read_statement(line.drop_first())
    } else {
        Line::Other
    }
}

/// The line that declares a node is read as that node.
pub proof fn lemma_read_node_line(graph: FactorGraphId, node: Node)
    ensures
        read_line(node_line(graph, node)) == Line::Node(
            DeclaredNode { graph, index: node.index, kind: node.kind.spec_tag() },
        ),
{
    reveal_strlit("\"");
    reveal_strlit(" -- ");
    reveal_strlit(" [label=\"");
    reveal_strlit("v");
    reveal_strlit("fr");
    reveal_strlit("fd");
    reveal_strlit("fo");
    reveal_strlit("ft");
    let line = node_line(graph, node);
    let name = node_name(graph, node.index);
    let label = node.kind.spec_label(node.index);
    let tail = "\", fillcolor=\""@ + node.kind.spec_color() + "\", shape="@
        + node.kind.spec_shape() + ", width=\""@ + node.kind.spec_width() + "\"]"@;
    let rest = " [label=\""@ + (label + tail);
    assert(line =~= name + rest);
    assert(name =~= "\""@ + (graph.label() + "_"@ + decimal(node.index as nat) + "\""@));
    assert(line[0] == '"');
    lemma_read_name(graph, node.index, rest);
    assert(rest[1] == '[');
    assert(" -- "@[1] == '-');
    assert(!starts_with(rest, " -- "@)) by {
        if starts_with(rest, " -- "@) {
            assert(rest.take(4)[1] == rest[1]);
        }
    }
    assert(rest.take(9) =~= " [label=\""@);
    assert(rest.skip(9) =~= label + tail);
    assert(label.len() > 0);
    assert((label + tail)[0] == label[0]);
    if node.kind is Variable {
    } else {
        assert(label.len() > 1);
        assert((label + tail)[1] == label[1]);
    }
}

/// The line of an edge, with whatever follows its second name, is read as
/// that edge.
pub proof fn lemma_read_edge_statement(
    from_graph: FactorGraphId,
    from: usize,
    to_graph: FactorGraphId,
    to: usize,
    rest: Seq<char>,
)
    ensures
        read_statement(
            node_name(from_graph, from) + " -- "@ + node_name(to_graph, to) + rest,
        ) == Line::Edge(DeclaredEdge { from_graph, from, to_graph, to }),
{
    reveal_strlit(" -- ");
    let line = node_name(from_graph, from) + " -- "@ + node_name(to_graph, to) + rest;
    let after_name = " -- "@ + (node_name(to_graph, to) + rest);
    assert(line =~= node_name(from_graph, from) + after_name);
    lemma_read_name(from_graph, from, after_name);
    assert(after_name.take(4) =~= " -- "@);
    assert(after_name.skip(4) =~= node_name(to_graph, to) + rest);
    lemma_read_name(to_graph, to, rest);
}

/// The line of an edge inside a graph is read as that edge.
pub proof fn lemma_read_edge_line(graph: FactorGraphId, edge: Edge)
    ensures
        read_line(edge_line(graph, edge)) == Line::Edge(
            DeclaredEdge { from_graph: graph, from: edge.from, to_graph: graph, to: edge.to },
        ),
{
    reveal_strlit("\"");
    let line = edge_line(graph, edge);
    lemma_read_edge_statement(graph, edge.from, graph, edge.to, Seq::empty());
    assert(line =~= node_name(graph, edge.from) + " -- "@ + node_name(graph, edge.to)
        + Seq::<char>::empty());
    let name = node_name(graph, edge.from);
    assert(name =~= "\""@ + (graph.label() + "_"@ + decimal(edge.from as nat) + "\""@));
    assert(line[0] == name[0]);
}

/// The line of a connection between two robots is read as the edge from the
/// factor to the variable of the other robot.
pub proof fn lemma_read_external_edge_line(
    graph: FactorGraphId,
    factor: usize,
    variable: ExternalVariableId,
    style: EdgeStyle,
)
    ensures
        read_line(external_edge_line(graph, factor, variable, style)) == Line::Edge(
            DeclaredEdge {
                from_graph: graph,
                from: factor,
                to_graph: variable.factorgraph_id,
                to: variable.variable_index,
            },
        ),
{
    reveal_strlit("\"");
    reveal_strlit(" ");
    let line = external_edge_line(graph, factor, variable, style);
    let rest = " [len="@ + style.len@ + ", style="@ + style.style@ + ", color=\""@ + style.color@
        + "\", penwidth=3.0]"@;
    let statement = node_name(graph, factor) + " -- "@ + node_name(
        variable.factorgraph_id,
        variable.variable_index,
    ) + rest;
    lemma_read_edge_statement(
        graph,
        factor,
        variable.factorgraph_id,
        variable.variable_index,
        rest,
    );
    assert(line =~= " "@ + statement);
    let name = node_name(graph, factor);
    assert(name =~= "\""@ + (graph.label() + "_"@ + decimal(factor as nat) + "\""@));
    assert(statement[0] == name[0]);
    assert(line[0] == ' ');
    assert(line[1] == statement[0]);
    assert(line.drop_first() =~= statement);
}

/// Whether `text` holds no line feed.
pub open spec fn single_line(text: Seq<char>) -> bool {
    forall|i: int| 0 <= i < text.len() ==> #[trigger] text[i] != '\n'
}

/// Whether each of `lines` holds no line feed.
pub open spec fn single_lines(lines: Seq<Seq<char>>) -> bool {
    forall|i: int| 0 <= i < lines.len() ==> single_line(#[trigger] lines[i])
}

/// Position of the first line feed in `text`, or the length of `text` if it
/// holds none.
pub open spec fn first_line_feed(text: Seq<char>) -> int
    decreases text.len(),
{
    if text.len() == 0 || text[0] == '\n' {
        0
    } else {
        1 + first_line_feed(text.drop_first())
    }
}

/// The lines of `text`: what stands before each line feed, and what follows
/// the last one unless that is nothing.
pub open spec fn lines_of(text: Seq<char>) -> Seq<Seq<char>>
    decreases text.len(),
{
    let at = first_line_feed(text);
    if text.len() == 0 {
        Seq::empty()
    } else if 0 <= at < text.len() {
        seq![text.take(at)] + lines_of(text.skip(at + 1))
    } else {
        seq![text]
    }
}

/// The nodes that `lines` declare, in order.
pub open spec fn declared_nodes_of(lines: Seq<Seq<char>>) -> Seq<DeclaredNode>
    decreases lines.len(),
{
    if lines.len() == 0 {
        Seq::empty()
    } else {
        let before = declared_nodes_of(lines.drop_last());
        match read_line(lines.last()) {
            Line::Node(node) => before.push(node),
            _ => before,
        }
    }
}

/// The edges that `lines` declare, in order.
pub open spec fn declared_edges_of(lines: Seq<Seq<char>>) -> Seq<DeclaredEdge>
    decreases lines.len(),
{
    if lines.len() == 0 {
        Seq::empty()
    } else {
        let before = declared_edges_of(lines.drop_last());
        match read_line(lines.last()) {
            Line::Edge(edge) => before.push(edge),
            _ => before,
        }
    }
}

/// The nodes that the description `text` declares, in order.
pub open spec fn read_nodes(text: Seq<char>) -> Seq<DeclaredNode> {
    declared_nodes_of(lines_of(text))
}

/// The edges that the description `text` declares, in order.
pub open spec fn read_edges(text: Seq<char>) -> Seq<DeclaredEdge> {
    declared_edges_of(lines_of(text))
}

/// The nodes of `robot` as its description declares them.
pub open spec fn robot_nodes(robot: RobotGraph) -> Seq<DeclaredNode> {
    Seq::new(
        robot.nodes@.len(),
        |i: int|
            (DeclaredNode {
                graph: robot.robot_id,
                index: robot.nodes@[i].index,
                kind: robot.nodes@[i].kind.spec_tag(),
            }),
    )
}

/// The edges inside the graph of `robot` as its description declares them.
pub open spec fn robot_edges(robot: RobotGraph) -> Seq<DeclaredEdge> {
    Seq::new(
        robot.edges@.len(),
        |i: int|
            (DeclaredEdge {
                from_graph: robot.robot_id,
                from: robot.edges@[i].from,
                to_graph: robot.robot_id,
                to: robot.edges@[i].to,
            }),
    )
}

/// The edges from the inter-robot factors among `nodes` of graph `graph` to
/// the variables of other robots, in the order of the factors.
pub open spec fn connections(graph: FactorGraphId, nodes: Seq<Node>) -> Seq<DeclaredEdge>
    decreases nodes.len(),
{
    if nodes.len() == 0 {
        Seq::empty()
    } else {
        let before = connections(graph, nodes.drop_last());
        match nodes.last().kind {
            NodeKind::InterRobotFactor { external_variable_id, .. } => before.push(
                DeclaredEdge {
                    from_graph: graph,
                    from: nodes.last().index,
                    to_graph: external_variable_id.factorgraph_id,
                    to: external_variable_id.variable_index,
                },
            ),
            _ => before,
        }
    }
}

/// The nodes of all `robots`, robot by robot.
pub open spec fn all_nodes(robots: Seq<RobotGraph>) -> Seq<DeclaredNode>
    decreases robots.len(),
{
    if robots.len() == 0 {
        Seq::empty()
    } else {
        all_nodes(robots.drop_last()) + robot_nodes(robots.last())
    }
}

/// The edges inside the graphs of all `robots`, robot by robot.
pub open spec fn all_edges(robots: Seq<RobotGraph>) -> Seq<DeclaredEdge>
    decreases robots.len(),
{
    if robots.len() == 0 {
        Seq::empty()
    } else {
        all_edges(robots.drop_last()) + robot_edges(robots.last())
    }
}

/// The edges between the graphs of `robots`, robot by robot.
pub open spec fn all_connections(robots: Seq<RobotGraph>) -> Seq<DeclaredEdge>
    decreases robots.len(),
{
    if robots.len() == 0 {
        Seq::empty()
    } else {
        all_connections(robots.drop_last()) + connections(
            robots.last().robot_id,
            robots.last().nodes@,
        )
    }
}

/// Whether `lines` hold no line feed and declare exactly `nodes` and `edges`.
pub open spec fn declare(
    lines: Seq<Seq<char>>,
    nodes: Seq<DeclaredNode>,
    edges: Seq<DeclaredEdge>,
) -> bool {
    &&& single_lines(lines)
    &&& declared_nodes_of(lines) == nodes
    &&& declared_edges_of(lines) == edges
}

/// Two texts without a line feed give one without when put together.
pub proof fn lemma_single_line_concat(first: Seq<char>, second: Seq<char>)
    requires
        single_line(first),
        single_line(second),
    ensures
        single_line(first + second),
{
    assert forall|i: int| 0 <= i < (first + second).len() implies #[trigger] (first + second)[i]
        != '\n' by {
        if i < first.len() {
            assert((first + second)[i] == first[i]);
        } else {
            assert((first + second)[i] == second[i - first.len()]);
        }
    }
}

/// A number is written without a line feed.
pub proof fn lemma_single_line_decimal(n: nat)
    ensures
        single_line(decimal(n)),
{
    lemma_decimal_reads_back(n);
    assert forall|i: int| 0 <= i < decimal(n).len() implies #[trigger] decimal(n)[i] != '\n' by {
        assert(is_digit(decimal(n)[i]));
    }
}

/// The name of a node is written without a line feed.
pub proof fn lemma_single_line_name(graph: FactorGraphId, index: usize)
    ensures
        single_line(node_name(graph, index)),
{
    reveal_strlit("\"");
    reveal_strlit("v");
    reveal_strlit("_");
    lemma_single_line_decimal(graph.index as nat);
    lemma_single_line_decimal(graph.generation as nat);
    lemma_single_line_decimal(index as nat);
    lemma_single_line_label(graph);
    lemma_single_line_concat("\""@, graph.label());
    lemma_single_line_concat("\""@ + graph.label(), "_"@);
    lemma_single_line_concat("\""@ + graph.label() + "_"@, decimal(index as nat));
    lemma_single_line_concat("\""@ + graph.label() + "_"@ + decimal(index as nat), "\""@);
}

/// The name of a graph is written without a line feed.
pub proof fn lemma_single_line_label(graph: FactorGraphId)
    ensures
        single_line(graph.label()),
{
    reveal_strlit("v");
    lemma_single_line_decimal(graph.index as nat);
    lemma_single_line_decimal(graph.generation as nat);
    lemma_single_line_concat(decimal(graph.index as nat), "v"@);
    lemma_single_line_concat(
        decimal(graph.index as nat) + "v"@,
        decimal(graph.generation as nat),
    );
}

/// The line that declares a node holds no line feed.
pub proof fn lemma_single_line_node(graph: FactorGraphId, node: Node)
    ensures
        single_line(node_line(graph, node)),
{
    reveal_strlit(" [label=\"");
    reveal_strlit("\", fillcolor=\"");
    reveal_strlit("\", shape=");
    reveal_strlit(", width=\"");
    reveal_strlit("\"]");
    reveal_strlit("v");
    reveal_strlit("fr");
    reveal_strlit("fd");
    reveal_strlit("fo");
    reveal_strlit("ft");
    reveal_strlit("#eff1f5");
    reveal_strlit("#a6da95");
    reveal_strlit("#8aadf4");
    reveal_strlit("#ee99a0");
    reveal_strlit("#f4a15a");
    reveal_strlit("circle");
    reveal_strlit("square");
    reveal_strlit("0.8");
    reveal_strlit("0.2");
    let label = node.kind.spec_label(node.index);
    assert(single_line(label)) by {
        lemma_single_line_decimal(node.index as nat);
        lemma_single_line_concat("v"@, decimal(node.index as nat));
    }
    assert(single_line(node.kind.spec_color()));
    assert(single_line(node.kind.spec_shape()));
    assert(single_line(node.kind.spec_width()));
    lemma_single_line_name(graph, node.index);
    let a = node_name(graph, node.index);
    let b = a + " [label=\""@;
    let c = b + label;
    let d = c + "\", fillcolor=\""@;
    let e = d + node.kind.spec_color();
    let f = e + "\", shape="@;
    let g = f + node.kind.spec_shape();
    let h = g + ", width=\""@;
    let i = h + node.kind.spec_width();
    lemma_single_line_concat(a, " [label=\""@);
    lemma_single_line_concat(b, label);
    lemma_single_line_concat(c, "\", fillcolor=\""@);
    lemma_single_line_concat(d, node.kind.spec_color());
    lemma_single_line_concat(e, "\", shape="@);
    lemma_single_line_concat(f, node.kind.spec_shape());
    lemma_single_line_concat(g, ", width=\""@);
    lemma_single_line_concat(h, node.kind.spec_width());
    lemma_single_line_concat(i, "\"]"@);
}

/// The line of an edge inside a graph holds no line feed.
pub proof fn lemma_single_line_edge(graph: FactorGraphId, edge: Edge)
    ensures
        single_line(edge_line(graph, edge)),
{
    reveal_strlit(" -- ");
    lemma_single_line_name(graph, edge.from);
    lemma_single_line_name(graph, edge.to);
    lemma_single_line_concat(node_name(graph, edge.from), " -- "@);
    lemma_single_line_concat(node_name(graph, edge.from) + " -- "@, node_name(graph, edge.to));
}

impl EdgeStyle {
    /// Whether no part of the style holds a line feed.
    pub open spec fn single_line(self) -> bool {
        single_line(self.len@) && single_line(self.style@) && single_line(self.color@)
    }
}

/// The line of a connection between two robots holds no line feed if its
/// style holds none.
pub proof fn lemma_single_line_external_edge(
    graph: FactorGraphId,
    factor: usize,
    variable: ExternalVariableId,
    style: EdgeStyle,
)
    requires
        style.single_line(),
    ensures
        single_line(external_edge_line(graph, factor, variable, style)),
{
    reveal_strlit(" ");
    reveal_strlit(" -- ");
    reveal_strlit(" [len=");
    reveal_strlit(", style=");
    reveal_strlit(", color=\"");
    reveal_strlit("\", penwidth=3.0]");
    lemma_single_line_name(graph, factor);
    lemma_single_line_name(variable.factorgraph_id, variable.variable_index);
    let a = " "@ + node_name(graph, factor);
    let b = a + " -- "@;
    let c = b + node_name(variable.factorgraph_id, variable.variable_index);
    let d = c + " [len="@;
    let e = d + style.len@;
    let f = e + ", style="@;
    let g = f + style.style@;
    let h = g + ", color=\""@;
    let i = h + style.color@;
    lemma_single_line_concat(" "@, node_name(graph, factor));
    lemma_single_line_concat(a, " -- "@);
    lemma_single_line_concat(b, node_name(variable.factorgraph_id, variable.variable_index));
    lemma_single_line_concat(c, " [len="@);
    lemma_single_line_concat(d, style.len@);
    lemma_single_line_concat(e, ", style="@);
    lemma_single_line_concat(f, style.style@);
    lemma_single_line_concat(g, ", color=\""@);
    lemma_single_line_concat(h, style.color@);
    lemma_single_line_concat(i, "\", penwidth=3.0]"@);
}

/// A line without a line feed, followed by one, ends at that line feed.
pub proof fn lemma_first_line_feed(line: Seq<char>, rest: Seq<char>)
    requires
        single_line(line),
    ensures
        first_line_feed(line + "\n"@ + rest) == line.len(),
    decreases line.len(),
{
    reveal_strlit("\n");
    let text = line + "\n"@ + rest;
    if line.len() == 0 {
        assert(text[0] == '\n');
    } else {
        assert(text[0] == line[0]);
        assert(text.drop_first() =~= line.drop_first() + "\n"@ + rest);
        assert forall|i: int| 0 <= i < line.drop_first().len() implies
            #[trigger] line.drop_first()[i]
            != '\n' by {
            assert(line.drop_first()[i] == line[i + 1]);
        }
        lemma_first_line_feed(line.drop_first(), rest);
    }
}

/// Lines followed by more lines are joined as the first line, a line feed,
/// and the other lines joined.
pub proof fn lemma_joined_front(lines: Seq<Seq<char>>)
    requires
        lines.len() > 0,
    ensures
        joined(lines) == lines[0] + "\n"@ + joined(lines.drop_first()),
{
    lemma_joined_one(lines[0]);
    lemma_joined_concat(seq![lines[0]], lines.drop_first());
    assert(seq![lines[0]] + lines.drop_first() =~= lines);
}

/// The lines of joined lines are these lines, if none of them holds a line
/// feed.
pub proof fn lemma_lines_of_joined(lines: Seq<Seq<char>>)
    requires
        single_lines(lines),
    ensures
        lines_of(joined(lines)) == lines,
    decreases lines.len(),
{
    reveal_strlit("\n");
    if lines.len() > 0 {
        let rest = lines.drop_first();
        lemma_joined_front(lines);
        let text = joined(lines);
        assert(single_line(lines[0]));
        lemma_first_line_feed(lines[0], joined(rest));
        assert(text.take(lines[0].len() as int) =~= lines[0]);
        assert(text.skip(lines[0].len() as int + 1) =~= joined(rest));
        assert forall|i: int| 0 <= i < rest.len() implies single_line(#[trigger] rest[i]) by {
            assert(rest[i] == lines[i + 1]);
        }
        lemma_lines_of_joined(rest);
        assert(seq![lines[0]] + rest =~= lines);
    }
}

/// What lines declare one after another is what they declare together.
pub proof fn lemma_declare_concat(
    first: Seq<Seq<char>>,
    first_nodes: Seq<DeclaredNode>,
    first_edges: Seq<DeclaredEdge>,
    second: Seq<Seq<char>>,
    second_nodes: Seq<DeclaredNode>,
    second_edges: Seq<DeclaredEdge>,
)
    requires
        declare(first, first_nodes, first_edges),
        declare(second, second_nodes, second_edges),
    ensures
        declare(first + second, first_nodes + second_nodes, first_edges + second_edges),
    decreases second.len(),
{
    let all = first + second;
    assert forall|i: int| 0 <= i < all.len() implies single_line(#[trigger] all[i]) by {
        if i < first.len() {
            assert(all[i] == first[i]);
        } else {
            assert(all[i] == second[i - first.len()]);
        }
    }
    if second.len() == 0 {
        assert(all =~= first);
        assert(first_nodes + second_nodes =~= first_nodes);
        assert(first_edges + second_edges =~= first_edges);
    } else {
        let shorter = second.drop_last();
        assert forall|i: int| 0 <= i < shorter.len() implies single_line(#[trigger] shorter[i]) by {
            assert(shorter[i] == second[i]);
        }
        lemma_declare_concat(
            first,
            first_nodes,
            first_edges,
            shorter,
            declared_nodes_of(shorter),
            declared_edges_of(shorter),
        );
        assert(all.drop_last() =~= first + shorter);
        assert(all.last() == second.last());
        assert(declared_nodes_of(all) =~= first_nodes + second_nodes);
        assert(declared_edges_of(all) =~= first_edges + second_edges);
    }
}

/// One line without a line feed that declares a node declares that node.
pub proof fn lemma_declare_one(line: Seq<char>)
    requires
        single_line(line),
    ensures
        declare(
            seq![line],
            match read_line(line) {
                Line::Node(node) => seq![node],
                _ => Seq::empty(),
            },
            match read_line(line) {
                Line::Edge(edge) => seq![edge],
                _ => Seq::empty(),
            },
        ),
{
    reveal_with_fuel(declared_nodes_of, 2);
    reveal_with_fuel(declared_edges_of, 2);
    let lines = seq![line];
    assert(lines.drop_last() =~= Seq::<Seq<char>>::empty());
    assert(declared_nodes_of(lines) =~= match read_line(line) {
        Line::Node(node) => seq![node],
        _ => Seq::empty(),
    });
    assert(declared_edges_of(lines) =~= match read_line(line) {
        Line::Edge(edge) => seq![edge],
        _ => Seq::empty(),
    });
}

/// What lines declare with one more line behind them.
pub proof fn lemma_declare_push(
    lines: Seq<Seq<char>>,
    nodes: Seq<DeclaredNode>,
    edges: Seq<DeclaredEdge>,
    line: Seq<char>,
)
    requires
        declare(lines, nodes, edges),
        single_line(line),
    ensures
        declare(
            lines.push(line),
            match read_line(line) {
                Line::Node(node) => nodes.push(node),
                _ => nodes,
            },
            match read_line(line) {
                Line::Edge(edge) => edges.push(edge),
                _ => edges,
            },
        ),
{
    let all = lines.push(line);
    assert(all.drop_last() =~= lines);
    assert forall|i: int| 0 <= i < all.len() implies single_line(#[trigger] all[i]) by {
        if i < lines.len() {
            assert(all[i] == lines[i]);
        }
    }
}

/// The lines that open a description declare no node and no edge.
pub proof fn lemma_declare_header()
    ensures
        declare(header_lines(), Seq::empty(), Seq::empty()),
{
    reveal_strlit("graph {");
    reveal_strlit("  dpi=96;");
    reveal_strlit("  label=\"factorgraph\"");
    reveal_strlit("  node [style=filled];");
    reveal_strlit("  layout=neato;");
    let none = Seq::<Seq<char>>::empty();
    let nodes = Seq::<DeclaredNode>::empty();
    let edges = Seq::<DeclaredEdge>::empty();
    assert(declare(none, nodes, edges));
    lemma_declare_push(none, nodes, edges, "graph {"@);
    let one = none.push("graph {"@);
    lemma_declare_push(one, nodes, edges, "  dpi=96;"@);
    let two = one.push("  dpi=96;"@);
    lemma_declare_push(two, nodes, edges, "  label=\"factorgraph\""@);
    let three = two.push("  label=\"factorgraph\""@);
    lemma_declare_push(three, nodes, edges, "  node [style=filled];"@);
    let four = three.push("  node [style=filled];"@);
    lemma_declare_push(four, nodes, edges, "  layout=neato;"@);
    assert(four.push("  layout=neato;"@) =~= header_lines());
}

/// The lines that open a subgraph declare no node and no edge.
pub proof fn lemma_declare_subgraph_header(graph: FactorGraphId)
    ensures
        declare(subgraph_header_lines(graph), Seq::empty(), Seq::empty()),
{
    reveal_strlit("  subgraph \"");
    reveal_strlit("\" {");
    reveal_strlit("  margin=16");
    reveal_strlit("  label=\"");
    reveal_strlit("\"");
    lemma_single_line_label(graph);
    let first = "  subgraph \""@ + graph.label() + "\" {"@;
    let third = "  label=\""@ + graph.label() + "\""@;
    lemma_single_line_concat("  subgraph \""@, graph.label());
    lemma_single_line_concat("  subgraph \""@ + graph.label(), "\" {"@);
    lemma_single_line_concat("  label=\""@, graph.label());
    lemma_single_line_concat("  label=\""@ + graph.label(), "\""@);
    assert(first[0] == ' ' && first[1] == ' ');
    assert(third[0] == ' ' && third[1] == ' ');
    let none = Seq::<Seq<char>>::empty();
    let nodes = Seq::<DeclaredNode>::empty();
    let edges = Seq::<DeclaredEdge>::empty();
    assert(declare(none, nodes, edges));
    lemma_declare_push(none, nodes, edges, first);
    let one = none.push(first);
    lemma_declare_push(one, nodes, edges, "  margin=16"@);
    let two = one.push("  margin=16"@);
    lemma_declare_push(two, nodes, edges, third);
    assert(two.push(third) =~= subgraph_header_lines(graph));
}

/// The lines of the nodes of a graph declare these nodes and no edge.
pub proof fn lemma_declare_nodes(robot: RobotGraph, count: nat)
    requires
        count <= robot.nodes@.len(),
    ensures
        declare(
            node_lines(robot.robot_id, robot.nodes@.take(count as int)),
            robot_nodes(robot).take(count as int),
            Seq::empty(),
        ),
    decreases count,
{
    let graph = robot.robot_id;
    let lines = node_lines(graph, robot.nodes@.take(count as int));
    if count == 0 {
        assert(lines =~= Seq::<Seq<char>>::empty());
        assert(robot_nodes(robot).take(0) =~= Seq::<DeclaredNode>::empty());
    } else {
        let fewer = (count - 1) as nat;
        let node = robot.nodes@[fewer as int];
        lemma_declare_nodes(robot, fewer);
        lemma_single_line_node(graph, node);
        lemma_read_node_line(graph, node);
        lemma_declare_push(
            node_lines(graph, robot.nodes@.take(fewer as int)),
            robot_nodes(robot).take(fewer as int),
            Seq::empty(),
            node_line(graph, node),
        );
        assert(node_lines(graph, robot.nodes@.take(fewer as int)).push(node_line(graph, node))
            =~= lines);
        assert(robot_nodes(robot).take(fewer as int).push(
            DeclaredNode { graph, index: node.index, kind: node.kind.spec_tag() },
        ) =~= robot_nodes(robot).take(count as int));
    }
}

/// The lines of the edges of a graph declare these edges and no node.
pub proof fn lemma_declare_edges(robot: RobotGraph, count: nat)
    requires
        count <= robot.edges@.len(),
    ensures
        declare(
            edge_lines(robot.robot_id, robot.edges@.take(count as int)),
            Seq::empty(),
            robot_edges(robot).take(count as int),
        ),
    decreases count,
{
    let graph = robot.robot_id;
    let lines = edge_lines(graph, robot.edges@.take(count as int));
    if count == 0 {
        assert(lines =~= Seq::<Seq<char>>::empty());
        assert(robot_edges(robot).take(0) =~= Seq::<DeclaredEdge>::empty());
    } else {
        let fewer = (count - 1) as nat;
        let edge = robot.edges@[fewer as int];
        lemma_declare_edges(robot, fewer);
        lemma_single_line_edge(graph, edge);
        lemma_read_edge_line(graph, edge);
        lemma_declare_push(
            edge_lines(graph, robot.edges@.take(fewer as int)),
            Seq::empty(),
            robot_edges(robot).take(fewer as int),
            edge_line(graph, edge),
        );
        assert(edge_lines(graph, robot.edges@.take(fewer as int)).push(edge_line(graph, edge))
            =~= lines);
        assert(robot_edges(robot).take(fewer as int).push(
            DeclaredEdge { from_graph: graph, from: edge.from, to_graph: graph, to: edge.to },
        ) =~= robot_edges(robot).take(count as int));
    }
}

/// The lines of the connections of a graph to other robots declare these
/// connections and no node.
pub proof fn lemma_declare_connections(graph: FactorGraphId, nodes: Seq<Node>, style: EdgeStyle)
    requires
        style.single_line(),
    ensures
        declare(external_lines(graph, nodes, style), Seq::empty(), connections(graph, nodes)),
    decreases nodes.len(),
{
    if nodes.len() > 0 {
        let before = nodes.drop_last();
        lemma_declare_connections(graph, before, style);
        match nodes.last().kind {
            NodeKind::InterRobotFactor { external_variable_id, .. } => {
                let line = external_edge_line(
                    graph,
                    nodes.last().index,
                    external_variable_id,
                    style,
                );
                lemma_single_line_external_edge(
                    graph,
                    nodes.last().index,
                    external_variable_id,
                    style,
                );
                lemma_read_external_edge_line(
                    graph,
                    nodes.last().index,
                    external_variable_id,
                    style,
                );
                lemma_declare_push(
                    external_lines(graph, before, style),
                    Seq::empty(),
                    connections(graph, before),
                    line,
                );
            },
            _ => {},
        }
    }
}

/// The lines of one robot declare its nodes and the edges inside its graph.
pub proof fn lemma_declare_robot(robot: RobotGraph)
    ensures
        declare(robot_lines(robot), robot_nodes(robot), robot_edges(robot)),
{
    reveal_strlit("}");
    reveal_strlit("");
    let graph = robot.robot_id;
    let no_nodes = Seq::<DeclaredNode>::empty();
    let no_edges = Seq::<DeclaredEdge>::empty();
    lemma_declare_subgraph_header(graph);
    lemma_declare_nodes(robot, robot.nodes@.len());
    lemma_declare_edges(robot, robot.edges@.len());
    assert(robot.nodes@.take(robot.nodes@.len() as int) =~= robot.nodes@);
    assert(robot.edges@.take(robot.edges@.len() as int) =~= robot.edges@);
    assert(robot_nodes(robot).take(robot.nodes@.len() as int) =~= robot_nodes(robot));
    assert(robot_edges(robot).take(robot.edges@.len() as int) =~= robot_edges(robot));
    let opening = subgraph_header_lines(graph);
    let nodes = node_lines(graph, robot.nodes@);
    lemma_declare_concat(opening, no_nodes, no_edges, nodes, robot_nodes(robot), no_edges);
    assert(no_nodes + robot_nodes(robot) =~= robot_nodes(robot));
    assert(no_edges + no_edges =~= no_edges);
    lemma_declare_push(opening + nodes, robot_nodes(robot), no_edges, "}"@);
    let closed = (opening + nodes).push("}"@);
    lemma_declare_push(closed, robot_nodes(robot), no_edges, ""@);
    let spaced = closed.push(""@);
    assert(spaced =~= opening + nodes + seq!["}"@, ""@]);
    lemma_declare_concat(
        spaced,
        robot_nodes(robot),
        no_edges,
        edge_lines(graph, robot.edges@),
        no_nodes,
        robot_edges(robot),
    );
    assert(robot_nodes(robot) + no_nodes =~= robot_nodes(robot));
    assert(no_edges + robot_edges(robot) =~= robot_edges(robot));
}

/// The lines of all robots declare their nodes and the edges inside their
/// graphs.
pub proof fn lemma_declare_all_robots(robots: Seq<RobotGraph>)
    ensures
        declare(all_robot_lines(robots), all_nodes(robots), all_edges(robots)),
    decreases robots.len(),
{
    if robots.len() > 0 {
        lemma_declare_all_robots(robots.drop_last());
        lemma_declare_robot(robots.last());
        lemma_declare_concat(
            all_robot_lines(robots.drop_last()),
            all_nodes(robots.drop_last()),
            all_edges(robots.drop_last()),
            robot_lines(robots.last()),
            robot_nodes(robots.last()),
            robot_edges(robots.last()),
        );
    }
}

impl InterRobotEdgeStyles {
    /// Whether no part of the two styles holds a line feed.
    pub open spec fn single_line(self) -> bool {
        self.active.single_line() && self.inactive.single_line()
    }
}

/// The lines of the connections between all robots declare these
/// connections and no node.
pub proof fn lemma_declare_all_connections(robots: Seq<RobotGraph>, styles: InterRobotEdgeStyles)
    requires
        styles.single_line(),
    ensures
        declare(all_external_lines(robots, styles), Seq::empty(), all_connections(robots)),
    decreases robots.len(),
{
    if robots.len() > 0 {
        let robot = robots.last();
        lemma_declare_all_connections(robots.drop_last(), styles);
        lemma_declare_connections(
            robot.robot_id,
            robot.nodes@,
            styles.for_antenna(robot.antenna_active),
        );
        lemma_declare_concat(
            all_external_lines(robots.drop_last(), styles),
            Seq::empty(),
            all_connections(robots.drop_last()),
            external_lines(robot.robot_id, robot.nodes@, styles.for_antenna(robot.antenna_active)),
            Seq::empty(),
            connections(robot.robot_id, robot.nodes@),
        );
        assert(Seq::<DeclaredNode>::empty() + Seq::<DeclaredNode>::empty()
            =~= Seq::<DeclaredNode>::empty());
    }
}

/// Reading the description of factor graphs back gives the nodes with their
/// kinds and the edges with their end points: every node of every robot, in
/// order; every edge inside a robot's graph, in order; and behind these the
/// edge from every inter-robot factor to the variable of the other robot.
/// This holds whatever the styles of the connections are, as long as they
/// hold no line feed.
pub proof fn lemma_description_reads_back(robots: Seq<RobotGraph>, styles: InterRobotEdgeStyles)
    requires
        styles.single_line(),
    ensures
        read_nodes(graphviz_text(robots, styles)) == all_nodes(robots),
        read_edges(graphviz_text(robots, styles)) == all_edges(robots) + all_connections(robots),
{
    reveal_strlit("}");
    let no_nodes = Seq::<DeclaredNode>::empty();
    let no_edges = Seq::<DeclaredEdge>::empty();
    lemma_declare_header();
    lemma_declare_all_robots(robots);
    lemma_declare_all_connections(robots, styles);
    let opening = header_lines();
    let inside = all_robot_lines(robots);
    let between = all_external_lines(robots, styles);
    lemma_declare_concat(opening, no_nodes, no_edges, inside, all_nodes(robots), all_edges(robots));
    assert(no_nodes + all_nodes(robots) =~= all_nodes(robots));
    assert(no_edges + all_edges(robots) =~= all_edges(robots));
    lemma_declare_concat(
        opening + inside,
        all_nodes(robots),
        all_edges(robots),
        between,
        no_nodes,
        all_connections(robots),
    );
    assert(all_nodes(robots) + no_nodes =~= all_nodes(robots));
    lemma_declare_push(
        opening + inside + between,
        all_nodes(robots),
        all_edges(robots) + all_connections(robots),
        "}"@,
    );
    let lines = graphviz_lines(robots, styles);
    assert((opening + inside + between).push("}"@) =~= lines);
    lemma_lines_of_joined(lines);
}

} // verus!
