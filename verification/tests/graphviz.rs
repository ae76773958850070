use magics::factorgraph::export::{
    export_factorgraphs_as_graphviz, EdgeStyle, InterRobotEdgeStyles, RobotGraph,
};
use magics::factorgraph::graphviz::{Edge, Node, NodeKind, NodeKindTag};
use magics::factorgraph::parse::{DeclaredEdge, DeclaredNode, Line};
use magics::factorgraph::read::{line_said, read_description};
use magics::factorgraph::{ExternalVariableId, FactorGraphId};

fn styles() -> InterRobotEdgeStyles {
    InterRobotEdgeStyles {
        active: EdgeStyle {
            len: "8".to_string(),
            style: "solid".to_string(),
            color: "red".to_string(),
        },
        inactive: EdgeStyle {
            len: "8.5".to_string(),
            style: "dashed".to_string(),
            color: "gray".to_string(),
        },
    }
}

fn id(index: u32, generation: u32) -> FactorGraphId {
    FactorGraphId { index, generation }
}

#[test]
fn no_robots_no_output() {
    assert_eq!(export_factorgraphs_as_graphviz(&vec![], &styles()), None);
}

#[test]
fn one_robot_without_nodes() {
    let robots = vec![RobotGraph {
        robot_id: id(4, 1),
        nodes: vec![],
        edges: vec![],
        antenna_active: true,
    }];
    let expected = "graph {\n  dpi=96;\n  label=\"factorgraph\"\n  node [style=filled];\n  layout=neato;\n  subgraph \"4v1\" {\n  margin=16\n  label=\"4v1\"\n}\n\n}\n";
    assert_eq!(
        export_factorgraphs_as_graphviz(&robots, &styles()),
        Some(expected.to_string())
    );
}

#[test]
fn two_robots_with_a_connection_each() {
    let robots = vec![
        RobotGraph {
            robot_id: id(0, 1),
            nodes: vec![
                Node {
                    index: 0,
                    kind: NodeKind::Variable,
                },
                Node {
                    index: 1,
                    kind: NodeKind::DynamicFactor,
                },
                Node {
                    index: 2,
                    kind: NodeKind::Variable,
                },
                Node {
                    index: 3,
                    kind: NodeKind::ObstacleFactor,
                },
                Node {
                    index: 4,
                    kind: NodeKind::TrackingFactor,
                },
                Node {
                    index: 5,
                    kind: NodeKind::InterRobotFactor {
                        active: true,
                        external_variable_id: ExternalVariableId {
                            factorgraph_id: id(12, 3),
                            variable_index: 2,
                        },
                    },
                },
            ],
            edges: vec![
                Edge { from: 0, to: 1 },
                Edge { from: 1, to: 2 },
                Edge { from: 2, to: 3 },
                Edge { from: 2, to: 4 },
                Edge { from: 2, to: 5 },
            ],
            antenna_active: true,
        },
        RobotGraph {
            robot_id: id(12, 3),
            nodes: vec![
                Node {
                    index: 2,
                    kind: NodeKind::Variable,
                },
                Node {
                    index: 10,
                    kind: NodeKind::InterRobotFactor {
                        active: false,
                        external_variable_id: ExternalVariableId {
                            factorgraph_id: id(0, 1),
                            variable_index: 2,
                        },
                    },
                },
            ],
            edges: vec![Edge { from: 2, to: 10 }],
            antenna_active: false,
        },
    ];
    let expected = concat_lines(&[
        "graph {",
        "  dpi=96;",
        "  label=\"factorgraph\"",
        "  node [style=filled];",
        "  layout=neato;",
        "  subgraph \"0v1\" {",
        "  margin=16",
        "  label=\"0v1\"",
        "\"0v1_0\" [label=\"v0\", fillcolor=\"#eff1f5\", shape=circle, width=\"0.8\"]",
        "\"0v1_1\" [label=\"fd\", fillcolor=\"#8aadf4\", shape=square, width=\"0.2\"]",
        "\"0v1_2\" [label=\"v2\", fillcolor=\"#eff1f5\", shape=circle, width=\"0.8\"]",
        "\"0v1_3\" [label=\"fo\", fillcolor=\"#ee99a0\", shape=square, width=\"0.2\"]",
        "\"0v1_4\" [label=\"ft\", fillcolor=\"#f4a15a\", shape=square, width=\"0.2\"]",
        "\"0v1_5\" [label=\"fr\", fillcolor=\"#a6da95\", shape=square, width=\"0.2\"]",
        "}",
        "",
        "\"0v1_0\" -- \"0v1_1\"",
        "\"0v1_1\" -- \"0v1_2\"",
        "\"0v1_2\" -- \"0v1_3\"",
        "\"0v1_2\" -- \"0v1_4\"",
        "\"0v1_2\" -- \"0v1_5\"",
        "  subgraph \"12v3\" {",
        "  margin=16",
        "  label=\"12v3\"",
        "\"12v3_2\" [label=\"v2\", fillcolor=\"#eff1f5\", shape=circle, width=\"0.8\"]",
        "\"12v3_10\" [label=\"fr\", fillcolor=\"#a6da95\", shape=square, width=\"0.2\"]",
        "}",
        "",
        "\"12v3_2\" -- \"12v3_10\"",
        " \"0v1_5\" -- \"12v3_2\" [len=8, style=solid, color=\"red\", penwidth=3.0]",
        " \"12v3_10\" -- \"0v1_2\" [len=8.5, style=dashed, color=\"gray\", penwidth=3.0]",
        "}",
    ]);
    assert_eq!(
        export_factorgraphs_as_graphviz(&robots, &styles()),
        Some(expected)
    );
}

fn concat_lines(lines: &[&str]) -> String {
    let mut text = String::new();
    for line in lines {
        text.push_str(line);
        text.push('\n');
    }
    text
}

#[test]
fn node_looks() {
    let variable = Node {
        index: 0,
        kind: NodeKind::Variable,
    };
    assert_eq!(variable.color(), "#eff1f5");
    assert_eq!(variable.shape(), "circle");
    assert_eq!(variable.width(), "0.8");
    let factor = Node {
        index: 1,
        kind: NodeKind::InterRobotFactor {
            active: true,
            external_variable_id: ExternalVariableId {
                factorgraph_id: id(1, 1),
                variable_index: 0,
            },
        },
    };
    assert_eq!(factor.color(), "#a6da95");
    assert_eq!(factor.shape(), "square");
    assert_eq!(factor.width(), "0.2");
    assert_eq!(NodeKind::DynamicFactor.color(), "#8aadf4");
    assert_eq!(NodeKind::ObstacleFactor.color(), "#ee99a0");
    assert_eq!(NodeKind::TrackingFactor.color(), "#f4a15a");
    assert_eq!(NodeKind::TrackingFactor.shape(), "square");
    assert_eq!(NodeKind::ObstacleFactor.width(), "0.2");
}

fn sample_robots() -> Vec<RobotGraph> {
    vec![
        RobotGraph {
            robot_id: id(0, 1),
            nodes: vec![
                Node {
                    index: 0,
                    kind: NodeKind::Variable,
                },
                Node {
                    index: 1,
                    kind: NodeKind::DynamicFactor,
                },
                Node {
                    index: 2,
                    kind: NodeKind::Variable,
                },
                Node {
                    index: 3,
                    kind: NodeKind::ObstacleFactor,
                },
                Node {
                    index: 4,
                    kind: NodeKind::TrackingFactor,
                },
                Node {
                    index: 5,
                    kind: NodeKind::InterRobotFactor {
                        active: true,
                        external_variable_id: ExternalVariableId {
                            factorgraph_id: id(4294967295, 7),
                            variable_index: 2,
                        },
                    },
                },
            ],
            edges: vec![
                Edge { from: 0, to: 1 },
                Edge { from: 1, to: 2 },
                Edge { from: 2, to: 3 },
                Edge { from: 2, to: 4 },
                Edge { from: 2, to: 5 },
            ],
            antenna_active: true,
        },
        RobotGraph {
            robot_id: id(4294967295, 7),
            nodes: vec![
                Node {
                    index: 2,
                    kind: NodeKind::Variable,
                },
                Node {
                    index: usize::MAX,
                    kind: NodeKind::InterRobotFactor {
                        active: false,
                        external_variable_id: ExternalVariableId {
                            factorgraph_id: id(0, 1),
                            variable_index: 2,
                        },
                    },
                },
            ],
            edges: vec![Edge {
                from: 2,
                to: usize::MAX,
            }],
            antenna_active: false,
        },
    ]
}

#[test]
fn description_reads_back() {
    let robots = sample_robots();
    let text = export_factorgraphs_as_graphviz(&robots, &styles()).unwrap();
    let description = read_description(&text);

    let mut nodes = Vec::new();
    let mut edges = Vec::new();
    for robot in &robots {
        for node in &robot.nodes {
            nodes.push(DeclaredNode {
                graph: robot.robot_id,
                index: node.index,
                kind: node.kind.tag(),
            });
        }
        for edge in &robot.edges {
            edges.push(DeclaredEdge {
                from_graph: robot.robot_id,
                from: edge.from,
                to_graph: robot.robot_id,
                to: edge.to,
            });
        }
    }
    for robot in &robots {
        for node in &robot.nodes {
            if let NodeKind::InterRobotFactor {
                external_variable_id,
                ..
            } = node.kind
            {
                edges.push(DeclaredEdge {
                    from_graph: robot.robot_id,
                    from: node.index,
                    to_graph: external_variable_id.factorgraph_id,
                    to: external_variable_id.variable_index,
                });
            }
        }
    }
    assert_eq!(description.nodes, nodes);
    assert_eq!(description.edges, edges);
    assert_eq!(description.nodes.len(), 8);
    assert_eq!(description.edges.len(), 8);
    assert_eq!(description.nodes[5].kind, NodeKindTag::InterRobotFactor);
    assert_eq!(
        description.edges[7],
        DeclaredEdge {
            from_graph: id(4294967295, 7),
            from: usize::MAX,
            to_graph: id(0, 1),
            to: 2,
        }
    );
}

#[test]
fn lines_are_read_one_by_one() {
    let chars = |s: &str| -> Vec<char> { s.chars().collect() };
    assert_eq!(
        line_said(&chars(
            "\"3v1_12\" [label=\"v12\", fillcolor=\"#eff1f5\", shape=circle, width=\"0.8\"]"
        )),
        Line::Node(DeclaredNode {
            graph: id(3, 1),
            index: 12,
            kind: NodeKindTag::Variable
        })
    );
    assert_eq!(
        line_said(&chars("\"3v1_13\" [label=\"fo\"")),
        Line::Node(DeclaredNode {
            graph: id(3, 1),
            index: 13,
            kind: NodeKindTag::ObstacleFactor
        })
    );
    assert_eq!(
        line_said(&chars("\"3v1_12\" -- \"3v1_13\"")),
        Line::Edge(DeclaredEdge {
            from_graph: id(3, 1),
            from: 12,
            to_graph: id(3, 1),
            to: 13
        })
    );
    assert_eq!(
        line_said(&chars(" \"3v1_12\" -- \"4v2_0\" [len=1]")),
        Line::Edge(DeclaredEdge {
            from_graph: id(3, 1),
            from: 12,
            to_graph: id(4, 2),
            to: 0
        })
    );
    for other in [
        "",
        "}",
        "graph {",
        "  dpi=96;",
        "  subgraph \"3v1\" {",
        "  \"3v1_12\" -- \"3v1_13\"",
        "\"3v1_12\"",
        "\"3v1_12\" [label=\"x\"]",
        "\"3v1_12\" [label=\"f\"",
        "\"3v1_12\" [label=\"fx\"]",
        "\"3v1_12\" -- \"3v1_\"",
        "\"3v1_12\" - \"3v1_13\"",
        "\"v1_12\" -- \"3v1_13\"",
        "\"3v_12\" -- \"3v1_13\"",
        "\"3v1-12\" -- \"3v1_13\"",
        "\"3v1_12 -- \"3v1_13\"",
        "\"4294967296v1_12\" -- \"3v1_13\"",
        "\"3v4294967296_12\" -- \"3v1_13\"",
        "\"3v1_99999999999999999999999999\" -- \"3v1_13\"",
    ] {
        assert_eq!(line_said(&chars(other)), Line::Other, "{}", other);
    }
}

#[test]
fn last_line_needs_no_line_feed() {
    let description = read_description("\"1v1_0\" [label=\"v0\"]\n\n\"1v1_0\" -- \"1v1_1\"");
    assert_eq!(description.nodes.len(), 1);
    assert_eq!(description.edges.len(), 1);
    let description = read_description("");
    assert!(description.nodes.is_empty());
    assert!(description.edges.is_empty());
}
