use magics::factorgraph::export::{
    export_factorgraphs_as_graphviz, EdgeStyle, InterRobotEdgeStyles,
};
use magics::factorgraph::factor::{FactorKind, FactorNode};
use magics::factorgraph::graph::{FactorGraph, GraphInvariant};
use magics::factorgraph::graphviz::{Edge, ExportGraph, Node as Drawn, NodeKind as Look};
use magics::factorgraph::inbox::Inbox;
use magics::factorgraph::iteration::{
    messages_to_factors, messages_to_peers, messages_to_variables, Delivery, Outbound,
};
use magics::factorgraph::node::{FactorGraphNode, Node, NodeKind, RemoveConnectionToError};
use magics::factorgraph::parse::DeclaredEdge;
use magics::factorgraph::read::read_description;
use magics::factorgraph::variable::VariableNode;
use magics::factorgraph::{
    ExternalVariableId, FactorGraphId, FactorId, MessagesReceived, MessagesSent, VariableId,
};
use magics::schedule::Iteration;

fn graph(index: u32) -> FactorGraphId {
    FactorGraphId {
        index,
        generation: 1,
    }
}

fn factor_id(graph_index: u32, factor_index: usize) -> FactorId {
    FactorId {
        factorgraph_id: graph(graph_index),
        factor_index,
    }
}

fn variable_id(graph_index: u32, variable_index: usize) -> VariableId {
    VariableId {
        factorgraph_id: graph(graph_index),
        variable_index,
    }
}

fn a_variable() -> VariableNode<f64> {
    let mut variable = VariableNode::new(graph(1), 0.5);
    variable.receive(factor_id(1, 0), 1.0);
    variable.receive(factor_id(1, 1), 2.0);
    variable.receive(factor_id(2, 0), 3.0);
    variable.receive(factor_id(3, 4), 4.0);
    variable
}

fn a_factor() -> FactorNode<f64> {
    let mut factor = FactorNode::new(
        graph(1),
        FactorKind::InterRobot {
            active: true,
            external_variable_id: ExternalVariableId {
                factorgraph_id: graph(2),
                variable_index: 3,
            },
        },
        vec![variable_id(1, 3), variable_id(2, 3)],
    );
    factor.receive(variable_id(1, 3), 10.0);
    factor.receive(variable_id(2, 3), 20.0);
    factor
}

#[test]
fn inbox_keeps_the_last_message_of_each_sender() {
    let mut inbox: Inbox<&str> = Inbox::new();
    assert_eq!(inbox.len(), 0);
    inbox.insert(graph(1), 0, "a");
    inbox.insert(graph(1), 1, "b");
    inbox.insert(graph(2), 0, "c");
    assert_eq!(inbox.len(), 3);
    inbox.insert(graph(1), 1, "d");
    assert_eq!(inbox.len(), 3);
    assert_eq!(inbox.get(graph(1), 0), Some(&"a"));
    assert_eq!(inbox.get(graph(1), 1), Some(&"d"));
    assert_eq!(inbox.get(graph(2), 0), Some(&"c"));
    assert_eq!(inbox.get(graph(2), 1), None);
    assert_eq!(inbox.find(graph(2), 0), Some(2));
    assert_eq!(inbox.find(graph(3), 0), None);
    assert_eq!(*inbox.message_at(1), "d");
    assert_eq!(inbox.messages_except(graph(1), 0), vec![&"d", &"c"]);
    assert_eq!(inbox.messages_except(graph(9), 0), vec![&"a", &"d", &"c"]);
}

#[test]
fn inbox_forgets_a_graph() {
    let mut inbox: Inbox<u8> = Inbox::new();
    inbox.insert(graph(1), 0, 1);
    inbox.insert(graph(2), 0, 2);
    inbox.insert(graph(1), 1, 3);
    inbox.insert(graph(3), 0, 4);
    inbox.insert(graph(1), 2, 5);
    assert_eq!(inbox.remove_graph(graph(1)), 3);
    assert_eq!(inbox.len(), 2);
    assert_eq!(inbox.messages_except(graph(0), 0), vec![&2, &4]);
    assert_eq!(inbox.remove_graph(graph(1)), 0);
    assert_eq!(inbox.len(), 2);
    assert_eq!(inbox.remove_graph(graph(3)), 1);
    assert_eq!(inbox.remove_graph(graph(2)), 1);
    assert_eq!(inbox.len(), 0);
}

#[test]
fn variable_belief_is_prior_and_all_messages() {
    let variable = a_variable();
    assert_eq!(variable.prior(), &0.5);
    assert_eq!(variable.belief(), vec![&0.5, &1.0, &2.0, &3.0, &4.0]);
}

#[test]
fn variable_message_excludes_the_target() {
    let variable = a_variable();
    assert_eq!(
        variable.message_to(factor_id(1, 1)),
        vec![&0.5, &1.0, &3.0, &4.0]
    );
    assert_eq!(
        variable.message_to(factor_id(2, 0)),
        vec![&0.5, &1.0, &2.0, &4.0]
    );
    assert_eq!(
        variable.message_to(factor_id(7, 7)),
        vec![&0.5, &1.0, &2.0, &3.0, &4.0]
    );
}

#[test]
fn variable_receive_overwrites() {
    let mut variable = a_variable();
    variable.receive(factor_id(1, 1), 20.0);
    assert_eq!(variable.belief(), vec![&0.5, &1.0, &20.0, &3.0, &4.0]);
    variable.set_prior(0.25);
    assert_eq!(variable.belief(), vec![&0.25, &1.0, &20.0, &3.0, &4.0]);
}

#[test]
fn variable_counts_messages() {
    let mut variable = a_variable();
    assert_eq!(
        variable.messages_received(),
        MessagesReceived {
            internal: 2,
            external: 2
        }
    );
    assert_eq!(
        variable.messages_sent(),
        MessagesSent {
            internal: 0,
            external: 0
        }
    );
    variable.count_sent(graph(1));
    variable.count_sent(graph(1));
    variable.count_sent(graph(2));
    assert_eq!(
        variable.messages_sent(),
        MessagesSent {
            internal: 2,
            external: 1
        }
    );
    variable.reset_message_count();
    assert_eq!(
        variable.messages_sent(),
        MessagesSent {
            internal: 0,
            external: 0
        }
    );
    assert_eq!(
        variable.messages_received(),
        MessagesReceived {
            internal: 0,
            external: 0
        }
    );
    assert_eq!(variable.belief().len(), 5);
}

#[test]
fn variable_removes_connections() {
    let mut variable = a_variable();
    assert_eq!(variable.remove_connection_to(graph(2)), Ok(()));
    assert_eq!(variable.belief(), vec![&0.5, &1.0, &2.0, &4.0]);
    assert_eq!(
        variable.remove_connection_to(graph(2)),
        Err(RemoveConnectionToError)
    );
    assert_eq!(variable.remove_connection_to(graph(1)), Ok(()));
    assert_eq!(variable.belief(), vec![&0.5, &4.0]);
    assert_eq!(
        variable.messages_received(),
        MessagesReceived {
            internal: 2,
            external: 2
        }
    );
}

#[test]
fn factor_holds_what_it_was_made_with() {
    let mut factor = a_factor();
    assert!(factor.kind().is_external());
    assert!(!FactorKind::Dynamics.is_external());
    assert!(!FactorKind::Obstacle.is_external());
    assert!(!FactorKind::Tracking.is_external());
    assert_eq!(factor.adjacent(), &vec![variable_id(1, 3), variable_id(2, 3)]);
    assert!(factor.is_enabled());
    assert!(factor.informs());
    factor.set_active(false);
    assert!(factor.is_enabled());
    assert!(!factor.informs());
    factor.set_active(true);
    factor.set_enabled(false);
    assert!(!factor.informs());
    factor.set_enabled(true);
    assert!(factor.informs());

    let mut dynamics: FactorNode<f64> = FactorNode::new(
        graph(1),
        FactorKind::Dynamics,
        vec![variable_id(1, 0), variable_id(1, 1)],
    );
    dynamics.set_active(false);
    assert_eq!(dynamics.kind(), FactorKind::Dynamics);
    assert!(dynamics.informs());
}

#[test]
fn factor_messages_of_the_other_variables() {
    let mut factor = a_factor();
    assert_eq!(factor.messages_of_others(variable_id(1, 3)), vec![&20.0]);
    assert_eq!(factor.messages_of_others(variable_id(2, 3)), vec![&10.0]);
    factor.receive(variable_id(2, 3), 30.0);
    assert_eq!(factor.messages_of_others(variable_id(1, 3)), vec![&30.0]);
    assert_eq!(
        factor.messages_received(),
        MessagesReceived {
            internal: 1,
            external: 2
        }
    );
    factor.count_sent(graph(2));
    assert_eq!(
        factor.messages_sent(),
        MessagesSent {
            internal: 0,
            external: 1
        }
    );
    assert_eq!(factor.remove_connection_to(graph(2)), Ok(()));
    assert_eq!(
        factor.messages_of_others(variable_id(2, 3)),
        vec![&10.0]
    );
    assert_eq!(
        factor.remove_connection_to(graph(2)),
        Err(RemoveConnectionToError)
    );
    factor.reset_message_count();
    assert_eq!(
        factor.messages_received(),
        MessagesReceived {
            internal: 0,
            external: 0
        }
    );
}

#[test]
fn node_tells_factors_from_variables() {
    let mut node = Node::new(graph(1), NodeKind::Factor(a_factor()));
    assert!(node.is_factor());
    assert!(!node.is_variable());
    assert!(node.kind.is_factor());
    assert!(node.as_factor().is_some());
    assert!(node.as_variable().is_none());
    assert!(node.as_factor_mut().is_some());
    assert!(node.as_variable_mut().is_none());
    assert!(node.factor().informs());
    node.factor_mut().set_enabled(false);
    assert!(!node.factor().informs());
    assert_eq!(node.factorgraph_id, graph(1));

    let mut node = Node::new(graph(1), NodeKind::Variable(a_variable()));
    assert!(!node.is_factor());
    assert!(node.is_variable());
    assert!(node.kind.is_variable());
    assert!(node.as_factor().is_none());
    assert!(node.as_variable().is_some());
    assert!(node.as_factor_mut().is_none());
    assert_eq!(node.variable().prior(), &0.5);
    node.variable_mut().set_prior(0.75);
    assert_eq!(node.variable().prior(), &0.75);
    if let Some(variable) = node.as_variable_mut() {
        variable.set_prior(1.5);
    }
    assert_eq!(node.as_variable().unwrap().prior(), &1.5);
}

#[test]
fn node_passes_on_to_what_it_holds() {
    let mut node = Node::new(graph(1), NodeKind::Variable(a_variable()));
    assert_eq!(
        node.messages_received(),
        MessagesReceived {
            internal: 2,
            external: 2
        }
    );
    assert_eq!(node.remove_connection_to(graph(3)), Ok(()));
    assert_eq!(
        node.remove_connection_to(graph(3)),
        Err(RemoveConnectionToError)
    );
    assert_eq!(node.variable().belief().len(), 4);
    node.reset_message_count();
    assert_eq!(
        node.messages_received(),
        MessagesReceived {
            internal: 0,
            external: 0
        }
    );

    let mut node = Node::new(graph(1), NodeKind::Factor(a_factor()));
    node.factor_mut().count_sent(graph(1));
    assert_eq!(
        node.messages_sent(),
        MessagesSent {
            internal: 1,
            external: 0
        }
    );
    assert_eq!(node.remove_connection_to(graph(1)), Ok(()));
    assert_eq!(
        node.remove_connection_to(graph(1)),
        Err(RemoveConnectionToError)
    );
    assert_eq!(
        RemoveConnectionToError.to_string(),
        "no connection to the given factorgraph"
    );
}

#[test]
fn graph_grows_and_is_exported() {
    let mut graph: FactorGraph<f64> = FactorGraph::new(graph(1));
    assert_eq!(graph.id(), self::graph(1));
    assert_eq!(graph.len(), 0);
    assert_eq!(graph.add_variable(0.5), variable_id(1, 0));
    assert_eq!(graph.add_variable(1.5), variable_id(1, 1));
    assert_eq!(
        graph.add_factor(FactorKind::Dynamics, &vec![0, 1]),
        Some(factor_id(1, 2))
    );
    assert_eq!(graph.add_factor(FactorKind::Obstacle, &vec![2]), None);
    assert_eq!(graph.add_factor(FactorKind::Obstacle, &vec![0, 9]), None);
    assert_eq!(graph.len(), 3);
    assert_eq!(
        graph.add_factor(FactorKind::Obstacle, &vec![1]),
        Some(factor_id(1, 3))
    );
    assert_eq!(
        graph.add_factor(FactorKind::Tracking, &vec![1]),
        Some(factor_id(1, 4))
    );
    let external = ExternalVariableId {
        factorgraph_id: self::graph(2),
        variable_index: 1,
    };
    assert_eq!(
        graph.add_factor(
            FactorKind::InterRobot {
                active: true,
                external_variable_id: external
            },
            &vec![1]
        ),
        Some(factor_id(1, 5))
    );
    assert!(graph.is_variable(0));
    assert!(!graph.is_variable(2));
    assert!(!graph.is_variable(6));
    assert!(graph.node(5).unwrap().is_factor());
    assert!(graph.node(6).is_none());
    assert_eq!(
        graph.node(2).unwrap().factor().adjacent(),
        &vec![variable_id(1, 0), variable_id(1, 1)]
    );

    let (nodes, edges) = graph.export_graph();
    assert_eq!(
        nodes,
        vec![
            Drawn {
                index: 0,
                kind: Look::Variable
            },
            Drawn {
                index: 1,
                kind: Look::Variable
            },
            Drawn {
                index: 2,
                kind: Look::DynamicFactor
            },
            Drawn {
                index: 3,
                kind: Look::ObstacleFactor
            },
            Drawn {
                index: 4,
                kind: Look::TrackingFactor
            },
            Drawn {
                index: 5,
                kind: Look::InterRobotFactor {
                    active: true,
                    external_variable_id: external
                }
            },
        ]
    );
    assert_eq!(
        edges,
        vec![
            Edge { from: 2, to: 0 },
            Edge { from: 2, to: 1 },
            Edge { from: 3, to: 1 },
            Edge { from: 4, to: 1 },
            Edge { from: 5, to: 1 },
        ]
    );

    assert_eq!(graph.deliver(1, self::graph(1), 2, 7.0), Ok(()));
    assert_eq!(graph.deliver(1, self::graph(2), 5, 8.0), Ok(()));
    assert_eq!(graph.deliver(2, self::graph(1), 1, 9.0), Ok(()));
    assert_eq!(
        graph.deliver(6, self::graph(1), 1, 9.0),
        Err(GraphInvariant { index: 6 })
    );
    assert_eq!(
        graph.node(1).unwrap().variable().belief(),
        vec![&1.5, &7.0, &8.0]
    );
    assert_eq!(
        graph.node(1).unwrap().variable().message_to(factor_id(1, 2)),
        vec![&1.5, &8.0]
    );
    assert_eq!(
        graph
            .node(2)
            .unwrap()
            .factor()
            .messages_of_others(variable_id(1, 0)),
        vec![&9.0]
    );
}

#[test]
fn graph_is_described_and_read_back() {
    let mut first: FactorGraph<u8> = FactorGraph::new(graph(1));
    first.add_variable(0);
    first.add_variable(0);
    first.add_factor(FactorKind::Dynamics, &vec![0, 1]);
    first.add_factor(
        FactorKind::InterRobot {
            active: true,
            external_variable_id: ExternalVariableId {
                factorgraph_id: graph(2),
                variable_index: 0,
            },
        },
        &vec![1],
    );
    let mut second: FactorGraph<u8> = FactorGraph::new(graph(2));
    second.add_variable(0);
    second.add_factor(FactorKind::Obstacle, &vec![0]);

    let robots = vec![first.robot_graph(true), second.robot_graph(false)];
    assert_eq!(robots[0].robot_id, graph(1));
    assert!(robots[0].antenna_active);
    assert_eq!(robots[0].nodes.len(), 4);
    assert_eq!(robots[1].edges, vec![Edge { from: 1, to: 0 }]);
    let style = || EdgeStyle {
        len: "1".to_string(),
        style: "solid".to_string(),
        color: "black".to_string(),
    };
    let styles = InterRobotEdgeStyles {
        active: style(),
        inactive: style(),
    };
    let text = export_factorgraphs_as_graphviz(&robots, &styles).unwrap();
    let description = read_description(&text);
    assert_eq!(description.nodes.len(), 6);
    assert_eq!(description.edges.len(), 5);
    assert_eq!(
        description.edges[4],
        DeclaredEdge {
            from_graph: graph(1),
            from: 3,
            to_graph: graph(2),
            to: 0,
        }
    );
}

#[test]
fn an_iteration_sends_its_messages_in_order() {
    let external = ExternalVariableId {
        factorgraph_id: graph(2),
        variable_index: 1,
    };
    let mut graph: FactorGraph<u8> = FactorGraph::new(graph(1));
    graph.add_variable(0); // 0
    graph.add_variable(0); // 1
    graph.add_factor(FactorKind::Dynamics, &vec![0, 1]); // 2
    graph.add_variable(0); // 3
    graph.add_factor(FactorKind::Obstacle, &vec![1]); // 4
    graph.add_factor(
        FactorKind::InterRobot {
            active: true,
            external_variable_id: external,
        },
        &vec![1],
    ); // 5
    graph.add_factor(FactorKind::Dynamics, &vec![1, 3]); // 6
    graph.add_factor(FactorKind::Tracking, &vec![0]); // 7

    let d = |from: usize, to: usize| Delivery { from, to };
    assert_eq!(
        messages_to_factors(&graph, Iteration::Internal),
        vec![d(0, 2), d(0, 7), d(1, 2), d(1, 4), d(1, 6), d(3, 6)]
    );
    assert_eq!(
        messages_to_factors(&graph, Iteration::External),
        vec![d(1, 5)]
    );
    assert_eq!(
        messages_to_variables(&graph, Iteration::Internal),
        vec![d(2, 0), d(2, 1), d(4, 1), d(6, 1), d(6, 3), d(7, 0)]
    );
    assert_eq!(
        messages_to_variables(&graph, Iteration::External),
        vec![d(5, 1)]
    );
    assert_eq!(
        messages_to_peers(&graph),
        vec![Outbound {
            from: 5,
            to: external
        }]
    );
    assert_eq!(graph.edge_count(), 7);
    assert_eq!(graph.edge(2), Edge { from: 4, to: 1 });

    for delivery in messages_to_factors(&graph, Iteration::Internal) {
        assert_eq!(
            graph.deliver(delivery.to, graph.id(), delivery.from, 1),
            Ok(())
        );
    }
    for delivery in messages_to_variables(&graph, Iteration::Internal) {
        assert_eq!(
            graph.deliver(delivery.to, graph.id(), delivery.from, 2),
            Ok(())
        );
    }
    assert_eq!(
        graph.node(1).unwrap().variable().belief(),
        vec![&0, &2, &2, &2]
    );
    assert_eq!(
        graph.node(6).unwrap().factor().messages_of_others(variable_id(1, 1)),
        vec![&1]
    );

    let empty: FactorGraph<u8> = FactorGraph::new(self::graph(3));
    assert!(messages_to_factors(&empty, Iteration::Internal).is_empty());
    assert!(messages_to_variables(&empty, Iteration::External).is_empty());
    assert!(messages_to_peers(&empty).is_empty());
}
