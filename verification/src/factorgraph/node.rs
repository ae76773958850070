//! The node stored in a factor graph: a factor or a variable.
use vstd::prelude::*;

use crate::factorgraph::factor::FactorNode;
use crate::factorgraph::variable::VariableNode;
use crate::factorgraph::{FactorGraphId, MessagesReceived, MessagesSent};

verus! {

/// Returned when a node has no connection to the given factor graph.
#[derive(Debug, PartialEq, Eq, Structural)]
pub struct RemoveConnectionToError;

impl RemoveConnectionToError {
    /// Describes the error.
    pub fn to_string(&self) -> (text: String)
        ensures
            text@ == "no connection to the given factorgraph"@,
    {
        "no connection to the given factorgraph".to_owned()
    }
}

/// What every node of a factor graph can do, whatever its kind.
pub trait FactorGraphNode {
    /// Whether the node is in order.
    spec fn wf(&self) -> bool;

    /// Whether the node holds a message of a node of graph `graph`.
    spec fn connected_to(&self, graph: FactorGraphId) -> bool;

    /// How many messages the node has sent.
    spec fn spec_messages_sent(&self) -> MessagesSent;

    /// How many messages the node has received.
    spec fn spec_messages_received(&self) -> MessagesReceived;

    /// Forgets the messages of all nodes of graph `factorgraph_id`, or fails
    /// if there is none. The connections to other graphs and the counts stay.
    fn remove_connection_to(&mut self, factorgraph_id: FactorGraphId) -> (removed: Result<
        (),
        RemoveConnectionToError,
    >)
        requires
            old(self).wf(),
        ensures
            final(self).wf(),
            removed.is_ok() <==> old(self).connected_to(factorgraph_id),
            !final(self).connected_to(factorgraph_id),
            forall|graph: FactorGraphId|
                graph != factorgraph_id ==>
                    #[trigger] final(self).connected_to(graph) == old(self).connected_to(graph),
            final(self).spec_messages_sent() == old(self).spec_messages_sent(),
            final(self).spec_messages_received() == old(self).spec_messages_received(),
    ;

    /// How many messages the node has sent.
    fn messages_sent(&self) -> (count: MessagesSent)
        ensures
            count == self.spec_messages_sent(),
    ;

    /// How many messages the node has received.
    fn messages_received(&self) -> (count: MessagesReceived)
        ensures
            count == self.spec_messages_received(),
    ;

    /// Starts both counts again at zero. The connections stay.
    fn reset_message_count(&mut self)
        requires
            old(self).wf(),
        ensures
            final(self).wf(),
            final(self).spec_messages_sent() == (MessagesSent { internal: 0, external: 0 }),
            final(self).spec_messages_received() == (MessagesReceived {
                internal: 0,
                external: 0,
            }),
            forall|graph: FactorGraphId|
                #[trigger] final(self).connected_to(graph) == old(self).connected_to(graph),
    ;
}

/// Different variants a factorgraph node can be
#[derive(Debug)]
pub enum NodeKind<M> {
    /// The node is a factor
    Factor(FactorNode<M>),
    /// The node is a variable
    Variable(VariableNode<M>),
}

/// The node stored in the factorgraph
#[derive(Debug)]
pub struct Node<M> {
    /// The graph that the node belongs to.
    pub factorgraph_id: FactorGraphId,
    /// The kind of this node, either Variable or some Factor
    pub kind: NodeKind<M>,
}

impl<M> NodeKind<M> {
    /// Returns `true` if the node is a factor.
    pub fn is_factor(&self) -> (is: bool)
        ensures
            is == (self is Factor),
    {
        match self {
            NodeKind::Factor(_) => true,
            NodeKind::Variable(_) => false,
        }
    }

    /// Returns `true` if the node is a variable.
    pub fn is_variable(&self) -> (is: bool)
        ensures
            is == (self is Variable),
    {
        match self {
            NodeKind::Factor(_) => false,
            NodeKind::Variable(_) => true,
        }
    }
}

impl<M> Node<M> {
    /// Construct a new node
    pub fn new(factorgraph_id: FactorGraphId, kind: NodeKind<M>) -> (node: Self)
        ensures
            node.factorgraph_id == factorgraph_id,
            node.kind == kind,
    {
        Self { factorgraph_id, kind }
    }

    /// Returns `true` if the node is a factor.
    pub fn is_factor(&self) -> (is: bool)
        ensures
            is == (self.kind is Factor),
    {
        self.kind.is_factor()
    }

    /// Returns a reference to the inner factor node. The node is a factor.
    pub fn factor(&self) -> (factor: &FactorNode<M>)
        requires
            self.kind is Factor,
        ensures
            *factor == self.kind->Factor_0,
    {
        match &self.kind {
            NodeKind::Factor(factor) => factor,
            NodeKind::Variable(_) => unreached(),
        }
    }

    /// Returns a mutable reference to the inner factor node. The node is a
    /// factor.
    pub fn factor_mut(&mut self) -> (factor: &mut FactorNode<M>)
        requires
            old(self).kind is Factor,
        ensures
            *factor == old(self).kind->Factor_0,
            final(self).kind == NodeKind::Factor(*final(factor)),
            final(self).factorgraph_id == old(self).factorgraph_id,
    {
        match &mut self.kind {
            NodeKind::Factor(factor) => factor,
            NodeKind::Variable(_) => unreached(),
        }
    }

    /// Returns `Some(&Factor)` if the node's variant is a factor, otherwise
    /// `None`.
    pub fn as_factor(&self) -> (factor: Option<&FactorNode<M>>)
        ensures
            match factor {
                Some(factor) => self.kind == NodeKind::Factor(*factor),
                None => self.kind is Variable,
            },
    {
        if let NodeKind::Factor(ref v) = self.kind {
            Some(v)
        } else {
            None
        }
    }

    /// Returns `Some(&mut Factor)` if the node's variant is a factor,
    /// otherwise `None`.
    pub fn as_factor_mut(&mut self) -> (factor: Option<&mut FactorNode<M>>)
        ensures
            match factor {
                Some(factor) => old(self).kind == NodeKind::Factor(*factor) && final(self).kind
                    == NodeKind::Factor(*final(factor)),
                None => old(self).kind is Variable && final(self).kind == old(self).kind,
            },
            final(self).factorgraph_id == old(self).factorgraph_id,
    {
        if let NodeKind::Factor(ref mut v) = self.kind {
            Some(v)
        } else {
            None
        }
    }

    /// Returns `true` if the node is a variable.
    pub fn is_variable(&self) -> (is: bool)
        ensures
            is == (self.kind is Variable),
    {
        self.kind.is_variable()
    }

    /// Returns `Some(&Variable)` if the node's variant is a variable,
    /// otherwise `None`.
    pub fn as_variable(&self) -> (variable: Option<&VariableNode<M>>)
        ensures
            match variable {
                Some(variable) => self.kind == NodeKind::Variable(*variable),
                None => self.kind is Factor,
            },
    {
        if let NodeKind::Variable(ref v) = self.kind {
            Some(v)
        } else {
            None
        }
    }

    /// Returns `Some(&mut Variable)` if the node's variant is a variable,
    /// otherwise `None`.
    pub fn as_variable_mut(&mut self) -> (variable: Option<&mut VariableNode<M>>)
        ensures
            match variable {
                Some(variable) => old(self).kind == NodeKind::Variable(*variable)
                    && final(self).kind == NodeKind::Variable(*final(variable)),
                None => old(self).kind is Factor && final(self).kind == old(self).kind,
            },
            final(self).factorgraph_id == old(self).factorgraph_id,
    {
        if let NodeKind::Variable(ref mut v) = self.kind {
            Some(v)
        } else {
            None
        }
    }

    /// Returns a reference to the inner variable node. The node is a
    /// variable.
    pub fn variable(&self) -> (variable: &VariableNode<M>)
        requires
            self.kind is Variable,
        ensures
            *variable == self.kind->Variable_0,
    {
        match &self.kind {
            NodeKind::Variable(variable) => variable,
            NodeKind::Factor(_) => unreached(),
        }
    }

    /// Returns a mutable reference to the inner variable node. The node is a
    /// variable.
    pub fn variable_mut(&mut self) -> (variable: &mut VariableNode<M>)
        requires
            old(self).kind is Variable,
        ensures
            *variable == old(self).kind->Variable_0,
            final(self).kind == NodeKind::Variable(*final(variable)),
            final(self).factorgraph_id == old(self).factorgraph_id,
    {
        match &mut self.kind {
            NodeKind::Variable(variable) => variable,
            NodeKind::Factor(_) => unreached(),
        }
    }
}

impl<M> FactorGraphNode for Node<M> {
    open spec fn wf(&self) -> bool {
        match self.kind {
            NodeKind::Factor(factor) => factor.wf(),
            NodeKind::Variable(variable) => variable.wf(),
        }
    }

    open spec fn connected_to(&self, graph: FactorGraphId) -> bool {
        match self.kind {
            NodeKind::Factor(factor) => factor.connected_to(graph),
            NodeKind::Variable(variable) => variable.connected_to(graph),
        }
    }

    open spec fn spec_messages_sent(&self) -> MessagesSent {
        match self.kind {
            NodeKind::Factor(factor) => factor.spec_messages_sent(),
            NodeKind::Variable(variable) => variable.spec_messages_sent(),
        }
    }

    open spec fn spec_messages_received(&self) -> MessagesReceived {
        match self.kind {
            NodeKind::Factor(factor) => factor.spec_messages_received(),
            NodeKind::Variable(variable) => variable.spec_messages_received(),
        }
    }

    fn remove_connection_to(&mut self, factorgraph_id: FactorGraphId) -> (removed: Result<
        (),
        RemoveConnectionToError,
    >)
        ensures
            final(self).factorgraph_id == old(self).factorgraph_id,
            old(self).kind is Factor <==> final(self).kind is Factor,
    {
        match self.kind {
            NodeKind::Factor(ref mut factor) => factor.remove_connection_to(factorgraph_id),
            NodeKind::Variable(ref mut variable) => variable.remove_connection_to(factorgraph_id),
        }
    }

    fn messages_sent(&self) -> (count: MessagesSent) {
        match self.kind {
            NodeKind::Factor(ref factor) => factor.messages_sent(),
            NodeKind::Variable(ref variable) => variable.messages_sent(),
        }
    }

    fn messages_received(&self) -> (count: MessagesReceived) {
        match self.kind {
            NodeKind::Factor(ref factor) => factor.messages_received(),
            NodeKind::Variable(ref variable) => variable.messages_received(),
        }
    }

    fn reset_message_count(&mut self)
        ensures
            final(self).factorgraph_id == old(self).factorgraph_id,
            old(self).kind is Factor <==> final(self).kind is Factor,
    {
        match self.kind {
            NodeKind::Factor(ref mut factor) => factor.reset_message_count(),
            NodeKind::Variable(ref mut variable) => variable.reset_message_count(),
        };
    }
}

} // verus!
