//! A factor node: a constraint over one or two variables.
use vstd::prelude::*;

use crate::factorgraph::inbox::{
    lemma_position_of, messages_except, position_of, without_graph, Entry, Inbox,
};
use crate::factorgraph::node::{FactorGraphNode, RemoveConnectionToError};
use crate::factorgraph::{
    count_one_more, one_more, ExternalVariableId, FactorGraphId, MessagesReceived, MessagesSent,
    VariableId,
};

verus! {

/// The kinds of factor.
#[derive(Debug, Clone, Copy, PartialEq, Eq, Structural)]
pub enum FactorKind {
    /// Ties two consecutive time steps of one robot together.
    Dynamics,
    /// Pushes a variable out of obstacles.
    Obstacle,
    /// Keeps a variable at a safe distance from the variable of another robot
    /// at the same time step.
    InterRobot {
        /// Whether the two robots are in reach of each other's radio.
        active: bool,
        /// The variable of the other robot.
        external_variable_id: ExternalVariableId,
    },
    /// Pulls a variable towards the robot's path.
    Tracking,
}

impl FactorKind {
    /// Whether a factor of this kind lies between two robots.
    pub open spec fn spec_is_external(self) -> bool {
        self is InterRobot
    }

    /// Whether a factor of this kind lies between two robots. All other
    /// factors are internal to one robot's graph.
    pub fn is_external(self) -> (external: bool)
        ensures
            external == self.spec_is_external(),
    {
        match self {
            FactorKind::InterRobot { .. } => true,
            _ => false,
        }
    }
}

/// A factor of a factor graph. It holds the handles of the variables it is
/// connected to, in a fixed order, and the last message of each of them.
#[derive(Debug)]
pub struct FactorNode<M> {
    factorgraph_id: FactorGraphId,
    kind: FactorKind,
    adjacent: Vec<VariableId>,
    inbox: Inbox<M>,
    enabled: bool,
    sent: MessagesSent,
    received: MessagesReceived,
}

impl<M> FactorNode<M> {
    /// The graph that the factor belongs to.
    pub closed spec fn graph(&self) -> FactorGraphId {
        self.factorgraph_id
    }

    /// The kind of the factor.
    pub closed spec fn spec_kind(&self) -> FactorKind {
        self.kind
    }

    /// The variables that the factor is connected to, in the order given
    /// when the factor was made.
    pub closed spec fn spec_adjacent(&self) -> Seq<VariableId> {
        self.adjacent@
    }

    /// Whether the factor is switched on.
    pub closed spec fn spec_enabled(&self) -> bool {
        self.enabled
    }

    /// The last message of each variable, in the order in which the
    /// variables first sent one.
    pub closed spec fn inbox(&self) -> Seq<Entry<M>> {
        self.inbox@
    }

    /// Whether variable `variable_id` has sent a message.
    pub closed spec fn has_message_from(&self, variable_id: VariableId) -> bool {
        self.inbox.has(variable_id.factorgraph_id, variable_id.variable_index)
    }

    /// The last message of variable `variable_id`, which has sent one.
    pub closed spec fn message_from(&self, variable_id: VariableId) -> M {
        self.inbox@[position_of(
            self.inbox@,
            variable_id.factorgraph_id,
            variable_id.variable_index,
        )].message
    }

    /// Whether the factor has something to say: it is switched on, and if it
    /// lies between two robots, these are in reach of each other. A factor
    /// that has nothing to say sends empty messages.
    pub open spec fn spec_informs(&self) -> bool {
        self.spec_enabled() && match self.spec_kind() {
            FactorKind::InterRobot { active, .. } => active,
            _ => true,
        }
    }

    /// A factor of graph `factorgraph_id` over the variables `adjacent`,
    /// switched on, without a message and with both counts at zero.
    pub fn new(
        factorgraph_id: FactorGraphId,
        kind: FactorKind,
        adjacent: Vec<VariableId>,
    ) -> (factor: Self)
        ensures
            factor.wf(),
            factor.graph() == factorgraph_id,
            factor.spec_kind() == kind,
            factor.spec_adjacent() == adjacent@,
            factor.spec_enabled(),
            factor.inbox().len() == 0,
            factor.spec_messages_sent() == (MessagesSent { internal: 0, external: 0 }),
            factor.spec_messages_received() == (MessagesReceived { internal: 0, external: 0 }),
    {
        FactorNode {
            factorgraph_id,
            kind,
            adjacent,
            inbox: Inbox::new(),
            enabled: true,
            sent: MessagesSent { internal: 0, external: 0 },
            received: MessagesReceived { internal: 0, external: 0 },
        }
    }

    /// The kind of the factor.
    pub fn kind(&self) -> (kind: FactorKind)
        ensures
            kind == self.spec_kind(),
    {
        self.kind
    }

    /// The variables that the factor is connected to.
    pub fn adjacent(&self) -> (adjacent: &Vec<VariableId>)
        ensures
            adjacent@ == self.spec_adjacent(),
    {
        &self.adjacent
    }

    /// Whether the factor is switched on.
    pub fn is_enabled(&self) -> (enabled: bool)
        ensures
            enabled == self.spec_enabled(),
    {
        self.enabled
    }

    /// Whether the factor has something to say.
    pub fn informs(&self) -> (informs: bool)
        ensures
            informs == self.spec_informs(),
    {
        self.enabled && match self.kind {
            FactorKind::InterRobot { active, .. } => active,
            _ => true,
        }
    }

    /// Switches the factor on or off. All else stays.
    pub fn set_enabled(&mut self, enabled: bool)
        ensures
            final(self).spec_enabled() == enabled,
            final(self).graph() == old(self).graph(),
            final(self).spec_kind() == old(self).spec_kind(),
            final(self).spec_adjacent() == old(self).spec_adjacent(),
            final(self).inbox() == old(self).inbox(),
            final(self).spec_messages_sent() == old(self).spec_messages_sent(),
            final(self).spec_messages_received() == old(self).spec_messages_received(),
            old(self).wf() ==> final(self).wf(),
    {
        self.enabled = enabled;
    }

    /// Tells a factor between two robots whether these are in reach of each
    /// other. A factor of another kind stays as it is.
    pub fn set_active(&mut self, active: bool)
        ensures
            final(self).spec_kind() == match old(self).spec_kind() {
                FactorKind::InterRobot { external_variable_id, .. } => FactorKind::InterRobot {
                    active,
                    external_variable_id,
                },
                kind => kind,
            },
            final(self).spec_enabled() == old(self).spec_enabled(),
            final(self).graph() == old(self).graph(),
            final(self).spec_adjacent() == old(self).spec_adjacent(),
            final(self).inbox() == old(self).inbox(),
            final(self).spec_messages_sent() == old(self).spec_messages_sent(),
            final(self).spec_messages_received() == old(self).spec_messages_received(),
            old(self).wf() ==> final(self).wf(),
    {
        match self.kind {
            FactorKind::InterRobot { external_variable_id, .. } => {
                self.kind = FactorKind::InterRobot { active, external_variable_id };
            },
            _ => {},
        }
    }

    /// Stores `message` as the last message of variable `variable_id`, in
    /// place of an earlier one, and counts it as received: as internal if the
    /// variable belongs to the factor's own graph, as external otherwise.
    pub fn receive(&mut self, variable_id: VariableId, message: M)
        requires
            old(self).wf(),
        ensures
            final(self).wf(),
            final(self).has_message_from(variable_id),
            final(self).message_from(variable_id) == message,
            old(self).has_message_from(variable_id) ==>
                final(self).inbox().len() == old(self).inbox().len(),
            !old(self).has_message_from(variable_id) ==>
                final(self).inbox() == old(self).inbox().push(
                (Entry {
                    graph: variable_id.factorgraph_id,
                    index: variable_id.variable_index,
                    message,
                }),
            ),
            forall|i: int|
                0 <= i < old(self).inbox().len() && !(old(self).inbox()[i].graph
                    == variable_id.factorgraph_id && old(self).inbox()[i].index
                    == variable_id.variable_index) ==>
                        #[trigger] final(self).inbox()[i] == old(self).inbox()[i],
            final(self).graph() == old(self).graph(),
            final(self).spec_kind() == old(self).spec_kind(),
            final(self).spec_adjacent() == old(self).spec_adjacent(),
            final(self).spec_enabled() == old(self).spec_enabled(),
            final(self).spec_messages_sent() == old(self).spec_messages_sent(),
            final(self).spec_messages_received() == if variable_id.factorgraph_id
                == old(self).graph() {
                MessagesReceived {
                    internal: one_more(old(self).spec_messages_received().internal),
                    external: old(self).spec_messages_received().external,
                }
            } else {
                MessagesReceived {
                    internal: old(self).spec_messages_received().internal,
                    external: one_more(old(self).spec_messages_received().external),
                }
            },
    {
        proof {
            lemma_position_of(
                self.inbox@,
                variable_id.factorgraph_id,
                variable_id.variable_index,
            );
        }
        self.inbox.insert(variable_id.factorgraph_id, variable_id.variable_index, message);
        if variable_id.factorgraph_id == self.factorgraph_id {
            self.received.internal = count_one_more(self.received.internal);
        } else {
            self.received.external = count_one_more(self.received.external);
        }
    }

    /// Counts one message as sent: as internal if it goes to graph `to` and
    /// that is the factor's own graph, as external otherwise.
    pub fn count_sent(&mut self, to: FactorGraphId)
        ensures
            final(self).graph() == old(self).graph(),
            final(self).spec_kind() == old(self).spec_kind(),
            final(self).spec_adjacent() == old(self).spec_adjacent(),
            final(self).spec_enabled() == old(self).spec_enabled(),
            final(self).inbox() == old(self).inbox(),
            old(self).wf() ==> final(self).wf(),
            final(self).spec_messages_received() == old(self).spec_messages_received(),
            final(self).spec_messages_sent() == if to == old(self).graph() {
                MessagesSent {
                    internal: one_more(old(self).spec_messages_sent().internal),
                    external: old(self).spec_messages_sent().external,
                }
            } else {
                MessagesSent {
                    internal: old(self).spec_messages_sent().internal,
                    external: one_more(old(self).spec_messages_sent().external),
                }
            },
    {
        if to == self.factorgraph_id {
            self.sent.internal = count_one_more(self.sent.internal);
        } else {
            self.sent.external = count_one_more(self.sent.external);
        }
    }

    /// The messages that go into the message to variable `variable_id`: those
    /// of all other variables, in order.
    pub fn messages_of_others(&self, variable_id: VariableId) -> (messages: Vec<&M>)
        ensures
            messages@.len() == messages_except(
                self.inbox(),
                variable_id.factorgraph_id,
                variable_id.variable_index,
            ).len(),
            forall|i: int|
                0 <= i < messages@.len() ==> *(#[trigger] messages@[i]) == messages_except(
                    self.inbox(),
                    variable_id.factorgraph_id,
                    variable_id.variable_index,
                )[i],
    {
        self.inbox.messages_except(variable_id.factorgraph_id, variable_id.variable_index)
    }
}

impl<M> FactorGraphNode for FactorNode<M> {
    closed spec fn wf(&self) -> bool {
        self.inbox.wf()
    }

    closed spec fn connected_to(&self, graph: FactorGraphId) -> bool {
        self.inbox.has_graph(graph)
    }

    closed spec fn spec_messages_sent(&self) -> MessagesSent {
        self.sent
    }

    closed spec fn spec_messages_received(&self) -> MessagesReceived {
        self.received
    }

    fn remove_connection_to(&mut self, factorgraph_id: FactorGraphId) -> (removed: Result<
        (),
        RemoveConnectionToError,
    >)
        ensures
            final(self).graph() == old(self).graph(),
            final(self).spec_kind() == old(self).spec_kind(),
            final(self).spec_adjacent() == old(self).spec_adjacent(),
            final(self).spec_enabled() == old(self).spec_enabled(),
            final(self).inbox() == without_graph(
                old(self).inbox(),
                factorgraph_id,
            ),
    {
        let removed = self.inbox.remove_graph(factorgraph_id);
        if removed == 0 {
            Err(RemoveConnectionToError)
        } else {
            Ok(())
        }
    }

    fn messages_sent(&self) -> (count: MessagesSent) {
        self.sent
    }

    fn messages_received(&self) -> (count: MessagesReceived) {
        self.received
    }

    fn reset_message_count(&mut self)
        ensures
            final(self).graph() == old(self).graph(),
            final(self).spec_kind() == old(self).spec_kind(),
            final(self).spec_adjacent() == old(self).spec_adjacent(),
            final(self).spec_enabled() == old(self).spec_enabled(),
            final(self).inbox() == old(self).inbox(),
    {
        self.sent = MessagesSent { internal: 0, external: 0 };
        self.received = MessagesReceived { internal: 0, external: 0 };
    }
}

} // verus!
