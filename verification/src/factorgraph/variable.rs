//! A variable node: an unknown state of the robot at one time step.
use vstd::prelude::*;

use crate::factorgraph::inbox::{
    lemma_position_of, messages_except, position_of, without_graph, Entry, Inbox,
};
use crate::factorgraph::node::{FactorGraphNode, RemoveConnectionToError};
use crate::factorgraph::{
    count_one_more, one_more, FactorGraphId, FactorId, MessagesReceived, MessagesSent,
};

verus! {

/// A variable of a factor graph. It holds its prior and the last message of
/// each factor that is connected to it. The belief of the variable is the
/// product of the prior and of all these messages.
#[derive(Debug)]
pub struct VariableNode<M> {
    factorgraph_id: FactorGraphId,
    prior: M,
    inbox: Inbox<M>,
    sent: MessagesSent,
    received: MessagesReceived,
}

impl<M> VariableNode<M> {
    /// The graph that the variable belongs to.
    pub closed spec fn graph(&self) -> FactorGraphId {
        self.factorgraph_id
    }

    /// The prior of the variable.
    pub closed spec fn spec_prior(&self) -> M {
        self.prior
    }

    /// The last message of each factor, in the order in which the factors
    /// first sent one.
    pub closed spec fn inbox(&self) -> Seq<Entry<M>> {
        self.inbox@
    }

    /// Whether factor `factor_id` has sent a message.
    pub closed spec fn has_message_from(&self, factor_id: FactorId) -> bool {
        self.inbox.has(factor_id.factorgraph_id, factor_id.factor_index)
    }

    /// The last message of factor `factor_id`, which has sent one.
    pub closed spec fn message_from(&self, factor_id: FactorId) -> M {
        self.inbox@[position_of(
            self.inbox@,
            factor_id.factorgraph_id,
            factor_id.factor_index,
        )].message
    }

    /// What the belief is the product of: the prior, then the message of
    /// each factor.
    pub open spec fn belief_operands(&self) -> Seq<M> {
        seq![self.spec_prior()] + Seq::new(self.inbox().len(), |i: int| self.inbox()[i].message)
    }

    /// What the message to factor `factor_id` is the product of: the prior,
    /// then the message of each factor but `factor_id` itself.
    pub open spec fn message_operands_to(&self, factor_id: FactorId) -> Seq<M> {
        seq![self.spec_prior()] + messages_except(
            self.inbox(),
            factor_id.factorgraph_id,
            factor_id.factor_index,
        )
    }

    /// A variable of graph `factorgraph_id` with the given prior, no message
    /// and both counts at zero.
    pub fn new(factorgraph_id: FactorGraphId, prior: M) -> (variable: Self)
        ensures
            variable.wf(),
            variable.graph() == factorgraph_id,
            variable.spec_prior() == prior,
            variable.inbox().len() == 0,
            variable.spec_messages_sent() == (MessagesSent { internal: 0, external: 0 }),
            variable.spec_messages_received() == (MessagesReceived { internal: 0, external: 0 }),
    {
        VariableNode {
            factorgraph_id,
            prior,
            inbox: Inbox::new(),
            sent: MessagesSent { internal: 0, external: 0 },
            received: MessagesReceived { internal: 0, external: 0 },
        }
    }

    /// The prior of the variable.
    pub fn prior(&self) -> (prior: &M)
        ensures
            *prior == self.spec_prior(),
    {
        &self.prior
    }

    /// Replaces the prior. The messages and the counts stay.
    pub fn set_prior(&mut self, prior: M)
        ensures
            final(self).spec_prior() == prior,
            final(self).graph() == old(self).graph(),
            final(self).inbox() == old(self).inbox(),
            final(self).spec_messages_sent() == old(self).spec_messages_sent(),
            final(self).spec_messages_received() == old(self).spec_messages_received(),
            old(self).wf() ==> final(self).wf(),
    {
        self.prior = prior;
    }

    /// Stores `message` as the last message of factor `factor_id`, in place
    /// of an earlier one, and counts it as received: as internal if the
    /// factor belongs to the variable's own graph, as external otherwise.
    pub fn receive(&mut self, factor_id: FactorId, message: M)
        requires
            old(self).wf(),
        ensures
            final(self).wf(),
            final(self).has_message_from(factor_id),
            final(self).message_from(factor_id) == message,
            old(self).has_message_from(factor_id) ==>
                final(self).inbox().len() == old(self).inbox().len(),
            !old(self).has_message_from(factor_id) ==>
                final(self).inbox() == old(self).inbox().push(
                (Entry {
                    graph: factor_id.factorgraph_id,
                    index: factor_id.factor_index,
                    message,
                }),
            ),
            forall|i: int|
                0 <= i < old(self).inbox().len() && !(old(self).inbox()[i].graph
                    == factor_id.factorgraph_id && old(self).inbox()[i].index
                    == factor_id.factor_index) ==>
                        #[trigger] final(self).inbox()[i] == old(self).inbox()[i],
            final(self).graph() == old(self).graph(),
            final(self).spec_prior() == old(self).spec_prior(),
            final(self).spec_messages_sent() == old(self).spec_messages_sent(),
            final(self).spec_messages_received() == if factor_id.factorgraph_id
                == old(self).graph() {
                MessagesReceived {
                    internal: one_more(old(self).spec_messages_received().internal),
                    external: old(self).spec_messages_received().external,
                }
            } else {
                MessagesReceived {
                    internal: old(self).spec_messages_received().internal,
                    external: one_more(old(self).spec_messages_received().external),
                }
            },
    {
        proof {
            lemma_position_of(
                self.inbox@,
                factor_id.factorgraph_id,
                factor_id.factor_index,
            );
        }
        self.inbox.insert(factor_id.factorgraph_id, factor_id.factor_index, message);
        if factor_id.factorgraph_id == self.factorgraph_id {
            self.received.internal = count_one_more(self.received.internal);
        } else {
            self.received.external = count_one_more(self.received.external);
        }
    }

    /// Counts one message as sent: as internal if it goes to graph `to` and
    /// that is the variable's own graph, as external otherwise.
    pub fn count_sent(&mut self, to: FactorGraphId)
        ensures
            final(self).graph() == old(self).graph(),
            final(self).spec_prior() == old(self).spec_prior(),
            final(self).inbox() == old(self).inbox(),
            old(self).wf() ==> final(self).wf(),
            final(self).spec_messages_received() == old(self).spec_messages_received(),
            final(self).spec_messages_sent() == if to == old(self).graph() {
                MessagesSent {
                    internal: one_more(old(self).spec_messages_sent().internal),
                    external: old(self).spec_messages_sent().external,
                }
            } else {
                MessagesSent {
                    internal: old(self).spec_messages_sent().internal,
                    external: one_more(old(self).spec_messages_sent().external),
                }
            },
    {
        if to == self.factorgraph_id {
            self.sent.internal = count_one_more(self.sent.internal);
        } else {
            self.sent.external = count_one_more(self.sent.external);
        }
    }

    /// What the belief is the product of: the prior, then the message of
    /// each factor.
    pub fn belief(&self) -> (operands: Vec<&M>)
        ensures
            operands@.len() == self.belief_operands().len(),
            forall|i: int|
                0 <= i < operands@.len() ==> *(#[trigger] operands@[i])
                    == self.belief_operands()[i],
    {
        let mut operands: Vec<&M> = Vec::new();
        operands.push(&self.prior);
        let mut next: usize = 0;
        while next < self.inbox.len()
            invariant
                next <= self.inbox@.len(),
                operands@.len() == next + 1,
                forall|i: int|
                    0 <= i < operands@.len() ==> *(#[trigger] operands@[i])
                        == self.belief_operands()[i],
            decreases self.inbox@.len() - next,
        {
            operands.push(self.inbox.message_at(next));
            next += 1;
        }
        operands
    }

    /// What the message to factor `factor_id` is the product of: the belief
    /// without what `factor_id` itself has sent.
    pub fn message_to(&self, factor_id: FactorId) -> (operands: Vec<&M>)
        ensures
            operands@.len() == self.message_operands_to(factor_id).len(),
            forall|i: int|
                0 <= i < operands@.len() ==> *(#[trigger] operands@[i])
                    == self.message_operands_to(factor_id)[i],
    {
        let others = self.inbox.messages_except(
            factor_id.factorgraph_id,
            factor_id.factor_index,
        );
        let mut operands: Vec<&M> = Vec::new();
        operands.push(&self.prior);
        let mut next: usize = 0;
        while next < others.len()
            invariant
                next <= others@.len(),
                others@.len() == messages_except(
                    self.inbox(),
                    factor_id.factorgraph_id,
                    factor_id.factor_index,
                ).len(),
                forall|i: int|
                    0 <= i < others@.len() ==> *(#[trigger] others@[i]) == messages_except(
                        self.inbox(),
                        factor_id.factorgraph_id,
                        factor_id.factor_index,
                    )[i],
                operands@.len() == next + 1,
                forall|i: int|
                    0 <= i < operands@.len() ==> *(#[trigger] operands@[i])
                        == self.message_operands_to(factor_id)[i],
            decreases others@.len() - next,
        {
            operands.push(others[next]);
            next += 1;
        }
        operands
    }
}

impl<M> FactorGraphNode for VariableNode<M> {
    closed spec fn wf(&self) -> bool {
        self.inbox.wf()
    }

    closed spec fn connected_to(&self, graph: FactorGraphId) -> bool {
        self.inbox.has_graph(graph)
    }

    closed spec fn spec_messages_sent(&self) -> MessagesSent {
        self.sent
    }

    closed spec fn spec_messages_received(&self) -> MessagesReceived {
        self.received
    }

    fn remove_connection_to(&mut self, factorgraph_id: FactorGraphId) -> (removed: Result<
        (),
        RemoveConnectionToError,
    >)
        ensures
            final(self).graph() == old(self).graph(),
            final(self).spec_prior() == old(self).spec_prior(),
            final(self).inbox() == without_graph(
                old(self).inbox(),
                factorgraph_id,
            ),
    {
        let removed = self.inbox.remove_graph(factorgraph_id);
        if removed == 0 {
            Err(RemoveConnectionToError)
        } else {
            Ok(())
        }
    }

    fn messages_sent(&self) -> (count: MessagesSent) {
        self.sent
    }

    fn messages_received(&self) -> (count: MessagesReceived) {
        self.received
    }

    fn reset_message_count(&mut self)
        ensures
            final(self).graph() == old(self).graph(),
            final(self).spec_prior() == old(self).spec_prior(),
            final(self).inbox() == old(self).inbox(),
    {
        self.sent = MessagesSent { internal: 0, external: 0 };
        self.received = MessagesReceived { internal: 0, external: 0 };
    }
}

} // verus!
