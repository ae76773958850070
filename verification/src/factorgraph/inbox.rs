//! The inbox of a node: the last message from each node it is connected to.
use vstd::prelude::*;

use crate::factorgraph::FactorGraphId;

verus! {

/// One entry of an inbox: the sender, which is node `index` of graph `graph`,
/// and the last message it sent.
#[derive(Debug)]
pub struct Entry<M> {
    pub graph: FactorGraphId,
    pub index: usize,
    pub message: M,
}

/// The last message from each sender, in the order in which the senders
/// first sent one.
#[derive(Debug)]
pub struct Inbox<M> {
    entries: Vec<Entry<M>>,
}

/// Position of the entry of node `index` of graph `graph` in `entries`, or
/// the length of `entries` if there is none.
pub open spec fn position_of<M>(entries: Seq<Entry<M>>, graph: FactorGraphId, index: usize) -> int
    decreases entries.len(),
{
    if entries.len() == 0 {
        0
    } else if entries[0].graph == graph && entries[0].index == index {
        0
    } else {
        1 + position_of(entries.drop_first(), graph, index)
    }
}

/// Whether no sender has two entries.
pub open spec fn distinct_senders<M>(entries: Seq<Entry<M>>) -> bool {
    forall|i: int, j: int|
        0 <= i < j < entries.len() ==> !(#[trigger] entries[i].graph == #[trigger] entries[j].graph
            && entries[i].index == entries[j].index)
}

/// The entries whose sender is not in graph `graph`, in order.
pub open spec fn without_graph<M>(entries: Seq<Entry<M>>, graph: FactorGraphId) -> Seq<Entry<M>>
    decreases entries.len(),
{
    if entries.len() == 0 {
        entries
    } else if entries.last().graph == graph {
        without_graph(entries.drop_last(), graph)
    } else {
        without_graph(entries.drop_last(), graph).push(entries.last())
    }
}

/// The messages of the entries whose sender is not node `index` of graph
/// `graph`, in order.
pub open spec fn messages_except<M>(
    entries: Seq<Entry<M>>,
    graph: FactorGraphId,
    index: usize,
) -> Seq<M>
    decreases entries.len(),
{
    if entries.len() == 0 {
        Seq::empty()
    } else if entries.last().graph == graph && entries.last().index == index {
        messages_except(entries.drop_last(), graph, index)
    } else {
        messages_except(entries.drop_last(), graph, index).push(entries.last().message)
    }
}

/// The position of a sender lies in the sequence exactly if the sender has
/// an entry, and then the entry at that position is the sender's first.
pub proof fn lemma_position_of<M>(entries: Seq<Entry<M>>, graph: FactorGraphId, index: usize)
    ensures
        0 <= position_of(entries, graph, index) <= entries.len(),
        position_of(entries, graph, index) < entries.len() ==> entries[position_of(
            entries,
            graph,
            index,
        )].graph == graph && entries[position_of(entries, graph, index)].index == index,
        forall|i: int|
            0 <= i < position_of(entries, graph, index) ==> !((#[trigger] entries[i]).graph == graph
                && entries[i].index == index),
    decreases entries.len(),
{
    if entries.len() > 0 && !(entries[0].graph == graph && entries[0].index == index) {
        let rest = entries.drop_first();
        lemma_position_of(rest, graph, index);
        assert forall|i: int| 0 <= i < position_of(entries, graph, index) implies !((
        #[trigger] entries[i]).graph == graph && entries[i].index == index) by {
            if i > 0 {
                assert(entries[i] == rest[i - 1]);
            }
        }
    }
}

/// What stays in an inbox without the senders of one graph: no entry of that
/// graph, every other entry, no longer than before, and shorter exactly if
/// the graph had an entry.
pub proof fn lemma_without_graph<M>(entries: Seq<Entry<M>>, graph: FactorGraphId)
    ensures
        without_graph(entries, graph).len() <= entries.len(),
        forall|i: int|
            0 <= i < without_graph(entries, graph).len() ==> (#[trigger] without_graph(
                entries,
                graph,
            )[i]).graph != graph && entries.contains(without_graph(entries, graph)[i]),
        forall|i: int|
            0 <= i < entries.len() && (#[trigger] entries[i]).graph != graph ==> without_graph(
                entries,
                graph,
            ).contains(entries[i]),
        without_graph(entries, graph).len() == entries.len() <==> (forall|i: int|
            0 <= i < entries.len() ==> (#[trigger] entries[i]).graph != graph),
        without_graph(entries, graph).len() == entries.len() ==> without_graph(entries, graph)
            == entries,
        distinct_senders(entries) ==> distinct_senders(without_graph(entries, graph)),
    decreases entries.len(),
{
    if entries.len() > 0 {
        let front = entries.drop_last();
        let kept = without_graph(front, graph);
        let all = without_graph(entries, graph);
        lemma_without_graph(front, graph);
        assert forall|i: int| 0 <= i < all.len() implies (#[trigger] all[i]).graph != graph
            && entries.contains(all[i]) by {
            if i < kept.len() {
                assert(all[i] == kept[i]);
                let k = choose|k: int| 0 <= k < front.len() && front[k] == kept[i];
                assert(entries[k] == all[i]);
            } else {
                assert(all[i] == entries[entries.len() - 1]);
            }
        }
        assert forall|i: int|
            0 <= i < entries.len() && (#[trigger] entries[i]).graph != graph implies all.contains(
            entries[i],
        ) by {
            if i < front.len() {
                assert(front[i] == entries[i]);
                let k = choose|k: int| 0 <= k < kept.len() && kept[k] == front[i];
                assert(all[k] == entries[i]);
            } else {
                assert(all[all.len() - 1] == entries[i]);
            }
        }
        if all.len() == entries.len() {
            assert(entries.last().graph != graph);
            assert(kept.len() == front.len());
            assert forall|i: int| 0 <= i < entries.len() implies (#[trigger] entries[i]).graph
                != graph by {
                if i < front.len() {
                    assert(front[i] == entries[i]);
                }
            }
            assert(all =~= entries);
        }
        if forall|i: int| 0 <= i < entries.len() ==> (#[trigger] entries[i]).graph != graph {
            assert forall|i: int| 0 <= i < front.len() implies (#[trigger] front[i]).graph
                != graph by {
                assert(front[i] == entries[i]);
            }
        }
        if distinct_senders(entries) {
            assert forall|i: int, j: int| 0 <= i < j < front.len() implies
                !(#[trigger] front[i].graph
                == #[trigger] front[j].graph && front[i].index == front[j].index) by {
                assert(front[i] == entries[i] && front[j] == entries[j]);
            }
            lemma_kept_in_order(entries, graph);
        }
    }
}

/// The entries that stay without one graph stand in the order they had:
/// each is found at a position of its own, and later ones further back.
proof fn lemma_kept_in_order<M>(entries: Seq<Entry<M>>, graph: FactorGraphId)
    requires
        distinct_senders(entries),
    ensures
        distinct_senders(without_graph(entries, graph)),
    decreases entries.len(),
{
    lemma_origins(entries, graph);
    let kept = without_graph(entries, graph);
    assert forall|i: int, j: int| 0 <= i < j < kept.len() implies !(#[trigger] kept[i].graph
        == #[trigger] kept[j].graph && kept[i].index == kept[j].index) by {
        let a = origin(entries, graph, i);
        let b = origin(entries, graph, j);
        assert(entries[a] == kept[i] && entries[b] == kept[j] && a < b);
    }
}

/// The position in `entries` of the entry that stands at position `at` of
/// what stays without graph `graph`.
pub open spec fn origin<M>(entries: Seq<Entry<M>>, graph: FactorGraphId, at: int) -> int
    decreases entries.len(),
{
    if entries.len() == 0 {
        0
    } else if entries.last().graph != graph && at == without_graph(
        entries.drop_last(),
        graph,
    ).len() {
        entries.len() - 1
    } else {
        origin(entries.drop_last(), graph, at)
    }
}

/// Each entry that stays comes from a position of `entries`, and an entry
/// further back from a position further back.
pub proof fn lemma_origins<M>(entries: Seq<Entry<M>>, graph: FactorGraphId)
    ensures
        forall|at: int|
            0 <= at < without_graph(entries, graph).len() ==> 0 <= #[trigger] origin(
                entries,
                graph,
                at,
            ) < entries.len() && entries[origin(entries, graph, at)] == without_graph(
                entries,
                graph,
            )[at],
        forall|a: int, b: int|
            0 <= a < b < without_graph(entries, graph).len() ==> #[trigger] origin(
                entries,
                graph,
                a,
            ) < #[trigger] origin(entries, graph, b),
    decreases entries.len(),
{
    if entries.len() > 0 {
        let front = entries.drop_last();
        lemma_origins(front, graph);
        let kept = without_graph(front, graph);
        let all = without_graph(entries, graph);
        assert forall|at: int| 0 <= at < all.len() implies 0 <= #[trigger] origin(
            entries,
            graph,
            at,
        ) < entries.len() && entries[origin(entries, graph, at)] == all[at] by {
            if at < kept.len() {
                assert(origin(entries, graph, at) == origin(front, graph, at));
                assert(front[origin(front, graph, at)] == kept[at]);
            }
        }
        assert forall|a: int, b: int| 0 <= a < b < all.len() implies #[trigger] origin(
            entries,
            graph,
            a,
        ) < #[trigger] origin(entries, graph, b) by {
            assert(origin(entries, graph, a) == origin(front, graph, a));
            if b < kept.len() {
                assert(origin(entries, graph, b) == origin(front, graph, b));
            }
        }
    }
}

impl<M> View for Inbox<M> {
    type V = Seq<Entry<M>>;

    closed spec fn view(&self) -> Seq<Entry<M>> {
        self.entries@
    }
}

impl<M> Inbox<M> {
    /// Whether no sender has two entries. Every inbox that this module hands
    /// out is well formed, and its functions keep it so.
    pub open spec fn wf(&self) -> bool {
        distinct_senders(self@)
    }

    /// Whether node `index` of graph `graph` has an entry.
    pub open spec fn has(&self, graph: FactorGraphId, index: usize) -> bool {
        position_of(self@, graph, index) < self@.len()
    }

    /// Whether a node of graph `graph` has an entry.
    pub open spec fn has_graph(&self, graph: FactorGraphId) -> bool {
        exists|i: int| 0 <= i < self@.len() && (#[trigger] self@[i]).graph == graph
    }

    /// An inbox without entries.
    pub fn new() -> (inbox: Self)
        ensures
            inbox@.len() == 0,
            inbox.wf(),
    {
        Inbox { entries: Vec::new() }
    }

    /// Number of senders.
    pub fn len(&self) -> (len: usize)
        ensures
            len == self@.len(),
    {
        self.entries.len()
    }

    /// Position of the entry of node `index` of graph `graph`, if it has one.
    pub fn find(&self, graph: FactorGraphId, index: usize) -> (found: Option<usize>)
        ensures
            match found {
                Some(at) => self.has(graph, index) && at == position_of(self@, graph, index),
                None => !self.has(graph, index),
            },
    {
        let mut at: usize = 0;
        proof {
            lemma_position_of(self@, graph, index);
        }
        while at < self.entries.len()
            invariant
                at <= self.entries.len(),
                at <= position_of(self@, graph, index) <= self@.len(),
                position_of(self@, graph, index) < self@.len() ==> self@[position_of(
                    self@,
                    graph,
                    index,
                )].graph == graph && self@[position_of(self@, graph, index)].index == index,
            decreases self.entries.len() - at,
        {
            if self.entries[at].graph == graph && self.entries[at].index == index {
                proof {
                    lemma_position_of(self@, graph, index);
                }
                return Some(at);
            }
            at += 1;
        }
        None
    }

    /// The last message of node `index` of graph `graph`, if it sent one.
    pub fn get(&self, graph: FactorGraphId, index: usize) -> (message: Option<&M>)
        ensures
            self.has(graph, index) ==> message == Some(
                &self@[position_of(self@, graph, index)].message,
            ),
            !self.has(graph, index) ==> message.is_none(),
    {
        match self.find(graph, index) {
            Some(at) => Some(&self.entries[at].message),
            None => None,
        }
    }

    /// The message of the entry at position `at`.
    pub fn message_at(&self, at: usize) -> (message: &M)
        requires
            at < self@.len(),
        ensures
            *message == self@[at as int].message,
    {
        &self.entries[at].message
    }

    /// Stores `message` as the last message of node `index` of graph `graph`.
    /// It takes the place of an earlier message of that sender; a new sender
    /// is put behind the others.
    pub fn insert(&mut self, graph: FactorGraphId, index: usize, message: M)
        requires
            old(self).wf(),
        ensures
            final(self).wf(),
            old(self).has(graph, index) ==> final(self)@ == old(self)@.update(
                position_of(old(self)@, graph, index),
                (Entry { graph, index, message }),
            ),
            !old(self).has(graph, index) ==> final(self)@ == old(self)@.push(
                (Entry { graph, index, message }),
            ),
            final(self).has(graph, index),
            final(self)@[position_of(final(self)@, graph, index)].message == message,
    {
        let ghost before = self@;
        proof {
            lemma_position_of(before, graph, index);
        }
        match self.find(graph, index) {
            Some(at) => {
                self.entries.set(at, Entry { graph, index, message });
            },
            None => {
                self.entries.push(Entry { graph, index, message });
            },
        }
        proof {
            let after = self@;
            let at = position_of(before, graph, index);
            assert forall|i: int, j: int| 0 <= i < j < after.len() implies
                !(#[trigger] after[i].graph
                == #[trigger] after[j].graph && after[i].index == after[j].index) by {
                if i != at && j != at {
                    assert(after[i] == before[i] && after[j] == before[j]);
                } else if i == at {
                    assert(after[j] == before[j]);
                    assert(before[i].graph == graph && before[i].index == index);
                } else {
                    assert(after[i] == before[i]);
                    if at < before.len() {
                        assert(before[j].graph == graph && before[j].index == index);
                    }
                }
            }
            lemma_position_of(after, graph, index);
            let now = position_of(after, graph, index);
            if now != at {
                if now < at {
                    assert(after[now] == before[now]);
                } else {
                    assert(after[at].graph == graph && after[at].index == index);
                }
            }
        }
    }

    /// Removes the entries of all senders in graph `graph` and returns how
    /// many there were.
    pub fn remove_graph(&mut self, graph: FactorGraphId) -> (removed: usize)
        requires
            old(self).wf(),
        ensures
            final(self).wf(),
            final(self)@ == without_graph(old(self)@, graph),
            removed == old(self)@.len() - final(self)@.len(),
            removed > 0 <==> old(self).has_graph(graph),
            !final(self).has_graph(graph),
            forall|other: FactorGraphId|
                other != graph ==> #[trigger] final(self).has_graph(other) == old(self).has_graph(
                    other,
                ),
    {
        let ghost before = self@;
        let mut kept: Vec<Entry<M>> = Vec::new();
        let mut removed: usize = 0;
        assert(before.len() == self.entries.len());
        assert(before.take(before.len() as int) =~= before);
        assert(without_graph(before, graph) + kept@.reverse() =~= without_graph(before, graph));
        while self.entries.len() > 0
            invariant
                self.entries@.len() <= before.len(),
                self.entries@ == before.take(self.entries@.len() as int),
                removed + kept@.len() + self.entries@.len() == before.len(),
                before.len() <= usize::MAX,
                without_graph(before, graph)
                    == without_graph(self.entries@, graph) + kept@.reverse(),
            decreases self.entries.len(),
        {
            let ghost rest = self.entries@;
            let entry = self.entries.pop();
            match entry {
                Some(entry) => {
                    let ghost earlier = kept@;
                    if entry.graph == graph {
                        removed += 1;
                    } else {
                        kept.push(entry);
                        proof {
                            assert(kept@.reverse() =~= seq![entry] + earlier.reverse());
                            assert(without_graph(rest, graph) + earlier.reverse()
                                =~= without_graph(rest.drop_last(), graph) + kept@.reverse());
                        }
                    }
                    proof {
                        assert(self.entries@ =~= before.take(self.entries@.len() as int));
                    }
                },
                None => {},
            }
        }
        proof {
            assert(before.take(0) =~= Seq::<Entry<M>>::empty());
            assert(without_graph(before, graph) =~= kept@.reverse());
        }
        let ghost turned = kept@;
        while kept.len() > 0
            invariant
                kept@.len() <= turned.len(),
                kept@ == turned.take(kept@.len() as int),
                self.entries@ == turned.skip(kept@.len() as int).reverse(),
            decreases kept.len(),
        {
            match kept.pop() {
                Some(entry) => {
                    self.entries.push(entry);
                    proof {
                        assert(kept@ =~= turned.take(kept@.len() as int));
                        assert(self.entries@ =~= turned.skip(kept@.len() as int).reverse());
                    }
                },
                None => {},
            }
        }
        proof {
            assert(turned.skip(0) =~= turned);
            assert(self@ == without_graph(before, graph));
            lemma_without_graph(before, graph);
            let after = self@;
            if removed > 0 {
                assert(after.len() != before.len());
                let i = choose|i: int|
                    0 <= i < before.len() && !((#[trigger] before[i]).graph != graph);
                assert(before[i].graph == graph);
            }
            if self.has_graph(graph) {
                let i = choose|i: int| 0 <= i < after.len() && (#[trigger] after[i]).graph == graph;
                assert(after[i].graph != graph);
            }
            assert forall|other: FactorGraphId| other != graph implies #[trigger] self.has_graph(
                other,
            ) == old(self).has_graph(other) by {
                if old(self).has_graph(other) {
                    let i = choose|i: int|
                        0 <= i < before.len() && (#[trigger] before[i]).graph == other;
                    assert(after.contains(before[i]));
                    let k = choose|k: int| 0 <= k < after.len() && after[k] == before[i];
                    assert(after[k].graph == other);
                }
                if self.has_graph(other) {
                    let i = choose|i: int|
                        0 <= i < after.len() && (#[trigger] after[i]).graph == other;
                    assert(before.contains(after[i]));
                    let k = choose|k: int| 0 <= k < before.len() && before[k] == after[i];
                    assert(before[k].graph == other);
                }
            }
        }
        removed
    }

    /// The messages of all senders but node `index` of graph `graph`, in
    /// order.
    pub fn messages_except(&self, graph: FactorGraphId, index: usize) -> (messages: Vec<&M>)
        ensures
            messages@.len() == messages_except(self@, graph, index).len(),
            forall|i: int|
                0 <= i < messages@.len() ==> *(#[trigger] messages@[i]) == messages_except(
                    self@,
                    graph,
                    index,
                )[i],
    {
        let mut messages: Vec<&M> = Vec::new();
        let mut next: usize = 0;
        assert(self@.take(0) =~= Seq::<Entry<M>>::empty());
        while next < self.entries.len()
            invariant
                next <= self.entries.len(),
                messages@.len() == messages_except(self@.take(next as int), graph, index).len(),
                forall|i: int|
                    0 <= i < messages@.len() ==> *(#[trigger] messages@[i]) == messages_except(
                        self@.take(next as int),
                        graph,
                        index,
                    )[i],
            decreases self.entries.len() - next,
        {
            let entry = &self.entries[next];
            proof {
                assert(self@.take(next + 1).drop_last() =~= self@.take(next as int));
            }
            if !(entry.graph == graph && entry.index == index) {
                messages.push(&entry.message);
            }
            next += 1;
        }
        assert(self@.take(next as int) =~= self@);
        messages
    }
}

} // verus!
