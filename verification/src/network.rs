//! The store of neurons and connections: identity, structure and lookup.

use vstd::prelude::*;
use crate::kind::{classify, color_for, symbol_for, NeuronKind};
use crate::model::{views_of, Connection, Neuron, NeuronView, Position};

verus! {

/// A network as contracts see it. A neuron's id is its place in `neurons`
/// plus one, and likewise for connections.
#[verifier::ext_equal]
pub struct NetworkView<V> {
    pub neurons: Seq<NeuronView<V>>,
    pub connections: Seq<Connection<V>>,
    pub clock: V,
    pub zero: V,
}

impl<V> NetworkView<V> {
    /// Whether a neuron with this id is in the store.
    pub open spec fn has_neuron(self, id: usize) -> bool {
        1 <= id <= self.neurons.len()
    }

    /// Whether a connection with this id is in the store.
    pub open spec fn has_connection(self, id: usize) -> bool {
        1 <= id <= self.connections.len()
    }

    /// The id that the next neuron gets.
    pub open spec fn next_neuron_id(self) -> nat {
        self.neurons.len() + 1
    }

    /// The id that the next connection gets.
    pub open spec fn next_connection_id(self) -> nat {
        self.connections.len() + 1
    }

    /// Ids count up from one without a gap, every neuron wears the colour and
    /// symbol of its kind, and every connection joins two neurons of the store.
    pub open spec fn wf(self) -> bool {
        &&& forall|i: int|
            0 <= i < self.neurons.len() ==> {
                &&& (#[trigger] self.neurons[i]).id == i + 1
                &&& self.neurons[i].dressed()
            }
        &&& forall|j: int|
            0 <= j < self.connections.len() ==> {
                &&& (#[trigger] self.connections[j]).id == j + 1
                &&& self.has_neuron(self.connections[j].from_id)
                &&& self.has_neuron(self.connections[j].to_id)
            }
    }

    /// A network without neurons or connections, its clock at `zero`.
    pub open spec fn fresh(zero: V) -> NetworkView<V> {
        NetworkView { neurons: Seq::empty(), connections: Seq::empty(), clock: zero, zero }
    }

    /// This network emptied. The clock keeps running.
    pub open spec fn cleared(self) -> NetworkView<V> {
        NetworkView { neurons: Seq::empty(), connections: Seq::empty(), ..self }
    }

    /// This network with one more neuron, at rest and under the next id.
    pub open spec fn with_neuron(self, x: V, y: V, tag: Seq<char>, bias: V) -> NetworkView<V> {
        NetworkView {
            neurons: self.neurons.push(
                NeuronView::minted(self.next_neuron_id() as usize, x, y, tag, self.zero, bias),
            ),
            ..self
        }
    }

    /// This network with one more connection, switched off and under the next
    /// id.
    pub open spec fn with_connection(self, from_id: usize, to_id: usize, weight: V) -> NetworkView<
        V,
    > {
        NetworkView {
            connections: self.connections.push(
                Connection {
                    id: self.next_connection_id() as usize,
                    from_id,
                    to_id,
                    weight,
                    active: false,
                },
            ),
            ..self
        }
    }

    /// The kind of the neuron at place `i`.
    pub open spec fn kind_at(self, i: int) -> NeuronKind {
        self.neurons[i].kind()
    }

    /// The activation of every neuron, by ascending id.
    pub open spec fn activations(self) -> Seq<V> {
        activations_of(self.neurons)
    }

    /// How many neurons are of `kind`.
    pub open spec fn count_of(self, kind: NeuronKind) -> nat {
        self.neurons.filter(is_kind(kind)).len()
    }

    /// How many of the neurons with an id up to `k` are of `kind`.
    pub open spec fn count_before(self, kind: NeuronKind, k: int) -> nat {
        self.neurons.take(k).filter(is_kind(kind)).len()
    }

    /// The activations of the neurons of `kind`, by ascending id.
    pub open spec fn activations_of_kind(self, kind: NeuronKind) -> Seq<V> {
        activations_of(self.neurons.filter(is_kind(kind)))
    }
}

/// The test "is of this kind".
pub open spec fn is_kind<V>(kind: NeuronKind) -> spec_fn(NeuronView<V>) -> bool {
    |n: NeuronView<V>| n.kind() == kind
}

/// The activation of each neuron of a sequence, in its order.
pub open spec fn activations_of<V>(neurons: Seq<NeuronView<V>>) -> Seq<V> {
    neurons.map_values(|n: NeuronView<V>| n.activation)
}

/// `after` differs from `before` in activations at most.
pub open spec fn same_but_activations<V>(
    before: Seq<NeuronView<V>>,
    after: Seq<NeuronView<V>>,
) -> bool {
    &&& after.len() == before.len()
    &&& forall|i: int|
        0 <= i < before.len() ==> #[trigger] after[i] == before[i].with_activation(
            after[i].activation,
        )
}

/// `after` differs from `before` in positions at most.
pub open spec fn same_but_positions<V>(
    before: Seq<NeuronView<V>>,
    after: Seq<NeuronView<V>>,
) -> bool {
    &&& after.len() == before.len()
    &&& forall|i: int|
        0 <= i < before.len() ==> #[trigger] after[i] == before[i].with_position(after[i].position)
}

/// `after` differs from `before` in display flags at most.
pub open spec fn same_but_flags<V>(
    before: Seq<Connection<V>>,
    after: Seq<Connection<V>>,
) -> bool {
    &&& after.len() == before.len()
    &&& forall|j: int|
        0 <= j < before.len() ==> #[trigger] after[j] == before[j].with_active(after[j].active)
}

/// Taking one neuron more into a prefix adds it to the prefix's neurons of a
/// kind if it is of that kind, and leaves them alone if not.
pub proof fn lemma_kind_prefix_step<V>(neurons: Seq<NeuronView<V>>, kind: NeuronKind, k: int)
    requires
        0 <= k < neurons.len(),
    ensures
        neurons.take(k + 1).filter(is_kind(kind)) == if neurons[k].kind() == kind {
            neurons.take(k).filter(is_kind(kind)).push(neurons[k])
        } else {
            neurons.take(k).filter(is_kind(kind))
        },
{
    assert(neurons.take(k + 1) =~= neurons.take(k).push(neurons[k]));
    neurons.take(k).lemma_filter_push(neurons[k], is_kind(kind));
}

/// What a caller says of a neuron to be added.
pub struct NeuronSeed<V> {
    pub x: V,
    pub y: V,
    pub tag: Seq<char>,
    pub bias: V,
}

/// `network` after one `with_neuron` for each seed, in their order.
pub open spec fn grown<V>(network: NetworkView<V>, seeds: Seq<NeuronSeed<V>>) -> NetworkView<V>
    decreases seeds.len(),
{
    if seeds.len() == 0 {
        network
    } else {
        let last = seeds.last();
        grown(network, seeds.drop_last()).with_neuron(last.x, last.y, last.tag, last.bias)
    }
}

/// Ids count up: in a run of additions to a store of `n` neurons, the
/// addition at place `k` of the run finds `n + k + 1` as the next id, which is
/// the id it hands out. From an empty store the ids are 1, 2, 3 and so on.
pub proof fn lemma_neuron_ids_count_up<V>(
    network: NetworkView<V>,
    seeds: Seq<NeuronSeed<V>>,
    k: int,
)
    requires
        0 <= k <= seeds.len(),
    ensures
        grown(network, seeds.take(k)).next_neuron_id() == network.neurons.len() + k + 1,
    decreases k,
{
    if k > 0 {
        lemma_neuron_ids_count_up(network, seeds, k - 1);
        assert(seeds.take(k).drop_last() =~= seeds.take(k - 1));
    }
}

/// What a caller says of a connection to be added.
pub struct LinkSeed<V> {
    pub from_id: usize,
    pub to_id: usize,
    pub weight: V,
}

/// Whether both ends that the seed names are neurons of `network`.
pub open spec fn joinable<V>(network: NetworkView<V>) -> spec_fn(LinkSeed<V>) -> bool {
    |seed: LinkSeed<V>| network.has_neuron(seed.from_id) && network.has_neuron(seed.to_id)
}

/// `network` after one attempt to connect for each seed, in their order: a
/// seed that is joinable adds its connection, any other changes nothing.
pub open spec fn wired<V>(network: NetworkView<V>, seeds: Seq<LinkSeed<V>>) -> NetworkView<V>
    decreases seeds.len(),
{
    if seeds.len() == 0 {
        network
    } else {
        let last = seeds.last();
        let sofar = wired(network, seeds.drop_last());
        if joinable(sofar)(last) {
            sofar.with_connection(last.from_id, last.to_id, last.weight)
        } else {
            sofar
        }
    }
}

/// Only a connection that is made takes an id: after a run of attempts the
/// next connection id has moved on by the number of joinable seeds, and the
/// neurons are as they were.
pub proof fn lemma_connection_ids_count_up<V>(network: NetworkView<V>, seeds: Seq<LinkSeed<V>>)
    ensures
        wired(network, seeds).neurons == network.neurons,
        wired(network, seeds).next_connection_id() == network.next_connection_id() + seeds.filter(
            joinable(network),
        ).len(),
    decreases seeds.len(),
{
    if seeds.len() == 0 {
        seeds.lemma_filter_len(joinable(network));
    } else {
        let rest = seeds.drop_last();
        lemma_connection_ids_count_up(network, rest);
        assert(seeds =~= rest.push(seeds.last()));
        rest.lemma_filter_len_push(joinable(network), seeds.last());
    }
}

/// Clearing starts both counts of ids over: whatever the store held, the next
/// neuron and the next connection get id 1.
pub proof fn lemma_clear_restarts_ids<V>(network: NetworkView<V>)
    ensures
        network.cleared().next_neuron_id() == 1,
        network.cleared().next_connection_id() == 1,
        network.cleared().wf(),
{
}

/// The two collections of a network.
pub(crate) struct Graph<V> {
    pub(crate) neurons: Vec<Neuron<V>>,
    pub(crate) connections: Vec<Connection<V>>,
}

impl<V> Graph<V> {
    /// The neurons as contracts see them.
    pub(crate) open spec fn neuron_views(self) -> Seq<NeuronView<V>> {
        views_of(self.neurons@)
    }

    /// A graph without neurons or connections.
    pub(crate) fn empty() -> (graph: Graph<V>)
        ensures
            graph.neurons@.len() == 0,
            graph.connections@.len() == 0,
    {
        Graph { neurons: Vec::new(), connections: Vec::new() }
    }
}

/// A graph of neurons and connections with an animation clock.
pub struct NeuralNetwork<V> {
    pub(crate) graph: Graph<V>,
    pub(crate) animation_time: V,
    pub(crate) zero: V,
}

impl<V> View for NeuralNetwork<V> {
    type V = NetworkView<V>;

    open(crate) spec fn view(&self) -> NetworkView<V> {
        NetworkView {
            neurons: self.graph.neuron_views(),
            connections: self.graph.connections@,
            clock: self.animation_time,
            zero: self.zero,
        }
    }
}

impl<V> NeuralNetwork<V> {
    #[verifier::type_invariant]
    pub(crate) open spec fn well_formed(self) -> bool {
        self@.wf()
    }
}

impl<V: Copy> NeuralNetwork<V> {
    /// An empty network. `zero` is the scalar that a neuron at rest holds and
    /// at which the clock starts.
    pub fn new(zero: V) -> (network: NeuralNetwork<V>)
        ensures
            network@ == NetworkView::fresh(zero),
            network@.wf(),
    {
        NeuralNetwork { graph: Graph::empty(), animation_time: zero, zero }
    }

    /// Adds a neuron at `(x, y)` and returns its id.
    ///
    /// The neuron starts at rest, with the colour and symbol of the kind that
    /// `neuron_type` names. Its id is one more than the number of neurons that
    /// were in the store.
    pub fn add_neuron(&mut self, x: V, y: V, neuron_type: &str, bias: V) -> (id: usize)
        ensures
            id == old(self)@.next_neuron_id(),
            final(self)@ == old(self)@.with_neuron(x, y, neuron_type@, bias),
            final(self)@.wf(),
    {
        proof {
            use_type_invariant(&*self);
        }
        let ghost before = self@;
        let mut graph = Graph::empty();
        std::mem::swap(&mut self.graph, &mut graph);
        let kind = classify(neuron_type);
        graph.neurons.push(
            Neuron {
                id: 0,
                position: Position { x, y },
                neuron_type: neuron_type.to_owned(),
                activation: self.zero,
                bias,
                color: color_for(kind),
                symbol: symbol_for(kind),
            },
        );
        // The id is the neuron's place, which is known now that it is in.
        let id = graph.neurons.len();
        graph.neurons[id - 1].id = id;
        proof {
            let views = graph.neuron_views();
            assert(views =~= before.neurons.push(
                NeuronView::minted(id, x, y, neuron_type@, before.zero, bias),
            ));
            assert forall|i: int| 0 <= i < views.len() implies {
                &&& (#[trigger] views[i]).id == i + 1
                &&& views[i].dressed()
            } by {
                if i < before.neurons.len() {
                    assert(views[i] == before.neurons[i]);
                }
            }
            assert forall|j: int| 0 <= j < graph.connections@.len() implies {
                &&& (#[trigger] graph.connections@[j]).id == j + 1
                &&& 1 <= graph.connections@[j].from_id <= views.len()
                &&& 1 <= graph.connections@[j].to_id <= views.len()
            } by {
                assert(graph.connections@[j] == before.connections[j]);
            }
        }
        self.graph = graph;
        id
    }

    /// Joins two neurons and returns the id of the connection, or `None`, with
    /// nothing changed, if one of the two ids is not in the store.
    ///
    /// The connection starts switched off. Its id is one more than the number
    /// of connections that were in the store.
    pub fn add_connection(&mut self, from_id: usize, to_id: usize, weight: V) -> (id: Option<usize>)
        ensures
            id is Some <==> old(self)@.has_neuron(from_id) && old(self)@.has_neuron(to_id),
            id is Some ==> id->0 == old(self)@.next_connection_id() && final(self)@ == old(
                self,
            )@.with_connection(from_id, to_id, weight),
            id is None ==> final(self)@ == old(self)@,
            final(self)@.wf(),
    {
        proof {
            use_type_invariant(&*self);
        }
        let n = self.graph.neurons.len();
        if from_id < 1 || from_id > n || to_id < 1 || to_id > n {
            return None;
        }
        let ghost before = self@;
        let mut graph = Graph::empty();
        std::mem::swap(&mut self.graph, &mut graph);
        graph.connections.push(Connection { id: 0, from_id, to_id, weight, active: false });
        // The id is the connection's place, which is known now that it is in.
        let id = graph.connections.len();
        graph.connections[id - 1].id = id;
        proof {
            let views = graph.neuron_views();
            assert(views == before.neurons);
            assert(graph.connections@ =~= before.connections.push(
                Connection { id, from_id, to_id, weight, active: false },
            ));
            assert forall|i: int| 0 <= i < views.len() implies {
                &&& (#[trigger] views[i]).id == i + 1
                &&& views[i].dressed()
            } by {
                assert(views[i] == before.neurons[i]);
            }
            assert forall|j: int| 0 <= j < graph.connections@.len() implies {
                &&& (#[trigger] graph.connections@[j]).id == j + 1
                &&& 1 <= graph.connections@[j].from_id <= n
                &&& 1 <= graph.connections@[j].to_id <= n
            } by {
                if j < before.connections.len() {
                    assert(graph.connections@[j] == before.connections[j]);
                }
            }
        }
        self.graph = graph;
        Some(id)
    }

    /// Empties the store. The next neuron and the next connection get id 1
    /// again.
    pub fn clear_network(&mut self)
        ensures
            final(self)@ == old(self)@.cleared(),
            final(self)@.wf(),
    {
        self.graph = Graph::empty();
    }

    /// Whether a neuron with this id is in the store.
    pub fn contains_neuron(&self, id: usize) -> (found: bool)
        ensures
            found == self@.has_neuron(id),
    {
        1 <= id && id <= self.graph.neurons.len()
    }

    /// The neuron with this id, if it is in the store.
    pub fn neuron(&self, id: usize) -> (found: Option<&Neuron<V>>)
        ensures
            found is Some <==> self@.has_neuron(id),
            found is Some ==> found->0@ == self@.neurons[id - 1] && found->0.id == id,
    {
        proof {
            use_type_invariant(self);
        }
        if 1 <= id && id <= self.graph.neurons.len() {
            assert(self@.neurons[id - 1].id == id);
            Some(&self.graph.neurons[id - 1])
        } else {
            None
        }
    }

    /// The connection with this id, if it is in the store.
    pub fn connection(&self, id: usize) -> (found: Option<&Connection<V>>)
        ensures
            found is Some <==> self@.has_connection(id),
            found is Some ==> *found->0 == self@.connections[id - 1] && found->0.id == id,
    {
        proof {
            use_type_invariant(self);
        }
        if 1 <= id && id <= self.graph.connections.len() {
            assert(self@.connections[id - 1].id == id);
            Some(&self.graph.connections[id - 1])
        } else {
            None
        }
    }

    /// The neurons, by ascending id.
    pub fn neurons(&self) -> (list: &Vec<Neuron<V>>)
        ensures
            views_of(list@) == self@.neurons,
            self@.wf(),
    {
        proof {
            use_type_invariant(self);
        }
        &self.graph.neurons
    }

    /// The connections, by ascending id.
    pub fn connections(&self) -> (list: &Vec<Connection<V>>)
        ensures
            list@ == self@.connections,
            self@.wf(),
    {
        proof {
            use_type_invariant(self);
        }
        &self.graph.connections
    }

    /// The id that the next neuron gets, or `None` when the store is full.
    pub fn next_neuron_id(&self) -> (id: Option<usize>)
        ensures
            id is Some <==> self@.neurons.len() < usize::MAX,
            id is Some ==> id->0 == self@.next_neuron_id(),
    {
        self.graph.neurons.len().checked_add(1)
    }

    /// The id that the next connection gets, or `None` when the store is
    /// full.
    pub fn next_connection_id(&self) -> (id: Option<usize>)
        ensures
            id is Some <==> self@.connections.len() < usize::MAX,
            id is Some ==> id->0 == self@.next_connection_id(),
    {
        self.graph.connections.len().checked_add(1)
    }

    /// The reading of the animation clock.
    pub fn animation_time(&self) -> (clock: V)
        ensures
            clock == self@.clock,
    {
        self.animation_time
    }

    /// The number of neurons.
    pub fn neuron_count(&self) -> (count: usize)
        ensures
            count == self@.neurons.len(),
    {
        self.graph.neurons.len()
    }

    /// The number of connections.
    pub fn connection_count(&self) -> (count: usize)
        ensures
            count == self@.connections.len(),
    {
        self.graph.connections.len()
    }
}

} // verus!
