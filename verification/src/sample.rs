//! A fixed demonstration network: two inputs, three hidden neurons, one
//! output.

use vstd::prelude::*;
use crate::kind::NeuronKind;
use crate::model::{Connection, NeuronView};
use crate::network::{is_kind, lemma_kind_prefix_step, NetworkView, NeuralNetwork};

verus! {

/// The number of neurons of the sample network.
pub const SAMPLE_NEURONS: usize = 6;

/// The number of connections of the sample network.
pub const SAMPLE_CONNECTIONS: usize = 7;

/// Where the sample neuron at place `k` stands and what it is: two inputs on
/// the left, three hidden neurons in the middle, the output on the right.
pub open spec fn sample_site(k: int) -> (u32, u32, Seq<char>) {
    if k == 0 {
        (100, 150, "input"@)
    } else if k == 1 {
        (100, 250, "input"@)
    } else if k == 2 {
        (300, 100, "hidden"@)
    } else if k == 3 {
        (300, 200, "hidden"@)
    } else if k == 4 {
        (300, 300, "hidden"@)
    } else {
        (500, 200, "output"@)
    }
}

/// The ends of the sample connection at place `j`: each input feeds two of
/// the hidden neurons, each hidden neuron feeds the output.
pub open spec fn sample_link(j: int) -> (usize, usize) {
    if j == 0 {
        (1, 3)
    } else if j == 1 {
        (1, 4)
    } else if j == 2 {
        (2, 4)
    } else if j == 3 {
        (2, 5)
    } else if j == 4 {
        (3, 6)
    } else if j == 5 {
        (4, 6)
    } else {
        (5, 6)
    }
}

/// `after` is a sample network built in place of `before`. Coordinates are
/// what `scalar_of` made of the whole numbers of `sample_site`, biases and
/// weights are draws, every neuron is at rest and every connection off.
pub open spec fn sampled<V, S: Fn(u32) -> V, D: Fn() -> V>(
    before: NetworkView<V>,
    scalar_of: S,
    draw: D,
    after: NetworkView<V>,
) -> bool {
    &&& after.clock == before.clock
    &&& after.zero == before.zero
    &&& after.neurons.len() == SAMPLE_NEURONS
    &&& forall|k: int|
        0 <= k < SAMPLE_NEURONS ==> {
            &&& #[trigger] after.neurons[k] == NeuronView::minted(
                (k + 1) as usize,
                after.neurons[k].position.x,
                after.neurons[k].position.y,
                sample_site(k).2,
                before.zero,
                after.neurons[k].bias,
            )
            &&& scalar_of.ensures((sample_site(k).0,), after.neurons[k].position.x)
            &&& scalar_of.ensures((sample_site(k).1,), after.neurons[k].position.y)
            &&& draw.ensures((), after.neurons[k].bias)
        }
    &&& after.connections.len() == SAMPLE_CONNECTIONS
    &&& forall|j: int|
        0 <= j < SAMPLE_CONNECTIONS ==> {
            &&& #[trigger] after.connections[j] == (Connection {
                id: (j + 1) as usize,
                from_id: sample_link(j).0,
                to_id: sample_link(j).1,
                weight: after.connections[j].weight,
                active: false,
            })
            &&& draw.ensures((), after.connections[j].weight)
        }
}

/// A network whose neurons carry the tags of the sample sites has two input
/// neurons, three hidden neurons and one output neuron, whatever else they
/// hold.
pub proof fn lemma_sample_census<V>(network: NetworkView<V>)
    requires
        network.neurons.len() == SAMPLE_NEURONS,
        forall|k: int|
            0 <= k < SAMPLE_NEURONS ==> (#[trigger] network.neurons[k]).neuron_type == sample_site(
                k,
            ).2,
    ensures
        network.count_of(NeuronKind::Input) == 2,
        network.count_of(NeuronKind::Hidden) == 3,
        network.count_of(NeuronKind::Output) == 1,
{
    reveal_strlit("input");
    reveal_strlit("hidden");
    reveal_strlit("output");
    let neurons = network.neurons;
    assert("hidden"@[0] != "output"@[0]);
    assert(neurons[0].kind() == NeuronKind::Input);
    assert(neurons[1].kind() == NeuronKind::Input);
    assert(neurons[2].kind() == NeuronKind::Hidden);
    assert(neurons[3].kind() == NeuronKind::Hidden);
    assert(neurons[4].kind() == NeuronKind::Hidden);
    assert(neurons[5].kind() == NeuronKind::Output);
    assert(neurons.take(6) =~= neurons);
    lemma_census_of_prefix(neurons, NeuronKind::Input);
    lemma_census_of_prefix(neurons, NeuronKind::Hidden);
    lemma_census_of_prefix(neurons, NeuronKind::Output);
}

/// How many neurons of a kind each prefix of six neurons holds, told from the
/// kinds of the six.
proof fn lemma_census_of_prefix<V>(neurons: Seq<NeuronView<V>>, kind: NeuronKind)
    requires
        neurons.len() == 6,
    ensures
        neurons.take(6).filter(is_kind(kind)).len() == tally(neurons[0].kind(), kind) + tally(
            neurons[1].kind(),
            kind,
        ) + tally(neurons[2].kind(), kind) + tally(neurons[3].kind(), kind) + tally(
            neurons[4].kind(),
            kind,
        ) + tally(neurons[5].kind(), kind),
{
    neurons.take(0).lemma_filter_len(is_kind(kind));
    lemma_kind_prefix_step(neurons, kind, 0);
    lemma_kind_prefix_step(neurons, kind, 1);
    lemma_kind_prefix_step(neurons, kind, 2);
    lemma_kind_prefix_step(neurons, kind, 3);
    lemma_kind_prefix_step(neurons, kind, 4);
    lemma_kind_prefix_step(neurons, kind, 5);
}

/// One if the two kinds are the same, else zero.
spec fn tally(found: NeuronKind, kind: NeuronKind) -> nat {
    if found == kind {
        1
    } else {
        0
    }
}

impl<V: Copy> NeuralNetwork<V> {
    /// Replaces the network by the sample network.
    ///
    /// `scalar_of` turns a whole number into a scalar; it is asked for every
    /// coordinate and has to accept every whole number. `draw` gives a fresh
    /// bias or weight each time it is called.
    pub fn create_sample_network<S: Fn(u32) -> V, D: Fn() -> V>(&mut self, scalar_of: S, draw: D)
        requires
            forall|whole: u32| #[trigger] scalar_of.requires((whole,)),
            draw.requires(()),
        ensures
            final(self)@.wf(),
            sampled(old(self)@, scalar_of, draw, final(self)@),
            final(self)@.count_of(NeuronKind::Input) == 2,
            final(self)@.count_of(NeuronKind::Hidden) == 3,
            final(self)@.count_of(NeuronKind::Output) == 1,
            final(self)@.connections.len() == 7,
    {
        self.clear_network();

        let input1 = self.add_neuron(scalar_of(100), scalar_of(150), "input", draw());
        let input2 = self.add_neuron(scalar_of(100), scalar_of(250), "input", draw());

        let hidden1 = self.add_neuron(scalar_of(300), scalar_of(100), "hidden", draw());
        let hidden2 = self.add_neuron(scalar_of(300), scalar_of(200), "hidden", draw());
        let hidden3 = self.add_neuron(scalar_of(300), scalar_of(300), "hidden", draw());

        let output = self.add_neuron(scalar_of(500), scalar_of(200), "output", draw());

        self.add_connection(input1, hidden1, draw());
        self.add_connection(input1, hidden2, draw());
        self.add_connection(input2, hidden2, draw());
        self.add_connection(input2, hidden3, draw());

        self.add_connection(hidden1, output, draw());
        self.add_connection(hidden2, output, draw());
        self.add_connection(hidden3, output, draw());

        proof {
            lemma_sample_census(self@);
        }
    }
}

} // verus!
