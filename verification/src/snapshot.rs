//! A copy of a network's contents with its counts, for whoever draws it.

use vstd::prelude::*;
use crate::kind::{classify, NeuronKind};
use crate::model::{Connection, NetworkState, NetworkStats, Neuron};
use crate::network::{activations_of, is_kind, lemma_kind_prefix_step, NetworkView, NeuralNetwork};

verus! {

/// The counts in `stats` are those of `network`.
pub open spec fn tallied<V>(network: NetworkView<V>, stats: NetworkStats<V>) -> bool {
    &&& stats.total_neurons == network.neurons.len()
    &&& stats.total_connections == network.connections.len()
    &&& stats.input_neurons == network.count_of(NeuronKind::Input)
    &&& stats.hidden_neurons == network.count_of(NeuronKind::Hidden)
    &&& stats.output_neurons == network.count_of(NeuronKind::Output)
}

/// `average` is `zero` where there are no values, and else what `mean` gave
/// for them.
pub open spec fn averaged<V, M: Fn(Vec<V>) -> V>(
    mean: M,
    values: Seq<V>,
    zero: V,
    average: V,
) -> bool {
    if values.len() == 0 {
        average == zero
    } else {
        exists|handed: Vec<V>| handed@ == values && #[trigger] mean.ensures((handed,), average)
    }
}

/// A count taken of a cleared network finds no neuron and no connection.
pub proof fn lemma_cleared_tally<V>(network: NetworkView<V>, stats: NetworkStats<V>)
    requires
        tallied(network.cleared(), stats),
    ensures
        stats.total_neurons == 0,
        stats.total_connections == 0,
        stats.input_neurons == 0,
        stats.hidden_neurons == 0,
        stats.output_neurons == 0,
{
    let cleared = network.cleared();
    cleared.neurons.lemma_filter_len(is_kind(NeuronKind::Input));
    cleared.neurons.lemma_filter_len(is_kind(NeuronKind::Hidden));
    cleared.neurons.lemma_filter_len(is_kind(NeuronKind::Output));
}

impl<V: Copy> NeuralNetwork<V> {
    /// Copies the network out: every neuron and connection by ascending id,
    /// the counts, and the mean activation.
    ///
    /// `mean` gives the arithmetic mean of a sequence that is not empty; it
    /// is handed the activations by ascending id, and has to accept every
    /// sequence. The copy shares nothing with the network.
    pub fn get_network_state<M: Fn(Vec<V>) -> V>(&self, mean: M) -> (state: NetworkState<V>)
        requires
            forall|values: Vec<V>| #[trigger] mean.requires((values,)),
        ensures
            self@.wf(),
            state.neuron_views() == self@.neurons,
            state.connections@ == self@.connections,
            tallied(self@, state.stats),
            averaged(mean, self@.activations(), self@.zero, state.stats.average_activation),
    {
        proof {
            use_type_invariant(self);
        }
        let ghost views = self@.neurons;
        let n = self.graph.neurons.len();
        let mut neurons: Vec<Neuron<V>> = Vec::new();
        let mut activations: Vec<V> = Vec::new();
        let mut input_neurons: usize = 0;
        let mut hidden_neurons: usize = 0;
        let mut output_neurons: usize = 0;
        proof {
            views.take(0).lemma_filter_len(is_kind(NeuronKind::Input));
            views.take(0).lemma_filter_len(is_kind(NeuronKind::Hidden));
            views.take(0).lemma_filter_len(is_kind(NeuronKind::Output));
        }
        let mut k: usize = 0;
        while k < n
            invariant
                k <= n,
                n == self.graph.neurons@.len(),
                views == self@.neurons,
                neurons@.len() == k,
                activations@.len() == k,
                forall|i: int| 0 <= i < k ==> (#[trigger] neurons@[i])@ == views[i],
                forall|i: int| 0 <= i < k ==> #[trigger] activations@[i] == views[i].activation,
                input_neurons == self@.count_before(NeuronKind::Input, k as int),
                hidden_neurons == self@.count_before(NeuronKind::Hidden, k as int),
                output_neurons == self@.count_before(NeuronKind::Output, k as int),
                input_neurons <= k,
                hidden_neurons <= k,
                output_neurons <= k,
            decreases n - k,
        {
            let neuron = &self.graph.neurons[k];
            proof {
                assert(views[k as int] == neuron@);
                lemma_kind_prefix_step(views, NeuronKind::Input, k as int);
                lemma_kind_prefix_step(views, NeuronKind::Hidden, k as int);
                lemma_kind_prefix_step(views, NeuronKind::Output, k as int);
            }
            match classify(neuron.neuron_type.as_str()) {
                NeuronKind::Input => {
                    input_neurons += 1;
                },
                NeuronKind::Hidden => {
                    hidden_neurons += 1;
                },
                NeuronKind::Output => {
                    output_neurons += 1;
                },
                NeuronKind::Unknown => {},
            }
            activations.push(neuron.activation);
            neurons.push(neuron.clone());
            k += 1;
        }

        let m = self.graph.connections.len();
        let mut connections: Vec<Connection<V>> = Vec::new();
        let mut j: usize = 0;
        while j < m
            invariant
                j <= m,
                m == self.graph.connections@.len(),
                connections@ == self.graph.connections@.take(j as int),
            decreases m - j,
        {
            connections.push(self.graph.connections[j]);
            proof {
                let all = self.graph.connections@;
                assert(all.take(j as int + 1) =~= all.take(j as int).push(all[j as int]));
            }
            j += 1;
        }

        proof {
            assert(views.take(n as int) =~= views);
            assert(self.graph.connections@.take(m as int) =~= self.graph.connections@);
            assert(activations@ =~= activations_of(views));
        }
        let ghost handed = activations;
        let average_activation = if n == 0 {
            self.zero
        } else {
            mean(activations)
        };
        proof {
            if n != 0 {
                assert(handed@ == self@.activations() && mean.ensures(
                    (handed,),
                    average_activation,
                ));
            }
        }
        let stats = NetworkStats {
            total_neurons: n,
            total_connections: m,
            input_neurons,
            hidden_neurons,
            output_neurons,
            average_activation,
        };
        let state = NetworkState { neurons, connections, stats };
        proof {
            assert(state.neuron_views() =~= views);
        }
        state
    }
}

} // verus!
