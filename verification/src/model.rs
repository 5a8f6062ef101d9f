//! The data that the engine holds and hands out, and its mathematical view.

use vstd::prelude::*;
use crate::kind::{color_of, kind_of, symbol_of, NeuronKind};

verus! {

/// A point of the drawing plane.
#[derive(Debug)]
pub struct Position<V> {
    pub x: V,
    pub y: V,
}

/// A node of the graph.
#[derive(Debug)]
pub struct Neuron<V> {
    pub id: usize,
    pub position: Position<V>,
    pub neuron_type: String,
    pub activation: V,
    pub bias: V,
    pub color: String,
    pub symbol: String,
}

/// A directed, weighted edge between two neurons.
#[derive(Debug)]
pub struct Connection<V> {
    pub id: usize,
    pub from_id: usize,
    pub to_id: usize,
    pub weight: V,
    pub active: bool,
}

/// One summand of a neuron's weighted input: what the source neuron held when
/// it was read, and the weight of the connection it came over.
#[derive(Debug)]
pub struct Term<V> {
    pub activation: V,
    pub weight: V,
}

/// The place of one neuron on the orbit: its rank among the neurons, how many
/// there are, and the circle they stand on.
#[derive(Clone, Copy, Debug)]
pub struct OrbitSlot {
    pub index: usize,
    pub count: usize,
    pub center_x: u32,
    pub center_y: u32,
    pub radius: u32,
}

/// Counts over a network, and the mean of its activations.
#[derive(Debug)]
pub struct NetworkStats<V> {
    pub total_neurons: usize,
    pub total_connections: usize,
    pub input_neurons: usize,
    pub hidden_neurons: usize,
    pub output_neurons: usize,
    pub average_activation: V,
}

/// A copy of a network's contents at one moment.
#[derive(Debug)]
pub struct NetworkState<V> {
    pub neurons: Vec<Neuron<V>>,
    pub connections: Vec<Connection<V>>,
    pub stats: NetworkStats<V>,
}

/// A neuron as contracts see it: its texts as sequences of characters.
pub struct NeuronView<V> {
    pub id: usize,
    pub position: Position<V>,
    pub neuron_type: Seq<char>,
    pub activation: V,
    pub bias: V,
    pub color: Seq<char>,
    pub symbol: Seq<char>,
}

impl<V> NeuronView<V> {
    /// The kind that the neuron's type tag names.
    pub open spec fn kind(self) -> NeuronKind {
        kind_of(self.neuron_type)
    }

    /// The neuron that a store mints for a tag: colour and symbol come from
    /// the tag's kind.
    pub open spec fn minted(
        id: usize,
        x: V,
        y: V,
        tag: Seq<char>,
        activation: V,
        bias: V,
    ) -> NeuronView<V> {
        NeuronView {
            id,
            position: Position { x, y },
            neuron_type: tag,
            activation,
            bias,
            color: color_of(kind_of(tag)),
            symbol: symbol_of(kind_of(tag)),
        }
    }

    /// This neuron with another activation.
    pub open spec fn with_activation(self, activation: V) -> NeuronView<V> {
        NeuronView { activation, ..self }
    }

    /// This neuron at another place.
    pub open spec fn with_position(self, position: Position<V>) -> NeuronView<V> {
        NeuronView { position, ..self }
    }

    /// Colour and symbol are the ones that belong to the kind.
    pub open spec fn dressed(self) -> bool {
        &&& self.color == color_of(self.kind())
        &&& self.symbol == symbol_of(self.kind())
    }
}

impl<V> View for Neuron<V> {
    type V = NeuronView<V>;

    open spec fn view(&self) -> NeuronView<V> {
        NeuronView {
            id: self.id,
            position: self.position,
            neuron_type: self.neuron_type@,
            activation: self.activation,
            bias: self.bias,
            color: self.color@,
            symbol: self.symbol@,
        }
    }
}

/// Each neuron of a sequence as contracts see it.
pub open spec fn views_of<V>(neurons: Seq<Neuron<V>>) -> Seq<NeuronView<V>> {
    neurons.map_values(|n: Neuron<V>| n@)
}

impl<V> Connection<V> {
    /// This connection with another display flag.
    pub open spec fn with_active(self, active: bool) -> Connection<V> {
        Connection { active, ..self }
    }
}

impl<V> NetworkState<V> {
    /// The copied neurons as contracts see them.
    pub open spec fn neuron_views(self) -> Seq<NeuronView<V>> {
        views_of(self.neurons@)
    }
}

impl<V: Copy> Clone for Position<V> {
    fn clone(&self) -> (copy: Self)
        ensures
            copy == *self,
    {
        *self
    }
}

impl<V: Copy> Copy for Position<V> {

}

impl<V: Copy> Clone for Connection<V> {
    fn clone(&self) -> (copy: Self)
        ensures
            copy == *self,
    {
        *self
    }
}

impl<V: Copy> Copy for Connection<V> {

}

impl<V: Copy> Clone for Term<V> {
    fn clone(&self) -> (copy: Self)
        ensures
            copy == *self,
    {
        *self
    }
}

impl<V: Copy> Copy for Term<V> {

}

impl<V: Copy> Clone for NetworkStats<V> {
    fn clone(&self) -> (copy: Self)
        ensures
            copy == *self,
    {
        *self
    }
}

impl<V: Copy> Copy for NetworkStats<V> {

}

impl<V: Copy> Clone for Neuron<V> {
    fn clone(&self) -> (copy: Self)
        ensures
            copy == *self,
    {
        Neuron {
            id: self.id,
            position: self.position,
            neuron_type: self.neuron_type.clone(),
            activation: self.activation,
            bias: self.bias,
            color: self.color.clone(),
            symbol: self.symbol.clone(),
        }
    }
}

impl<V: Copy> Clone for NetworkState<V> {
    fn clone(&self) -> (copy: Self)
        ensures
            copy.neuron_views() == self.neuron_views(),
            copy.connections@ == self.connections@,
            copy.stats == self.stats,
    {
        let mut neurons: Vec<Neuron<V>> = Vec::new();
        let mut k: usize = 0;
        while k < self.neurons.len()
            invariant
                k <= self.neurons@.len(),
                neurons@ == self.neurons@.take(k as int),
            decreases self.neurons@.len() - k,
        {
            neurons.push(self.neurons[k].clone());
            proof {
                assert(self.neurons@.take(k as int + 1) =~= self.neurons@.take(k as int).push(
                    self.neurons@[k as int],
                ));
            }
            k += 1;
        }
        let mut connections: Vec<Connection<V>> = Vec::new();
        let mut j: usize = 0;
        while j < self.connections.len()
            invariant
                j <= self.connections@.len(),
                connections@ == self.connections@.take(j as int),
            decreases self.connections@.len() - j,
        {
            connections.push(self.connections[j]);
            proof {
                assert(self.connections@.take(j as int + 1) =~= self.connections@.take(
                    j as int,
                ).push(self.connections@[j as int]));
            }
            j += 1;
        }
        proof {
            assert(self.neurons@.take(self.neurons@.len() as int) =~= self.neurons@);
            assert(self.connections@.take(self.connections@.len() as int) =~= self.connections@);
        }
        NetworkState { neurons, connections, stats: self.stats }
    }
}

} // verus!
