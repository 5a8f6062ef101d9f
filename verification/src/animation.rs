//! The cosmetic steppers: an oscillation of every activation in time, and a
//! layout of the neurons on a circle. Neither reads what a forward sweep left
//! behind, and the oscillation overwrites it.

use vstd::prelude::*;
use crate::kind::{classify, frequency_halves, frequency_halves_of};
use crate::model::{OrbitSlot, Position};
use crate::network::{
    same_but_activations, same_but_flags, same_but_positions, Graph, NetworkView, NeuralNetwork,
};

verus! {

/// A connection is shown as active when its source exceeds this many tenths.
pub const SOURCE_THRESHOLD_TENTHS: u8 = 5;

/// A connection is shown as active when its target exceeds this many tenths.
pub const TARGET_THRESHOLD_TENTHS: u8 = 3;

/// The centre of the orbit, first coordinate.
pub const ORBIT_CENTER_X: u32 = 400;

/// The centre of the orbit, second coordinate.
pub const ORBIT_CENTER_Y: u32 = 300;

/// The radius of the orbit.
pub const ORBIT_RADIUS: u32 = 200;

/// The display flag of a connection agrees with what `exceeds` said of its two
/// ends: on only if the source exceeded its threshold and the target its own,
/// off only if one of the two did not.
pub open spec fn lit<V, E: Fn(V, u8) -> bool>(
    exceeds: E,
    source: V,
    target: V,
    active: bool,
) -> bool {
    if active {
        &&& exceeds.ensures((source, SOURCE_THRESHOLD_TENTHS), true)
        &&& exceeds.ensures((target, TARGET_THRESHOLD_TENTHS), true)
    } else {
        ||| exceeds.ensures((source, SOURCE_THRESHOLD_TENTHS), false)
        ||| exceeds.ensures((target, TARGET_THRESHOLD_TENTHS), false)
    }
}

/// `after` is an outcome of one animation step over `before`. The clock is
/// what `advance` made of the old reading and the step; every activation is
/// what `wave` gave for the new reading, the frequency of the neuron's kind
/// and the neuron's id; every display flag is lit by the new activations.
pub open spec fn stepped<V, A: Fn(V, V) -> V, W: Fn(V, u8, usize) -> V, E: Fn(V, u8) -> bool>(
    before: NetworkView<V>,
    delta_time: V,
    advance: A,
    wave: W,
    exceeds: E,
    after: NetworkView<V>,
) -> bool {
    &&& after.zero == before.zero
    &&& advance.ensures((before.clock, delta_time), after.clock)
    &&& same_but_activations(before.neurons, after.neurons)
    &&& forall|k: int|
        0 <= k < before.neurons.len() ==> wave.ensures(
            (after.clock, frequency_halves_of(before.kind_at(k)), before.neurons[k].id),
            (#[trigger] after.neurons[k]).activation,
        )
    &&& same_but_flags(before.connections, after.connections)
    &&& forall|j: int|
        0 <= j < before.connections.len() ==> lit(
            exceeds,
            after.neurons[before.connections[j].from_id - 1].activation,
            after.neurons[before.connections[j].to_id - 1].activation,
            (#[trigger] after.connections[j]).active,
        )
}

/// A step has one outcome: where `advance`, `wave` and `exceeds` are
/// functions of their arguments, two outcomes of a step over the same network
/// are the same network.
pub proof fn lemma_step_is_a_function<
    V,
    A: Fn(V, V) -> V,
    W: Fn(V, u8, usize) -> V,
    E: Fn(V, u8) -> bool,
>(
    before: NetworkView<V>,
    delta_time: V,
    advance: A,
    wave: W,
    exceeds: E,
    one: NetworkView<V>,
    other: NetworkView<V>,
)
    requires
        stepped(before, delta_time, advance, wave, exceeds, one),
        stepped(before, delta_time, advance, wave, exceeds, other),
        forall|clock: V, step: V, first: V, second: V|
            #[trigger] advance.ensures((clock, step), first) && #[trigger] advance.ensures(
                (clock, step),
                second,
            ) ==> first == second,
        forall|clock: V, halves: u8, id: usize, first: V, second: V|
            #[trigger] wave.ensures((clock, halves, id), first) && #[trigger] wave.ensures(
                (clock, halves, id),
                second,
            ) ==> first == second,
        forall|value: V, tenths: u8, first: bool, second: bool|
            #[trigger] exceeds.ensures((value, tenths), first) && #[trigger] exceeds.ensures(
                (value, tenths),
                second,
            ) ==> first == second,
    ensures
        one == other,
{
    assert forall|k: int| 0 <= k < before.neurons.len() implies one.neurons[k]
        == other.neurons[k] by {
        assert(one.neurons[k] == before.neurons[k].with_activation(one.neurons[k].activation));
        assert(other.neurons[k] == before.neurons[k].with_activation(
            other.neurons[k].activation,
        ));
    }
    assert(one.neurons =~= other.neurons);
    assert forall|j: int| 0 <= j < before.connections.len() implies one.connections[j]
        == other.connections[j] by {
        assert(one.connections[j] == before.connections[j].with_active(
            one.connections[j].active,
        ));
        assert(other.connections[j] == before.connections[j].with_active(
            other.connections[j].active,
        ));
    }
    assert(one.connections =~= other.connections);
}

/// A step that leaves the clock where it is repeats itself: where `advance`
/// gives back the reading it was handed for this `delta_time`, and `wave` is a
/// function of its arguments, a second step leaves every activation as the
/// first step made it.
pub proof fn lemma_step_at_rest_repeats<
    V,
    A: Fn(V, V) -> V,
    W: Fn(V, u8, usize) -> V,
    E: Fn(V, u8) -> bool,
>(
    start: NetworkView<V>,
    delta_time: V,
    advance: A,
    wave: W,
    exceeds: E,
    first: NetworkView<V>,
    second: NetworkView<V>,
)
    requires
        stepped(start, delta_time, advance, wave, exceeds, first),
        stepped(first, delta_time, advance, wave, exceeds, second),
        forall|clock: V, next: V|
            #[trigger] advance.ensures((clock, delta_time), next) ==> next == clock,
        forall|clock: V, halves: u8, id: usize, one: V, other: V|
            #[trigger] wave.ensures((clock, halves, id), one) && #[trigger] wave.ensures(
                (clock, halves, id),
                other,
            ) ==> one == other,
    ensures
        second.clock == first.clock,
        second.activations() == first.activations(),
{
    assert forall|k: int| 0 <= k < first.neurons.len() implies second.neurons[k].activation
        == first.neurons[k].activation by {
        assert(first.neurons[k] == start.neurons[k].with_activation(first.neurons[k].activation));
        assert(second.neurons[k] == first.neurons[k].with_activation(
            second.neurons[k].activation,
        ));
    }
    assert(second.activations() =~= first.activations());
}

/// The slot of the neuron at place `index` among `count` neurons.
pub open spec fn orbit_slot(index: int, count: int) -> OrbitSlot {
    OrbitSlot {
        index: index as usize,
        count: count as usize,
        center_x: ORBIT_CENTER_X,
        center_y: ORBIT_CENTER_Y,
        radius: ORBIT_RADIUS,
    }
}

/// `after` is an outcome of laying `before` out on the orbit at `time`.
/// Nothing but positions changes; the neuron with id `k + 1` stands where
/// `place` put slot `k`.
pub open spec fn orbited<V, P: Fn(V, OrbitSlot) -> Position<V>>(
    before: NetworkView<V>,
    time: V,
    place: P,
    after: NetworkView<V>,
) -> bool {
    &&& after.connections == before.connections
    &&& after.clock == before.clock
    &&& after.zero == before.zero
    &&& same_but_positions(before.neurons, after.neurons)
    &&& forall|k: int|
        0 <= k < before.neurons.len() ==> place.ensures(
            (time, orbit_slot(k, before.neurons.len() as int)),
            (#[trigger] after.neurons[k]).position,
        )
}

/// The layout is reproducible: where `place` is a function of its arguments,
/// laying a network out a second time at the same `time` puts every neuron
/// where the first time put it.
pub proof fn lemma_orbit_repeats<V, P: Fn(V, OrbitSlot) -> Position<V>>(
    start: NetworkView<V>,
    time: V,
    place: P,
    first: NetworkView<V>,
    second: NetworkView<V>,
)
    requires
        orbited(start, time, place, first),
        orbited(first, time, place, second),
        forall|time: V, slot: OrbitSlot, one: Position<V>, other: Position<V>|
            #[trigger] place.ensures((time, slot), one) && #[trigger] place.ensures(
                (time, slot),
                other,
            ) ==> one == other,
    ensures
        second == first,
{
    assert forall|k: int| 0 <= k < first.neurons.len() implies second.neurons[k]
        == first.neurons[k] by {
        assert(second.neurons[k] == first.neurons[k].with_position(second.neurons[k].position));
    }
    assert(second.neurons =~= first.neurons);
}

impl<V: Copy> NeuralNetwork<V> {
    /// Advances the clock by `delta_time` and lets every activation follow
    /// its oscillator, then lights the connections.
    ///
    /// `advance` adds a step to a clock reading. `wave` gives the activation
    /// of a neuron from the clock reading, the neuron's frequency in halves
    /// and its id. `exceeds` says whether a value lies above a threshold given
    /// in tenths. Each of the three has to accept every argument.
    pub fn animate_step<A: Fn(V, V) -> V, W: Fn(V, u8, usize) -> V, E: Fn(V, u8) -> bool>(
        &mut self,
        delta_time: V,
        advance: A,
        wave: W,
        exceeds: E,
    )
        requires
            forall|clock: V, step: V| #[trigger] advance.requires((clock, step)),
            forall|clock: V, halves: u8, id: usize| #[trigger] wave.requires((clock, halves, id)),
            forall|value: V, tenths: u8| #[trigger] exceeds.requires((value, tenths)),
        ensures
            final(self)@.wf(),
            stepped(old(self)@, delta_time, advance, wave, exceeds, final(self)@),
    {
        proof {
            use_type_invariant(&*self);
        }
        let ghost before = self@;
        let clock = advance(self.animation_time, delta_time);
        let mut graph = Graph::empty();
        std::mem::swap(&mut self.graph, &mut graph);
        self.animation_time = clock;

        let n = graph.neurons.len();
        let mut k: usize = 0;
        while k < n
            invariant
                k <= n,
                n == before.neurons.len(),
                before.wf(),
                graph.neurons@.len() == n,
                graph.connections@ == before.connections,
                forall|clock: V, halves: u8, id: usize|
                    #[trigger] wave.requires((clock, halves, id)),
                same_but_activations(before.neurons, graph.neuron_views()),
                forall|i: int|
                    0 <= i < k ==> wave.ensures(
                        (clock, frequency_halves_of(before.kind_at(i)), before.neurons[i].id),
                        (#[trigger] graph.neuron_views()[i]).activation,
                    ),
            decreases n - k,
        {
            let ghost views = graph.neuron_views();
            let kind = classify(graph.neurons[k].neuron_type.as_str());
            proof {
                assert(views[k as int] == before.neurons[k as int].with_activation(
                    views[k as int].activation,
                ));
            }
            let value = wave(clock, frequency_halves(kind), graph.neurons[k].id);
            graph.neurons[k].activation = value;
            proof {
                assert(graph.neuron_views() =~= views.update(
                    k as int,
                    views[k as int].with_activation(value),
                ));
            }
            k += 1;
        }

        let ghost views = graph.neuron_views();
        let m = graph.connections.len();
        let mut j: usize = 0;
        while j < m
            invariant
                j <= m,
                m == before.connections.len(),
                n == before.neurons.len(),
                before.wf(),
                graph.neurons@.len() == n,
                graph.neuron_views() == views,
                graph.connections@.len() == m,
                forall|value: V, tenths: u8| #[trigger] exceeds.requires((value, tenths)),
                same_but_flags(before.connections, graph.connections@),
                forall|i: int|
                    0 <= i < j ==> lit(
                        exceeds,
                        views[before.connections[i].from_id - 1].activation,
                        views[before.connections[i].to_id - 1].activation,
                        (#[trigger] graph.connections@[i]).active,
                    ),
            decreases m - j,
        {
            let connection = graph.connections[j];
            proof {
                assert(connection == before.connections[j as int].with_active(connection.active));
            }
            let source = graph.neurons[connection.from_id - 1].activation;
            let target = graph.neurons[connection.to_id - 1].activation;
            let mut active = exceeds(source, SOURCE_THRESHOLD_TENTHS);
            if active {
                active = exceeds(target, TARGET_THRESHOLD_TENTHS);
            }
            graph.connections[j].active = active;
            j += 1;
        }

        proof {
            assert forall|i: int| 0 <= i < n implies {
                &&& (#[trigger] views[i]).id == i + 1
                &&& views[i].dressed()
            } by {
                assert(views[i] == before.neurons[i].with_activation(views[i].activation));
            }
            assert forall|i: int| 0 <= i < m implies {
                &&& (#[trigger] graph.connections@[i]).id == i + 1
                &&& 1 <= graph.connections@[i].from_id <= n
                &&& 1 <= graph.connections@[i].to_id <= n
            } by {
                assert(graph.connections@[i] == before.connections[i].with_active(
                    graph.connections@[i].active,
                ));
            }
        }
        self.graph = graph;
    }

    /// Puts every neuron on the orbit. The neuron with id `k + 1` takes slot
    /// `k`, so slots follow ascending ids and a second call at the same `time`
    /// asks `place` the same questions. `place` has to accept every time and
    /// every slot.
    pub fn orbital_dance<P: Fn(V, OrbitSlot) -> Position<V>>(&mut self, time: V, place: P)
        requires
            forall|time: V, slot: OrbitSlot| #[trigger] place.requires((time, slot)),
        ensures
            final(self)@.wf(),
            orbited(old(self)@, time, place, final(self)@),
    {
        proof {
            use_type_invariant(&*self);
        }
        let ghost before = self@;
        let mut graph = Graph::empty();
        std::mem::swap(&mut self.graph, &mut graph);

        let n = graph.neurons.len();
        let mut k: usize = 0;
        while k < n
            invariant
                k <= n,
                n == before.neurons.len(),
                before.wf(),
                graph.neurons@.len() == n,
                graph.connections@ == before.connections,
                forall|time: V, slot: OrbitSlot| #[trigger] place.requires((time, slot)),
                same_but_positions(before.neurons, graph.neuron_views()),
                forall|i: int|
                    0 <= i < k ==> place.ensures(
                        (time, orbit_slot(i, n as int)),
                        (#[trigger] graph.neuron_views()[i]).position,
                    ),
            decreases n - k,
        {
            let ghost views = graph.neuron_views();
            let slot = OrbitSlot {
                index: k,
                count: n,
                center_x: ORBIT_CENTER_X,
                center_y: ORBIT_CENTER_Y,
                radius: ORBIT_RADIUS,
            };
            let position = place(time, slot);
            graph.neurons[k].position = position;
            proof {
                assert(graph.neuron_views() =~= views.update(
                    k as int,
                    views[k as int].with_position(position),
                ));
            }
            k += 1;
        }

        proof {
            let views = graph.neuron_views();
            assert forall|i: int| 0 <= i < n implies {
                &&& (#[trigger] views[i]).id == i + 1
                &&& views[i].dressed()
            } by {
                assert(views[i] == before.neurons[i].with_position(views[i].position));
            }
        }
        self.graph = graph;
    }
}

} // verus!
