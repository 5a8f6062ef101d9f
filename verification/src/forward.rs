//! One forward sweep: inputs are written, then every hidden and every output
//! neuron is evaluated once, in that order and by ascending id.
//!
//! The sweep follows ids, not the depth of a neuron in the graph. A neuron
//! whose source is evaluated later than itself reads what that source held
//! before the sweep reached it.

use vstd::prelude::*;
use crate::kind::{classify, NeuronKind};
use crate::model::{Connection, NeuronView, Term};
use crate::network::{
    activations_of, is_kind, lemma_kind_prefix_step, same_but_activations, Graph, NetworkView,
    NeuralNetwork,
};

verus! {

/// What neuron `k` holds once the inputs are written: the input neuron of rank
/// `r` among the input neurons holds `inputs[r]` if there is one, every other
/// neuron holds what it held.
pub open spec fn loaded<V>(before: NetworkView<V>, inputs: Seq<V>, k: int) -> V {
    let rank = before.count_before(NeuronKind::Input, k);
    if before.kind_at(k) == NeuronKind::Input && rank < inputs.len() {
        inputs[rank as int]
    } else {
        before.neurons[k].activation
    }
}

/// Whether the sweep evaluates neuron `j` before neuron `k`.
pub open spec fn evaluated_before<V>(before: NetworkView<V>, j: int, k: int) -> bool {
    match (before.kind_at(j), before.kind_at(k)) {
        (NeuronKind::Hidden, NeuronKind::Hidden) => j < k,
        (NeuronKind::Output, NeuronKind::Output) => j < k,
        (NeuronKind::Hidden, NeuronKind::Output) => true,
        _ => false,
    }
}

/// The activations that the evaluation of neuron `k` reads, where `after` is
/// the outcome of the sweep: the result of every neuron evaluated before `k`,
/// and of every other neuron what it held once the inputs were written.
pub open spec fn seen<V>(
    before: NetworkView<V>,
    inputs: Seq<V>,
    after: Seq<NeuronView<V>>,
    k: int,
) -> Seq<V> {
    Seq::new(
        before.neurons.len(),
        |j: int|
            if evaluated_before(before, j, k) {
                after[j].activation
            } else {
                loaded(before, inputs, j)
            },
    )
}

/// The summand that a connection adds to the input of neuron `target`, if it
/// ends there. `held[i]` is the activation of the neuron with id `i + 1`.
pub open spec fn term_of<V>(held: Seq<V>, target: usize) -> spec_fn(Connection<V>) -> Option<
    Term<V>,
> {
    |c: Connection<V>|
        if c.to_id == target {
            Some(Term { activation: held[c.from_id - 1], weight: c.weight })
        } else {
            None
        }
}

/// The summands of neuron `target`, by ascending connection id.
pub open spec fn incoming<V>(connections: Seq<Connection<V>>, held: Seq<V>, target: usize) -> Seq<
    Term<V>,
> {
    connections.filter_map(term_of(held, target))
}

/// `result` is what `activate` gave for this bias and these summands.
pub open spec fn fired<V, F: Fn(V, Vec<Term<V>>) -> V>(
    activate: F,
    bias: V,
    terms: Seq<Term<V>>,
    result: V,
) -> bool {
    exists|handed: Vec<Term<V>>|
        handed@ == terms && #[trigger] activate.ensures((bias, handed), result)
}

/// Neuron `i` holds what `activate` gave for its bias and its summands as the
/// sweep saw them.
pub open spec fn settled<V, F: Fn(V, Vec<Term<V>>) -> V>(
    before: NetworkView<V>,
    inputs: Seq<V>,
    activate: F,
    current: Seq<NeuronView<V>>,
    i: int,
) -> bool {
    fired(
        activate,
        before.neurons[i].bias,
        incoming(before.connections, seen(before, inputs, current, i), before.neurons[i].id),
        current[i].activation,
    )
}

/// `after` is an outcome of one sweep over `before` with these inputs.
/// Nothing but activations changes. A hidden or output neuron holds what
/// `activate` gave for its bias and its summands as the sweep saw them; every
/// other neuron holds what it held once the inputs were written.
pub open spec fn forward_pass<V, F: Fn(V, Vec<Term<V>>) -> V>(
    before: NetworkView<V>,
    inputs: Seq<V>,
    activate: F,
    after: NetworkView<V>,
) -> bool {
    &&& after.connections == before.connections
    &&& after.clock == before.clock
    &&& after.zero == before.zero
    &&& same_but_activations(before.neurons, after.neurons)
    &&& forall|k: int|
        0 <= k < before.neurons.len() ==> match #[trigger] before.kind_at(k) {
            NeuronKind::Hidden | NeuronKind::Output => settled(
                before,
                inputs,
                activate,
                after.neurons,
                k,
            ),
            _ => after.neurons[k].activation == loaded(before, inputs, k),
        }
}

/// Whether a sweep that has come to hidden neuron `hidden_done` and to output
/// neuron `output_done` has evaluated neuron `i`.
spec fn reached<V>(before: NetworkView<V>, hidden_done: int, output_done: int, i: int) -> bool {
    ||| before.kind_at(i) == NeuronKind::Hidden && i < hidden_done
    ||| before.kind_at(i) == NeuronKind::Output && i < output_done
}

/// The state of neuron `i` part way through a sweep: settled if the sweep has
/// evaluated it, else as it was once the inputs were written.
spec fn on_track<V, F: Fn(V, Vec<Term<V>>) -> V>(
    before: NetworkView<V>,
    inputs: Seq<V>,
    activate: F,
    current: Seq<NeuronView<V>>,
    hidden_done: int,
    output_done: int,
    i: int,
) -> bool {
    if reached(before, hidden_done, output_done, i) {
        settled(before, inputs, activate, current, i)
    } else {
        current[i].activation == loaded(before, inputs, i)
    }
}

/// Evaluating the neuron that is next in turn keeps every neuron on track.
proof fn lemma_sweep_step<V, F: Fn(V, Vec<Term<V>>) -> V>(
    before: NetworkView<V>,
    inputs: Seq<V>,
    activate: F,
    current: Seq<NeuronView<V>>,
    hidden_done: int,
    output_done: int,
    k: int,
    handed: Vec<Term<V>>,
    result: V,
    hidden_next: int,
    output_next: int,
)
    requires
        current.len() == before.neurons.len(),
        0 <= k < current.len(),
        (before.kind_at(k) == NeuronKind::Hidden && k == hidden_done && output_done == 0
            && hidden_next == k + 1 && output_next == 0) || (before.kind_at(k)
            == NeuronKind::Output && hidden_done == current.len() && k == output_done
            && hidden_next == hidden_done && output_next == k + 1),
        forall|i: int|
            0 <= i < current.len() ==> #[trigger] on_track(
                before,
                inputs,
                activate,
                current,
                hidden_done,
                output_done,
                i,
            ),
        handed@ == incoming(before.connections, activations_of(current), before.neurons[k].id),
        activate.ensures((before.neurons[k].bias, handed), result),
    ensures
        forall|i: int|
            0 <= i < current.len() ==> #[trigger] on_track(
                before,
                inputs,
                activate,
                current.update(k, current[k].with_activation(result)),
                hidden_next,
                output_next,
                i,
            ),
{
    let next = current.update(k, current[k].with_activation(result));
    assert forall|i: int| 0 <= i < current.len() implies #[trigger] on_track(
        before,
        inputs,
        activate,
        next,
        hidden_next,
        output_next,
        i,
    ) by {
        assert(on_track(before, inputs, activate, current, hidden_done, output_done, i));
        if i == k {
            assert forall|j: int| 0 <= j < current.len() implies activations_of(current)[j]
                == seen(before, inputs, next, k)[j] by {
                assert(on_track(before, inputs, activate, current, hidden_done, output_done, j));
            }
            assert(activations_of(current) =~= seen(before, inputs, next, k));
        } else if reached(before, hidden_next, output_next, i) {
            assert(seen(before, inputs, next, i) =~= seen(before, inputs, current, i));
        }
    }
}

/// `activate` is a function of the bias and the summands it is handed.
pub open spec fn single_valued<V, F: Fn(V, Vec<Term<V>>) -> V>(activate: F) -> bool {
    forall|bias: V, one: Vec<Term<V>>, other: Vec<Term<V>>, first: V, second: V|
        one@ == other@ && #[trigger] activate.ensures((bias, one), first)
            && #[trigger] activate.ensures((bias, other), second) ==> first == second
}

/// Two outcomes of a sweep agree on every neuron that a sweep which has come
/// to hidden neuron `hidden_done` and output neuron `output_done` has
/// evaluated.
proof fn lemma_outcomes_agree<V, F: Fn(V, Vec<Term<V>>) -> V>(
    before: NetworkView<V>,
    inputs: Seq<V>,
    activate: F,
    one: NetworkView<V>,
    other: NetworkView<V>,
    hidden_done: int,
    output_done: int,
)
    requires
        forward_pass(before, inputs, activate, one),
        forward_pass(before, inputs, activate, other),
        single_valued(activate),
        0 <= hidden_done <= before.neurons.len(),
        0 <= output_done <= before.neurons.len(),
        output_done > 0 ==> hidden_done == before.neurons.len(),
    ensures
        forall|i: int|
            0 <= i < before.neurons.len() && #[trigger] reached(
                before,
                hidden_done,
                output_done,
                i,
            ) ==> one.neurons[i].activation == other.neurons[i].activation,
    decreases hidden_done + output_done,
{
    if hidden_done + output_done > 0 {
        let k = if output_done > 0 {
            output_done - 1
        } else {
            hidden_done - 1
        };
        let hidden_before = if output_done > 0 {
            hidden_done
        } else {
            hidden_done - 1
        };
        let output_before = if output_done > 0 {
            output_done - 1
        } else {
            0
        };
        lemma_outcomes_agree(before, inputs, activate, one, other, hidden_before, output_before);
        assert forall|i: int|
            0 <= i < before.neurons.len() && #[trigger] reached(
                before,
                hidden_done,
                output_done,
                i,
            ) implies one.neurons[i].activation == other.neurons[i].activation by {
            if i == k {
                assert forall|j: int| 0 <= j < before.neurons.len() implies seen(
                    before,
                    inputs,
                    one.neurons,
                    k,
                )[j] == seen(before, inputs, other.neurons, k)[j] by {
                    if evaluated_before(before, j, k) {
                        assert(reached(before, hidden_before, output_before, j));
                    }
                }
                assert(seen(before, inputs, one.neurons, k) =~= seen(
                    before,
                    inputs,
                    other.neurons,
                    k,
                ));
                assert(before.kind_at(k) == NeuronKind::Hidden || before.kind_at(k)
                    == NeuronKind::Output);
                assert(settled(before, inputs, activate, one.neurons, k));
                assert(settled(before, inputs, activate, other.neurons, k));
            } else {
                assert(reached(before, hidden_before, output_before, i));
            }
        }
    }
}

/// A sweep has one outcome: where `activate` is a function of what it is
/// handed, two outcomes of a sweep over the same network with the same inputs
/// are the same network.
pub proof fn lemma_forward_pass_is_a_function<V, F: Fn(V, Vec<Term<V>>) -> V>(
    before: NetworkView<V>,
    inputs: Seq<V>,
    activate: F,
    one: NetworkView<V>,
    other: NetworkView<V>,
)
    requires
        forward_pass(before, inputs, activate, one),
        forward_pass(before, inputs, activate, other),
        single_valued(activate),
    ensures
        one == other,
{
    let n = before.neurons.len() as int;
    lemma_outcomes_agree(before, inputs, activate, one, other, n, n);
    assert forall|i: int| 0 <= i < n implies one.neurons[i] == other.neurons[i] by {
        assert(one.neurons[i] == before.neurons[i].with_activation(one.neurons[i].activation));
        assert(other.neurons[i] == before.neurons[i].with_activation(
            other.neurons[i].activation,
        ));
        match before.kind_at(i) {
            NeuronKind::Hidden | NeuronKind::Output => {
                assert(reached(before, n, n, i));
            },
            _ => {},
        }
    }
    assert(one.neurons =~= other.neurons);
}

/// How many neurons are of a kind does not depend on their activations.
pub proof fn lemma_count_ignores_activations<V>(
    before: Seq<NeuronView<V>>,
    current: Seq<NeuronView<V>>,
    kind: NeuronKind,
    k: int,
)
    requires
        same_but_activations(before, current),
        0 <= k <= before.len(),
    ensures
        before.take(k).filter(is_kind(kind)).len() == current.take(k).filter(is_kind(kind)).len(),
    decreases k,
{
    if k == 0 {
        assert(before.take(0).filter(is_kind(kind)).len() == 0) by {
            before.take(0).lemma_filter_len(is_kind(kind));
        }
        assert(current.take(0).filter(is_kind(kind)).len() == 0) by {
            current.take(0).lemma_filter_len(is_kind(kind));
        }
    } else {
        lemma_count_ignores_activations(before, current, kind, k - 1);
        lemma_kind_prefix_step(before, kind, k - 1);
        lemma_kind_prefix_step(current, kind, k - 1);
        assert(current[k - 1] == before[k - 1].with_activation(current[k - 1].activation));
    }
}

/// Collects the summands of neuron `target` from the graph as it stands.
fn gather<V: Copy>(graph: &Graph<V>, target: usize) -> (terms: Vec<Term<V>>)
    requires
        forall|j: int|
            0 <= j < graph.connections@.len() ==> 1 <= (#[trigger] graph.connections@[j]).from_id
                <= graph.neurons@.len(),
    ensures
        terms@ == incoming(graph.connections@, activations_of(graph.neuron_views()), target),
{
    let ghost held = activations_of(graph.neuron_views());
    let ghost pick = term_of(held, target);
    let mut terms: Vec<Term<V>> = Vec::new();
    let count = graph.connections.len();
    let mut j: usize = 0;
    while j < count
        invariant
            j <= count,
            count == graph.connections@.len(),
            held == activations_of(graph.neuron_views()),
            pick == term_of(held, target),
            terms@ == graph.connections@.take(j as int).filter_map(pick),
            forall|j: int|
                0 <= j < graph.connections@.len() ==> 1 <= (
                #[trigger] graph.connections@[j]).from_id <= graph.neurons@.len(),
        decreases count - j,
    {
        let connection = graph.connections[j];
        proof {
            graph.connections@.lemma_filter_map_take_succ(pick, j as int);
        }
        if connection.to_id == target {
            let source = &graph.neurons[connection.from_id - 1];
            terms.push(Term { activation: source.activation, weight: connection.weight });
        }
        j += 1;
    }
    assert(graph.connections@.take(count as int) =~= graph.connections@);
    terms
}

impl<V: Copy> NeuralNetwork<V> {
    /// Runs one forward sweep and returns the activations of the output
    /// neurons by ascending id.
    ///
    /// The inputs go to the input neurons by ascending id; inputs without a
    /// neuron and input neurons without an input are left alone. Then each
    /// hidden neuron, and after them each output neuron, takes the value that
    /// `activate` gives for the neuron's bias and its summands, one for each
    /// connection that ends at it. The value is stored at once, so a neuron
    /// evaluated later reads it. `activate` has to accept every bias and
    /// every sequence of summands.
    pub fn predict<F: Fn(V, Vec<Term<V>>) -> V>(&mut self, inputs: Vec<V>, activate: F) -> (outputs:
        Vec<V>)
        requires
            forall|bias: V, terms: Vec<Term<V>>| #[trigger] activate.requires((bias, terms)),
        ensures
            final(self)@.wf(),
            forward_pass(old(self)@, inputs@, activate, final(self)@),
            outputs@ == final(self)@.activations_of_kind(NeuronKind::Output),
            outputs@.len() == old(self)@.count_of(NeuronKind::Output),
    {
        proof {
            use_type_invariant(&*self);
        }
        let ghost before = self@;
        let mut graph = Graph::empty();
        std::mem::swap(&mut self.graph, &mut graph);
        let n = graph.neurons.len();

        let mut rank: usize = 0;
        let mut k: usize = 0;
        while k < n
            invariant
                k <= n,
                n == before.neurons.len(),
                before.wf(),
                graph.neurons@.len() == n,
                graph.connections@ == before.connections,
                rank == before.count_before(NeuronKind::Input, k as int),
                rank <= k,
                forall|i: int|
                    0 <= i < k ==> #[trigger] graph.neuron_views()[i]
                        == before.neurons[i].with_activation(loaded(before, inputs@, i)),
                forall|i: int|
                    k <= i < n ==> #[trigger] graph.neuron_views()[i] == before.neurons[i],
            decreases n - k,
        {
            let ghost views = graph.neuron_views();
            let kind = classify(graph.neurons[k].neuron_type.as_str());
            proof {
                lemma_kind_prefix_step(before.neurons, NeuronKind::Input, k as int);
                assert(views[k as int] == before.neurons[k as int]);
            }
            match kind {
                NeuronKind::Input => {
                    if rank < inputs.len() {
                        graph.neurons[k].activation = inputs[rank];
                        assert(graph.neuron_views() =~= views.update(
                            k as int,
                            views[k as int].with_activation(inputs@[rank as int]),
                        ));
                    }
                    rank += 1;
                },
                _ => {},
            }
            k += 1;
        }

        proof {
            assert forall|i: int| 0 <= i < n implies #[trigger] on_track(
                before,
                inputs@,
                activate,
                graph.neuron_views(),
                0,
                0,
                i,
            ) by {}
        }
        k = 0;
        while k < n
            invariant
                k <= n,
                n == before.neurons.len(),
                before.wf(),
                graph.neurons@.len() == n,
                graph.connections@ == before.connections,
                same_but_activations(before.neurons, graph.neuron_views()),
                forall|bias: V, terms: Vec<Term<V>>| #[trigger] activate.requires((bias, terms)),
                forall|i: int|
                    0 <= i < n ==> #[trigger] on_track(
                        before,
                        inputs@,
                        activate,
                        graph.neuron_views(),
                        k as int,
                        0,
                        i,
                    ),
            decreases n - k,
        {
            let ghost views = graph.neuron_views();
            let ghost upto = k as int + 1;
            let kind = classify(graph.neurons[k].neuron_type.as_str());
            proof {
                assert(views[k as int] == before.neurons[k as int].with_activation(
                    views[k as int].activation,
                ));
            }
            match kind {
                NeuronKind::Hidden => {
                    let terms = gather(&graph, graph.neurons[k].id);
                    let ghost handed = terms;
                    let result = activate(graph.neurons[k].bias, terms);
                    graph.neurons[k].activation = result;
                    proof {
                        lemma_sweep_step(
                            before,
                            inputs@,
                            activate,
                            views,
                            k as int,
                            0,
                            k as int,
                            handed,
                            result,
                            upto,
                            0,
                        );
                        assert(graph.neuron_views() =~= views.update(
                            k as int,
                            views[k as int].with_activation(result),
                        ));
                    }
                },
                _ => {
                    proof {
                        assert forall|i: int| 0 <= i < n implies #[trigger] on_track(
                            before,
                            inputs@,
                            activate,
                            views,
                            upto,
                            0,
                            i,
                        ) by {
                            assert(on_track(before, inputs@, activate, views, k as int, 0, i));
                        }
                    }
                },
            }
            k += 1;
        }

        let mut outputs: Vec<V> = Vec::new();
        k = 0;
        proof {
            assert forall|i: int| 0 <= i < n implies #[trigger] on_track(
                before,
                inputs@,
                activate,
                graph.neuron_views(),
                n as int,
                0,
                i,
            ) by {}
            graph.neuron_views().take(0).lemma_filter_len(is_kind(NeuronKind::Output));
        }
        while k < n
            invariant
                k <= n,
                n == before.neurons.len(),
                before.wf(),
                graph.neurons@.len() == n,
                graph.connections@ == before.connections,
                same_but_activations(before.neurons, graph.neuron_views()),
                forall|bias: V, terms: Vec<Term<V>>| #[trigger] activate.requires((bias, terms)),
                forall|i: int|
                    0 <= i < n ==> #[trigger] on_track(
                        before,
                        inputs@,
                        activate,
                        graph.neuron_views(),
                        n as int,
                        k as int,
                        i,
                    ),
                outputs@ == activations_of(
                    graph.neuron_views().take(k as int).filter(is_kind(NeuronKind::Output)),
                ),
            decreases n - k,
        {
            let ghost views = graph.neuron_views();
            let ghost upto = k as int + 1;
            let kind = classify(graph.neurons[k].neuron_type.as_str());
            proof {
                assert(views[k as int] == before.neurons[k as int].with_activation(
                    views[k as int].activation,
                ));
            }
            match kind {
                NeuronKind::Output => {
                    let terms = gather(&graph, graph.neurons[k].id);
                    let ghost handed = terms;
                    let result = activate(graph.neurons[k].bias, terms);
                    graph.neurons[k].activation = result;
                    outputs.push(result);
                    proof {
                        lemma_sweep_step(
                            before,
                            inputs@,
                            activate,
                            views,
                            n as int,
                            k as int,
                            k as int,
                            handed,
                            result,
                            n as int,
                            upto,
                        );
                        assert(graph.neuron_views() =~= views.update(
                            k as int,
                            views[k as int].with_activation(result),
                        ));
                    }
                },
                _ => {
                    proof {
                        assert forall|i: int| 0 <= i < n implies #[trigger] on_track(
                            before,
                            inputs@,
                            activate,
                            views,
                            n as int,
                            upto,
                            i,
                        ) by {
                            assert(on_track(
                                before,
                                inputs@,
                                activate,
                                views,
                                n as int,
                                k as int,
                                i,
                            ));
                        }
                    }
                },
            }
            proof {
                let now = graph.neuron_views();
                assert(now.take(k as int) =~= views.take(k as int));
                lemma_kind_prefix_step(now, NeuronKind::Output, k as int);
                let kept = now.take(k as int).filter(is_kind(NeuronKind::Output));
                if kind == NeuronKind::Output {
                    assert(activations_of(kept.push(now[k as int])) =~= activations_of(kept).push(
                        now[k as int].activation,
                    ));
                }
            }
            k += 1;
        }

        proof {
            let now = graph.neuron_views();
            assert(now.take(n as int) =~= now);
            assert(before.neurons.take(n as int) =~= before.neurons);
            lemma_count_ignores_activations(before.neurons, now, NeuronKind::Output, n as int);
            assert forall|i: int| 0 <= i < n implies {
                &&& (#[trigger] now[i]).id == i + 1
                &&& now[i].dressed()
            } by {
                assert(now[i] == before.neurons[i].with_activation(now[i].activation));
            }
            assert forall|i: int| 0 <= i < n implies match #[trigger] before.kind_at(i) {
                NeuronKind::Hidden | NeuronKind::Output => settled(
                    before,
                    inputs@,
                    activate,
                    now,
                    i,
                ),
                _ => now[i].activation == loaded(before, inputs@, i),
            } by {
                assert(on_track(before, inputs@, activate, now, n as int, n as int, i));
            }
        }
        self.graph = graph;
        outputs
    }
}

} // verus!
