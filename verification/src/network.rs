//! An ordered stack of layers with chained widths: the full model.
//!
//! The network orchestrates the forward pass, the backward pass (deltas
//! computed output layer first, each hidden layer consuming the deltas
//! of the layer downstream of it), and the combined train step that
//! applies one gradient-descent update per sample. All deltas of a step
//! are computed before any parameter changes, so the backward pass
//! always reads unmutated weights.

use vstd::prelude::*;

use crate::error::NetError;
use crate::fixed::Fx;
use crate::fixed::HALF_RAW;
use crate::fixed::ONE_RAW;
use crate::fixed::fx_add;
use crate::fixed::fx_mul;
use crate::fixed::fx_sub;
use crate::layer::Layer;
use crate::layer::layer_deltas;
use crate::layer::layer_forward;
use crate::layer::layer_params_in_init_range;
use crate::layer::layer_updated;
use crate::layer::layer_wf;
use crate::rng::WeightSource;
use crate::unit::UnitV;
use crate::unit::unit_activation;
use crate::unit::unit_updated;

verus! {

/// The mathematical image of a `Network`.
#[verifier::ext_equal]
pub ghost struct NetworkV {
    pub layers: Seq<Seq<UnitV>>,
    pub learning_rate: int,
    pub input_width: nat,
}

/// The fan-in of layer `l`: the previous layer's width, or the network
/// input width for the first layer.
pub open spec fn prev_width(n: NetworkV, l: int) -> nat {
    if l == 0 {
        n.input_width
    } else {
        n.layers[l - 1].len()
    }
}

/// Well-formedness: at least one layer, no empty layer (an empty layer
/// is reserved as the output-mode sentinel of the backward pass), every
/// unit's fan-in equal to the width of what feeds it, and a positive
/// learning rate.
pub open spec fn net_wf(n: NetworkV) -> bool {
    &&& n.layers.len() >= 1
    &&& forall|l: int| 0 <= l < n.layers.len() ==> (#[trigger] n.layers[l]).len() >= 1
    &&& forall|l: int|
        0 <= l < n.layers.len() ==> layer_wf(#[trigger] n.layers[l], prev_width(n, l))
    &&& n.learning_rate > 0
}

/// All parameters of the network lie in the initialization range.
pub open spec fn net_params_in_init_range(n: NetworkV) -> bool {
    forall|l: int|
        0 <= l < n.layers.len() ==> layer_params_in_init_range(#[trigger] n.layers[l])
}

/// The first `k` per-layer activation vectors of the forward pass.
pub open spec fn net_forward_n(n: NetworkV, input: Seq<int>, k: nat) -> Seq<Seq<int>>
    decreases k,
{
    if k == 0 {
        Seq::empty()
    } else {
        let prefix = net_forward_n(n, input, (k - 1) as nat);
        let xs = if k == 1 {
            input
        } else {
            prefix[k - 2]
        };
        prefix.push(layer_forward(n.layers[k - 1], xs))
    }
}

/// What `forward` returns: the per-layer activation vectors, layer 0
/// first; the last entry is the network output.
pub open spec fn net_forward(n: NetworkV, input: Seq<int>) -> Seq<Seq<int>> {
    net_forward_n(n, input, n.layers.len())
}

/// The activation vector feeding layer `l`: the sample itself for the
/// first layer, else the previous layer's activations.
pub open spec fn forward_input(input: Seq<int>, acts: Seq<Seq<int>>, l: int) -> Seq<int> {
    if l == 0 {
        input
    } else {
        acts[l - 1]
    }
}

/// The delta vector of layer `l`, given all activations and the
/// sample's target: the output layer is scored against the target, a
/// hidden layer against the deltas of the layer downstream of it.
pub open spec fn net_delta_at(n: NetworkV, acts: Seq<Seq<int>>, target: Seq<int>, l: int) -> Seq<
    int,
>
    decreases n.layers.len() - l,
{
    if l >= n.layers.len() - 1 {
        layer_deltas(n.layers[l], acts[l], target, Seq::empty(), Seq::empty())
    } else {
        layer_deltas(
            n.layers[l],
            acts[l],
            Seq::empty(),
            n.layers[l + 1],
            net_delta_at(n, acts, target, l + 1),
        )
    }
}

/// What `train_step` leaves behind: every layer updated with its own
/// deltas and the activations that fed it during the forward pass.
pub open spec fn net_trained(n: NetworkV, input: Seq<int>, target: Seq<int>) -> NetworkV {
    let acts = net_forward(n, input);
    NetworkV {
        layers: Seq::new(
            n.layers.len(),
            |l: int|
                layer_updated(
                    n.layers[l],
                    net_delta_at(n, acts, target, l),
                    n.learning_rate,
                    forward_input(input, acts, l),
                ),
        ),
        learning_rate: n.learning_rate,
        input_width: n.input_width,
    }
}

/// The squared-error sum over the first `k` outputs:
/// `(out[0]-target[0])^2 * 1/2 + ...`, folded left.
pub open spec fn cost_n(out: Seq<int>, target: Seq<int>, k: nat) -> int
    decreases k,
{
    if k == 0 {
        0
    } else {
        fx_add(
            cost_n(out, target, (k - 1) as nat),
            fx_mul(fx_mul(fx_sub(out[k - 1], target[k - 1]), fx_sub(out[k - 1], target[k - 1])), HALF_RAW as int),
        )
    }
}

/// What `cost` returns: half the summed squared error of the network
/// output against the target. Diagnostic only; the training update
/// never reads it.
pub open spec fn net_cost(n: NetworkV, input: Seq<int>, target: Seq<int>) -> int {
    let out = net_forward(n, input).last();
    cost_n(out, target, target.len())
}

/// Shape of the first `k` activation vectors of the forward pass.
proof fn lemma_net_forward_n_shape(n: NetworkV, input: Seq<int>, k: nat)
    ensures
        net_forward_n(n, input, k).len() == k,
        forall|l: int|
            0 <= l < k ==> #[trigger] net_forward_n(n, input, k)[l].len() == n.layers[l].len(),
    decreases k,
{
    if k > 0 {
        lemma_net_forward_n_shape(n, input, (k - 1) as nat);
        let prefix = net_forward_n(n, input, (k - 1) as nat);
        assert forall|l: int|
            0 <= l < k implies #[trigger] net_forward_n(n, input, k)[l].len() == n.layers[l].len() by {
            if l < k - 1 {
                assert(net_forward_n(n, input, k)[l] == prefix[l]);
            }
        }
    }
}

/// Shape law: the forward pass yields exactly one activation vector per
/// layer, each as wide as its layer; in particular the last one is as
/// wide as the output layer.
pub proof fn lemma_forward_shape(n: NetworkV, input: Seq<int>)
    ensures
        net_forward(n, input).len() == n.layers.len(),
        forall|l: int|
            0 <= l < n.layers.len() ==> #[trigger] net_forward(n, input)[l].len() == n.layers[l].len(),
{
    lemma_net_forward_n_shape(n, input, n.layers.len());
}

/// Range of the first `k` activation vectors of the forward pass.
proof fn lemma_net_forward_n_range(n: NetworkV, input: Seq<int>, k: nat)
    ensures
        forall|l: int, i: int|
            0 <= l < k && 0 <= i < net_forward_n(n, input, k)[l].len() ==> 0 <= #[trigger]
                net_forward_n(n, input, k)[l][i] <= ONE_RAW as int,
    decreases k,
{
    if k > 0 {
        lemma_net_forward_n_range(n, input, (k - 1) as nat);
        lemma_net_forward_n_shape(n, input, (k - 1) as nat);
        let prefix = net_forward_n(n, input, (k - 1) as nat);
        let xs = if k == 1 {
            input
        } else {
            prefix[k - 2]
        };
        let cur = layer_forward(n.layers[k - 1], xs);
        assert forall|l: int, i: int|
            0 <= l < k && 0 <= i < net_forward_n(n, input, k)[l].len() implies 0 <= #[trigger]
            net_forward_n(n, input, k)[l][i] <= ONE_RAW as int by {
            if l < k - 1 {
                assert(net_forward_n(n, input, k)[l] == prefix[l]);
            } else {
                assert(net_forward_n(n, input, k)[l] == cur);
                assert(cur[i] == unit_activation(n.layers[k - 1][i], xs));
                crate::sigmoid::lemma_sigmoid_spec_range(
                    crate::unit::pre_activation(n.layers[k - 1][i], xs),
                );
            }
        }
    }
}

/// Range law: every activation the forward pass produces lies within
/// the closed unit interval `[0, 1]`, whatever the parameters and the
/// input. (At saturating pre-activations the bounds are attained, so
/// the closed interval is exact.)
pub proof fn lemma_forward_range(n: NetworkV, input: Seq<int>)
    ensures
        forall|l: int, i: int|
            0 <= l < net_forward(n, input).len() && 0 <= i < net_forward(n, input)[l].len()
                ==> 0 <= #[trigger] net_forward(n, input)[l][i] <= ONE_RAW as int,
{
    lemma_net_forward_n_shape(n, input, n.layers.len());
    lemma_net_forward_n_range(n, input, n.layers.len());
}

/// Determinism law: the forward pass is a mathematical function of the
/// parameters and the input alone, so two calls of `forward` on equal
/// network states and equal inputs return bit-identical activations
/// (each call's result is pinned to `net_forward` by its contract).
pub proof fn lemma_forward_deterministic(a: NetworkV, b: NetworkV, x: Seq<int>, y: Seq<int>)
    requires
        a == b,
        x == y,
    ensures
        net_forward(a, x) == net_forward(b, y),
{
}

/// The summed squared error over any prefix is non-negative.
proof fn lemma_cost_n_nonneg(out: Seq<int>, target: Seq<int>, k: nat)
    ensures
        cost_n(out, target, k) >= 0,
    decreases k,
{
    if k > 0 {
        lemma_cost_n_nonneg(out, target, (k - 1) as nat);
        let d = fx_sub(out[k - 1], target[k - 1]);
        assert(d * d >= 0) by (nonlinear_arith);
        vstd::arithmetic::div_mod::lemma_div_pos_is_pos(d * d, ONE_RAW as int);
        let sq = fx_mul(d, d);
        assert(sq >= 0);
        vstd::arithmetic::mul::lemma_mul_nonnegative(sq, HALF_RAW as int);
        vstd::arithmetic::div_mod::lemma_div_pos_is_pos(sq * (HALF_RAW as int), ONE_RAW as int);
    }
}

/// Cost law: the diagnostic loss is never negative.
pub proof fn lemma_cost_nonneg(n: NetworkV, input: Seq<int>, target: Seq<int>)
    ensures
        net_cost(n, input, target) >= 0,
{
    lemma_cost_n_nonneg(net_forward(n, input).last(), target, target.len());
}

/// Delta lifecycle law: the backward pass yields exactly one delta per
/// unit of each layer. Deltas are plain values threaded through the
/// pass — no unit ever stores one — so none can be stale before a step
/// and none survives it.
pub proof fn lemma_delta_shape(n: NetworkV, acts: Seq<Seq<int>>, target: Seq<int>, l: int)
    requires
        0 <= l < n.layers.len(),
    ensures
        net_delta_at(n, acts, target, l).len() == n.layers[l].len(),
{
}

/// A training step preserves well-formedness: it changes no width, no
/// fan-in and not the learning rate, only parameter values.
pub proof fn lemma_trained_wf(n: NetworkV, input: Seq<int>, target: Seq<int>)
    requires
        net_wf(n),
    ensures
        net_wf(net_trained(n, input, target)),
        net_trained(n, input, target).layers.len() == n.layers.len(),
        forall|l: int|
            0 <= l < n.layers.len() ==> (#[trigger] net_trained(n, input, target).layers[l]).len() == n.layers[l].len(),
{
    let t = net_trained(n, input, target);
    let acts = net_forward(n, input);
    assert forall|l: int| 0 <= l < t.layers.len() implies (#[trigger] t.layers[l]).len()
        == n.layers[l].len() by {
        assert(t.layers[l] == layer_updated(
            n.layers[l],
            net_delta_at(n, acts, target, l),
            n.learning_rate,
            forward_input(input, acts, l),
        ));
    }
    assert forall|l: int| 0 <= l < t.layers.len() implies layer_wf(
        #[trigger] t.layers[l],
        prev_width(t, l),
    ) by {
        assert(layer_wf(n.layers[l], prev_width(n, l)));
        assert(prev_width(t, l) == prev_width(n, l));
        assert forall|i: int| 0 <= i < t.layers[l].len() implies (#[trigger] t.layers[l][i]).weights.len() == prev_width(t, l) by {
            assert(t.layers[l][i] == unit_updated(
                n.layers[l][i],
                net_delta_at(n, acts, target, l)[i],
                n.learning_rate,
                forward_input(input, acts, l),
            ));
            assert(n.layers[l][i].weights.len() == prev_width(n, l));
        }
    }
}

/// An ordered stack of layers and the fixed learning rate.
pub struct Network {
    layers: Vec<Layer>,
    learning_rate: Fx,
    input_width: usize,
}

impl View for Network {
    type V = NetworkV;

    closed spec fn view(&self) -> NetworkV {
        NetworkV {
            layers: self.layers.deep_view(),
            learning_rate: self.learning_rate@,
            input_width: self.input_width as nat,
        }
    }
}

impl Network {
    /// A network for the given widths: `layer_widths[0]` is the input
    /// width, and one layer is built per later entry, its fan-in being
    /// the entry before it. All parameters are drawn from `[-1, 1)`.
    pub fn new(layer_widths: &Vec<usize>, learning_rate: Fx, source: &mut WeightSource) -> (n:
        Network)
        requires
            layer_widths@.len() >= 2,
            forall|l: int| 1 <= l < layer_widths@.len() ==> #[trigger] layer_widths@[l] >= 1,
            learning_rate@ > 0,
        ensures
            net_wf(n@),
            net_params_in_init_range(n@),
            n@.input_width == layer_widths@[0],
            n@.layers.len() == layer_widths@.len() - 1,
            forall|l: int|
                0 <= l < n@.layers.len() ==> (#[trigger] n@.layers[l]).len() == layer_widths@[l
                    + 1],
            n@.learning_rate == learning_rate@,
    {
        let count = layer_widths.len();
        let mut layers: Vec<Layer> = Vec::new();
        for l in 1..count
            invariant
                count == layer_widths@.len(),
                layers@.len() == l - 1,
                forall|j: int| 1 <= j < count ==> #[trigger] layer_widths@[j] >= 1,
                forall|j: int|
                    0 <= j < l - 1 ==> (#[trigger] layers@[j]@).len() == layer_widths@[j + 1],
                forall|j: int|
                    0 <= j < l - 1 ==> layer_wf(
                        #[trigger] layers@[j]@,
                        layer_widths@[j] as nat,
                    ),
                forall|j: int|
                    0 <= j < l - 1 ==> layer_params_in_init_range(#[trigger] layers@[j]@),
        {
            layers.push(Layer::new(layer_widths[l - 1], layer_widths[l], source));
        }
        let n = Network { layers, learning_rate, input_width: layer_widths[0] };
        proof {
            assert(forall|j: int|
                0 <= j < n@.layers.len() ==> #[trigger] n@.layers[j] == layers@[j]@);
        }
        n
    }

    /// A network from explicit layers, for callers that bring their own
    /// parameters. The contracts of the passes hold under `net_wf`.
    pub fn from_parts(layers: Vec<Layer>, learning_rate: Fx, input_width: usize) -> (n: Network)
        ensures
            n@ == (NetworkV {
                layers: layers.deep_view(),
                learning_rate: learning_rate@,
                input_width: input_width as nat,
            }),
    {
        Network { layers, learning_rate, input_width }
    }

    /// The number of layers (the input "layer" is implicit).
    pub fn layer_count(&self) -> (c: usize)
        ensures
            c == self@.layers.len(),
    {
        self.layers.len()
    }

    /// The width the input vectors must have.
    pub fn input_width(&self) -> (w: usize)
        ensures
            w == self@.input_width,
    {
        self.input_width
    }

    /// The fixed learning rate.
    pub fn learning_rate(&self) -> (lr: Fx)
        ensures
            lr@ == self@.learning_rate,
    {
        self.learning_rate
    }

    /// The layer at position `l`.
    pub fn layer(&self, l: usize) -> (r: &Layer)
        requires
            l < self@.layers.len(),
        ensures
            r@ == self@.layers[l as int],
    {
        &self.layers[l]
    }

    /// The full forward pass: one activation vector per layer, layer 0
    /// first. Fails exactly when the input width disagrees with
    /// `layer_widths[0]`, and mutates nothing.
    pub fn forward(&self, input: &Vec<Fx>) -> (r: Result<Vec<Vec<Fx>>, NetError>)
        requires
            net_wf(self@),
        ensures
            r is Ok <==> input@.len() == self@.input_width,
            r matches Ok(acts) ==> acts.deep_view() == net_forward(self@, input.deep_view()),
            r matches Ok(acts) ==> acts@.len() == self@.layers.len(),
            r matches Ok(acts) ==> forall|l: int|
                0 <= l < self@.layers.len() ==> acts.deep_view()[l].len() == (
                #[trigger] self@.layers[l]).len(),
            r matches Ok(acts) ==> forall|l: int, i: int|
                0 <= l < acts@.len() && 0 <= i < acts.deep_view()[l].len() ==> 0 <= #[trigger]
                    acts.deep_view()[l][i] <= ONE_RAW as int,
            r matches Err(e) ==> e == (NetError::DimensionMismatch {
                expected: self@.input_width as usize,
                got: input@.len() as usize,
            }),
    {
        if input.len() != self.input_width {
            return Err(
                NetError::DimensionMismatch { expected: self.input_width, got: input.len() },
            );
        }
        let count = self.layers.len();
        let mut acts: Vec<Vec<Fx>> = Vec::new();
        for l in 0..count
            invariant
                net_wf(self@),
                input@.len() == self@.input_width,
                count == self@.layers.len(),
                acts@.len() == l,
                acts.deep_view() == net_forward_n(self@, input.deep_view(), l as nat),
                forall|j: int|
                    0 <= j < l ==> acts.deep_view()[j].len() == (#[trigger] self@.layers[j]).len(),
        {
            proof {
                assert(self.layers@[l as int]@ == self@.layers[l as int]);
                assert(layer_wf(self@.layers[l as int], prev_width(self@, l as int)));
                if l > 0 {
                    assert(acts.deep_view()[l - 1].len() == self@.layers[l - 1].len());
                }
            }
            let step = if l == 0 {
                self.layers[l].forward(input)
            } else {
                self.layers[l].forward(&acts[l - 1])
            };
            match step {
                Ok(v) => {
                    let ghost prefix = acts.deep_view();
                    acts.push(v);
                    proof {
                        assert(acts.deep_view() =~= prefix.push(v.deep_view()));
                        assert(acts.deep_view() =~= net_forward_n(
                            self@,
                            input.deep_view(),
                            (l + 1) as nat,
                        ));
                    }
                },
                Err(e) => {
                    // Unreachable: under `net_wf` every layer's fan-in
                    // matches what feeds it.
                    proof {
                        assert(false);
                    }
                    return Err(e);
                },
            }
        }
        proof {
            lemma_forward_shape(self@, input.deep_view());
            lemma_forward_range(self@, input.deep_view());
        }
        Ok(acts)
    }

    /// One full training cycle on a single sample: forward pass,
    /// backward pass (output layer first), then one gradient-descent
    /// update of every layer. All deltas are computed before any
    /// parameter is touched, and none survive the call. Fails, leaving
    /// the network untouched, exactly when the input or target width
    /// disagrees with the network's.
    #[verifier::rlimit(100)]
    pub fn train_step(&mut self, input: &Vec<Fx>, target: &Vec<Fx>) -> (r: Result<(), NetError>)
        requires
            net_wf(old(self)@),
        ensures
            r is Ok <==> (input@.len() == old(self)@.input_width && target@.len() == old(
                self,
            )@.layers.last().len()),
            r is Ok ==> final(self)@ == net_trained(
                old(self)@,
                input.deep_view(),
                target.deep_view(),
            ),
            r is Ok ==> net_wf(final(self)@),
            r is Err ==> final(self)@ == old(self)@,
            input@.len() != old(self)@.input_width ==> r == Err::<(), NetError>(
                NetError::DimensionMismatch {
                    expected: old(self)@.input_width as usize,
                    got: input@.len() as usize,
                },
            ),
            input@.len() == old(self)@.input_width && target@.len() != old(
                self,
            )@.layers.last().len() ==> r == Err::<(), NetError>(
                NetError::TargetWidthMismatch {
                    expected: old(self)@.layers.last().len() as usize,
                    got: target@.len() as usize,
                },
            ),
    {
        let count = self.layers.len();
        let output_width = self.layers[count - 1].width();
        if input.len() != self.input_width {
            return Err(
                NetError::DimensionMismatch { expected: self.input_width, got: input.len() },
            );
        }
        if target.len() != output_width {
            return Err(
                NetError::TargetWidthMismatch { expected: output_width, got: target.len() },
            );
        }
        let acts = match self.forward(input) {
            Ok(a) => a,
            Err(e) => {
                // Unreachable: the input width was checked above, and a
                // well-formed network rejects nothing else.
                proof {
                    assert(false);
                }
                return Err(e);
            },
        };
        let ghost n0 = self@;
        let ghost sacts = acts.deep_view();
        let ghost starget = target.deep_view();

        // Backward pass, output layer first. Entry j of `deltas_rev`
        // holds the deltas of layer `count - 1 - j`.
        let sentinel = Layer::empty();
        let no_deltas: Vec<Fx> = Vec::new();
        let empty_targets: Vec<Fx> = Vec::new();
        let mut deltas_rev: Vec<Vec<Fx>> = Vec::new();
        let d_out = self.layers[count - 1].backward(&acts[count - 1], target, &sentinel, &no_deltas);
        deltas_rev.push(d_out);
        proof {
            assert(deltas_rev.deep_view()[0] =~= net_delta_at(n0, sacts, starget, count - 1));
        }
        let mut j: usize = 1;
        while j < count
            invariant
                net_wf(self@),
                self@ == n0,
                1 <= j <= count,
                count == self@.layers.len(),
                acts@.len() == count,
                acts.deep_view() == sacts,
                sacts == net_forward(n0, input.deep_view()),
                starget == target.deep_view(),
                forall|l: int|
                    0 <= l < count ==> sacts[l].len() == (#[trigger] self@.layers[l]).len(),
                deltas_rev@.len() == j,
                forall|jj: int|
                    0 <= jj < j ==> #[trigger] deltas_rev.deep_view()[jj] == net_delta_at(
                        n0,
                        sacts,
                        starget,
                        count - 1 - jj,
                    ),
            decreases count - j,
        {
            let l = count - 1 - j;
            proof {
                assert(self.layers@[l as int]@ == self@.layers[l as int]);
                assert(self.layers@[l + 1 as int]@ == self@.layers[l as int + 1]);
                assert(self@.layers[l as int + 1].len() >= 1);
                assert(layer_wf(
                    self@.layers[l as int + 1],
                    prev_width(n0, l as int + 1),
                ));
                assert(sacts[l as int].len() == self@.layers[l as int].len());
                assert(deltas_rev.deep_view()[j - 1] == net_delta_at(
                    n0,
                    sacts,
                    starget,
                    l as int + 1,
                ));
                assert(net_delta_at(n0, sacts, starget, l as int + 1).len() == n0.layers[l as int
                    + 1].len());
            }
            let d = self.layers[l].backward(
                &acts[l],
                &empty_targets,
                &self.layers[l + 1],
                &deltas_rev[j - 1],
            );
            let ghost prev_deltas = deltas_rev.deep_view();
            deltas_rev.push(d);
            proof {
                assert(forall|jj: int|
                    0 <= jj < j ==> #[trigger] deltas_rev.deep_view()[jj] == prev_deltas[jj]);
                assert(deltas_rev.deep_view()[j as int] =~= net_delta_at(
                    n0,
                    sacts,
                    starget,
                    l as int,
                ));
            }
            j = j + 1;
        }

        // Update pass: every layer, with its own deltas and the
        // activations that fed it.
        let mut l: usize = 0;
        while l < count
            invariant
                0 <= l <= count,
                count == self@.layers.len(),
                count == n0.layers.len(),
                net_wf(n0),
                self@.learning_rate == n0.learning_rate,
                self@.input_width == n0.input_width,
                input@.len() == n0.input_width,
                acts@.len() == count,
                acts.deep_view() == sacts,
                sacts == net_forward(n0, input.deep_view()),
                starget == target.deep_view(),
                forall|ll: int|
                    0 <= ll < count ==> sacts[ll].len() == (#[trigger] n0.layers[ll]).len(),
                deltas_rev@.len() == count,
                forall|jj: int|
                    0 <= jj < count ==> #[trigger] deltas_rev.deep_view()[jj] == net_delta_at(
                        n0,
                        sacts,
                        starget,
                        count - 1 - jj,
                    ),
                forall|ll: int| l <= ll < count ==> self@.layers[ll] == #[trigger] n0.layers[ll],
                forall|ll: int|
                    #![auto]
                    0 <= ll < l ==> self@.layers[ll] == layer_updated(
                        n0.layers[ll],
                        net_delta_at(n0, sacts, starget, ll),
                        n0.learning_rate,
                        forward_input(input.deep_view(), sacts, ll),
                    ),
            decreases count - l,
        {
            let ghost before = self@.layers;
            proof {
                assert(self@.layers[l as int] == n0.layers[l as int]);
                assert(deltas_rev.deep_view()[count - 1 - l as int] == net_delta_at(
                    n0,
                    sacts,
                    starget,
                    l as int,
                ));
                assert(net_delta_at(n0, sacts, starget, l as int).len() == n0.layers[
                    l as int].len());
            }
            if l == 0 {
                self.layers[l].apply(&deltas_rev[count - 1 - l], input, self.learning_rate);
            } else {
                let xs = &acts[l - 1];
                proof {
                    assert(xs.deep_view() == sacts[l - 1]);
                    assert(layer_wf(self@.layers[l as int], xs.deep_view().len() as nat));
                }
                self.layers[l].apply(&deltas_rev[count - 1 - l], xs, self.learning_rate);
            }
            proof {
                assert(forall|ll: int|
                    0 <= ll < count && ll != l ==> self@.layers[ll] == #[trigger] before[ll]);
                assert(self@.layers[l as int] == layer_updated(
                    n0.layers[l as int],
                    net_delta_at(n0, sacts, starget, l as int),
                    n0.learning_rate,
                    forward_input(input.deep_view(), sacts, l as int),
                ));
                assert forall|ll: int| 0 <= ll < l + 1 implies self@.layers[ll] == layer_updated(
                    n0.layers[ll],
                    net_delta_at(n0, sacts, starget, ll),
                    n0.learning_rate,
                    forward_input(input.deep_view(), sacts, ll),
                ) by {
                    if ll != l {
                        assert(self@.layers[ll] == before[ll]);
                    }
                }
            }
            l = l + 1;
        }
        proof {
            assert(self@.layers =~= net_trained(n0, input.deep_view(), starget).layers);
            assert(self@ =~= net_trained(n0, input.deep_view(), starget));
            lemma_trained_wf(n0, input.deep_view(), starget);
        }
        Ok(())
    }

    /// Half the summed squared error of the network's output against
    /// `target`. Diagnostic only: it never feeds the update. Fails on
    /// the same widths as `train_step`.
    pub fn cost(&self, input: &Vec<Fx>, target: &Vec<Fx>) -> (r: Result<Fx, NetError>)
        requires
            net_wf(self@),
        ensures
            r is Ok <==> (input@.len() == self@.input_width && target@.len()
                == self@.layers.last().len()),
            r matches Ok(c) ==> c@ == net_cost(self@, input.deep_view(), target.deep_view()),
            r matches Ok(c) ==> c@ >= 0,
            input@.len() != self@.input_width ==> r == Err::<Fx, NetError>(
                NetError::DimensionMismatch {
                    expected: self@.input_width as usize,
                    got: input@.len() as usize,
                },
            ),
            input@.len() == self@.input_width && target@.len() != self@.layers.last().len()
                ==> r == Err::<Fx, NetError>(
                NetError::TargetWidthMismatch {
                    expected: self@.layers.last().len() as usize,
                    got: target@.len() as usize,
                },
            ),
    {
        let count = self.layers.len();
        let output_width = self.layers[count - 1].width();
        if input.len() != self.input_width {
            return Err(
                NetError::DimensionMismatch { expected: self.input_width, got: input.len() },
            );
        }
        if target.len() != output_width {
            return Err(
                NetError::TargetWidthMismatch { expected: output_width, got: target.len() },
            );
        }
        let acts = match self.forward(input) {
            Ok(a) => a,
            Err(e) => {
                // Unreachable: the input width was checked above, and a
                // well-formed network rejects nothing else.
                proof {
                    assert(false);
                }
                return Err(e);
            },
        };
        let out = &acts[count - 1];
        proof {
            assert(out.deep_view() == net_forward(self@, input.deep_view()).last());
        }
        let width = target.len();
        let mut c: Fx = Fx::from_raw(0);
        let half = Fx::from_raw(HALF_RAW);
        for i in 0..width
            invariant
                width == target@.len(),
                out@.len() == width,
                half@ == HALF_RAW as int,
                c@ == cost_n(out.deep_view(), target.deep_view(), i as nat),
        {
            let d = out[i].sub(target[i]);
            c = c.add(d.mul(d).mul(half));
        }
        proof {
            lemma_cost_nonneg(self@, input.deep_view(), target.deep_view());
        }
        Ok(c)
    }
}

} // verus!
