//! One neuron: a bias and the weights of its incoming edges.
//!
//! A unit computes its activation from the previous layer's activation
//! vector, its local error term ("delta") from either the desired output
//! value (output layer) or the downstream layer's deltas (hidden layer),
//! and applies a gradient-descent update to its parameters. Deltas are
//! pure values threaded through the backward pass, never stored, so no
//! stale per-unit scratch state can exist between training steps.

use vstd::prelude::*;

use crate::error::NetError;
use crate::fixed::Fx;
use crate::layer::Layer;
use crate::fixed::ONE_RAW;
use crate::fixed::fx_add;
use crate::fixed::fx_mul;
use crate::fixed::fx_sub;
use crate::rng::WeightSource;
use crate::sigmoid::sigmoid;
use crate::sigmoid::sigmoid_spec;

verus! {

/// The mathematical image of a `Unit`: its raw bias and raw weights.
#[verifier::ext_equal]
pub ghost struct UnitV {
    pub bias: int,
    pub weights: Seq<int>,
}

/// The pre-activation after the first `n` weighted inputs:
/// `bias + xs[0]*w[0] + ... + xs[n-1]*w[n-1]`, folded left.
pub open spec fn pre_activation_n(u: UnitV, xs: Seq<int>, n: nat) -> int
    decreases n,
{
    if n == 0 {
        u.bias
    } else {
        fx_add(
            pre_activation_n(u, xs, (n - 1) as nat),
            fx_mul(xs[n - 1], u.weights[n - 1]),
        )
    }
}

/// The full pre-activation `z` of a unit.
pub open spec fn pre_activation(u: UnitV, xs: Seq<int>) -> int {
    pre_activation_n(u, xs, u.weights.len())
}

/// What `activate` returns: the sigmoid of the pre-activation.
pub open spec fn unit_activation(u: UnitV, xs: Seq<int>) -> int {
    sigmoid_spec(pre_activation(u, xs))
}

/// Output-mode delta: `((a - t) * a) * (1 - a)`, the derivative of the
/// squared error through the sigmoid.
pub open spec fn output_delta(a: int, t: int) -> int {
    fx_mul(fx_mul(fx_sub(a, t), a), fx_sub(ONE_RAW as int, a))
}

/// The backpropagated error sum over the first `n` downstream units:
/// `deltas[0]*next[0].weights[i] + ... + deltas[n-1]*next[n-1].weights[i]`,
/// where `i` is this unit's position in its own layer.
pub open spec fn downstream_sum_n(next: Seq<UnitV>, deltas: Seq<int>, i: int, n: nat) -> int
    decreases n,
{
    if n == 0 {
        0
    } else {
        fx_add(
            downstream_sum_n(next, deltas, i, (n - 1) as nat),
            fx_mul(deltas[n - 1], next[n - 1].weights[i]),
        )
    }
}

/// The full backpropagated error sum for a unit at position `i`.
pub open spec fn downstream_sum(next: Seq<UnitV>, deltas: Seq<int>, i: int) -> int {
    downstream_sum_n(next, deltas, i, next.len())
}

/// Hidden-mode delta: `s * (a * (1 - a))` for the downstream sum `s`.
pub open spec fn hidden_delta(a: int, s: int) -> int {
    fx_mul(s, fx_mul(a, fx_sub(ONE_RAW as int, a)))
}

/// What `apply_update` leaves behind: `bias - delta*lr` and, for each
/// weight, `w[k] - (delta*lr)*xs[k]`.
pub open spec fn unit_updated(u: UnitV, delta: int, lr: int, xs: Seq<int>) -> UnitV {
    UnitV {
        bias: fx_sub(u.bias, fx_mul(delta, lr)),
        weights: Seq::new(
            u.weights.len(),
            |k: int| fx_sub(u.weights[k], fx_mul(fx_mul(delta, lr), xs[k])),
        ),
    }
}

/// All parameters lie in the initialization range `[-1, 1)`.
pub open spec fn unit_params_in_init_range(u: UnitV) -> bool {
    &&& -(ONE_RAW as int) <= u.bias < ONE_RAW as int
    &&& forall|k: int|
        0 <= k < u.weights.len() ==> -(ONE_RAW as int) <= #[trigger] u.weights[k] < ONE_RAW as int
}

/// One neuron's parameters.
pub struct Unit {
    bias: Fx,
    weights: Vec<Fx>,
}

impl View for Unit {
    type V = UnitV;

    closed spec fn view(&self) -> UnitV {
        UnitV { bias: self.bias@, weights: self.weights.deep_view() }
    }
}

impl DeepView for Unit {
    type V = UnitV;

    open spec fn deep_view(&self) -> UnitV {
        self.view()
    }
}

impl Unit {
    /// A unit with `previous_width` weights and one bias, each drawn
    /// independently and uniformly from `[-1, 1)`.
    pub fn new(previous_width: usize, source: &mut WeightSource) -> (u: Unit)
        ensures
            u@.weights.len() == previous_width,
            unit_params_in_init_range(u@),
    {
        let mut weights: Vec<Fx> = Vec::new();
        for k in 0..previous_width
            invariant
                weights@.len() == k,
                forall|j: int|
                    0 <= j < k ==> -(ONE_RAW as int) <= (#[trigger] weights@[j])@ < ONE_RAW as int,
        {
            weights.push(source.next_weight());
        }
        let bias = source.next_weight();
        Unit { bias, weights }
    }

    /// A unit from explicit parameters.
    pub fn from_parts(bias: Fx, weights: Vec<Fx>) -> (u: Unit)
        ensures
            u@ == (UnitV { bias: bias@, weights: weights.deep_view() }),
    {
        Unit { bias, weights }
    }

    /// The number of incoming weights (the previous layer's width).
    pub fn weight_count(&self) -> (n: usize)
        ensures
            n == self@.weights.len(),
    {
        self.weights.len()
    }

    /// The bias parameter.
    pub fn bias(&self) -> (b: Fx)
        ensures
            b@ == self@.bias,
    {
        self.bias
    }

    /// The weight of the incoming edge from previous-layer unit `k`.
    pub fn weight(&self, k: usize) -> (w: Fx)
        requires
            k < self@.weights.len(),
        ensures
            w@ == self@.weights[k as int],
    {
        self.weights[k]
    }

    /// The activation `sigmoid(bias + sum of weighted inputs)`; fails
    /// exactly when the input width disagrees with the fan-in. The
    /// result provably lies within `[0, 1]`, so the defensive range
    /// invariant holds by proof rather than by a runtime check.
    pub fn activate(&self, previous: &Vec<Fx>) -> (r: Result<Fx, NetError>)
        ensures
            r is Ok <==> previous@.len() == self@.weights.len(),
            r matches Ok(a) ==> a@ == unit_activation(self@, previous.deep_view()),
            r matches Ok(a) ==> 0 <= a@ <= ONE_RAW as int,
            r matches Err(e) ==> e == (NetError::DimensionMismatch {
                expected: self@.weights.len() as usize,
                got: previous@.len() as usize,
            }),
    {
        let n = self.weights.len();
        if previous.len() != n {
            return Err(NetError::DimensionMismatch { expected: n, got: previous.len() });
        }
        let mut z: Fx = self.bias;
        for i in 0..n
            invariant
                n == self@.weights.len(),
                previous@.len() == n,
                z@ == pre_activation_n(self@, previous.deep_view(), i as nat),
        {
            z = z.add(previous[i].mul(self.weights[i]));
        }
        Ok(sigmoid(z))
    }

    /// The local error term. With an empty `next_layer` (output mode)
    /// it is computed against `target`; otherwise (hidden mode) against
    /// the downstream deltas, `my_index` naming this unit's position in
    /// its own layer. Pure: does not touch the unit's parameters.
    pub fn compute_delta(
        &self,
        own_activation: Fx,
        target: Fx,
        my_index: usize,
        next_layer: &Layer,
        next_layer_deltas: &Vec<Fx>,
    ) -> (d: Fx)
        requires
            next_layer@.len() > 0 ==> next_layer_deltas@.len() == next_layer@.len(),
            next_layer@.len() > 0 ==> forall|j: int|
                0 <= j < next_layer@.len() ==> my_index < (#[trigger] next_layer@[j]).weights.len(),
        ensures
            next_layer@.len() == 0 ==> d@ == output_delta(own_activation@, target@),
            next_layer@.len() > 0 ==> d@ == hidden_delta(
                own_activation@,
                downstream_sum(next_layer@, next_layer_deltas.deep_view(), my_index as int),
            ),
    {
        let a = own_activation;
        let m = next_layer.width();
        if m == 0 {
            ((a.sub(target)).mul(a)).mul(Fx::from_raw(ONE_RAW).sub(a))
        } else {
            let mut s: Fx = Fx::from_raw(0);
            for j in 0..m
                invariant
                    m == next_layer@.len(),
                    next_layer_deltas@.len() == m,
                    forall|jj: int|
                        0 <= jj < m ==> my_index < (#[trigger] next_layer@[jj]).weights.len(),
                    s@ == downstream_sum_n(
                        next_layer@,
                        next_layer_deltas.deep_view(),
                        my_index as int,
                        j as nat,
                    ),
            {
                let w = next_layer.unit(j).weight(my_index);
                s = s.add(next_layer_deltas[j].mul(w));
            }
            s.mul(a.mul(Fx::from_raw(ONE_RAW).sub(a)))
        }
    }

    /// Gradient-descent update: `bias -= delta*lr` and, for each weight,
    /// `w[k] -= (delta*lr) * previous_activations[k]`.
    pub fn apply_update(&mut self, delta: Fx, learning_rate: Fx, previous_activations: &Vec<Fx>)
        requires
            previous_activations@.len() == old(self)@.weights.len(),
        ensures
            final(self)@ == unit_updated(
                old(self)@,
                delta@,
                learning_rate@,
                previous_activations.deep_view(),
            ),
    {
        let n = self.weights.len();
        let step = delta.mul(learning_rate);
        let mut nw: Vec<Fx> = Vec::new();
        for k in 0..n
            invariant
                n == self@.weights.len(),
                self@ == old(self)@,
                previous_activations@.len() == n,
                step@ == fx_mul(delta@, learning_rate@),
                nw@.len() == k,
                forall|j: int|
                    #![auto]
                    0 <= j < k ==> nw@[j]@ == fx_sub(
                        self@.weights[j],
                        fx_mul(fx_mul(delta@, learning_rate@), previous_activations.deep_view()[j]),
                    ),
        {
            nw.push(self.weights[k].sub(step.mul(previous_activations[k])));
        }
        self.bias = self.bias.sub(step);
        self.weights = nw;
        proof {
            assert(self@.weights =~= unit_updated(
                old(self)@,
                delta@,
                learning_rate@,
                previous_activations.deep_view(),
            ).weights);
            assert(self@ =~= unit_updated(
                old(self)@,
                delta@,
                learning_rate@,
                previous_activations.deep_view(),
            ));
        }
    }
}

} // verus!
