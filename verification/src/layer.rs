//! An ordered collection of units sharing the same previous-layer
//! width. A layer computes its activation vector, its delta vector, and
//! applies a gradient-descent update to all of its units.

use vstd::prelude::*;

use crate::error::NetError;
use crate::fixed::Fx;
use crate::rng::WeightSource;
use crate::unit::Unit;
use crate::unit::UnitV;
use crate::unit::downstream_sum;
use crate::unit::hidden_delta;
use crate::unit::output_delta;
use crate::unit::unit_activation;
use crate::unit::unit_params_in_init_range;
use crate::unit::unit_updated;

verus! {

/// Every unit of the layer has exactly `prev_width` incoming weights.
pub open spec fn layer_wf(l: Seq<UnitV>, prev_width: nat) -> bool {
    forall|i: int| 0 <= i < l.len() ==> (#[trigger] l[i]).weights.len() == prev_width
}

/// All parameters of the layer lie in the initialization range.
pub open spec fn layer_params_in_init_range(l: Seq<UnitV>) -> bool {
    forall|i: int| 0 <= i < l.len() ==> unit_params_in_init_range(#[trigger] l[i])
}

/// What `forward` returns: each unit's activation, in unit order.
pub open spec fn layer_forward(l: Seq<UnitV>, xs: Seq<int>) -> Seq<int> {
    Seq::new(l.len(), |i: int| unit_activation(l[i], xs))
}

/// What `backward` returns: one delta per unit. With no downstream
/// layer each unit is scored against its target; otherwise against the
/// downstream deltas through the weights attached to its position.
pub open spec fn layer_deltas(
    l: Seq<UnitV>,
    acts: Seq<int>,
    targets: Seq<int>,
    next: Seq<UnitV>,
    next_deltas: Seq<int>,
) -> Seq<int> {
    Seq::new(
        l.len(),
        |i: int|
            if next.len() == 0 {
                output_delta(acts[i], targets[i])
            } else {
                hidden_delta(acts[i], downstream_sum(next, next_deltas, i))
            },
    )
}

/// What `apply` leaves behind: every unit updated with its own delta.
pub open spec fn layer_updated(l: Seq<UnitV>, deltas: Seq<int>, lr: int, xs: Seq<int>) -> Seq<
    UnitV,
> {
    Seq::new(l.len(), |i: int| unit_updated(l[i], deltas[i], lr, xs))
}

/// An ordered collection of units.
pub struct Layer {
    units: Vec<Unit>,
}

impl View for Layer {
    type V = Seq<UnitV>;

    closed spec fn view(&self) -> Seq<UnitV> {
        self.units.deep_view()
    }
}

impl DeepView for Layer {
    type V = Seq<UnitV>;

    open spec fn deep_view(&self) -> Seq<UnitV> {
        self.view()
    }
}

impl Layer {
    /// A layer of `width` units, each with `previous_width` randomly
    /// drawn weights and a randomly drawn bias.
    pub fn new(previous_width: usize, width: usize, source: &mut WeightSource) -> (l: Layer)
        ensures
            l@.len() == width,
            layer_wf(l@, previous_width as nat),
            layer_params_in_init_range(l@),
    {
        let mut units: Vec<Unit> = Vec::new();
        for i in 0..width
            invariant
                units@.len() == i,
                forall|j: int|
                    0 <= j < i ==> (#[trigger] units@[j]@).weights.len() == previous_width,
                forall|j: int| 0 <= j < i ==> unit_params_in_init_range(#[trigger] units@[j]@),
        {
            units.push(Unit::new(previous_width, source));
        }
        Layer { units }
    }

    /// A layer from explicit units.
    pub fn from_units(units: Vec<Unit>) -> (l: Layer)
        ensures
            l@ == units.deep_view(),
    {
        Layer { units }
    }

    /// The empty layer: the sentinel that marks output mode during the
    /// backward pass.
    pub fn empty() -> (l: Layer)
        ensures
            l@.len() == 0,
    {
        Layer { units: Vec::new() }
    }

    /// The number of units in the layer.
    pub fn width(&self) -> (n: usize)
        ensures
            n == self@.len(),
    {
        self.units.len()
    }

    /// The unit at position `i`.
    pub fn unit(&self, i: usize) -> (u: &Unit)
        requires
            i < self@.len(),
        ensures
            u@ == self@[i as int],
    {
        &self.units[i]
    }

    /// The layer's activation vector for the previous layer's
    /// activations; fails exactly when some unit's fan-in disagrees
    /// with the input width.
    pub fn forward(&self, previous: &Vec<Fx>) -> (r: Result<Vec<Fx>, NetError>)
        ensures
            r is Ok <==> (forall|i: int|
                0 <= i < self@.len() ==> (#[trigger] self@[i]).weights.len() == previous@.len()),
            r matches Ok(v) ==> v.deep_view() == layer_forward(self@, previous.deep_view()),
            r matches Err(e) ==> (exists|i: int|
                0 <= i < self@.len() && (#[trigger] self@[i]).weights.len() != previous@.len()
                    && e == (NetError::DimensionMismatch {
                    expected: self@[i].weights.len() as usize,
                    got: previous@.len() as usize,
                })),
    {
        let n = self.units.len();
        let mut values: Vec<Fx> = Vec::new();
        for i in 0..n
            invariant
                n == self@.len(),
                values@.len() == i,
                forall|j: int|
                    0 <= j < i ==> (#[trigger] self@[j]).weights.len() == previous@.len(),
                forall|j: int|
                    #![auto]
                    0 <= j < i ==> values@[j]@ == unit_activation(self@[j], previous.deep_view()),
        {
            match self.units[i].activate(previous) {
                Ok(v) => values.push(v),
                Err(e) => {
                    proof {
                        assert(self@[i as int] == self.units@[i as int]@);
                        assert((self@[i as int]).weights.len() != previous@.len());
                    }
                    return Err(e);
                },
            }
        }
        proof {
            assert(values.deep_view() =~= layer_forward(self@, previous.deep_view()));
        }
        Ok(values)
    }

    /// The layer's delta vector. `targets` is read only when this is
    /// the output layer (empty `next_layer`); otherwise each unit is
    /// handed its own position and the downstream deltas.
    pub fn backward(
        &self,
        activations: &Vec<Fx>,
        targets: &Vec<Fx>,
        next_layer: &Layer,
        next_layer_deltas: &Vec<Fx>,
    ) -> (deltas: Vec<Fx>)
        requires
            activations@.len() == self@.len(),
            next_layer@.len() == 0 ==> targets@.len() == self@.len(),
            next_layer@.len() > 0 ==> next_layer_deltas@.len() == next_layer@.len(),
            next_layer@.len() > 0 ==> layer_wf(next_layer@, self@.len()),
        ensures
            deltas@.len() == self@.len(),
            deltas.deep_view() == layer_deltas(
                self@,
                activations.deep_view(),
                targets.deep_view(),
                next_layer@,
                next_layer_deltas.deep_view(),
            ),
    {
        let n = self.units.len();
        let mut deltas: Vec<Fx> = Vec::new();
        for i in 0..n
            invariant
                n == self@.len(),
                activations@.len() == n,
                next_layer@.len() == 0 ==> targets@.len() == n,
                next_layer@.len() > 0 ==> next_layer_deltas@.len() == next_layer@.len(),
                next_layer@.len() > 0 ==> layer_wf(next_layer@, n as nat),
                deltas@.len() == i,
                forall|j: int|
                    #![auto]
                    0 <= j < i ==> deltas@[j]@ == layer_deltas(
                        self@,
                        activations.deep_view(),
                        targets.deep_view(),
                        next_layer@,
                        next_layer_deltas.deep_view(),
                    )[j],
        {
            let t = if next_layer.width() == 0 {
                targets[i]
            } else {
                Fx::from_raw(0)
            };
            let d = self.units[i].compute_delta(
                activations[i],
                t,
                i,
                next_layer,
                next_layer_deltas,
            );
            deltas.push(d);
        }
        proof {
            assert(deltas.deep_view() =~= layer_deltas(
                self@,
                activations.deep_view(),
                targets.deep_view(),
                next_layer@,
                next_layer_deltas.deep_view(),
            ));
        }
        deltas
    }

    /// Update every unit with its own delta and the previous layer's
    /// activations. Must be called only with the deltas that `backward`
    /// produced for this layer and sample.
    pub fn apply(&mut self, deltas: &Vec<Fx>, previous_activations: &Vec<Fx>, learning_rate: Fx)
        requires
            deltas@.len() == old(self)@.len(),
            layer_wf(old(self)@, previous_activations@.len() as nat),
        ensures
            final(self)@ == layer_updated(
                old(self)@,
                deltas.deep_view(),
                learning_rate@,
                previous_activations.deep_view(),
            ),
    {
        let n = self.units.len();
        for i in 0..n
            invariant
                n == old(self)@.len(),
                self@.len() == n,
                deltas@.len() == n,
                layer_wf(old(self)@, previous_activations@.len() as nat),
                forall|j: int| #![auto] i <= j < n ==> self@[j] == old(self)@[j],
                forall|j: int|
                    #![auto]
                    0 <= j < i ==> self@[j] == unit_updated(
                        old(self)@[j],
                        deltas.deep_view()[j],
                        learning_rate@,
                        previous_activations.deep_view(),
                    ),
        {
            proof {
                assert(self@[i as int] == old(self)@[i as int]);
                assert(self.units@[i as int]@ == self@[i as int]);
                assert(self.units@[i as int]@.weights.len() == previous_activations@.len());
            }
            let ghost prev_view = self@;
            self.units[i].apply_update(deltas[i], learning_rate, previous_activations);
            proof {
                assert(self@[i as int] == unit_updated(
                    old(self)@[i as int],
                    deltas.deep_view()[i as int],
                    learning_rate@,
                    previous_activations.deep_view(),
                ));
                assert(forall|j: int| 0 <= j < n && j != i ==> self@[j] == #[trigger] prev_view[j]);
                assert forall|j: int| 0 <= j < i + 1 implies self@[j] == unit_updated(
                    old(self)@[j],
                    deltas.deep_view()[j],
                    learning_rate@,
                    previous_activations.deep_view(),
                ) by {
                    if j != i {
                        assert(self@[j] == prev_view[j]);
                    }
                }
            }
        }
        proof {
            assert(self@ =~= layer_updated(
                old(self)@,
                deltas.deep_view(),
                learning_rate@,
                previous_activations.deep_view(),
            ));
        }
    }
}

} // verus!
