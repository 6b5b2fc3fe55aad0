//! Shape, range, error and determinism properties of the network.

use backprop::driver::cycle_step;
use backprop::error::NetError;
use backprop::fixed::Fx;
use backprop::fixed::MAX_RAW;
use backprop::fixed::ONE_RAW;
use backprop::layer::Layer;
use backprop::network::Network;
use backprop::rng::WeightSource;
use backprop::unit::Unit;

fn fx(v: f64) -> Fx {
    Fx::from_raw((v * 4294967296.0).round() as i64)
}

fn fxv(vs: &[f64]) -> Vec<Fx> {
    vs.iter().map(|&v| fx(v)).collect()
}

fn unit_of(bias: f64, weights: &[f64]) -> Unit {
    Unit::from_parts(fx(bias), fxv(weights))
}

fn params_of(net: &Network) -> Vec<Vec<(i64, Vec<i64>)>> {
    let mut out = Vec::new();
    for l in 0..net.layer_count() {
        let layer = net.layer(l);
        let mut lv = Vec::new();
        for i in 0..layer.width() {
            let u = layer.unit(i);
            let mut ws = Vec::new();
            for k in 0..u.weight_count() {
                ws.push(u.weight(k).raw());
            }
            lv.push((u.bias().raw(), ws));
        }
        out.push(lv);
    }
    out
}

#[test]
fn forward_has_one_vector_per_layer_with_its_width() {
    let mut src = WeightSource::from_seed(7);
    let widths: Vec<usize> = vec![4, 8, 8, 9];
    let net = Network::new(&widths, fx(0.5), &mut src);
    let input = fxv(&[0.0, 1.0, 1.0, 0.0]);
    let acts = net.forward(&input).unwrap();
    assert_eq!(acts.len(), widths.len() - 1);
    for (l, a) in acts.iter().enumerate() {
        assert_eq!(a.len(), widths[l + 1]);
    }
    assert_eq!(acts.last().unwrap().len(), *widths.last().unwrap());
}

#[test]
fn forward_activations_stay_in_the_unit_interval() {
    let mut src = WeightSource::from_seed(11);
    let net = Network::new(&vec![3, 5, 2], fx(0.9), &mut src);
    let acts = net.forward(&fxv(&[1.0, 0.0, 1.0])).unwrap();
    for a in acts.iter().flatten() {
        assert!(0 <= a.raw() && a.raw() <= ONE_RAW);
    }

    // Saturating parameters drive the activations to the very ends of
    // the closed interval, but never outside it.
    let big = MAX_RAW as f64 / 4294967296.0 / 2.0;
    let extreme = Network::from_parts(
        vec![
            Layer::from_units(vec![unit_of(big, &[big, big]), unit_of(-big, &[-big, -big])]),
            Layer::from_units(vec![unit_of(0.0, &[big, -big])]),
        ],
        fx(0.5),
        2,
    );
    let acts = extreme.forward(&fxv(&[1.0, 1.0])).unwrap();
    for a in acts.iter().flatten() {
        assert!(0 <= a.raw() && a.raw() <= ONE_RAW);
    }
    assert_eq!(acts[0][0].raw(), ONE_RAW);
    assert_eq!(acts[0][1].raw(), 0);
}

#[test]
fn forward_rejects_short_input_and_mutates_nothing() {
    let mut src = WeightSource::from_seed(3);
    let net = Network::new(&vec![4, 3, 2], fx(0.5), &mut src);
    let before = params_of(&net);
    let r = net.forward(&fxv(&[1.0, 0.0, 1.0]));
    assert_eq!(r.unwrap_err(), NetError::DimensionMismatch { expected: 4, got: 3 });
    assert_eq!(params_of(&net), before);
    assert!(net.forward(&fxv(&[1.0, 0.0, 1.0, 0.0])).is_ok());
}

#[test]
fn train_step_rejects_bad_widths_and_mutates_nothing() {
    let mut src = WeightSource::from_seed(5);
    let mut net = Network::new(&vec![2, 3, 2], fx(0.5), &mut src);
    let before = params_of(&net);

    let r = net.train_step(&fxv(&[1.0]), &fxv(&[0.0, 1.0]));
    assert_eq!(r.unwrap_err(), NetError::DimensionMismatch { expected: 2, got: 1 });
    assert_eq!(params_of(&net), before);

    let r = net.train_step(&fxv(&[1.0, 0.0]), &fxv(&[0.0, 1.0, 1.0]));
    assert_eq!(r.unwrap_err(), NetError::TargetWidthMismatch { expected: 2, got: 3 });
    assert_eq!(params_of(&net), before);

    assert!(net.train_step(&fxv(&[1.0, 0.0]), &fxv(&[0.0, 1.0])).is_ok());
    assert_ne!(params_of(&net), before);
}

#[test]
fn cost_rejects_the_same_widths_as_train_step() {
    let mut src = WeightSource::from_seed(5);
    let net = Network::new(&vec![2, 3, 2], fx(0.5), &mut src);
    assert_eq!(
        net.cost(&fxv(&[1.0]), &fxv(&[0.0, 1.0])).unwrap_err(),
        NetError::DimensionMismatch { expected: 2, got: 1 }
    );
    assert_eq!(
        net.cost(&fxv(&[1.0, 0.0]), &fxv(&[0.0])).unwrap_err(),
        NetError::TargetWidthMismatch { expected: 2, got: 1 }
    );
}

#[test]
fn forward_is_deterministic_bit_for_bit() {
    let mut src = WeightSource::from_seed(99);
    let net = Network::new(&vec![4, 8, 9], fx(0.5), &mut src);
    let input = fxv(&[1.0, 0.0, 0.0, 1.0]);
    let a = net.forward(&input).unwrap();
    let b = net.forward(&input).unwrap();
    for (va, vb) in a.iter().zip(b.iter()) {
        for (xa, xb) in va.iter().zip(vb.iter()) {
            assert_eq!(xa.raw(), xb.raw());
        }
    }
}

#[test]
fn initial_parameters_lie_in_the_symmetric_unit_range() {
    let mut src = WeightSource::from_seed(1234);
    let net = Network::new(&vec![4, 8, 8, 9], fx(0.5), &mut src);
    for layer in params_of(&net) {
        for (bias, weights) in layer {
            assert!(-ONE_RAW <= bias && bias < ONE_RAW);
            for w in weights {
                assert!(-ONE_RAW <= w && w < ONE_RAW);
            }
        }
    }
}

#[test]
fn output_layer_delta_matches_the_formula_exactly() {
    // a = 0.5, t = 0.25: ((a-t)*a)*(1-a) = 0.0625 with no rounding.
    let layer = Layer::from_units(vec![unit_of(0.0, &[0.5])]);
    let deltas = layer.backward(
        &fxv(&[0.5]),
        &fxv(&[0.25]),
        &Layer::empty(),
        &Vec::new(),
    );
    assert_eq!(deltas.len(), 1);
    assert_eq!(deltas[0].raw(), 268435456); // 0.0625 * 2^32
}

#[test]
fn hidden_delta_matches_the_formula_exactly() {
    // One downstream unit with weight 0.5 and delta 0.0625, own
    // activation 0.5: (0.0625*0.5) * (0.5*(1-0.5)) = 0.0078125.
    let me = unit_of(0.0, &[1.0]);
    let next = Layer::from_units(vec![unit_of(0.0, &[0.5])]);
    let d = me.compute_delta(
        fx(0.5),
        fx(0.0),
        0,
        &next,
        &fxv(&[0.0625]),
    );
    assert_eq!(d.raw(), 33554432); // 0.0078125 * 2^32
}

#[test]
fn apply_update_matches_the_formula_exactly() {
    // bias -= delta*lr, w[k] -= (delta*lr)*x[k], all on dyadic values.
    let mut u = unit_of(0.5, &[0.25, -0.5]);
    u.apply_update(fx(0.125), fx(0.5), &fxv(&[1.0, 0.5]));
    assert_eq!(u.bias().raw(), fx(0.4375).raw());
    assert_eq!(u.weight(0).raw(), fx(0.1875).raw());
    assert_eq!(u.weight(1).raw(), fx(-0.53125).raw());
}

#[test]
fn cycle_step_trains_and_wraps_the_cursor() {
    let mut src = WeightSource::from_seed(21);
    let mut net = Network::new(&vec![2, 3, 1], fx(0.5), &mut src);
    let inputs: Vec<Vec<Fx>> = vec![fxv(&[0.0, 0.0]), fxv(&[0.0, 1.0]), fxv(&[1.0, 0.0])];
    let targets: Vec<Vec<Fx>> = vec![fxv(&[0.0]), fxv(&[1.0]), fxv(&[1.0])];
    let before = params_of(&net);
    let mut index = 0;
    index = cycle_step(&mut net, &inputs, &targets, index);
    assert_eq!(index, 1);
    index = cycle_step(&mut net, &inputs, &targets, index);
    assert_eq!(index, 2);
    index = cycle_step(&mut net, &inputs, &targets, index);
    assert_eq!(index, 0);
    assert_ne!(params_of(&net), before);
}
