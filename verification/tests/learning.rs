//! Learning behaviour: cost, convergence on a fixed sample, gradient
//! correctness against finite differences, and the XOR-style scenario.

use backprop::fixed::Fx;
use backprop::layer::Layer;
use backprop::network::Network;
use backprop::rng::WeightSource;
use backprop::unit::Unit;

fn fx(v: f64) -> Fx {
    Fx::from_raw((v * 4294967296.0).round() as i64)
}

fn fxv(vs: &[f64]) -> Vec<Fx> {
    vs.iter().map(|&v| fx(v)).collect()
}

fn val(x: Fx) -> f64 {
    x.raw() as f64 / 4294967296.0
}

/// A fixed 2-2-1 network from nine explicit parameters:
/// `[b00, w000, w001, b01, w010, w011, b10, w100, w101]`.
fn build_221(p: &[f64; 9], lr: f64) -> Network {
    Network::from_parts(
        vec![
            Layer::from_units(vec![
                Unit::from_parts(fx(p[0]), fxv(&[p[1], p[2]])),
                Unit::from_parts(fx(p[3]), fxv(&[p[4], p[5]])),
            ]),
            Layer::from_units(vec![Unit::from_parts(fx(p[6]), fxv(&[p[7], p[8]]))]),
        ],
        fx(lr),
        2,
    )
}

/// Reads the nine parameters of a 2-2-1 network back out.
fn params_221(net: &Network) -> [f64; 9] {
    let mut out = [0.0f64; 9];
    let mut idx = 0;
    for l in 0..net.layer_count() {
        let layer = net.layer(l);
        for i in 0..layer.width() {
            let u = layer.unit(i);
            out[idx] = val(u.bias());
            idx += 1;
            for k in 0..u.weight_count() {
                out[idx] = val(u.weight(k));
                idx += 1;
            }
        }
    }
    out
}

#[test]
fn cost_of_a_neutral_unit_is_exact() {
    // Zero bias and weight leave the activation at exactly 0.5, and
    // against a target of 0 the cost is exactly 0.125.
    let net = Network::from_parts(
        vec![Layer::from_units(vec![Unit::from_parts(fx(0.0), fxv(&[0.0]))])],
        fx(0.5),
        1,
    );
    let c = net.cost(&fxv(&[1.0]), &fxv(&[0.0])).unwrap();
    assert_eq!(c.raw(), 536870912); // 0.125 * 2^32
}

#[test]
fn cost_decreases_monotonically_on_a_fixed_sample() {
    let mut src = WeightSource::from_seed(1);
    let mut net = Network::new(&vec![2, 2, 1], fx(0.5), &mut src);
    let input = fxv(&[1.0, 0.0]);
    let target = fxv(&[1.0]);
    let mut prev = val(net.cost(&input, &target).unwrap());
    let mut converged = false;
    for _ in 0..5000 {
        if prev < 1e-3 {
            converged = true;
            break;
        }
        net.train_step(&input, &target).unwrap();
        let next = val(net.cost(&input, &target).unwrap());
        assert!(next < prev, "cost rose from {} to {}", prev, next);
        prev = next;
    }
    assert!(converged, "cost still {} after 5000 steps", prev);
}

#[test]
fn analytic_gradient_matches_finite_differences() {
    let base: [f64; 9] = [0.1, 0.2, -0.3, -0.15, 0.4, 0.25, 0.05, 0.5, -0.45];
    let lr = 0.5;
    let input = fxv(&[0.35, 0.8]);
    let target = fxv(&[0.4]);
    let h = 1e-4;

    // Analytic gradient: what one train step subtracts, divided by the
    // learning rate.
    let mut net = build_221(&base, lr);
    net.train_step(&input, &target).unwrap();
    let after = params_221(&net);

    for i in 0..9 {
        let analytic = (base[i] - after[i]) / lr;

        let mut plus = base;
        plus[i] += h;
        let mut minus = base;
        minus[i] -= h;
        let c_plus = val(build_221(&plus, lr).cost(&input, &target).unwrap());
        let c_minus = val(build_221(&minus, lr).cost(&input, &target).unwrap());
        let numeric = (c_plus - c_minus) / (2.0 * h);

        assert!(
            (analytic - numeric).abs() < 1e-3,
            "parameter {}: analytic {} vs numeric {}",
            i,
            analytic,
            numeric
        );
    }
}

fn xor_max_error_after_training(seed: u64, cycles: usize) -> f64 {
    let mut src = WeightSource::from_seed(seed);
    let mut net = Network::new(&vec![2, 4, 1], fx(0.5), &mut src);
    let inputs: Vec<Vec<Fx>> = vec![
        fxv(&[0.0, 0.0]),
        fxv(&[0.0, 1.0]),
        fxv(&[1.0, 0.0]),
        fxv(&[1.0, 1.0]),
    ];
    let targets = [0.0f64, 1.0, 1.0, 0.0];
    for _ in 0..cycles {
        for s in 0..4 {
            net.train_step(&inputs[s], &fxv(&[targets[s]])).unwrap();
        }
    }
    let mut max_err = 0.0f64;
    for s in 0..4 {
        let acts = net.forward(&inputs[s]).unwrap();
        let out = val(acts.last().unwrap()[0]);
        let err = (out - targets[s]).abs();
        if err > max_err {
            max_err = err;
        }
    }
    max_err
}

#[test]
fn xor_style_network_converges() {
    let max_err = xor_max_error_after_training(3, 5000);
    assert!(max_err < 0.1, "worst output is {} away from its target", max_err);
}
