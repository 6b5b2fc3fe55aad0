//! The training driver: repeated single-sample train steps over a
//! fixed dataset, cycling through the samples. The caller performs
//! whatever pacing or reporting it wants between ticks; the decision of
//! what to train on next lives here.

use vstd::prelude::*;

use crate::fixed::Fx;
use crate::network::Network;
use crate::network::NetworkV;
use crate::network::net_trained;
use crate::network::net_wf;

verus! {

/// Every sample of the dataset fits the network: inputs as wide as the
/// network's input width, targets as wide as its output layer.
pub open spec fn dataset_fits(n: NetworkV, inputs: Seq<Seq<int>>, targets: Seq<Seq<int>>) -> bool {
    &&& inputs.len() == targets.len()
    &&& forall|i: int| 0 <= i < inputs.len() ==> (#[trigger] inputs[i]).len() == n.input_width
    &&& forall|i: int|
        0 <= i < targets.len() ==> (#[trigger] targets[i]).len() == n.layers.last().len()
}

/// One tick of the training driver: one train step on sample `index`,
/// after which the cursor advances to the next sample, cycling back to
/// the first past the last.
pub fn cycle_step(
    net: &mut Network,
    inputs: &Vec<Vec<Fx>>,
    targets: &Vec<Vec<Fx>>,
    index: usize,
) -> (next: usize)
    requires
        net_wf(old(net)@),
        dataset_fits(old(net)@, inputs.deep_view(), targets.deep_view()),
        index < inputs@.len(),
    ensures
        final(net)@ == net_trained(
            old(net)@,
            inputs.deep_view()[index as int],
            targets.deep_view()[index as int],
        ),
        net_wf(final(net)@),
        next as int == (index + 1) % (inputs@.len() as int),
        next < inputs@.len(),
{
    let count = inputs.len();
    proof {
        assert(inputs.deep_view()[index as int].len() == old(net)@.input_width);
        assert(targets.deep_view()[index as int].len() == old(net)@.layers.last().len());
    }
    let r = net.train_step(&inputs[index], &targets[index]);
    match r {
        Ok(_) => {},
        Err(_) => {
            // Unreachable: a fitting dataset rules both mismatches out.
            proof {
                assert(false);
            }
        },
    }
    let next = index + 1;
    if next == count {
        proof {
            vstd::arithmetic::div_mod::lemma_mod_self_0(inputs@.len() as int);
        }
        0
    } else {
        proof {
            vstd::arithmetic::div_mod::lemma_small_mod((index + 1) as nat, inputs@.len() as nat);
        }
        next
    }
}

} // verus!
