//! A small supervised-learning engine: a fully connected feed-forward
//! network trained by backpropagation with fixed-rate gradient descent.
//!
//! Every scalar is a fixed-point number (see [`fixed`]), so the whole
//! numeric core — forward activation, backward error propagation and the
//! parameter update — is executable, deterministic and verified against
//! exact specifications. The only trusted boundary is the seeded random
//! source in [`rng`] that draws the initial parameters.

pub mod driver;
pub mod error;
pub mod fixed;
pub mod layer;
pub mod network;
pub mod rng;
pub mod sigmoid;
pub mod unit;
