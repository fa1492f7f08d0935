//! A minimal feedforward neural-network inference engine.
//!
//! A network is an ordered list of layers: affine (dense) transforms and the
//! stateless activations sigmoid, softmax and tanh. Loading validates every
//! declared tensor shape; the forward pass folds an input vector through the
//! layers in order. Every float is carried as its binary32 bit pattern in a
//! `u32` (see [`bits`]); the host supplies the values of the transcendental
//! maps (`exp`, `tanh`), and everything else is computed and verified here.

use vstd::prelude::*;

pub mod bits;
pub mod infer;
pub mod layer;
pub mod network;
pub mod serial;

verus! {

/// What can go wrong inside the engine: a declared tensor shape that does not
/// match the data it is supposed to describe, be it at load time (a flat
/// weight list whose length is not `num_inputs * num_outputs`) or during the
/// forward pass (an input or host vector of the wrong length).
#[derive(Clone, Copy, Debug, PartialEq, Eq, Structural)]
pub enum NetError {
    ShapeMismatch,
}

} // verus!
