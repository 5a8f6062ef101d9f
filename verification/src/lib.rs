//! A small directed graph of neurons and weighted connections, with a
//! one-pass feed-forward evaluation and a cosmetic animation of its state.
//!
//! The engine is generic over the scalar type `V` that stands for a real
//! number. It never computes with a scalar itself: every numeric step is a
//! function that the caller hands in, and each contract says which arguments
//! that function was given and where its result went.

pub mod kind;
pub mod animation;
pub mod forward;
pub mod model;
pub mod network;
pub mod sample;
pub mod snapshot;

pub use kind::NeuronKind;
pub use model::{Connection, NetworkState, NetworkStats, Neuron, OrbitSlot, Position, Term};
pub use network::NeuralNetwork;
