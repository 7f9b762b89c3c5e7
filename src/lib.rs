//! Layout-level core of a small neural-network substrate: tensor shapes and
//! gradient flags, composable layers that map an input layout to an output
//! layout and list the layouts of their trainable parameters, and the
//! flattening of a pipeline into a straight list of tensor operations.

pub mod laws;
pub mod nn;
pub mod plan;
pub mod tensor;

pub use nn::{Layer, Linear, Module, ReLU, Sequential};
pub use plan::Op;
pub use tensor::{ShapeError, TensorMeta};
