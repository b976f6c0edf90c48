//! The verified core of an image-transformation pipeline.
//!
//! A textual script is parsed into an ordered list of operations
//! ([`parser`]), each operation is applied uniformly to a static image or to
//! every frame of an animation ([`engine`]), composite operations resolve
//! their auxiliary resource once and share it across frames
//! ([`operations::speech`]), and a pipeline folds the operation list over an
//! image, stopping at the first failure ([`engine::run_pipeline`]). Pixel
//! kernels, decoding and parallel fan-out come from outside imaging
//! libraries through the narrow trusted boundary in [`wrapper`].

pub mod buffer;
pub mod engine;
pub mod errors;
pub mod image;
pub mod operations;
pub mod parser;
pub mod wrapper;
