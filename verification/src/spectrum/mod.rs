//! The spectrum pipeline's bookkeeping: how transforms are identified, and
//! the ordered chain they run in.

pub mod chain;
pub mod generators;
pub mod slot;

pub use chain::{SpectrumTransform, Stage, TransformChain, TransformId};
